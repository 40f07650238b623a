use bit_vec::BitVec;
use rand::rngs::StdRng;
use rand::SeedableRng;
use shuffled_iter::{gen_factor, shl_ignore, w32, ShuffledIter};

#[test]
fn gen_1_1024() {
    let mut rng = StdRng::seed_from_u64(0);

    for i in 0u32..1025 {
        let mut bv = BitVec::from_elem(i as usize + 1, false);

        let mut it = ShuffledIter::new(i, &mut rng);

        while let Some(j) = it.next() {
            assert!(bv.get(j as usize) == Some(false));
            bv.set(j as usize, true);
        }

        assert!(bv.all());
    }
}

#[test]
fn max_u32_max() {
    let mut rng = StdRng::seed_from_u64(0);

    let mut it = ShuffledIter::new(u32::MAX, &mut rng);

    for _ in 0..10 {
        assert!(it.next().is_some());
    }

    it.count = u32::MAX - 9;
    // 10 values should now remain: u32::MAX emissions in all, minus the
    // count that the engine believes it has already produced.

    for _ in 0..10 {
        assert!(it.next().is_some());
    }

    assert!(it.next().is_none());
}

#[test]
fn cardinality_matches_max_plus_one() {
    let mut rng = StdRng::seed_from_u64(7);

    for max in [0u32, 1, 2, 3, 31, 32, 100, 1024] {
        let mut it = ShuffledIter::new(max, &mut rng);
        let mut count = 0u64;
        while it.next().is_some() {
            count += 1;
        }
        assert_eq!(count, max as u64 + 1);
        assert!(it.next().is_none());
        assert!(it.next().is_none());
    }
}

#[test]
fn single_element_domain() {
    let mut rng = StdRng::seed_from_u64(3);
    let mut it = ShuffledIter::new(0, &mut rng);
    assert_eq!(it.next(), Some(0));
    assert_eq!(it.next(), None);
}

#[test]
fn deterministic_with_fixed_seed() {
    let mut rng1 = StdRng::seed_from_u64(42);
    let mut rng2 = StdRng::seed_from_u64(42);

    let mut it1 = ShuffledIter::new(1000, &mut rng1);
    let mut it2 = ShuffledIter::new(1000, &mut rng2);

    loop {
        let a = it1.next();
        let b = it2.next();
        assert_eq!(a, b);
        if a.is_none() {
            break;
        }
    }
}

#[test]
fn calc_exact_value() {
    let it = ShuffledIter {
        max: 15,
        mask: 15,
        index: 0,
        count: 0,
        f1: 3,
        f2: 7,
        x1: 5,
        x2: 9,
        done: false,
    };
    // ((((2 * 3) ^ 5) * 7) ^ 9) & 15 == ((3 * 7) ^ 9) & 15 == 28 & 15
    assert_eq!(it.calc(2), 12);
    // the pipeline wraps modulo 2^32 before masking
    let big = ShuffledIter {
        max: u32::MAX,
        mask: u32::MAX,
        index: 0,
        count: 0,
        f1: 0x8000_0001,
        f2: 1,
        x1: 0,
        x2: 0,
        done: false,
    };
    // 2 * 0x8000_0001 == 0x1_0000_0002, kept modulo 2^32
    assert_eq!(big.calc(2), 2);
}

#[test]
fn helper_exact_values() {
    assert_eq!(w32(0x1_2345_6789), 0x2345_6789);
    assert_eq!(w32(42), 42);
    assert_eq!(shl_ignore(1, 4), 16);
    assert_eq!(shl_ignore(1, 32), 0);
    assert_eq!(shl_ignore(0xffff_ffff, 40), 0);
    assert_eq!(gen_factor(6), 13);
    assert_eq!(gen_factor(0), 1);
    assert_eq!(gen_factor(u32::MAX), u32::MAX);
}

#[test]
fn next_value_stays_in_domain() {
    let mut rng = StdRng::seed_from_u64(11);
    for max in [5u32, 200, 1023] {
        let mut it = ShuffledIter::new(max, &mut rng);
        while let Some(v) = it.next() {
            assert!(v <= max);
        }
    }
}
