use rand::rngs::StdRng;
use rand::SeedableRng;
use shuffled_iter::iter::{ShuffleError, ShuffledIterGen};

#[test]
fn range_u8_full_coverage() {
    let mut rng = StdRng::seed_from_u64(1);
    let mut it = rng.iter_shuffled(10u8..20).unwrap();
    let mut seen = [false; 256];
    let mut count = 0usize;
    while let Some(v) = it.next() {
        assert!((10..20).contains(&v));
        assert!(!seen[v as usize]);
        seen[v as usize] = true;
        count += 1;
    }
    assert_eq!(count, 10);
}

#[test]
fn range_i32_negative_bounds() {
    let mut rng = StdRng::seed_from_u64(2);
    let mut it = rng.iter_shuffled(-5i32..5).unwrap();
    let mut seen = [false; 10];
    let mut count = 0usize;
    while let Some(v) = it.next() {
        assert!((-5..5).contains(&v));
        let slot = (v + 5) as usize;
        assert!(!seen[slot]);
        seen[slot] = true;
        count += 1;
    }
    assert_eq!(count, 10);
    assert!(seen.iter().all(|&b| b));
}

#[test]
fn range_u64_high_offset() {
    let mut rng = StdRng::seed_from_u64(3);
    let lo = u64::MAX - 10;
    let mut it = rng.iter_shuffled(lo..).unwrap();
    let mut seen = [false; 11];
    let mut count = 0usize;
    while let Some(v) = it.next() {
        assert!(v >= lo);
        let slot = (v - lo) as usize;
        assert!(!seen[slot]);
        seen[slot] = true;
        count += 1;
    }
    assert_eq!(count, 11);
}

#[test]
fn range_to_i16_from_minimum() {
    let mut rng = StdRng::seed_from_u64(4);
    let mut it = rng.iter_shuffled(..i16::MIN + 10).unwrap();
    let mut seen = [false; 10];
    let mut count = 0usize;
    while let Some(v) = it.next() {
        assert!(v < i16::MIN + 10);
        let slot = (v - i16::MIN) as usize;
        assert!(!seen[slot]);
        seen[slot] = true;
        count += 1;
    }
    assert_eq!(count, 10);
    assert!(seen.iter().all(|&b| b));
}

#[test]
fn range_isize_median() {
    let mut rng = StdRng::seed_from_u64(5);
    let median = isize::MIN / 2 + isize::MAX / 2;
    let mut it = rng.iter_shuffled(median - 5..median + 5).unwrap();
    let mut seen = [false; 10];
    let mut count = 0usize;
    while let Some(v) = it.next() {
        assert!(median - 5 <= v && v < median + 5);
        let slot = (v - (median - 5)) as usize;
        assert!(!seen[slot]);
        seen[slot] = true;
        count += 1;
    }
    assert_eq!(count, 10);
}

#[test]
fn range_usize_small() {
    let mut rng = StdRng::seed_from_u64(6);
    let mut it = rng.iter_shuffled(0usize..100).unwrap();
    let mut seen = [false; 100];
    let mut count = 0usize;
    while let Some(v) = it.next() {
        assert!(v < 100);
        assert!(!seen[v]);
        seen[v] = true;
        count += 1;
    }
    assert_eq!(count, 100);
    assert!(seen.iter().all(|&b| b));
}

#[test]
fn slice_each_element_once() {
    let mut rng = StdRng::seed_from_u64(7);
    let values: Vec<u32> = (0..50).map(|i| i * 3).collect();
    let mut it = rng.iter_shuffled(&values[..]).unwrap();
    let mut seen = [false; 50];
    let mut count = 0usize;
    while let Some(v) = it.next() {
        let slot = (*v / 3) as usize;
        assert!(!seen[slot]);
        seen[slot] = true;
        count += 1;
    }
    assert_eq!(count, 50);
    assert!(seen.iter().all(|&b| b));
}

#[test]
fn slice_with_duplicate_values() {
    let mut rng = StdRng::seed_from_u64(8);
    let values = [7u8, 7, 7, 9];
    let mut it = rng.iter_shuffled(&values[..]).unwrap();
    let mut sevens = 0usize;
    let mut nines = 0usize;
    while let Some(v) = it.next() {
        match *v {
            7 => sevens += 1,
            9 => nines += 1,
            _ => panic!("value not in the slice"),
        }
    }
    assert_eq!(sevens, 3);
    assert_eq!(nines, 1);
}

#[test]
fn empty_range_is_invalid() {
    let mut rng = StdRng::seed_from_u64(9);
    let r = rng.iter_shuffled(5i32..5);
    assert!(r.is_err());
    assert_eq!(r.err().unwrap(), ShuffleError::InvalidRange);

    let r = rng.iter_shuffled(9u64..3);
    assert_eq!(r.err().unwrap(), ShuffleError::InvalidRange);

    let r = rng.iter_shuffled(..0u16);
    assert_eq!(r.err().unwrap(), ShuffleError::InvalidRange);

    let r = rng.iter_shuffled(..i8::MIN);
    assert_eq!(r.err().unwrap(), ShuffleError::InvalidRange);
}

#[test]
fn oversized_range_is_too_large() {
    let mut rng = StdRng::seed_from_u64(10);
    let r = rng.iter_shuffled(0u64..0x1_0000_0002);
    assert_eq!(r.err().unwrap(), ShuffleError::RangeTooLarge);

    let r = rng.iter_shuffled(0i64..);
    assert_eq!(r.err().unwrap(), ShuffleError::RangeTooLarge);

    // the largest range that still fits is accepted
    let r = rng.iter_shuffled(0u64..0x1_0000_0000);
    assert!(r.is_ok());
}

#[test]
fn empty_slice_is_rejected() {
    let mut rng = StdRng::seed_from_u64(11);
    let values: [u32; 0] = [];
    let r = rng.iter_shuffled(&values[..]);
    assert_eq!(r.err().unwrap(), ShuffleError::EmptySequence);
}

#[test]
fn oversized_slice_is_rejected() {
    let mut rng = StdRng::seed_from_u64(12);
    // a slice of unit values occupies no memory, whatever its length
    let values = vec![(); 0x1_0000_0001];
    let r = rng.iter_shuffled(&values[..]);
    assert_eq!(r.err().unwrap(), ShuffleError::SequenceTooLarge);
}

#[test]
fn range_determinism_with_fixed_seed() {
    let mut rng1 = StdRng::seed_from_u64(99);
    let mut rng2 = StdRng::seed_from_u64(99);
    let mut it1 = rng1.iter_shuffled(0u32..512).unwrap();
    let mut it2 = rng2.iter_shuffled(0u32..512).unwrap();
    loop {
        let a = it1.next();
        let b = it2.next();
        assert_eq!(a, b);
        if a.is_none() {
            break;
        }
    }
}
