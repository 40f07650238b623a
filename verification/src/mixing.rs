//! The mathematics of the engine's mixing function.
//!
//! Everything here is proof machinery for one fact: for odd `f1`, `f2`
//! and a mask of shape `2^b - 1`, the map `j |-> calc(index + j)` hits
//! every value of `{0, ..., mask}` exactly once while `j` runs over one
//! window of `mask + 1` consecutive steps. Injectivity and surjectivity
//! are both obtained from an explicit inverse of the mixing pipeline,
//! built from the multiplicative inverses of `f1` and `f2` modulo
//! `mask + 1`.

use vstd::prelude::*;
use vstd::arithmetic::power2::{
    pow2,
    lemma2_to64,
    lemma_pow2_adds,
    lemma_pow2_unfold,
    lemma_pow2_pos,
    lemma_pow2_strictly_increases,
};
use vstd::arithmetic::div_mod::{
    lemma_small_mod,
    lemma_mod_mod,
    lemma_mul_mod_noop_left,
    lemma_mul_mod_noop_right,
    lemma_add_mod_noop,
    lemma_add_mod_noop_right,
    lemma_sub_mod_noop,
    lemma_mod_multiples_vanish,
    lemma_fundamental_div_mod,
};
use vstd::arithmetic::mul::{
    lemma_mul_is_associative,
    lemma_mul_is_distributive_add,
    lemma_mul_is_commutative,
};
use vstd::bits::{low_bits_mask, lemma_u32_low_bits_mask_is_mod};
use crate::{ShuffledIter, mul32, add32, is_mask};
use vstd::relations::injective_on;

verus! {

/// Every odd number has a multiplicative inverse modulo `2^b`.
proof fn lemma_odd_inverse(f: int, b: nat)
    requires
        f % 2 == 1,
        1 <= b,
    ensures
        exists|g: int| 0 <= g < pow2(b) && #[trigger] ((f * g) % (pow2(b) as int)) == 1,
    decreases b,
{
    lemma_pow2_pos(b);
    if b == 1 {
        assert(pow2(1) == 2) by {
            lemma2_to64();
        }
        assert((f * 1) % (pow2(1) as int) == 1);
    } else {
        lemma_odd_inverse(f, (b - 1) as nat);
        let g = choose|g: int|
            0 <= g < pow2((b - 1) as nat) && #[trigger] ((f * g) % (pow2((b - 1) as nat) as int))
                == 1;
        let n = pow2((b - 1) as nat) as int;
        let n2 = pow2(b) as int;
        lemma_pow2_unfold(b);
        lemma_pow2_pos((b - 1) as nat);
        assert(n2 == 2 * n);
        let r = (f * g) % n2;
        assert(r % n == 1) by {
            lemma_mod_mod(f * g, n, 2);
        }
        vstd::arithmetic::div_mod::lemma_mod_bound(f * g, n2);
        assert(n >= 2) by {
            lemma_pow2_strictly_increases(0, (b - 1) as nat);
            lemma2_to64();
        }
        if r < n {
            lemma_small_mod(r as nat, n as nat);
            assert((f * g) % (pow2(b) as int) == 1);
        } else {
            // r is n + 1; shift the inverse by n to cancel the extra n.
            assert(r == n + 1) by {
                vstd::arithmetic::div_mod::lemma_mod_self_0(n);
                lemma_sub_mod_noop(r, n, n);
                lemma_small_mod(1nat, n as nat);
                lemma_small_mod((r - n) as nat, n as nat);
            }
            let g2 = g + n;
            let k = f / 2;
            lemma_fundamental_div_mod(f, 2);
            assert(f == 2 * k + 1);
            assert(f * g2 == f * g + f * n) by {
                lemma_mul_is_distributive_add(f, g, n);
            }
            assert(f * n == k * n2 + n) by {
                lemma_mul_is_distributive_add(n, 2 * k, 1);
                assert(n * (2 * k) == k * n2) by (nonlinear_arith)
                    requires
                        n2 == 2 * n,
                ;
                lemma_mul_is_commutative(n, f);
            }
            assert((f * n) % n2 == n) by {
                lemma_mod_multiples_vanish(k, n, n2);
                lemma_small_mod(n as nat, n2 as nat);
            }
            assert((f * g2) % n2 == 1) by {
                lemma_add_mod_noop(f * g, f * n, n2);
                assert((r + n) % n2 == 1) by {
                    lemma_mod_multiples_vanish(1, 1, n2);
                    lemma_small_mod(1nat, n2 as nat);
                }
            }
            assert(0 <= g2 < pow2(b) && (f * g2) % (pow2(b) as int) == 1);
        }
    }
}

/// Masking with a power-of-two mask is reduction modulo `mask + 1`.
proof fn lemma_mask_is_mod(x: u32, mask: u32)
    requires
        is_mask(mask),
    ensures
        (x & mask) as int == x as int % (mask as int + 1),
{
    let b = choose|b: nat| b <= 32 && mask + 1 == pow2(b);
    lemma2_to64();
    if b < 32 {
        lemma_u32_low_bits_mask_is_mod(x, b);
        assert(low_bits_mask(b) == mask as nat);
    } else {
        assert(mask == 0xffff_ffffu32);
        assert(x & 0xffff_ffffu32 == x) by (bit_vector);
        lemma_small_mod(x as nat, 0x1_0000_0000nat);
    }
}

/// `2^32` is a multiple of `mask + 1`, so reducing a wrapped 32-bit
/// product by the mask is multiplication modulo `mask + 1`.
proof fn lemma_mul32_mask(a: u32, f: u32, mask: u32)
    requires
        is_mask(mask),
    ensures
        (mul32(a, f) & mask) as int == (a as int * f as int) % (mask as int + 1),
{
    let b = choose|b: nat| b <= 32 && mask + 1 == pow2(b);
    let n = mask as int + 1;
    lemma_mask_is_mod(mul32(a, f), mask);
    lemma_pow2_adds(b, (32 - b) as nat);
    lemma2_to64();
    lemma_pow2_pos((32 - b) as nat);
    assert(0x1_0000_0000 == n * (pow2((32 - b) as nat) as int));
    lemma_mod_mod(a as int * f as int, n, pow2((32 - b) as nat) as int);
}

/// Likewise for the walk: the masked position `j` steps past `i0` is
/// `(i0 + j) % (mask + 1)`.
proof fn lemma_window_residue(i0: u32, j: int, mask: u32)
    requires
        is_mask(mask),
        0 <= j,
    ensures
        (add32(i0, j) & mask) as int == (i0 + j) % (mask as int + 1),
{
    let b = choose|b: nat| b <= 32 && mask + 1 == pow2(b);
    let n = mask as int + 1;
    lemma_mask_is_mod(add32(i0, j), mask);
    lemma_pow2_adds(b, (32 - b) as nat);
    lemma2_to64();
    lemma_pow2_pos((32 - b) as nat);
    assert(0x1_0000_0000 == n * (pow2((32 - b) as nat) as int));
    lemma_mod_mod(i0 + j, n, pow2((32 - b) as nat) as int);
}

/// One masked multiplication step of the pipeline.
pub open spec fn mull(a: u32, f: u32, mask: u32) -> u32 {
    mul32(a, f) & mask
}

/// The mixing function restricted to the mask domain: the same pipeline
/// as `calc`, with every step reduced modulo `mask + 1`.
pub open spec fn mix_low(s: ShuffledIter, w: u32) -> u32 {
    mull(mull(w, s.f1, s.mask) ^ (s.x1 & s.mask), s.f2, s.mask) ^ (s.x2 & s.mask)
}

/// The explicit inverse of `mix_low`, given inverses `g1`, `g2` of the
/// two multipliers.
pub open spec fn unmix_low(s: ShuffledIter, y: u32, g1: u32, g2: u32) -> u32 {
    mull(mull(y ^ (s.x2 & s.mask), g2, s.mask) ^ (s.x1 & s.mask), g1, s.mask)
}

/// `g` undoes multiplication by `f` modulo `mask + 1`.
pub open spec fn inv_pair(f: u32, g: u32, mask: u32) -> bool {
    (f as int * g as int) % (mask as int + 1) == 1
}

/// Xor distributes over the mask, and a xor of masked values is masked.
proof fn lemma_xor_distributes(a: u32, x: u32, m: u32)
    ensures
        (a ^ x) & m == (a & m) ^ (x & m),
        ((a & m) ^ (x & m)) & m == (a & m) ^ (x & m),
{
    assert((a ^ x) & m == (a & m) ^ (x & m)) by (bit_vector);
    assert(((a & m) ^ (x & m)) & m == (a & m) ^ (x & m)) by (bit_vector);
}

/// `mul32` followed by masking only depends on the masked argument.
proof fn lemma_mul32_respects_mask(a1: u32, a2: u32, f: u32, mask: u32)
    requires
        is_mask(mask),
        a1 & mask == a2 & mask,
    ensures
        mul32(a1, f) & mask == mul32(a2, f) & mask,
{
    let n = mask as int + 1;
    lemma_mul32_mask(a1, f, mask);
    lemma_mul32_mask(a2, f, mask);
    lemma_mask_is_mod(a1, mask);
    lemma_mask_is_mod(a2, mask);
    lemma_mul_mod_noop_left(a1 as int, f as int, n);
    lemma_mul_mod_noop_left(a2 as int, f as int, n);
}

/// `calc` equals the mask-domain pipeline applied to the masked input.
pub proof fn lemma_calc_is_low(s: ShuffledIter, v: u32)
    requires
        is_mask(s.mask),
    ensures
        s.calc_spec(v) == mix_low(s, v & s.mask),
{
    let mask = s.mask;
    let w = v & mask;
    assert((v & mask) & mask == v & mask) by (bit_vector);
    lemma_mul32_respects_mask(v, w, s.f1, mask);
    let a1 = mul32(v, s.f1);
    let c1 = a1 ^ s.x1;
    let c2 = mull(w, s.f1, mask) ^ (s.x1 & mask);
    lemma_xor_distributes(a1, s.x1, mask);
    assert(c1 & mask == c2);
    assert(c2 & mask == c2) by {
        lemma_xor_distributes(mul32(w, s.f1), s.x1, mask);
    }
    lemma_mul32_respects_mask(c1, c2, s.f2, mask);
    lemma_xor_distributes(mul32(c1, s.f2), s.x2, mask);
    lemma_xor_distributes(mul32(c2, s.f2), s.x2, mask);
}

/// Multiplying by `f` and then by its inverse `g`, both modulo
/// `mask + 1`, returns any masked value unchanged.
proof fn lemma_mull_cancel(w: u32, f: u32, g: u32, mask: u32)
    requires
        is_mask(mask),
        w <= mask,
        inv_pair(f, g, mask),
    ensures
        mull(mull(w, f, mask), g, mask) == w,
{
    let n = mask as int + 1;
    let a = mull(w, f, mask);
    lemma_mul32_mask(w, f, mask);
    lemma_mul32_mask(a, g, mask);
    assert((a as int * g as int) % n == (w as int * f as int * g as int) % n) by {
        lemma_mul_mod_noop_left(w as int * f as int, g as int, n);
    }
    assert(w as int * f as int * g as int == w as int * (f as int * g as int)) by {
        lemma_mul_is_associative(w as int, f as int, g as int);
    }
    assert((w as int * (f as int * g as int)) % n == (w as int * 1) % n) by {
        lemma_mul_mod_noop_right(w as int, f as int * g as int, n);
        lemma_mul_mod_noop_right(w as int, 1, n);
        lemma_small_mod(1nat, n as nat);
    }
    lemma_small_mod(w as nat, n as nat);
}

/// A masked value is idempotent under the mask and stays below it.
proof fn lemma_and_idem(x: u32, m: u32)
    ensures
        (x & m) & m == x & m,
        x & m <= m,
{
    assert((x & m) & m == x & m && x & m <= m) by (bit_vector);
}

/// The inverse pipeline undoes the pipeline on the mask domain.
proof fn lemma_unmix_mix(s: ShuffledIter, w: u32, g1: u32, g2: u32)
    requires
        s.wf(),
        w <= s.mask,
        inv_pair(s.f1, g1, s.mask),
        inv_pair(s.f2, g2, s.mask),
    ensures
        unmix_low(s, mix_low(s, w), g1, g2) == w,
{
    let mask = s.mask;
    let x1m = s.x1 & mask;
    let x2m = s.x2 & mask;
    lemma_and_idem(s.x1, mask);
    lemma_and_idem(s.x2, mask);
    let a = mull(w, s.f1, mask);
    lemma_and_idem(mul32(w, s.f1), mask);
    let q = a ^ x1m;
    assert(q & mask == q && q <= mask) by (bit_vector)
        requires
            q == a ^ x1m,
            a & mask == a,
            x1m & mask == x1m,
    ;
    let p = mull(q, s.f2, mask);
    let y = p ^ x2m;
    assert(mix_low(s, w) == y);
    assert(y ^ x2m == p) by (bit_vector)
        requires
            y == p ^ x2m,
    ;
    lemma_mull_cancel(q, s.f2, g2, mask);
    assert(mull(p, g2, mask) == q);
    assert(q ^ x1m == a) by (bit_vector)
        requires
            q == a ^ x1m,
    ;
    lemma_mull_cancel(w, s.f1, g1, mask);
    assert(mull(a, g1, mask) == w);
    assert(unmix_low(s, y, g1, g2) == w);
}

/// The pipeline maps the inverse pipeline's output back to any masked
/// value: surjectivity witness.
proof fn lemma_mix_unmix(s: ShuffledIter, y: u32, g1: u32, g2: u32)
    requires
        s.wf(),
        y <= s.mask,
        inv_pair(s.f1, g1, s.mask),
        inv_pair(s.f2, g2, s.mask),
    ensures
        mix_low(s, unmix_low(s, y, g1, g2)) == y,
{
    let mask = s.mask;
    let n = mask as int + 1;
    let x1m = s.x1 & mask;
    let x2m = s.x2 & mask;
    lemma_and_idem(s.x1, mask);
    lemma_and_idem(s.x2, mask);
    lemma_mask_is_mod(y, mask);
    lemma_small_mod(y as nat, n as nat);
    assert(y & mask == y);
    let e = y ^ x2m;
    assert(e & mask == e && e <= mask) by (bit_vector)
        requires
            e == y ^ x2m,
            y & mask == y,
            x2m & mask == x2m,
    ;
    let t = mull(e, g2, mask);
    lemma_and_idem(mul32(e, g2), mask);
    let u = t ^ x1m;
    assert(u & mask == u && u <= mask) by (bit_vector)
        requires
            u == t ^ x1m,
            t & mask == t,
            x1m & mask == x1m,
    ;
    let w = mull(u, g1, mask);
    assert(unmix_low(s, y, g1, g2) == w);
    // inv_pair is symmetric in f and g.
    assert(inv_pair(g1, s.f1, mask)) by {
        lemma_mul_is_commutative(s.f1 as int, g1 as int);
    }
    assert(inv_pair(g2, s.f2, mask)) by {
        lemma_mul_is_commutative(s.f2 as int, g2 as int);
    }
    lemma_mull_cancel(u, g1, s.f1, mask);
    assert(mull(w, s.f1, mask) == u);
    assert(u ^ x1m == t) by (bit_vector)
        requires
            u == t ^ x1m,
    ;
    lemma_mull_cancel(e, g2, s.f2, mask);
    assert(mull(t, s.f2, mask) == e);
    assert(e ^ x2m == y) by (bit_vector)
        requires
            e == y ^ x2m,
    ;
    assert(mix_low(s, w) == y);
}

/// The two odd multipliers of a well-formed engine have inverses that
/// fit in 32 bits.
proof fn lemma_inverses_exist(s: ShuffledIter)
    requires
        s.wf(),
        s.mask >= 1,
    ensures
        exists|g: u32| #[trigger] inv_pair(s.f1, g, s.mask),
        exists|g: u32| #[trigger] inv_pair(s.f2, g, s.mask),
{
    let b = choose|b: nat| b <= 32 && s.mask + 1 == pow2(b);
    lemma2_to64();
    assert(b >= 1) by {
        if b == 0 {
            assert(s.mask == 0);
        }
    }
    assert(pow2(b) <= 0x1_0000_0000) by {
        if b < 32 {
            lemma_pow2_strictly_increases(b, 32);
        }
    }
    lemma_odd_inverse(s.f1 as int, b);
    let g1 = choose|g: int| 0 <= g < pow2(b) && #[trigger] ((s.f1 as int * g) % (pow2(b) as int))
        == 1;
    assert(inv_pair(s.f1, g1 as u32, s.mask));
    lemma_odd_inverse(s.f2 as int, b);
    let g2 = choose|g: int| 0 <= g < pow2(b) && #[trigger] ((s.f2 as int * g) % (pow2(b) as int))
        == 1;
    assert(inv_pair(s.f2, g2 as u32, s.mask));
}

/// Distinct steps within one window land on distinct outputs: the walk
/// never repeats a value before the window is exhausted.
pub proof fn lemma_window_injective(s: ShuffledIter, i0: u32, j1: int, j2: int)
    requires
        s.wf(),
        1 <= j1 <= s.mask + 1,
        1 <= j2 <= s.mask + 1,
        j1 != j2,
    ensures
        s.calc_spec(add32(i0, j1)) != s.calc_spec(add32(i0, j2)),
{
    let mask = s.mask;
    let n = mask as int + 1;
    if mask == 0 {
        assert(false);
    } else {
        let w1 = add32(i0, j1) & mask;
        let w2 = add32(i0, j2) & mask;
        lemma_window_residue(i0, j1, mask);
        lemma_window_residue(i0, j2, mask);
        assert(w1 != w2) by {
            if w1 == w2 {
                lemma_sub_mod_noop(i0 + j1, i0 + j2, n);
                assert((j1 - j2) % n == 0) by {
                    lemma_small_mod(0nat, n as nat);
                    assert(((i0 + j1) % n - (i0 + j2) % n) % n == (i0 + j1 - (i0 + j2)) % n);
                    assert((i0 + j1 - (i0 + j2)) % n == 0);
                }
                if j1 > j2 {
                    lemma_small_mod((j1 - j2) as nat, n as nat);
                } else {
                    lemma_mod_multiples_vanish(1, j1 - j2, n);
                    lemma_small_mod((j1 - j2 + n) as nat, n as nat);
                }
            }
        }
        lemma_calc_is_low(s, add32(i0, j1));
        lemma_calc_is_low(s, add32(i0, j2));
        lemma_inverses_exist(s);
        let g1 = choose|g: u32| #[trigger] inv_pair(s.f1, g, mask);
        let g2 = choose|g: u32| #[trigger] inv_pair(s.f2, g, mask);
        lemma_and_idem(add32(i0, j1), mask);
        lemma_and_idem(add32(i0, j2), mask);
        lemma_unmix_mix(s, w1, g1, g2);
        lemma_unmix_mix(s, w2, g1, g2);
    }
}

/// Every value of the mask domain is reached within one window of
/// `mask + 1` consecutive steps, from any starting point.
pub proof fn lemma_window_covers(s: ShuffledIter, i0: u32, v: u32)
    requires
        s.wf(),
        v <= s.mask,
    ensures
        exists|j: int| 1 <= j <= s.mask + 1 && #[trigger] s.calc_spec(add32(i0, j)) == v,
{
    let mask = s.mask;
    let n = mask as int + 1;
    if mask == 0 {
        lemma_calc_is_low(s, add32(i0, 1));
        assert(mull(mull(add32(i0, 1) & 0, s.f1, 0) ^ (s.x1 & 0), s.f2, 0) ^ (s.x2 & 0) == 0)
            by (bit_vector);
        assert(s.calc_spec(add32(i0, 1)) == v);
        assert(1 <= 1 <= s.mask + 1 && s.calc_spec(add32(i0, 1)) == v);
    } else {
        lemma_inverses_exist(s);
        let g1 = choose|g: u32| #[trigger] inv_pair(s.f1, g, mask);
        let g2 = choose|g: u32| #[trigger] inv_pair(s.f2, g, mask);
        let w = unmix_low(s, v, g1, g2);
        lemma_mix_unmix(s, v, g1, g2);
        lemma_and_idem(mul32(mull(v ^ (s.x2 & mask), g2, mask) ^ (s.x1 & mask), g1), mask);
        assert(w <= mask);
        let j = ((w - i0 - 1) % n) + 1;
        assert(1 <= j <= n);
        assert((i0 + j) % n == w as int) by {
            lemma_add_mod_noop_right(i0 + 1, w - i0 - 1, n);
            lemma_small_mod(w as nat, n as nat);
        }
        lemma_window_residue(i0, j, mask);
        lemma_calc_is_low(s, add32(i0, j));
        assert(1 <= j <= s.mask + 1 && s.calc_spec(add32(i0, j)) == v);
    }
}

/// The positions after offset `p` in one window whose mixed value falls
/// inside the engine's output domain `{0, ..., max}`.
pub open spec fn hits(s: ShuffledIter, i0: u32, p: int) -> Set<int> {
    Set::new(|j: int| p < j <= s.mask + 1 && s.calc_spec(add32(i0, j)) <= s.max)
}

/// The hit set is finite and no larger than the window.
pub proof fn lemma_hits_finite(s: ShuffledIter, i0: u32, p: int)
    ensures
        hits(s, i0, p).finite(),
        hits(s, i0, p).len() <= if p <= s.mask + 1 {
            s.mask + 1 - p
        } else {
            0
        },
{
    let lo = if p <= s.mask + 1 {
        p + 1
    } else {
        s.mask + 2
    };
    vstd::set_lib::lemma_int_range(lo, s.mask + 2);
    vstd::set_lib::lemma_len_subset(hits(s, i0, p), vstd::set_lib::set_int_range(lo, s.mask + 2));
}

/// A full window holds at least `max + 1` hits: one for each value of
/// the output domain.
pub proof fn lemma_full_window_hits(s: ShuffledIter, i0: u32)
    requires
        s.wf(),
    ensures
        hits(s, i0, 0).len() >= s.max + 1,
{
    let f = |vi: int|
        choose|j: int| 1 <= j <= s.mask + 1 && #[trigger] s.calc_spec(add32(i0, j)) == vi as u32;
    let x = vstd::set_lib::set_int_range(0, s.max + 1);
    assert forall|vi: int| x.contains(vi) implies 1 <= #[trigger] f(vi) <= s.mask + 1
        && s.calc_spec(add32(i0, f(vi))) == vi as u32 by {
        lemma_window_covers(s, i0, vi as u32);
    }
    assert(injective_on(f, x)) by {
        assert forall|v1: int, v2: int|
            x.contains(v1) && x.contains(v2) && #[trigger] f(v1) == #[trigger] f(v2) implies v1
            == v2 by {
            assert(s.calc_spec(add32(i0, f(v1))) == v1 as u32);
            assert(s.calc_spec(add32(i0, f(v2))) == v2 as u32);
        }
    }
    let y = x.map(f);
    vstd::set_lib::lemma_int_range(0, s.max + 1);
    vstd::set_lib::lemma_map_size(x, y, f);
    assert(y.subset_of(hits(s, i0, 0))) by {
        assert forall|j: int| y.contains(j) implies hits(s, i0, 0).contains(j) by {
            let vi = choose|vi: int| x.contains(vi) && f(vi) == j;
            assert(x.contains(vi) && f(vi) == j);
            assert(s.calc_spec(add32(i0, j)) == vi as u32);
            assert(vi as u32 <= s.max);
        }
    }
    lemma_hits_finite(s, i0, 0);
    vstd::set_lib::lemma_len_subset(y, hits(s, i0, 0));
}

} // verus!
