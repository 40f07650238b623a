//! Iterate over a group of integers, or the elements of a slice, in
//! pseudo-random order, without allocating and shuffling them all.
//!
//! The heart of the crate is [`ShuffledIter`], a stateful generator that
//! yields every integer in `{0, ..., max}` exactly once, in pseudo-random
//! order, using a reversible mixing function over the smallest
//! power-of-two domain containing `max + 1` and skipping the outputs that
//! fall outside the requested range.
//!
//! No guarantees are made about the quality of the randomization, nor is
//! the algorithm guaranteed to remain unchanged between versions.

use vstd::prelude::*;
use vstd::arithmetic::power2::pow2;
use vstd::arithmetic::div_mod::lemma_small_mod;

pub mod iter;
pub use iter::ShuffledIterGen;
pub mod mixing;

verus! {

/// Reduce a 64-bit intermediate to its value modulo `2^32`: the 32-bit
/// wrapping world in which the whole engine computes.
pub fn w32(u: u64) -> (r: u32)
    ensures
        r == u % 0x1_0000_0000u64,
{
    (u % 0x1_0000_0000u64) as u32
}

/// Left shift that yields 0, instead of a fault, once the shift amount
/// reaches the width of the type.
pub fn shl_ignore(slf: u32, rhs: u32) -> (r: u32)
    ensures
        r == if rhs >= 32 { 0u32 } else { slf << rhs },
{
    if rhs >= 32 { 0 } else { slf << rhs }
}

/// Multiplication modulo `2^32`, the spec-level twin of 32-bit wrapping
/// multiplication.
pub open spec fn mul32(a: u32, b: u32) -> u32 {
    ((a * b) % 0x1_0000_0000) as u32
}

/// `a` advanced by `d` steps, wrapping modulo `2^32`.
pub open spec fn add32(a: u32, d: int) -> u32 {
    ((a + d) % 0x1_0000_0000) as u32
}

/// Holds when `mask + 1` is a power of two, i.e. when `mask` has the shape
/// `2^b - 1` for some `b <= 32`.
pub open spec fn is_mask(mask: u32) -> bool {
    exists|b: nat| b <= 32 && mask + 1 == pow2(b)
}

/// The actual iterator which iterates over, in random order, all `u32`s
/// smaller than or equal to a given maximum value.
///
/// An instance may be obtained via [`ShuffledIter::new`] or the
/// `ShuffledIterGen` trait.
#[derive(Copy, Clone, Debug)]
pub struct ShuffledIter {
    /// Inclusive upper bound of the output domain; fixed at construction.
    pub max: u32,
    /// `2^b - 1`, the smallest mask of that shape with `mask >= max`.
    pub mask: u32,
    /// Current position of the bijective walk over `{0, ..., mask}`.
    pub index: u32,
    /// Number of values already emitted (wrapping bookkeeping; see `next`).
    pub count: u32,
    /// First odd multiplier of the mixing function.
    pub f1: u32,
    /// Second odd multiplier of the mixing function.
    pub f2: u32,
    /// First xor operand of the mixing function.
    pub x1: u32,
    /// Second xor operand of the mixing function.
    pub x2: u32,
    /// True once the terminal element has been emitted.
    pub done: bool,
}

impl ShuffledIter {
    /// What `calc` returns: the mixing function
    /// `((((v * f1) ^ x1) * f2) ^ x2) & mask`, every step modulo `2^32`.
    pub open spec fn calc_spec(self, v: u32) -> u32 {
        (mul32(mul32(v, self.f1) ^ self.x1, self.f2) ^ self.x2) & self.mask
    }

    /// Well-formedness: the multipliers are odd (hence invertible modulo
    /// any power of two) and the mask is a power-of-two mask covering the
    /// output domain. Constructors establish this; `next` preserves it.
    pub open spec fn wf(self) -> bool {
        &&& self.max <= self.mask
        &&& is_mask(self.mask)
        &&& self.f1 % 2 == 1
        &&& self.f2 % 2 == 1
    }

    /// The mixing step: a bijection on `{0, ..., mask}` for any fixed odd
    /// `f1`, `f2` (see `mixing::lemma_window_injective` and
    /// `mixing::lemma_window_covers`).
    pub fn calc(&self, val: u32) -> (r: u32)
        ensures
            r == self.calc_spec(val),
    {
        proof {
            lemma_u32_mul_fits(val, self.f1);
        }
        let a = w32((val as u64) * (self.f1 as u64));
        let b = a ^ self.x1;
        proof {
            lemma_u32_mul_fits(b, self.f2);
        }
        let c = w32((b as u64) * (self.f2 as u64));
        (c ^ self.x2) & self.mask
    }

    /// `d` is the distance, from the current index, of the first probe
    /// ahead whose mixed value falls inside the output domain.
    pub open spec fn hit_dist_at(self, d: int) -> bool {
        &&& 1 <= d
        &&& self.calc_spec(add32(self.index, d)) <= self.max
        &&& forall|e: int|
            1 <= e < d ==> #[trigger] self.calc_spec(add32(self.index, e)) > self.max
    }

    /// The distance the walk advances on the next pull: unique, and at
    /// most `mask + 1`, by `lemma_hit_exists`.
    pub open spec fn hit_dist(self) -> int {
        choose|d: int| self.hit_dist_at(d)
    }

    /// Advance the walk to the next in-range value and return it.
    pub fn next_value(&mut self) -> (r: u32)
        requires
            old(self).wf(),
        ensures
            final(self).wf(),
            final(self).max == old(self).max,
            final(self).mask == old(self).mask,
            final(self).f1 == old(self).f1,
            final(self).f2 == old(self).f2,
            final(self).x1 == old(self).x1,
            final(self).x2 == old(self).x2,
            final(self).done == old(self).done,
            final(self).count == add32(old(self).count, 1),
            final(self).index == add32(old(self).index, old(self).hit_dist()),
            1 <= old(self).hit_dist() <= old(self).mask + 1,
            r == old(self).calc_spec(final(self).index),
            r <= old(self).max,
    {
        proof {
            lemma_hit_exists(*old(self));
        }
        let ghost s0 = *self;
        let ghost dd = s0.hit_dist();
        self.index = w32_inc(self.index);
        self.count = w32_inc(self.count);
        let ghost mut d: int = 1;
        let mut val = self.calc(self.index);
        while val > self.max
            invariant
                self.wf(),
                self.max == s0.max,
                self.mask == s0.mask,
                self.f1 == s0.f1,
                self.f2 == s0.f2,
                self.x1 == s0.x1,
                self.x2 == s0.x2,
                self.done == s0.done,
                self.count == add32(s0.count, 1),
                1 <= d <= dd,
                dd == s0.hit_dist(),
                s0.hit_dist_at(dd),
                dd <= s0.mask + 1,
                self.index == add32(s0.index, d),
                val == s0.calc_spec(self.index),
            decreases dd - d,
        {
            proof {
                if d == dd {
                    assert(s0.calc_spec(add32(s0.index, dd)) <= s0.max);
                    assert(false);
                }
            }
            self.index = w32_inc(self.index);
            proof {
                lemma_add32_add(s0.index, d, 1);
                d = d + 1;
            }
            val = self.calc(self.index);
        }
        proof {
            if d < dd {
                assert(s0.calc_spec(add32(s0.index, d)) > s0.max);
                assert(false);
            }
        }
        val
    }

    /// Pull the next element of the permutation, or report exhaustion.
    ///
    /// The two `Some` branches are split so that the terminal element of
    /// a `max == u32::MAX` engine cannot wrap `count` back into the main
    /// branch; `step` is the exact functional model of one call.
    pub fn next(&mut self) -> (r: Option<u32>)
        requires
            old(self).wf(),
        ensures
            final(self).wf(),
            *final(self) == step(*old(self)).0,
            r == step(*old(self)).1,
            (r matches Some(v) ==> v <= old(self).max),
    {
        if self.count < self.max {
            Some(self.next_value())
        } else if self.done {
            None
        } else {
            self.done = true;
            self.count = w32_dec(self.count);
            Some(self.next_value())
        }
    }

    /// Construct an engine for the domain `{0, ..., max}`, drawing the
    /// five 32-bit parameters of the walk from `rng`.
    pub fn new<R: rand::Rng>(max: u32, rng: &mut R) -> (s: ShuffledIter)
        ensures
            s.wf(),
            s.max == max,
            s.count == 0,
            !s.done,
            s.mask == 0 || s.mask / 2 < max,
    {
        let mask = mask_for(max);

        ShuffledIter {
            max,
            mask,

            index: draw_u32(rng),
            count: 0,

            f1: gen_factor(draw_u32(rng)),
            f2: gen_factor(draw_u32(rng)),
            x1: draw_u32(rng),
            x2: draw_u32(rng),

            done: false,
        }
    }
}

/// Force a drawn value to be odd, so that its multiplicative inverse
/// modulo `2^n` exists, i.e. `gcd(2^n, result) == 1`.
pub fn gen_factor(raw: u32) -> (f: u32)
    ensures
        f == ((raw << 1u32) | 1u32),
        f % 2 == 1,
{
    let f = (raw << 1u32) | 1;
    proof {
        assert(((raw << 1u32) | 1u32) % 2 == 1) by (bit_vector);
    }
    f
}

/// The smallest mask of shape `2^b - 1` that covers `{0, ..., max}`.
fn mask_for(max: u32) -> (mask: u32)
    ensures
        is_mask(mask),
        mask >= max,
        mask == 0 || mask / 2 < max,
{
    let mut mask: u32 = 0;
    proof {
        vstd::arithmetic::power2::lemma2_to64();
        assert(is_mask(0u32)) by {
            assert(0u32 + 1 == pow2(0));
        }
    }
    while mask < max
        invariant
            is_mask(mask),
            mask == 0 || mask / 2 < max,
        decreases (if mask >= max { 0int } else { max - mask }),
    {
        proof {
            lemma_mask_grow(mask);
        }
        mask = 2 * mask + 1;
    }
    mask
}

/// A mask of shape `2^b - 1` that does not yet cover the whole 32-bit
/// range can grow by one bit and keep its shape.
proof fn lemma_mask_grow(mask: u32)
    requires
        is_mask(mask),
        mask < 0xffff_ffffu32,
    ensures
        2 * mask + 1 <= u32::MAX,
        is_mask((2 * mask + 1) as u32),
        (2 * mask + 1) as u32 / 2 == mask,
{
    let b = choose|b: nat| b <= 32 && mask + 1 == pow2(b);
    vstd::arithmetic::power2::lemma2_to64();
    if b == 32 {
        assert(mask == 0xffff_ffffu32);
    }
    assert(b < 32);
    vstd::arithmetic::power2::lemma_pow2_unfold((b + 1) as nat);
    assert(2 * mask + 1 + 1 == pow2((b + 1) as nat));
    if b + 1 < 32 {
        vstd::arithmetic::power2::lemma_pow2_strictly_increases((b + 1) as nat, 32);
    }
    assert(is_mask((2 * mask + 1) as u32)) by {
        assert((2 * mask + 1) as u32 + 1 == pow2((b + 1) as nat));
    }
}

/// The product of two 32-bit values fits in 64 bits.
proof fn lemma_u32_mul_fits(a: u32, b: u32)
    ensures
        a as int * b as int <= 0xffff_fffe_0000_0001,
{
    assert(a as int * b as int <= 0xffff_ffff * 0xffff_ffff) by (nonlinear_arith)
        requires
            a <= 0xffff_ffffu32,
            b <= 0xffff_ffffu32,
    ;
}

/// The state after one successful pull: the walk has advanced to the
/// first hit and one more value has been counted.
pub open spec fn stepped(s: ShuffledIter) -> ShuffledIter {
    ShuffledIter { index: add32(s.index, s.hit_dist()), count: add32(s.count, 1), ..s }
}

/// The exact functional model of one `next` call: the successor state
/// and the returned value.
pub open spec fn step(s: ShuffledIter) -> (ShuffledIter, Option<u32>) {
    if s.count < s.max {
        (stepped(s), Some(s.calc_spec(add32(s.index, s.hit_dist()))))
    } else if s.done {
        (s, None)
    } else {
        let s1 = ShuffledIter { done: true, count: add32(s.count, -1), ..s };
        (stepped(s1), Some(s1.calc_spec(add32(s1.index, s1.hit_dist()))))
    }
}

/// How many more values `next` will emit before reporting exhaustion.
pub open spec fn remaining(s: ShuffledIter) -> nat {
    if s.count < s.max {
        ((s.max - s.count) + if s.done {
            0int
        } else {
            1int
        }) as nat
    } else if s.done {
        0
    } else {
        1
    }
}

/// The values an engine in state `s` will emit, in order, until it
/// reports exhaustion: the spec-level drain of the iterator.
pub open spec fn drain(s: ShuffledIter) -> Seq<u32>
    decreases remaining(s),
    via drain_decreases
{
    let sr = step(s);
    match sr.1 {
        Option::None => Seq::empty(),
        Option::Some(v) => seq![v] + drain(sr.0),
    }
}

#[via_fn]
proof fn drain_decreases(s: ShuffledIter) {
    lemma_step_remaining(s);
}

/// Each emitted value brings the engine strictly closer to exhaustion.
proof fn lemma_step_remaining(s: ShuffledIter)
    ensures
        step(s).1 is Some ==> remaining(step(s).0) < remaining(s),
{
    let m = 0x1_0000_0000int;
    if s.count < s.max {
        lemma_small_mod((s.count + 1) as nat, m as nat);
        assert(stepped(s).count == s.count + 1);
    } else if !s.done {
        let s1 = ShuffledIter { done: true, count: add32(s.count, -1), ..s };
        vstd::arithmetic::div_mod::lemma_add_mod_noop(s.count - 1, 1, m);
        vstd::arithmetic::div_mod::lemma_small_mod(1nat, m as nat);
        lemma_small_mod(s.count as nat, m as nat);
        assert(stepped(s1).count == s.count);
    }
}

/// Advance one wrapping step.
fn w32_inc(x: u32) -> (r: u32)
    ensures
        r == add32(x, 1),
{
    if x == 0xffff_ffff {
        proof {
            vstd::arithmetic::div_mod::lemma_mod_self_0(0x1_0000_0000int);
        }
        0
    } else {
        proof {
            lemma_small_mod((x + 1) as nat, 0x1_0000_0000nat);
        }
        x + 1
    }
}

/// Retreat one wrapping step.
fn w32_dec(x: u32) -> (r: u32)
    ensures
        r == add32(x, -1),
{
    if x == 0 {
        proof {
            vstd::arithmetic::div_mod::lemma_mod_multiples_vanish(1, -1, 0x1_0000_0000int);
            lemma_small_mod(0xffff_ffffnat, 0x1_0000_0000nat);
        }
        0xffff_ffff
    } else {
        proof {
            lemma_small_mod((x - 1) as nat, 0x1_0000_0000nat);
        }
        x - 1
    }
}

/// Wrapping advances compose.
pub proof fn lemma_add32_add(a: u32, d1: int, d2: int)
    requires
        0 <= d1,
        0 <= d2,
    ensures
        add32(add32(a, d1), d2) == add32(a, d1 + d2),
{
    let m = 0x1_0000_0000int;
    vstd::arithmetic::div_mod::lemma_mod_bound(a + d1, m);
    vstd::arithmetic::div_mod::lemma_add_mod_noop(a + d1, d2, m);
    vstd::arithmetic::div_mod::lemma_add_mod_noop_right((a + d1) % m, d2, m);
    vstd::arithmetic::div_mod::lemma_mod_bound(a + d1 + d2, m);
}

/// Ahead of any hit there is a first hit.
proof fn lemma_min_hit(s: ShuffledIter, j: int)
    requires
        1 <= j,
        s.calc_spec(add32(s.index, j)) <= s.max,
    ensures
        exists|d: int| #[trigger] s.hit_dist_at(d) && d <= j,
    decreases j,
{
    if forall|e: int| 1 <= e < j ==> #[trigger] s.calc_spec(add32(s.index, e)) > s.max {
        assert(s.hit_dist_at(j));
    } else {
        let e = choose|e: int| 1 <= e < j && #[trigger] s.calc_spec(add32(s.index, e)) <= s.max;
        lemma_min_hit(s, e);
    }
}

/// From any position of a well-formed engine, the walk meets an
/// in-range value within one window of `mask + 1` probes.
pub proof fn lemma_hit_exists(s: ShuffledIter)
    requires
        s.wf(),
    ensures
        s.hit_dist_at(s.hit_dist()),
        1 <= s.hit_dist() <= s.mask + 1,
{
    mixing::lemma_window_covers(s, s.index, 0);
    let j0 = choose|j: int| 1 <= j <= s.mask + 1 && #[trigger] s.calc_spec(add32(s.index, j))
        == 0;
    lemma_min_hit(s, j0);
    let d = choose|d: int| #[trigger] s.hit_dist_at(d) && d <= j0;
    assert(s.hit_dist_at(s.hit_dist()));
    if s.hit_dist() > j0 {
        assert(s.calc_spec(add32(s.index, j0)) > s.max);
        assert(false);
    }
}

/// `v` is the mixed value of some in-range probe position past `p` in
/// the window based at `i0`.
pub open spec fn from_window(s: ShuffledIter, v: u32, i0: u32, p: int) -> bool {
    exists|j: int|
        p < j <= s.mask + 1 && v == #[trigger] s.calc_spec(add32(i0, j)) && s.calc_spec(
            add32(i0, j),
        ) <= s.max
}

/// One pull, seen from the window base `i0`: the probes the walk skips
/// are misses, the probe it stops on is the window's next hit, and the
/// hit set ahead shrinks by exactly that one position.
proof fn lemma_session_step(s: ShuffledIter, i0: u32, p: int)
    requires
        s.wf(),
        0 <= p <= s.mask + 1,
        s.index == add32(i0, p),
        mixing::hits(s, i0, p).len() >= 1,
    ensures
        1 <= s.hit_dist(),
        p + s.hit_dist() <= s.mask + 1,
        add32(s.index, s.hit_dist()) == add32(i0, p + s.hit_dist()),
        s.calc_spec(add32(i0, p + s.hit_dist())) <= s.max,
        mixing::hits(s, i0, p + s.hit_dist()).len() == mixing::hits(s, i0, p).len() - 1,
{
    lemma_hit_exists(s);
    let dd = s.hit_dist();
    let hs = mixing::hits(s, i0, p);
    mixing::lemma_hits_finite(s, i0, p);
    mixing::lemma_hits_finite(s, i0, p + dd);
    assert(exists|j: int| hs.contains(j)) by {
        if forall|j: int| !#[trigger] hs.contains(j) {
            assert(hs =~= Set::<int>::empty());
        }
    }
    let jh = choose|j: int| hs.contains(j);
    assert forall|e: int| 1 <= e implies #[trigger] add32(s.index, e) == add32(i0, p + e) by {
        lemma_add32_add(i0, p, e);
    }
    assert(s.calc_spec(add32(s.index, jh - p)) <= s.max);
    if dd > jh - p {
        assert(s.calc_spec(add32(s.index, jh - p)) > s.max);
        assert(false);
    }
    assert(p + dd <= jh <= s.mask + 1);
    assert(s.calc_spec(add32(i0, p + dd)) <= s.max) by {
        assert(add32(s.index, dd) == add32(i0, p + dd));
    }
    let hs2 = mixing::hits(s, i0, p + dd);
    assert(hs =~= hs2.insert(p + dd)) by {
        assert forall|j: int| hs.contains(j) implies hs2.insert(p + dd).contains(j) by {
            if j < p + dd {
                assert(s.calc_spec(add32(s.index, j - p)) > s.max);
                assert(add32(s.index, j - p) == add32(i0, j));
                assert(false);
            }
        }
        assert forall|j: int| hs2.insert(p + dd).contains(j) implies hs.contains(j) by {
            if j == p + dd {
                assert(s.calc_spec(add32(i0, p + dd)) <= s.max);
            }
        }
    }
    assert(!hs2.contains(p + dd));
    assert(hs2.insert(p + dd).len() == hs2.len() + 1);
}

/// The engine's central induction: from any reachable mid-session
/// state, the values still to come are exactly one value per remaining
/// hit position of the window, pairwise distinct and in range.
proof fn lemma_drain_from(s: ShuffledIter, i0: u32, p: int)
    requires
        s.wf(),
        !s.done,
        s.count <= s.max,
        0 <= p <= s.mask + 1,
        s.index == add32(i0, p),
        mixing::hits(s, i0, p).len() >= s.max - s.count + 1,
    ensures
        drain(s).len() == s.max - s.count + 1,
        drain(s).no_duplicates(),
        forall|k: int|
            0 <= k < drain(s).len() ==> from_window(s, #[trigger] drain(s)[k], i0, p),
    decreases remaining(s),
{
    let m = 0x1_0000_0000int;
    if s.count < s.max {
        lemma_session_step(s, i0, p);
        let dd = s.hit_dist();
        let p2 = p + dd;
        let v = s.calc_spec(add32(s.index, dd));
        let s2 = stepped(s);
        assert(step(s) == (s2, Some(v)));
        assert(drain(s) == seq![v] + drain(s2));
        lemma_small_mod((s.count + 1) as nat, m as nat);
        assert(s2.count == s.count + 1);
        assert(s2.index == add32(i0, p2));
        assert(mixing::hits(s2, i0, p2) =~= mixing::hits(s, i0, p2)) by {
            assert forall|j: int|
                mixing::hits(s2, i0, p2).contains(j) <==> mixing::hits(s, i0, p2).contains(
                    j,
                ) by {
                assert(s2.calc_spec(add32(i0, j)) == s.calc_spec(add32(i0, j)));
            }
        }
        lemma_step_remaining(s);
        lemma_drain_from(s2, i0, p2);
        let ds = drain(s);
        let d2 = drain(s2);
        assert(ds.len() == s.max - s.count + 1);
        // every element comes from a window position past p
        assert forall|k: int| 0 <= k < ds.len() implies from_window(
            s,
            #[trigger] ds[k],
            i0,
            p,
        ) by {
            if k == 0 {
                assert(ds[0] == v);
                assert(v == s.calc_spec(add32(i0, p2)));
            } else {
                assert(ds[k] == d2[k - 1]);
                assert(from_window(s2, d2[k - 1], i0, p2));
                let j = choose|j: int|
                    p2 < j <= s2.mask + 1 && d2[k - 1] == #[trigger] s2.calc_spec(add32(i0, j))
                        && s2.calc_spec(add32(i0, j)) <= s2.max;
                assert(s.calc_spec(add32(i0, j)) == s2.calc_spec(add32(i0, j)));
                assert(ds[k] == s.calc_spec(add32(i0, j)) && s.calc_spec(add32(i0, j)) <= s.max);
            }
        }
        // no element repeats: distinct window positions give distinct values
        assert forall|k1: int, k2: int| 0 <= k1 < k2 < ds.len() implies ds[k1] != ds[k2] by {
            if k1 == 0 {
                assert(ds[k2] == d2[k2 - 1]);
                assert(from_window(s2, d2[k2 - 1], i0, p2));
                let j = choose|j: int|
                    p2 < j <= s2.mask + 1 && d2[k2 - 1] == #[trigger] s2.calc_spec(add32(i0, j))
                        && s2.calc_spec(add32(i0, j)) <= s2.max;
                assert(s.calc_spec(add32(i0, j)) == s2.calc_spec(add32(i0, j)));
                mixing::lemma_window_injective(s, i0, p2, j);
                assert(ds[0] == s.calc_spec(add32(i0, p2)));
            } else {
                assert(d2.no_duplicates());
                assert(d2[k1 - 1] != d2[k2 - 1]);
            }
        }
        assert(ds.no_duplicates());
    } else {
        // the terminal pull: count == max, one value left
        let s1 = ShuffledIter { done: true, count: add32(s.count, -1), ..s };
        assert(mixing::hits(s1, i0, p) =~= mixing::hits(s, i0, p)) by {
            assert forall|j: int|
                mixing::hits(s1, i0, p).contains(j) <==> mixing::hits(s, i0, p).contains(j) by {
                assert(s1.calc_spec(add32(i0, j)) == s.calc_spec(add32(i0, j)));
            }
        }
        lemma_session_step(s1, i0, p);
        let dd = s1.hit_dist();
        let v = s1.calc_spec(add32(s1.index, dd));
        let s2 = stepped(s1);
        assert(step(s) == (s2, Some(v)));
        assert(s2.count == s.count) by {
            vstd::arithmetic::div_mod::lemma_add_mod_noop(s.count - 1, 1, m);
            vstd::arithmetic::div_mod::lemma_small_mod(1nat, m as nat);
            lemma_small_mod(s.count as nat, m as nat);
        }
        assert(s2.done);
        assert(step(s2).1 is None);
        assert(drain(s2) == Seq::<u32>::empty());
        assert(drain(s) == seq![v] + drain(s2));
        assert(drain(s).len() == 1);
        assert forall|k: int| 0 <= k < drain(s).len() implies from_window(
            s,
            #[trigger] drain(s)[k],
            i0,
            p,
        ) by {
            assert(drain(s)[0] == v);
            assert(v == s1.calc_spec(add32(i0, p + dd)));
            assert(s.calc_spec(add32(i0, p + dd)) == s1.calc_spec(add32(i0, p + dd)));
            assert(s.calc_spec(add32(i0, p + dd)) <= s.max);
        }
        assert(drain(s).no_duplicates());
    }
}

/// Bijection and cardinality: drained from a fresh state, the engine
/// emits exactly `max + 1` values, with no repeats, and the set of them
/// is exactly `{0, ..., max}` — a permutation of the domain.
pub proof fn theorem_drain_bijection(s: ShuffledIter)
    requires
        s.wf(),
        s.count == 0,
        !s.done,
    ensures
        drain(s).len() == s.max + 1,
        drain(s).no_duplicates(),
        forall|v: u32| drain(s).contains(v) <==> v <= s.max,
{
    broadcast use vstd::seq_lib::seq_to_set_is_finite;

    let i0 = s.index;
    lemma_small_mod(s.index as nat, 0x1_0000_0000nat);
    assert(s.index == add32(i0, 0));
    mixing::lemma_full_window_hits(s, i0);
    lemma_drain_from(s, i0, 0);
    let ds = drain(s);
    assert forall|k: int| 0 <= k < ds.len() implies ds[k] <= s.max by {
        assert(from_window(s, ds[k], i0, 0));
    }
    ds.unique_seq_to_set();
    let univ = Set::new(|v: u32| v <= s.max);
    lemma_u32_range_len(s.max);
    assert(ds.to_set().subset_of(univ)) by {
        assert forall|v: u32| ds.to_set().contains(v) implies univ.contains(v) by {
            let k = choose|k: int| 0 <= k < ds.len() && ds[k] == v;
            assert(ds[k] <= s.max);
        }
    }
    vstd::set_lib::lemma_subset_equality(ds.to_set(), univ);
    assert forall|v: u32| ds.contains(v) <==> v <= s.max by {
        assert(ds.to_set().contains(v) == univ.contains(v));
        assert(ds.to_set().contains(v) == ds.contains(v));
    }
}

/// The set of 32-bit values no greater than `max` has `max + 1`
/// elements.
proof fn lemma_u32_range_len(max: u32)
    ensures
        Set::new(|v: u32| v <= max).finite(),
        Set::new(|v: u32| v <= max).len() == max + 1,
{
    let f = |i: int| i as u32;
    let x = vstd::set_lib::set_int_range(0, max as int + 1);
    vstd::set_lib::lemma_int_range(0, max as int + 1);
    assert(vstd::relations::injective_on(f, x));
    vstd::set_lib::lemma_map_size(x, x.map(f), f);
    assert(x.map(f) =~= Set::new(|v: u32| v <= max)) by {
        assert forall|v: u32| Set::new(|v: u32| v <= max).contains(v) implies x.map(f).contains(
            v,
        ) by {
            assert(x.contains(v as int) && f(v as int) == v);
        }
    }
}

/// Determinism: the emitted sequence is a function of the engine's
/// state alone, so two engines constructed from equal draws emit
/// identical sequences.
pub proof fn lemma_drain_deterministic(s1: ShuffledIter, s2: ShuffledIter)
    requires
        s1 == s2,
    ensures
        drain(s1) == drain(s2),
{
}

/// Relies on `rand::Rng::next_u32`: one 32-bit value drawn from the
/// source. Nothing is promised of the result; the engine's contracts hold
/// of every outcome.
#[verifier::external_body]
fn draw_u32<R: rand::Rng>(rng: &mut R) -> u32 {
    rng.next_u32()
}

} // verus!

