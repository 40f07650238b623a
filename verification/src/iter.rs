//! Domain adapters around the permutation engine.
//!
//! This module may be used to obtain an instance of the engine for a
//! concrete domain: all ranges of integer types (`0i8..`, `..10u16`,
//! `10..20`) and slices of any kind, through the [`ShuffledIterGen`]
//! trait on the standard random number generator, or through the `new`
//! constructors, which accept any `rand::Rng`.

use vstd::prelude::*;
use core::ops::{Range, RangeFrom, RangeTo};
use crate::{ShuffledIter, step, drain, theorem_drain_bijection};

verus! {

/// Relies on the shape of `core::ops::RangeFrom`: a half-open range
/// with only a public `start` field, declared here so that the trait
/// below can take it as a domain descriptor.
#[verifier::external_type_specification]
#[verifier::reject_recursive_types(Idx)]
pub struct ExRangeFrom<Idx>(RangeFrom<Idx>);

/// Relies on the shape of `core::ops::RangeTo`: a half-open range with
/// only a public `end` field, declared here so that the trait below can
/// take it as a domain descriptor.
#[verifier::external_type_specification]
#[verifier::reject_recursive_types(Idx)]
pub struct ExRangeTo<Idx>(RangeTo<Idx>);

/// Relies on the shape of `rand::rngs::StdRng`: the standard random
/// number generator, the source of randomness that the `ShuffledIterGen`
/// impls below draw from.
#[verifier::external_type_specification]
#[verifier::external_body]
pub struct ExStdRng(rand::rngs::StdRng);

/// Why a requested domain cannot be iterated: it is empty, or its
/// cardinality exceeds the `2^32` values the engine can address.
#[derive(Copy, Clone, Debug, PartialEq, Eq, Structural)]
pub enum ShuffleError {
    /// The requested range holds no element.
    InvalidRange,
    /// The requested range spans more than `2^32` integers.
    RangeTooLarge,
    /// The sequence holds no element.
    EmptySequence,
    /// The sequence holds more than `2^32` elements.
    SequenceTooLarge,
}

/// This trait may be used to obtain an iteration session over `T`. It
/// is implemented for the standard random number generator, for the
/// following argument types:
///
/// * all ranges of integer types (i.e. `0i8..`, `..10u16`, `10..20`)
/// * slices of any kind
///
/// For any other source of randomness, the `new` constructor of each
/// session type accepts any `rand::Rng` directly. The domain is
/// validated eagerly: an empty or oversized domain is reported as a
/// [`ShuffleError`] before any randomness is drawn.
pub trait ShuffledIterGen<T> {
    /// The iteration session produced for the domain `T`.
    type Iter;

    /// Validate the domain and size one engine to it.
    fn iter_shuffled(&mut self, t: T) -> Result<Self::Iter, ShuffleError>;
}

/// One session over the inclusive range `{offset, ..., offset + max}`
/// of `u8` values, in random order.
pub struct RangeIterU8 {
    /// The engine driving the walk over `{0, ..., max}`.
    pub iter: ShuffledIter,
    /// The range's lower bound, added to every engine output.
    pub offset: u8,
}

impl RangeIterU8 {
    /// The engine is well-formed and every offset value fits the type.
    pub open spec fn wf(self) -> bool {
        &&& self.iter.wf()
        &&& self.iter.max + self.offset <= u8::MAX
    }

    /// A session over `{min, ..., max}`, both bounds inclusive.
    pub fn new<R: rand::Rng>(rng: &mut R, min: u8, max: u8) -> (r: Result<RangeIterU8, ShuffleError>)
        ensures
            (r is Err ==> *final(rng) == *old(rng)),
            min > max ==> r == Err::<RangeIterU8, ShuffleError>(ShuffleError::InvalidRange),
            (min <= max && max - min > 0xffff_ffff) ==> r == Err::<RangeIterU8, ShuffleError>(
                ShuffleError::RangeTooLarge,
            ),
            (min <= max && max - min <= 0xffff_ffff) ==> (r matches Ok(it) && it.wf()
                && it.offset == min && it.iter.max == max - min && it.iter.count == 0
                && !it.iter.done),
    {
        if min > max {
            return Err(ShuffleError::InvalidRange);
        }
        let span: u64 = (max as u64) - (min as u64);
        if span > 0xffff_ffffu64 {
            return Err(ShuffleError::RangeTooLarge);
        }
        Ok(RangeIterU8 { iter: ShuffledIter::new(span as u32, rng), offset: min })
    }

    /// The next value of the range, or exhaustion: exactly what the
    /// engine's `step` model dictates, shifted by the offset.
    pub fn next(&mut self) -> (r: Option<u8>)
        requires
            old(self).wf(),
        ensures
            final(self).wf(),
            final(self).offset == old(self).offset,
            final(self).iter == step(old(self).iter).0,
            (match step(old(self).iter).1 {
                Option::Some(u) => r == Some((old(self).offset + u) as u8),
                Option::None => r == None::<u8>,
            }),
    {
        match self.iter.next() {
            Option::Some(u) => Some(self.offset + (u as u8)),
            Option::None => None,
        }
    }
}

impl ShuffledIterGen<Range<u8>> for rand::rngs::StdRng {
    type Iter = RangeIterU8;

    fn iter_shuffled(&mut self, range: Range<u8>) -> (r: Result<RangeIterU8, ShuffleError>)
        ensures
            range.end <= range.start ==> (r == Err::<RangeIterU8, ShuffleError>(
                ShuffleError::InvalidRange,
            ) && *final(self) == *old(self)),
            (range.start < range.end && range.end - 1 - range.start > 0xffff_ffff) ==> (r
                == Err::<RangeIterU8, ShuffleError>(ShuffleError::RangeTooLarge) && *final(self)
                == *old(self)),
            (range.start < range.end && range.end - 1 - range.start <= 0xffff_ffff) ==> (r matches
                Ok(it) && it.wf() && it.offset == range.start && it.iter.max == range.end - 1
                - range.start && it.iter.count == 0 && !it.iter.done),
    {
        if range.end <= range.start {
            return Err(ShuffleError::InvalidRange);
        }
        RangeIterU8::new(self, range.start, range.end - 1)
    }
}

impl ShuffledIterGen<RangeFrom<u8>> for rand::rngs::StdRng {
    type Iter = RangeIterU8;

    fn iter_shuffled(&mut self, range: RangeFrom<u8>) -> (r: Result<RangeIterU8, ShuffleError>)
        ensures
            u8::MAX - range.start > 0xffff_ffff ==> (r == Err::<RangeIterU8, ShuffleError>(
                ShuffleError::RangeTooLarge,
            ) && *final(self) == *old(self)),
            u8::MAX - range.start <= 0xffff_ffff ==> (r matches Ok(it) && it.wf() && it.offset
                == range.start && it.iter.max == u8::MAX - range.start && it.iter.count == 0
                && !it.iter.done),
    {
        RangeIterU8::new(self, range.start, u8::MAX)
    }
}

impl ShuffledIterGen<RangeTo<u8>> for rand::rngs::StdRng {
    type Iter = RangeIterU8;

    fn iter_shuffled(&mut self, range: RangeTo<u8>) -> (r: Result<RangeIterU8, ShuffleError>)
        ensures
            range.end == u8::MIN ==> (r == Err::<RangeIterU8, ShuffleError>(ShuffleError::InvalidRange)
                && *final(self) == *old(self)),
            (range.end != u8::MIN && range.end - 1 - u8::MIN > 0xffff_ffff) ==> (r == Err::<
                RangeIterU8,
                ShuffleError,
            >(ShuffleError::RangeTooLarge) && *final(self) == *old(self)),
            (range.end != u8::MIN && range.end - 1 - u8::MIN <= 0xffff_ffff) ==> (r matches
                Ok(it) && it.wf() && it.offset == u8::MIN && it.iter.max == range.end - 1
                - u8::MIN && it.iter.count == 0 && !it.iter.done),
    {
        if range.end == u8::MIN {
            return Err(ShuffleError::InvalidRange);
        }
        RangeIterU8::new(self, u8::MIN, range.end - 1)
    }
}

/// One session over the inclusive range `{offset, ..., offset + max}`
/// of `u16` values, in random order.
pub struct RangeIterU16 {
    /// The engine driving the walk over `{0, ..., max}`.
    pub iter: ShuffledIter,
    /// The range's lower bound, added to every engine output.
    pub offset: u16,
}

impl RangeIterU16 {
    /// The engine is well-formed and every offset value fits the type.
    pub open spec fn wf(self) -> bool {
        &&& self.iter.wf()
        &&& self.iter.max + self.offset <= u16::MAX
    }

    /// A session over `{min, ..., max}`, both bounds inclusive.
    pub fn new<R: rand::Rng>(rng: &mut R, min: u16, max: u16) -> (r: Result<RangeIterU16, ShuffleError>)
        ensures
            (r is Err ==> *final(rng) == *old(rng)),
            min > max ==> r == Err::<RangeIterU16, ShuffleError>(ShuffleError::InvalidRange),
            (min <= max && max - min > 0xffff_ffff) ==> r == Err::<RangeIterU16, ShuffleError>(
                ShuffleError::RangeTooLarge,
            ),
            (min <= max && max - min <= 0xffff_ffff) ==> (r matches Ok(it) && it.wf()
                && it.offset == min && it.iter.max == max - min && it.iter.count == 0
                && !it.iter.done),
    {
        if min > max {
            return Err(ShuffleError::InvalidRange);
        }
        let span: u64 = (max as u64) - (min as u64);
        if span > 0xffff_ffffu64 {
            return Err(ShuffleError::RangeTooLarge);
        }
        Ok(RangeIterU16 { iter: ShuffledIter::new(span as u32, rng), offset: min })
    }

    /// The next value of the range, or exhaustion: exactly what the
    /// engine's `step` model dictates, shifted by the offset.
    pub fn next(&mut self) -> (r: Option<u16>)
        requires
            old(self).wf(),
        ensures
            final(self).wf(),
            final(self).offset == old(self).offset,
            final(self).iter == step(old(self).iter).0,
            (match step(old(self).iter).1 {
                Option::Some(u) => r == Some((old(self).offset + u) as u16),
                Option::None => r == None::<u16>,
            }),
    {
        match self.iter.next() {
            Option::Some(u) => Some(self.offset + (u as u16)),
            Option::None => None,
        }
    }
}

impl ShuffledIterGen<Range<u16>> for rand::rngs::StdRng {
    type Iter = RangeIterU16;

    fn iter_shuffled(&mut self, range: Range<u16>) -> (r: Result<RangeIterU16, ShuffleError>)
        ensures
            range.end <= range.start ==> (r == Err::<RangeIterU16, ShuffleError>(
                ShuffleError::InvalidRange,
            ) && *final(self) == *old(self)),
            (range.start < range.end && range.end - 1 - range.start > 0xffff_ffff) ==> (r
                == Err::<RangeIterU16, ShuffleError>(ShuffleError::RangeTooLarge) && *final(self)
                == *old(self)),
            (range.start < range.end && range.end - 1 - range.start <= 0xffff_ffff) ==> (r matches
                Ok(it) && it.wf() && it.offset == range.start && it.iter.max == range.end - 1
                - range.start && it.iter.count == 0 && !it.iter.done),
    {
        if range.end <= range.start {
            return Err(ShuffleError::InvalidRange);
        }
        RangeIterU16::new(self, range.start, range.end - 1)
    }
}

impl ShuffledIterGen<RangeFrom<u16>> for rand::rngs::StdRng {
    type Iter = RangeIterU16;

    fn iter_shuffled(&mut self, range: RangeFrom<u16>) -> (r: Result<RangeIterU16, ShuffleError>)
        ensures
            u16::MAX - range.start > 0xffff_ffff ==> (r == Err::<RangeIterU16, ShuffleError>(
                ShuffleError::RangeTooLarge,
            ) && *final(self) == *old(self)),
            u16::MAX - range.start <= 0xffff_ffff ==> (r matches Ok(it) && it.wf() && it.offset
                == range.start && it.iter.max == u16::MAX - range.start && it.iter.count == 0
                && !it.iter.done),
    {
        RangeIterU16::new(self, range.start, u16::MAX)
    }
}

impl ShuffledIterGen<RangeTo<u16>> for rand::rngs::StdRng {
    type Iter = RangeIterU16;

    fn iter_shuffled(&mut self, range: RangeTo<u16>) -> (r: Result<RangeIterU16, ShuffleError>)
        ensures
            range.end == u16::MIN ==> (r == Err::<RangeIterU16, ShuffleError>(ShuffleError::InvalidRange)
                && *final(self) == *old(self)),
            (range.end != u16::MIN && range.end - 1 - u16::MIN > 0xffff_ffff) ==> (r == Err::<
                RangeIterU16,
                ShuffleError,
            >(ShuffleError::RangeTooLarge) && *final(self) == *old(self)),
            (range.end != u16::MIN && range.end - 1 - u16::MIN <= 0xffff_ffff) ==> (r matches
                Ok(it) && it.wf() && it.offset == u16::MIN && it.iter.max == range.end - 1
                - u16::MIN && it.iter.count == 0 && !it.iter.done),
    {
        if range.end == u16::MIN {
            return Err(ShuffleError::InvalidRange);
        }
        RangeIterU16::new(self, u16::MIN, range.end - 1)
    }
}

/// One session over the inclusive range `{offset, ..., offset + max}`
/// of `u32` values, in random order.
pub struct RangeIterU32 {
    /// The engine driving the walk over `{0, ..., max}`.
    pub iter: ShuffledIter,
    /// The range's lower bound, added to every engine output.
    pub offset: u32,
}

impl RangeIterU32 {
    /// The engine is well-formed and every offset value fits the type.
    pub open spec fn wf(self) -> bool {
        &&& self.iter.wf()
        &&& self.iter.max + self.offset <= u32::MAX
    }

    /// A session over `{min, ..., max}`, both bounds inclusive.
    pub fn new<R: rand::Rng>(rng: &mut R, min: u32, max: u32) -> (r: Result<RangeIterU32, ShuffleError>)
        ensures
            (r is Err ==> *final(rng) == *old(rng)),
            min > max ==> r == Err::<RangeIterU32, ShuffleError>(ShuffleError::InvalidRange),
            (min <= max && max - min > 0xffff_ffff) ==> r == Err::<RangeIterU32, ShuffleError>(
                ShuffleError::RangeTooLarge,
            ),
            (min <= max && max - min <= 0xffff_ffff) ==> (r matches Ok(it) && it.wf()
                && it.offset == min && it.iter.max == max - min && it.iter.count == 0
                && !it.iter.done),
    {
        if min > max {
            return Err(ShuffleError::InvalidRange);
        }
        let span: u64 = (max as u64) - (min as u64);
        if span > 0xffff_ffffu64 {
            return Err(ShuffleError::RangeTooLarge);
        }
        Ok(RangeIterU32 { iter: ShuffledIter::new(span as u32, rng), offset: min })
    }

    /// The next value of the range, or exhaustion: exactly what the
    /// engine's `step` model dictates, shifted by the offset.
    pub fn next(&mut self) -> (r: Option<u32>)
        requires
            old(self).wf(),
        ensures
            final(self).wf(),
            final(self).offset == old(self).offset,
            final(self).iter == step(old(self).iter).0,
            (match step(old(self).iter).1 {
                Option::Some(u) => r == Some((old(self).offset + u) as u32),
                Option::None => r == None::<u32>,
            }),
    {
        match self.iter.next() {
            Option::Some(u) => Some(self.offset + (u as u32)),
            Option::None => None,
        }
    }
}

impl ShuffledIterGen<Range<u32>> for rand::rngs::StdRng {
    type Iter = RangeIterU32;

    fn iter_shuffled(&mut self, range: Range<u32>) -> (r: Result<RangeIterU32, ShuffleError>)
        ensures
            range.end <= range.start ==> (r == Err::<RangeIterU32, ShuffleError>(
                ShuffleError::InvalidRange,
            ) && *final(self) == *old(self)),
            (range.start < range.end && range.end - 1 - range.start > 0xffff_ffff) ==> (r
                == Err::<RangeIterU32, ShuffleError>(ShuffleError::RangeTooLarge) && *final(self)
                == *old(self)),
            (range.start < range.end && range.end - 1 - range.start <= 0xffff_ffff) ==> (r matches
                Ok(it) && it.wf() && it.offset == range.start && it.iter.max == range.end - 1
                - range.start && it.iter.count == 0 && !it.iter.done),
    {
        if range.end <= range.start {
            return Err(ShuffleError::InvalidRange);
        }
        RangeIterU32::new(self, range.start, range.end - 1)
    }
}

impl ShuffledIterGen<RangeFrom<u32>> for rand::rngs::StdRng {
    type Iter = RangeIterU32;

    fn iter_shuffled(&mut self, range: RangeFrom<u32>) -> (r: Result<RangeIterU32, ShuffleError>)
        ensures
            u32::MAX - range.start > 0xffff_ffff ==> (r == Err::<RangeIterU32, ShuffleError>(
                ShuffleError::RangeTooLarge,
            ) && *final(self) == *old(self)),
            u32::MAX - range.start <= 0xffff_ffff ==> (r matches Ok(it) && it.wf() && it.offset
                == range.start && it.iter.max == u32::MAX - range.start && it.iter.count == 0
                && !it.iter.done),
    {
        RangeIterU32::new(self, range.start, u32::MAX)
    }
}

impl ShuffledIterGen<RangeTo<u32>> for rand::rngs::StdRng {
    type Iter = RangeIterU32;

    fn iter_shuffled(&mut self, range: RangeTo<u32>) -> (r: Result<RangeIterU32, ShuffleError>)
        ensures
            range.end == u32::MIN ==> (r == Err::<RangeIterU32, ShuffleError>(ShuffleError::InvalidRange)
                && *final(self) == *old(self)),
            (range.end != u32::MIN && range.end - 1 - u32::MIN > 0xffff_ffff) ==> (r == Err::<
                RangeIterU32,
                ShuffleError,
            >(ShuffleError::RangeTooLarge) && *final(self) == *old(self)),
            (range.end != u32::MIN && range.end - 1 - u32::MIN <= 0xffff_ffff) ==> (r matches
                Ok(it) && it.wf() && it.offset == u32::MIN && it.iter.max == range.end - 1
                - u32::MIN && it.iter.count == 0 && !it.iter.done),
    {
        if range.end == u32::MIN {
            return Err(ShuffleError::InvalidRange);
        }
        RangeIterU32::new(self, u32::MIN, range.end - 1)
    }
}

/// One session over the inclusive range `{offset, ..., offset + max}`
/// of `u64` values, in random order.
pub struct RangeIterU64 {
    /// The engine driving the walk over `{0, ..., max}`.
    pub iter: ShuffledIter,
    /// The range's lower bound, added to every engine output.
    pub offset: u64,
}

impl RangeIterU64 {
    /// The engine is well-formed and every offset value fits the type.
    pub open spec fn wf(self) -> bool {
        &&& self.iter.wf()
        &&& self.iter.max + self.offset <= u64::MAX
    }

    /// A session over `{min, ..., max}`, both bounds inclusive.
    pub fn new<R: rand::Rng>(rng: &mut R, min: u64, max: u64) -> (r: Result<RangeIterU64, ShuffleError>)
        ensures
            (r is Err ==> *final(rng) == *old(rng)),
            min > max ==> r == Err::<RangeIterU64, ShuffleError>(ShuffleError::InvalidRange),
            (min <= max && max - min > 0xffff_ffff) ==> r == Err::<RangeIterU64, ShuffleError>(
                ShuffleError::RangeTooLarge,
            ),
            (min <= max && max - min <= 0xffff_ffff) ==> (r matches Ok(it) && it.wf()
                && it.offset == min && it.iter.max == max - min && it.iter.count == 0
                && !it.iter.done),
    {
        if min > max {
            return Err(ShuffleError::InvalidRange);
        }
        let span: u64 = max - min;
        if span > 0xffff_ffffu64 {
            return Err(ShuffleError::RangeTooLarge);
        }
        Ok(RangeIterU64 { iter: ShuffledIter::new(span as u32, rng), offset: min })
    }

    /// The next value of the range, or exhaustion: exactly what the
    /// engine's `step` model dictates, shifted by the offset.
    pub fn next(&mut self) -> (r: Option<u64>)
        requires
            old(self).wf(),
        ensures
            final(self).wf(),
            final(self).offset == old(self).offset,
            final(self).iter == step(old(self).iter).0,
            (match step(old(self).iter).1 {
                Option::Some(u) => r == Some((old(self).offset + u) as u64),
                Option::None => r == None::<u64>,
            }),
    {
        match self.iter.next() {
            Option::Some(u) => Some(self.offset + (u as u64)),
            Option::None => None,
        }
    }
}

impl ShuffledIterGen<Range<u64>> for rand::rngs::StdRng {
    type Iter = RangeIterU64;

    fn iter_shuffled(&mut self, range: Range<u64>) -> (r: Result<RangeIterU64, ShuffleError>)
        ensures
            range.end <= range.start ==> (r == Err::<RangeIterU64, ShuffleError>(
                ShuffleError::InvalidRange,
            ) && *final(self) == *old(self)),
            (range.start < range.end && range.end - 1 - range.start > 0xffff_ffff) ==> (r
                == Err::<RangeIterU64, ShuffleError>(ShuffleError::RangeTooLarge) && *final(self)
                == *old(self)),
            (range.start < range.end && range.end - 1 - range.start <= 0xffff_ffff) ==> (r matches
                Ok(it) && it.wf() && it.offset == range.start && it.iter.max == range.end - 1
                - range.start && it.iter.count == 0 && !it.iter.done),
    {
        if range.end <= range.start {
            return Err(ShuffleError::InvalidRange);
        }
        RangeIterU64::new(self, range.start, range.end - 1)
    }
}

impl ShuffledIterGen<RangeFrom<u64>> for rand::rngs::StdRng {
    type Iter = RangeIterU64;

    fn iter_shuffled(&mut self, range: RangeFrom<u64>) -> (r: Result<RangeIterU64, ShuffleError>)
        ensures
            u64::MAX - range.start > 0xffff_ffff ==> (r == Err::<RangeIterU64, ShuffleError>(
                ShuffleError::RangeTooLarge,
            ) && *final(self) == *old(self)),
            u64::MAX - range.start <= 0xffff_ffff ==> (r matches Ok(it) && it.wf() && it.offset
                == range.start && it.iter.max == u64::MAX - range.start && it.iter.count == 0
                && !it.iter.done),
    {
        RangeIterU64::new(self, range.start, u64::MAX)
    }
}

impl ShuffledIterGen<RangeTo<u64>> for rand::rngs::StdRng {
    type Iter = RangeIterU64;

    fn iter_shuffled(&mut self, range: RangeTo<u64>) -> (r: Result<RangeIterU64, ShuffleError>)
        ensures
            range.end == u64::MIN ==> (r == Err::<RangeIterU64, ShuffleError>(ShuffleError::InvalidRange)
                && *final(self) == *old(self)),
            (range.end != u64::MIN && range.end - 1 - u64::MIN > 0xffff_ffff) ==> (r == Err::<
                RangeIterU64,
                ShuffleError,
            >(ShuffleError::RangeTooLarge) && *final(self) == *old(self)),
            (range.end != u64::MIN && range.end - 1 - u64::MIN <= 0xffff_ffff) ==> (r matches
                Ok(it) && it.wf() && it.offset == u64::MIN && it.iter.max == range.end - 1
                - u64::MIN && it.iter.count == 0 && !it.iter.done),
    {
        if range.end == u64::MIN {
            return Err(ShuffleError::InvalidRange);
        }
        RangeIterU64::new(self, u64::MIN, range.end - 1)
    }
}

/// One session over the inclusive range `{offset, ..., offset + max}`
/// of `usize` values, in random order.
pub struct RangeIterUsize {
    /// The engine driving the walk over `{0, ..., max}`.
    pub iter: ShuffledIter,
    /// The range's lower bound, added to every engine output.
    pub offset: usize,
}

impl RangeIterUsize {
    /// The engine is well-formed and every offset value fits the type.
    pub open spec fn wf(self) -> bool {
        &&& self.iter.wf()
        &&& self.iter.max + self.offset <= usize::MAX
    }

    /// A session over `{min, ..., max}`, both bounds inclusive.
    pub fn new<R: rand::Rng>(rng: &mut R, min: usize, max: usize) -> (r: Result<RangeIterUsize, ShuffleError>)
        ensures
            (r is Err ==> *final(rng) == *old(rng)),
            min > max ==> r == Err::<RangeIterUsize, ShuffleError>(ShuffleError::InvalidRange),
            (min <= max && max - min > 0xffff_ffff) ==> r == Err::<RangeIterUsize, ShuffleError>(
                ShuffleError::RangeTooLarge,
            ),
            (min <= max && max - min <= 0xffff_ffff) ==> (r matches Ok(it) && it.wf()
                && it.offset == min && it.iter.max == max - min && it.iter.count == 0
                && !it.iter.done),
    {
        if min > max {
            return Err(ShuffleError::InvalidRange);
        }
        let span: u64 = (max as u64) - (min as u64);
        if span > 0xffff_ffffu64 {
            return Err(ShuffleError::RangeTooLarge);
        }
        Ok(RangeIterUsize { iter: ShuffledIter::new(span as u32, rng), offset: min })
    }

    /// The next value of the range, or exhaustion: exactly what the
    /// engine's `step` model dictates, shifted by the offset.
    pub fn next(&mut self) -> (r: Option<usize>)
        requires
            old(self).wf(),
        ensures
            final(self).wf(),
            final(self).offset == old(self).offset,
            final(self).iter == step(old(self).iter).0,
            (match step(old(self).iter).1 {
                Option::Some(u) => r == Some((old(self).offset + u) as usize),
                Option::None => r == None::<usize>,
            }),
    {
        match self.iter.next() {
            Option::Some(u) => Some(self.offset + (u as usize)),
            Option::None => None,
        }
    }
}

impl ShuffledIterGen<Range<usize>> for rand::rngs::StdRng {
    type Iter = RangeIterUsize;

    fn iter_shuffled(&mut self, range: Range<usize>) -> (r: Result<RangeIterUsize, ShuffleError>)
        ensures
            range.end <= range.start ==> (r == Err::<RangeIterUsize, ShuffleError>(
                ShuffleError::InvalidRange,
            ) && *final(self) == *old(self)),
            (range.start < range.end && range.end - 1 - range.start > 0xffff_ffff) ==> (r
                == Err::<RangeIterUsize, ShuffleError>(ShuffleError::RangeTooLarge) && *final(self)
                == *old(self)),
            (range.start < range.end && range.end - 1 - range.start <= 0xffff_ffff) ==> (r matches
                Ok(it) && it.wf() && it.offset == range.start && it.iter.max == range.end - 1
                - range.start && it.iter.count == 0 && !it.iter.done),
    {
        if range.end <= range.start {
            return Err(ShuffleError::InvalidRange);
        }
        RangeIterUsize::new(self, range.start, range.end - 1)
    }
}

impl ShuffledIterGen<RangeFrom<usize>> for rand::rngs::StdRng {
    type Iter = RangeIterUsize;

    fn iter_shuffled(&mut self, range: RangeFrom<usize>) -> (r: Result<RangeIterUsize, ShuffleError>)
        ensures
            usize::MAX - range.start > 0xffff_ffff ==> (r == Err::<RangeIterUsize, ShuffleError>(
                ShuffleError::RangeTooLarge,
            ) && *final(self) == *old(self)),
            usize::MAX - range.start <= 0xffff_ffff ==> (r matches Ok(it) && it.wf() && it.offset
                == range.start && it.iter.max == usize::MAX - range.start && it.iter.count == 0
                && !it.iter.done),
    {
        RangeIterUsize::new(self, range.start, usize::MAX)
    }
}

impl ShuffledIterGen<RangeTo<usize>> for rand::rngs::StdRng {
    type Iter = RangeIterUsize;

    fn iter_shuffled(&mut self, range: RangeTo<usize>) -> (r: Result<RangeIterUsize, ShuffleError>)
        ensures
            range.end == usize::MIN ==> (r == Err::<RangeIterUsize, ShuffleError>(ShuffleError::InvalidRange)
                && *final(self) == *old(self)),
            (range.end != usize::MIN && range.end - 1 - usize::MIN > 0xffff_ffff) ==> (r == Err::<
                RangeIterUsize,
                ShuffleError,
            >(ShuffleError::RangeTooLarge) && *final(self) == *old(self)),
            (range.end != usize::MIN && range.end - 1 - usize::MIN <= 0xffff_ffff) ==> (r matches
                Ok(it) && it.wf() && it.offset == usize::MIN && it.iter.max == range.end - 1
                - usize::MIN && it.iter.count == 0 && !it.iter.done),
    {
        if range.end == usize::MIN {
            return Err(ShuffleError::InvalidRange);
        }
        RangeIterUsize::new(self, usize::MIN, range.end - 1)
    }
}

/// One session over the inclusive range `{offset, ..., offset + max}`
/// of `i8` values, in random order.
pub struct RangeIterI8 {
    /// The engine driving the walk over `{0, ..., max}`.
    pub iter: ShuffledIter,
    /// The range's lower bound, added to every engine output.
    pub offset: i8,
}

impl RangeIterI8 {
    /// The engine is well-formed and every offset value fits the type.
    pub open spec fn wf(self) -> bool {
        &&& self.iter.wf()
        &&& self.iter.max + self.offset <= i8::MAX
    }

    /// A session over `{min, ..., max}`, both bounds inclusive.
    pub fn new<R: rand::Rng>(rng: &mut R, min: i8, max: i8) -> (r: Result<RangeIterI8, ShuffleError>)
        ensures
            (r is Err ==> *final(rng) == *old(rng)),
            min > max ==> r == Err::<RangeIterI8, ShuffleError>(ShuffleError::InvalidRange),
            (min <= max && max - min > 0xffff_ffff) ==> r == Err::<RangeIterI8, ShuffleError>(
                ShuffleError::RangeTooLarge,
            ),
            (min <= max && max - min <= 0xffff_ffff) ==> (r matches Ok(it) && it.wf()
                && it.offset == min && it.iter.max == max - min && it.iter.count == 0
                && !it.iter.done),
    {
        if min > max {
            return Err(ShuffleError::InvalidRange);
        }
        let span: u64 = ((max as i64) - (min as i64)) as u64;
        if span > 0xffff_ffffu64 {
            return Err(ShuffleError::RangeTooLarge);
        }
        Ok(RangeIterI8 { iter: ShuffledIter::new(span as u32, rng), offset: min })
    }

    /// The next value of the range, or exhaustion: exactly what the
    /// engine's `step` model dictates, shifted by the offset.
    pub fn next(&mut self) -> (r: Option<i8>)
        requires
            old(self).wf(),
        ensures
            final(self).wf(),
            final(self).offset == old(self).offset,
            final(self).iter == step(old(self).iter).0,
            (match step(old(self).iter).1 {
                Option::Some(u) => r == Some((old(self).offset + u) as i8),
                Option::None => r == None::<i8>,
            }),
    {
        match self.iter.next() {
            Option::Some(u) => Some((((self.offset as i64) + (u as i64)) as i8)),
            Option::None => None,
        }
    }
}

impl ShuffledIterGen<Range<i8>> for rand::rngs::StdRng {
    type Iter = RangeIterI8;

    fn iter_shuffled(&mut self, range: Range<i8>) -> (r: Result<RangeIterI8, ShuffleError>)
        ensures
            range.end <= range.start ==> (r == Err::<RangeIterI8, ShuffleError>(
                ShuffleError::InvalidRange,
            ) && *final(self) == *old(self)),
            (range.start < range.end && range.end - 1 - range.start > 0xffff_ffff) ==> (r
                == Err::<RangeIterI8, ShuffleError>(ShuffleError::RangeTooLarge) && *final(self)
                == *old(self)),
            (range.start < range.end && range.end - 1 - range.start <= 0xffff_ffff) ==> (r matches
                Ok(it) && it.wf() && it.offset == range.start && it.iter.max == range.end - 1
                - range.start && it.iter.count == 0 && !it.iter.done),
    {
        if range.end <= range.start {
            return Err(ShuffleError::InvalidRange);
        }
        RangeIterI8::new(self, range.start, range.end - 1)
    }
}

impl ShuffledIterGen<RangeFrom<i8>> for rand::rngs::StdRng {
    type Iter = RangeIterI8;

    fn iter_shuffled(&mut self, range: RangeFrom<i8>) -> (r: Result<RangeIterI8, ShuffleError>)
        ensures
            i8::MAX - range.start > 0xffff_ffff ==> (r == Err::<RangeIterI8, ShuffleError>(
                ShuffleError::RangeTooLarge,
            ) && *final(self) == *old(self)),
            i8::MAX - range.start <= 0xffff_ffff ==> (r matches Ok(it) && it.wf() && it.offset
                == range.start && it.iter.max == i8::MAX - range.start && it.iter.count == 0
                && !it.iter.done),
    {
        RangeIterI8::new(self, range.start, i8::MAX)
    }
}

impl ShuffledIterGen<RangeTo<i8>> for rand::rngs::StdRng {
    type Iter = RangeIterI8;

    fn iter_shuffled(&mut self, range: RangeTo<i8>) -> (r: Result<RangeIterI8, ShuffleError>)
        ensures
            range.end == i8::MIN ==> (r == Err::<RangeIterI8, ShuffleError>(ShuffleError::InvalidRange)
                && *final(self) == *old(self)),
            (range.end != i8::MIN && range.end - 1 - i8::MIN > 0xffff_ffff) ==> (r == Err::<
                RangeIterI8,
                ShuffleError,
            >(ShuffleError::RangeTooLarge) && *final(self) == *old(self)),
            (range.end != i8::MIN && range.end - 1 - i8::MIN <= 0xffff_ffff) ==> (r matches
                Ok(it) && it.wf() && it.offset == i8::MIN && it.iter.max == range.end - 1
                - i8::MIN && it.iter.count == 0 && !it.iter.done),
    {
        if range.end == i8::MIN {
            return Err(ShuffleError::InvalidRange);
        }
        RangeIterI8::new(self, i8::MIN, range.end - 1)
    }
}

/// One session over the inclusive range `{offset, ..., offset + max}`
/// of `i16` values, in random order.
pub struct RangeIterI16 {
    /// The engine driving the walk over `{0, ..., max}`.
    pub iter: ShuffledIter,
    /// The range's lower bound, added to every engine output.
    pub offset: i16,
}

impl RangeIterI16 {
    /// The engine is well-formed and every offset value fits the type.
    pub open spec fn wf(self) -> bool {
        &&& self.iter.wf()
        &&& self.iter.max + self.offset <= i16::MAX
    }

    /// A session over `{min, ..., max}`, both bounds inclusive.
    pub fn new<R: rand::Rng>(rng: &mut R, min: i16, max: i16) -> (r: Result<RangeIterI16, ShuffleError>)
        ensures
            (r is Err ==> *final(rng) == *old(rng)),
            min > max ==> r == Err::<RangeIterI16, ShuffleError>(ShuffleError::InvalidRange),
            (min <= max && max - min > 0xffff_ffff) ==> r == Err::<RangeIterI16, ShuffleError>(
                ShuffleError::RangeTooLarge,
            ),
            (min <= max && max - min <= 0xffff_ffff) ==> (r matches Ok(it) && it.wf()
                && it.offset == min && it.iter.max == max - min && it.iter.count == 0
                && !it.iter.done),
    {
        if min > max {
            return Err(ShuffleError::InvalidRange);
        }
        let span: u64 = ((max as i64) - (min as i64)) as u64;
        if span > 0xffff_ffffu64 {
            return Err(ShuffleError::RangeTooLarge);
        }
        Ok(RangeIterI16 { iter: ShuffledIter::new(span as u32, rng), offset: min })
    }

    /// The next value of the range, or exhaustion: exactly what the
    /// engine's `step` model dictates, shifted by the offset.
    pub fn next(&mut self) -> (r: Option<i16>)
        requires
            old(self).wf(),
        ensures
            final(self).wf(),
            final(self).offset == old(self).offset,
            final(self).iter == step(old(self).iter).0,
            (match step(old(self).iter).1 {
                Option::Some(u) => r == Some((old(self).offset + u) as i16),
                Option::None => r == None::<i16>,
            }),
    {
        match self.iter.next() {
            Option::Some(u) => Some((((self.offset as i64) + (u as i64)) as i16)),
            Option::None => None,
        }
    }
}

impl ShuffledIterGen<Range<i16>> for rand::rngs::StdRng {
    type Iter = RangeIterI16;

    fn iter_shuffled(&mut self, range: Range<i16>) -> (r: Result<RangeIterI16, ShuffleError>)
        ensures
            range.end <= range.start ==> (r == Err::<RangeIterI16, ShuffleError>(
                ShuffleError::InvalidRange,
            ) && *final(self) == *old(self)),
            (range.start < range.end && range.end - 1 - range.start > 0xffff_ffff) ==> (r
                == Err::<RangeIterI16, ShuffleError>(ShuffleError::RangeTooLarge) && *final(self)
                == *old(self)),
            (range.start < range.end && range.end - 1 - range.start <= 0xffff_ffff) ==> (r matches
                Ok(it) && it.wf() && it.offset == range.start && it.iter.max == range.end - 1
                - range.start && it.iter.count == 0 && !it.iter.done),
    {
        if range.end <= range.start {
            return Err(ShuffleError::InvalidRange);
        }
        RangeIterI16::new(self, range.start, range.end - 1)
    }
}

impl ShuffledIterGen<RangeFrom<i16>> for rand::rngs::StdRng {
    type Iter = RangeIterI16;

    fn iter_shuffled(&mut self, range: RangeFrom<i16>) -> (r: Result<RangeIterI16, ShuffleError>)
        ensures
            i16::MAX - range.start > 0xffff_ffff ==> (r == Err::<RangeIterI16, ShuffleError>(
                ShuffleError::RangeTooLarge,
            ) && *final(self) == *old(self)),
            i16::MAX - range.start <= 0xffff_ffff ==> (r matches Ok(it) && it.wf() && it.offset
                == range.start && it.iter.max == i16::MAX - range.start && it.iter.count == 0
                && !it.iter.done),
    {
        RangeIterI16::new(self, range.start, i16::MAX)
    }
}

impl ShuffledIterGen<RangeTo<i16>> for rand::rngs::StdRng {
    type Iter = RangeIterI16;

    fn iter_shuffled(&mut self, range: RangeTo<i16>) -> (r: Result<RangeIterI16, ShuffleError>)
        ensures
            range.end == i16::MIN ==> (r == Err::<RangeIterI16, ShuffleError>(ShuffleError::InvalidRange)
                && *final(self) == *old(self)),
            (range.end != i16::MIN && range.end - 1 - i16::MIN > 0xffff_ffff) ==> (r == Err::<
                RangeIterI16,
                ShuffleError,
            >(ShuffleError::RangeTooLarge) && *final(self) == *old(self)),
            (range.end != i16::MIN && range.end - 1 - i16::MIN <= 0xffff_ffff) ==> (r matches
                Ok(it) && it.wf() && it.offset == i16::MIN && it.iter.max == range.end - 1
                - i16::MIN && it.iter.count == 0 && !it.iter.done),
    {
        if range.end == i16::MIN {
            return Err(ShuffleError::InvalidRange);
        }
        RangeIterI16::new(self, i16::MIN, range.end - 1)
    }
}

/// One session over the inclusive range `{offset, ..., offset + max}`
/// of `i32` values, in random order.
pub struct RangeIterI32 {
    /// The engine driving the walk over `{0, ..., max}`.
    pub iter: ShuffledIter,
    /// The range's lower bound, added to every engine output.
    pub offset: i32,
}

impl RangeIterI32 {
    /// The engine is well-formed and every offset value fits the type.
    pub open spec fn wf(self) -> bool {
        &&& self.iter.wf()
        &&& self.iter.max + self.offset <= i32::MAX
    }

    /// A session over `{min, ..., max}`, both bounds inclusive.
    pub fn new<R: rand::Rng>(rng: &mut R, min: i32, max: i32) -> (r: Result<RangeIterI32, ShuffleError>)
        ensures
            (r is Err ==> *final(rng) == *old(rng)),
            min > max ==> r == Err::<RangeIterI32, ShuffleError>(ShuffleError::InvalidRange),
            (min <= max && max - min > 0xffff_ffff) ==> r == Err::<RangeIterI32, ShuffleError>(
                ShuffleError::RangeTooLarge,
            ),
            (min <= max && max - min <= 0xffff_ffff) ==> (r matches Ok(it) && it.wf()
                && it.offset == min && it.iter.max == max - min && it.iter.count == 0
                && !it.iter.done),
    {
        if min > max {
            return Err(ShuffleError::InvalidRange);
        }
        let span: u64 = ((max as i64) - (min as i64)) as u64;
        if span > 0xffff_ffffu64 {
            return Err(ShuffleError::RangeTooLarge);
        }
        Ok(RangeIterI32 { iter: ShuffledIter::new(span as u32, rng), offset: min })
    }

    /// The next value of the range, or exhaustion: exactly what the
    /// engine's `step` model dictates, shifted by the offset.
    pub fn next(&mut self) -> (r: Option<i32>)
        requires
            old(self).wf(),
        ensures
            final(self).wf(),
            final(self).offset == old(self).offset,
            final(self).iter == step(old(self).iter).0,
            (match step(old(self).iter).1 {
                Option::Some(u) => r == Some((old(self).offset + u) as i32),
                Option::None => r == None::<i32>,
            }),
    {
        match self.iter.next() {
            Option::Some(u) => Some((((self.offset as i64) + (u as i64)) as i32)),
            Option::None => None,
        }
    }
}

impl ShuffledIterGen<Range<i32>> for rand::rngs::StdRng {
    type Iter = RangeIterI32;

    fn iter_shuffled(&mut self, range: Range<i32>) -> (r: Result<RangeIterI32, ShuffleError>)
        ensures
            range.end <= range.start ==> (r == Err::<RangeIterI32, ShuffleError>(
                ShuffleError::InvalidRange,
            ) && *final(self) == *old(self)),
            (range.start < range.end && range.end - 1 - range.start > 0xffff_ffff) ==> (r
                == Err::<RangeIterI32, ShuffleError>(ShuffleError::RangeTooLarge) && *final(self)
                == *old(self)),
            (range.start < range.end && range.end - 1 - range.start <= 0xffff_ffff) ==> (r matches
                Ok(it) && it.wf() && it.offset == range.start && it.iter.max == range.end - 1
                - range.start && it.iter.count == 0 && !it.iter.done),
    {
        if range.end <= range.start {
            return Err(ShuffleError::InvalidRange);
        }
        RangeIterI32::new(self, range.start, range.end - 1)
    }
}

impl ShuffledIterGen<RangeFrom<i32>> for rand::rngs::StdRng {
    type Iter = RangeIterI32;

    fn iter_shuffled(&mut self, range: RangeFrom<i32>) -> (r: Result<RangeIterI32, ShuffleError>)
        ensures
            i32::MAX - range.start > 0xffff_ffff ==> (r == Err::<RangeIterI32, ShuffleError>(
                ShuffleError::RangeTooLarge,
            ) && *final(self) == *old(self)),
            i32::MAX - range.start <= 0xffff_ffff ==> (r matches Ok(it) && it.wf() && it.offset
                == range.start && it.iter.max == i32::MAX - range.start && it.iter.count == 0
                && !it.iter.done),
    {
        RangeIterI32::new(self, range.start, i32::MAX)
    }
}

impl ShuffledIterGen<RangeTo<i32>> for rand::rngs::StdRng {
    type Iter = RangeIterI32;

    fn iter_shuffled(&mut self, range: RangeTo<i32>) -> (r: Result<RangeIterI32, ShuffleError>)
        ensures
            range.end == i32::MIN ==> (r == Err::<RangeIterI32, ShuffleError>(ShuffleError::InvalidRange)
                && *final(self) == *old(self)),
            (range.end != i32::MIN && range.end - 1 - i32::MIN > 0xffff_ffff) ==> (r == Err::<
                RangeIterI32,
                ShuffleError,
            >(ShuffleError::RangeTooLarge) && *final(self) == *old(self)),
            (range.end != i32::MIN && range.end - 1 - i32::MIN <= 0xffff_ffff) ==> (r matches
                Ok(it) && it.wf() && it.offset == i32::MIN && it.iter.max == range.end - 1
                - i32::MIN && it.iter.count == 0 && !it.iter.done),
    {
        if range.end == i32::MIN {
            return Err(ShuffleError::InvalidRange);
        }
        RangeIterI32::new(self, i32::MIN, range.end - 1)
    }
}

/// One session over the inclusive range `{offset, ..., offset + max}`
/// of `i64` values, in random order.
pub struct RangeIterI64 {
    /// The engine driving the walk over `{0, ..., max}`.
    pub iter: ShuffledIter,
    /// The range's lower bound, added to every engine output.
    pub offset: i64,
}

impl RangeIterI64 {
    /// The engine is well-formed and every offset value fits the type.
    pub open spec fn wf(self) -> bool {
        &&& self.iter.wf()
        &&& self.iter.max + self.offset <= i64::MAX
    }

    /// A session over `{min, ..., max}`, both bounds inclusive.
    pub fn new<R: rand::Rng>(rng: &mut R, min: i64, max: i64) -> (r: Result<RangeIterI64, ShuffleError>)
        ensures
            (r is Err ==> *final(rng) == *old(rng)),
            min > max ==> r == Err::<RangeIterI64, ShuffleError>(ShuffleError::InvalidRange),
            (min <= max && max - min > 0xffff_ffff) ==> r == Err::<RangeIterI64, ShuffleError>(
                ShuffleError::RangeTooLarge,
            ),
            (min <= max && max - min <= 0xffff_ffff) ==> (r matches Ok(it) && it.wf()
                && it.offset == min && it.iter.max == max - min && it.iter.count == 0
                && !it.iter.done),
    {
        if min > max {
            return Err(ShuffleError::InvalidRange);
        }
        let span: u64 = if min < 0 && max >= 0 {
            (max as u64) + ((-(min + 1)) as u64) + 1
        } else {
            ((max as i64) - (min as i64)) as u64
        };
        if span > 0xffff_ffffu64 {
            return Err(ShuffleError::RangeTooLarge);
        }
        Ok(RangeIterI64 { iter: ShuffledIter::new(span as u32, rng), offset: min })
    }

    /// The next value of the range, or exhaustion: exactly what the
    /// engine's `step` model dictates, shifted by the offset.
    pub fn next(&mut self) -> (r: Option<i64>)
        requires
            old(self).wf(),
        ensures
            final(self).wf(),
            final(self).offset == old(self).offset,
            final(self).iter == step(old(self).iter).0,
            (match step(old(self).iter).1 {
                Option::Some(u) => r == Some((old(self).offset + u) as i64),
                Option::None => r == None::<i64>,
            }),
    {
        match self.iter.next() {
            Option::Some(u) => Some((((self.offset as i64) + (u as i64)) as i64)),
            Option::None => None,
        }
    }
}

impl ShuffledIterGen<Range<i64>> for rand::rngs::StdRng {
    type Iter = RangeIterI64;

    fn iter_shuffled(&mut self, range: Range<i64>) -> (r: Result<RangeIterI64, ShuffleError>)
        ensures
            range.end <= range.start ==> (r == Err::<RangeIterI64, ShuffleError>(
                ShuffleError::InvalidRange,
            ) && *final(self) == *old(self)),
            (range.start < range.end && range.end - 1 - range.start > 0xffff_ffff) ==> (r
                == Err::<RangeIterI64, ShuffleError>(ShuffleError::RangeTooLarge) && *final(self)
                == *old(self)),
            (range.start < range.end && range.end - 1 - range.start <= 0xffff_ffff) ==> (r matches
                Ok(it) && it.wf() && it.offset == range.start && it.iter.max == range.end - 1
                - range.start && it.iter.count == 0 && !it.iter.done),
    {
        if range.end <= range.start {
            return Err(ShuffleError::InvalidRange);
        }
        RangeIterI64::new(self, range.start, range.end - 1)
    }
}

impl ShuffledIterGen<RangeFrom<i64>> for rand::rngs::StdRng {
    type Iter = RangeIterI64;

    fn iter_shuffled(&mut self, range: RangeFrom<i64>) -> (r: Result<RangeIterI64, ShuffleError>)
        ensures
            i64::MAX - range.start > 0xffff_ffff ==> (r == Err::<RangeIterI64, ShuffleError>(
                ShuffleError::RangeTooLarge,
            ) && *final(self) == *old(self)),
            i64::MAX - range.start <= 0xffff_ffff ==> (r matches Ok(it) && it.wf() && it.offset
                == range.start && it.iter.max == i64::MAX - range.start && it.iter.count == 0
                && !it.iter.done),
    {
        RangeIterI64::new(self, range.start, i64::MAX)
    }
}

impl ShuffledIterGen<RangeTo<i64>> for rand::rngs::StdRng {
    type Iter = RangeIterI64;

    fn iter_shuffled(&mut self, range: RangeTo<i64>) -> (r: Result<RangeIterI64, ShuffleError>)
        ensures
            range.end == i64::MIN ==> (r == Err::<RangeIterI64, ShuffleError>(ShuffleError::InvalidRange)
                && *final(self) == *old(self)),
            (range.end != i64::MIN && range.end - 1 - i64::MIN > 0xffff_ffff) ==> (r == Err::<
                RangeIterI64,
                ShuffleError,
            >(ShuffleError::RangeTooLarge) && *final(self) == *old(self)),
            (range.end != i64::MIN && range.end - 1 - i64::MIN <= 0xffff_ffff) ==> (r matches
                Ok(it) && it.wf() && it.offset == i64::MIN && it.iter.max == range.end - 1
                - i64::MIN && it.iter.count == 0 && !it.iter.done),
    {
        if range.end == i64::MIN {
            return Err(ShuffleError::InvalidRange);
        }
        RangeIterI64::new(self, i64::MIN, range.end - 1)
    }
}

/// One session over the inclusive range `{offset, ..., offset + max}`
/// of `isize` values, in random order.
pub struct RangeIterIsize {
    /// The engine driving the walk over `{0, ..., max}`.
    pub iter: ShuffledIter,
    /// The range's lower bound, added to every engine output.
    pub offset: isize,
}

impl RangeIterIsize {
    /// The engine is well-formed and every offset value fits the type.
    pub open spec fn wf(self) -> bool {
        &&& self.iter.wf()
        &&& self.iter.max + self.offset <= isize::MAX
    }

    /// A session over `{min, ..., max}`, both bounds inclusive.
    pub fn new<R: rand::Rng>(rng: &mut R, min: isize, max: isize) -> (r: Result<RangeIterIsize, ShuffleError>)
        ensures
            (r is Err ==> *final(rng) == *old(rng)),
            min > max ==> r == Err::<RangeIterIsize, ShuffleError>(ShuffleError::InvalidRange),
            (min <= max && max - min > 0xffff_ffff) ==> r == Err::<RangeIterIsize, ShuffleError>(
                ShuffleError::RangeTooLarge,
            ),
            (min <= max && max - min <= 0xffff_ffff) ==> (r matches Ok(it) && it.wf()
                && it.offset == min && it.iter.max == max - min && it.iter.count == 0
                && !it.iter.done),
    {
        if min > max {
            return Err(ShuffleError::InvalidRange);
        }
        let span: u64 = if min < 0 && max >= 0 {
            (max as u64) + ((-(min + 1)) as u64) + 1
        } else {
            ((max as i64) - (min as i64)) as u64
        };
        if span > 0xffff_ffffu64 {
            return Err(ShuffleError::RangeTooLarge);
        }
        Ok(RangeIterIsize { iter: ShuffledIter::new(span as u32, rng), offset: min })
    }

    /// The next value of the range, or exhaustion: exactly what the
    /// engine's `step` model dictates, shifted by the offset.
    pub fn next(&mut self) -> (r: Option<isize>)
        requires
            old(self).wf(),
        ensures
            final(self).wf(),
            final(self).offset == old(self).offset,
            final(self).iter == step(old(self).iter).0,
            (match step(old(self).iter).1 {
                Option::Some(u) => r == Some((old(self).offset + u) as isize),
                Option::None => r == None::<isize>,
            }),
    {
        match self.iter.next() {
            Option::Some(u) => Some((((self.offset as i64) + (u as i64)) as isize)),
            Option::None => None,
        }
    }
}

impl ShuffledIterGen<Range<isize>> for rand::rngs::StdRng {
    type Iter = RangeIterIsize;

    fn iter_shuffled(&mut self, range: Range<isize>) -> (r: Result<RangeIterIsize, ShuffleError>)
        ensures
            range.end <= range.start ==> (r == Err::<RangeIterIsize, ShuffleError>(
                ShuffleError::InvalidRange,
            ) && *final(self) == *old(self)),
            (range.start < range.end && range.end - 1 - range.start > 0xffff_ffff) ==> (r
                == Err::<RangeIterIsize, ShuffleError>(ShuffleError::RangeTooLarge) && *final(self)
                == *old(self)),
            (range.start < range.end && range.end - 1 - range.start <= 0xffff_ffff) ==> (r matches
                Ok(it) && it.wf() && it.offset == range.start && it.iter.max == range.end - 1
                - range.start && it.iter.count == 0 && !it.iter.done),
    {
        if range.end <= range.start {
            return Err(ShuffleError::InvalidRange);
        }
        RangeIterIsize::new(self, range.start, range.end - 1)
    }
}

impl ShuffledIterGen<RangeFrom<isize>> for rand::rngs::StdRng {
    type Iter = RangeIterIsize;

    fn iter_shuffled(&mut self, range: RangeFrom<isize>) -> (r: Result<RangeIterIsize, ShuffleError>)
        ensures
            isize::MAX - range.start > 0xffff_ffff ==> (r == Err::<RangeIterIsize, ShuffleError>(
                ShuffleError::RangeTooLarge,
            ) && *final(self) == *old(self)),
            isize::MAX - range.start <= 0xffff_ffff ==> (r matches Ok(it) && it.wf() && it.offset
                == range.start && it.iter.max == isize::MAX - range.start && it.iter.count == 0
                && !it.iter.done),
    {
        RangeIterIsize::new(self, range.start, isize::MAX)
    }
}

impl ShuffledIterGen<RangeTo<isize>> for rand::rngs::StdRng {
    type Iter = RangeIterIsize;

    fn iter_shuffled(&mut self, range: RangeTo<isize>) -> (r: Result<RangeIterIsize, ShuffleError>)
        ensures
            range.end == isize::MIN ==> (r == Err::<RangeIterIsize, ShuffleError>(ShuffleError::InvalidRange)
                && *final(self) == *old(self)),
            (range.end != isize::MIN && range.end - 1 - isize::MIN > 0xffff_ffff) ==> (r == Err::<
                RangeIterIsize,
                ShuffleError,
            >(ShuffleError::RangeTooLarge) && *final(self) == *old(self)),
            (range.end != isize::MIN && range.end - 1 - isize::MIN <= 0xffff_ffff) ==> (r matches
                Ok(it) && it.wf() && it.offset == isize::MIN && it.iter.max == range.end - 1
                - isize::MIN && it.iter.count == 0 && !it.iter.done),
    {
        if range.end == isize::MIN {
            return Err(ShuffleError::InvalidRange);
        }
        RangeIterIsize::new(self, isize::MIN, range.end - 1)
    }
}

/// One session over the elements of a borrowed slice, in random order.
pub struct Slice<'a, T> {
    /// The engine driving the walk over the slice's indices.
    pub iter: ShuffledIter,
    /// The borrowed elements; never mutated through this session.
    pub slice: &'a [T],
}

impl<'a, T> Slice<'a, T> {
    /// The engine is sized exactly to the slice: one index per element.
    pub open spec fn wf(self) -> bool {
        &&& self.iter.wf()
        &&& self.slice@.len() == self.iter.max + 1
    }

    /// A session over all elements of `slice`.
    pub fn new<R: rand::Rng>(rng: &mut R, slice: &'a [T]) -> (r: Result<Slice<'a, T>, ShuffleError>)
        ensures
            (r is Err ==> *final(rng) == *old(rng)),
            slice@.len() == 0 ==> (r matches Err(e) && e == ShuffleError::EmptySequence),
            slice@.len() > 0x1_0000_0000 ==> (r matches Err(e) && e
                == ShuffleError::SequenceTooLarge),
            (0 < slice@.len() <= 0x1_0000_0000) ==> (r matches Ok(it) && it.wf() && it.slice@
                == slice@ && it.iter.max == slice@.len() - 1 && it.iter.count == 0
                && !it.iter.done),
    {
        let len = slice.len();
        if len == 0 {
            return Err(ShuffleError::EmptySequence);
        }
        if (len as u64) > 0x1_0000_0000u64 {
            return Err(ShuffleError::SequenceTooLarge);
        }
        Ok(Slice { iter: ShuffledIter::new((len - 1) as u32, rng), slice })
    }

    /// A reference to the next element of the permutation, or
    /// exhaustion: the engine picks the index, the slice supplies the
    /// element.
    pub fn next(&mut self) -> (r: Option<&'a T>)
        requires
            old(self).wf(),
        ensures
            final(self).wf(),
            final(self).slice@ == old(self).slice@,
            final(self).iter == step(old(self).iter).0,
            (match step(old(self).iter).1 {
                Option::Some(u) => (r matches Some(x) && *x == old(self).slice@[u as int]),
                Option::None => r is None,
            }),
    {
        match self.iter.next() {
            Option::Some(u) => Some(vstd::slice::slice_index_get(self.slice, u as usize)),
            Option::None => None,
        }
    }
}

impl<'a, T> ShuffledIterGen<&'a [T]> for rand::rngs::StdRng {
    type Iter = Slice<'a, T>;

    fn iter_shuffled(&mut self, slice: &'a [T]) -> (r: Result<Slice<'a, T>, ShuffleError>)
        ensures
            slice@.len() == 0 ==> (r matches Err(e) && e == ShuffleError::EmptySequence
                && *final(self) == *old(self)),
            slice@.len() > 0x1_0000_0000 ==> (r matches Err(e) && e
                == ShuffleError::SequenceTooLarge && *final(self) == *old(self)),
            (0 < slice@.len() <= 0x1_0000_0000) ==> (r matches Ok(it) && it.wf() && it.slice@
                == slice@ && it.iter.max == slice@.len() - 1 && it.iter.count == 0
                && !it.iter.done),
    {
        Slice::new(self, slice)
    }
}

/// The engine's outputs shifted by a range's lower bound.
pub open spec fn offset_values(vals: Seq<u32>, off: int) -> Seq<int> {
    vals.map_values(|u: u32| off + u)
}

/// Range offset law: offsetting a fresh engine's drain by a lower
/// bound `off` yields exactly the integers of `[off, off + max]`, each
/// exactly once — what draining a bounded range adapter emits.
pub proof fn theorem_range_offset(s: ShuffledIter, off: int)
    requires
        s.wf(),
        s.count == 0,
        !s.done,
    ensures
        offset_values(drain(s), off).len() == s.max + 1,
        offset_values(drain(s), off).no_duplicates(),
        forall|x: int| #[trigger] offset_values(drain(s), off).contains(x) <==> off <= x <= off
            + s.max,
{
    theorem_drain_bijection(s);
    let ds = drain(s);
    let mp = offset_values(ds, off);
    assert forall|x: int| #[trigger] mp.contains(x) implies off <= x <= off + s.max by {
        let k = choose|k: int| 0 <= k < mp.len() && mp[k] == x;
        assert(ds.contains(ds[k]));
    }
    assert forall|x: int| off <= x <= off + s.max implies #[trigger] mp.contains(x) by {
        let v = (x - off) as u32;
        assert(ds.contains(v));
        let k = choose|k: int| 0 <= k < ds.len() && ds[k] == v;
        assert(mp[k] == x);
    }
    assert forall|k1: int, k2: int| 0 <= k1 < k2 < mp.len() implies mp[k1] != mp[k2] by {
        assert(ds[k1] != ds[k2]);
    }
    assert(mp.no_duplicates());
}

/// Sequence index law: a fresh engine sized to a sequence of length
/// `len` yields every index below `len` exactly once, so the slice
/// adapter hands out a reference to every element exactly once.
pub proof fn theorem_sequence_indices(s: ShuffledIter, len: int)
    requires
        s.wf(),
        s.count == 0,
        !s.done,
        len == s.max + 1,
    ensures
        drain(s).len() == len,
        drain(s).no_duplicates(),
        forall|v: u32| drain(s).contains(v) <==> v < len,
{
    theorem_drain_bijection(s);
}

} // verus!
