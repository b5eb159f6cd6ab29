//! Floating-point values modelled by their bit patterns, with not-NaN
//! wrapper types of identical layout.
//!
//! A 32-bit (64-bit) floating-point value is a NaN exactly when its exponent
//! bits are all ones and its significand bits are not all zero. The types
//! here carry the raw bits, so the NaN predicate and every conversion are
//! exact bit-level functions; turning a float into its bits and back is left
//! to the caller.

use crate::maybe_nan::MaybeNan;
use crate::maybe_nan::MaybeNanValue;
use vstd::prelude::*;

verus! {

/// The exponent mask of a 32-bit float.
pub const F32_EXP_MASK: u32 = 0x7f80_0000;

/// The significand mask of a 32-bit float.
pub const F32_SIG_MASK: u32 = 0x007f_ffff;

/// The canonical quiet-NaN bit pattern of a 32-bit float.
pub const F32_NAN_BITS: u32 = 0x7fc0_0000;

/// The exponent mask of a 64-bit float.
pub const F64_EXP_MASK: u64 = 0x7ff0_0000_0000_0000;

/// The significand mask of a 64-bit float.
pub const F64_SIG_MASK: u64 = 0x000f_ffff_ffff_ffff;

/// The canonical quiet-NaN bit pattern of a 64-bit float.
pub const F64_NAN_BITS: u64 = 0x7ff8_0000_0000_0000;

/// Whether a 32-bit float bit pattern is a NaN.
pub open spec fn f32_bits_is_nan(bits: u32) -> bool {
    bits & F32_EXP_MASK == F32_EXP_MASK && bits & F32_SIG_MASK != 0
}

/// Whether a 64-bit float bit pattern is a NaN.
pub open spec fn f64_bits_is_nan(bits: u64) -> bool {
    bits & F64_EXP_MASK == F64_EXP_MASK && bits & F64_SIG_MASK != 0
}

/// A 32-bit floating-point value, held as its bit pattern; it may be a NaN.
#[derive(Clone, Copy, PartialEq, Eq, Structural, Debug)]
pub struct F32Bits {
    /// The raw bits of the value.
    pub bits: u32,
}

/// A 32-bit floating-point value, held as its bit pattern, that is
/// guaranteed not to be a NaN.
#[derive(Clone, Copy, PartialEq, Eq, Structural, Debug)]
pub struct N32Bits {
    bits: u32,
}

/// A 64-bit floating-point value, held as its bit pattern; it may be a NaN.
#[derive(Clone, Copy, PartialEq, Eq, Structural, Debug)]
pub struct F64Bits {
    /// The raw bits of the value.
    pub bits: u64,
}

/// A 64-bit floating-point value, held as its bit pattern, that is
/// guaranteed not to be a NaN.
#[derive(Clone, Copy, PartialEq, Eq, Structural, Debug)]
pub struct N64Bits {
    bits: u64,
}

impl N32Bits {
    /// The raw bits of the value.
    pub closed spec fn spec_bits(self) -> u32 {
        self.bits
    }

    #[verifier::type_invariant]
    spec fn inv(self) -> bool {
        !f32_bits_is_nan(self.bits)
    }

    /// Wraps a bit pattern that is known not to be a NaN.
    pub fn new(value: F32Bits) -> (r: N32Bits)
        requires
            !f32_bits_is_nan(value.bits),
        ensures
            r.spec_bits() == value.bits,
    {
        N32Bits { bits: value.bits }
    }

    /// Returns the raw bits of the value.
    pub fn bits(self) -> (r: u32)
        ensures
            r == self.spec_bits(),
            !f32_bits_is_nan(r),
    {
        proof {
            use_type_invariant(&self);
        }
        self.bits
    }

    /// Returns the value with its maybe-NaN type.
    pub fn raw(self) -> (r: F32Bits)
        ensures
            r.bits == self.spec_bits(),
            !f32_bits_is_nan(r.bits),
    {
        F32Bits { bits: self.bits() }
    }
}

impl N64Bits {
    /// The raw bits of the value.
    pub closed spec fn spec_bits(self) -> u64 {
        self.bits
    }

    #[verifier::type_invariant]
    spec fn inv(self) -> bool {
        !f64_bits_is_nan(self.bits)
    }

    /// Wraps a bit pattern that is known not to be a NaN.
    pub fn new(value: F64Bits) -> (r: N64Bits)
        requires
            !f64_bits_is_nan(value.bits),
        ensures
            r.spec_bits() == value.bits,
    {
        N64Bits { bits: value.bits }
    }

    /// Returns the raw bits of the value.
    pub fn bits(self) -> (r: u64)
        ensures
            r == self.spec_bits(),
            !f64_bits_is_nan(r),
    {
        proof {
            use_type_invariant(&self);
        }
        self.bits
    }

    /// Returns the value with its maybe-NaN type.
    pub fn raw(self) -> (r: F64Bits)
        ensures
            r.bits == self.spec_bits(),
            !f64_bits_is_nan(r.bits),
    {
        F64Bits { bits: self.bits() }
    }
}

impl MaybeNanValue for F32Bits {
    type NotNan = N32Bits;

    open spec fn spec_is_nan(&self) -> bool {
        f32_bits_is_nan(self.bits)
    }

    closed spec fn spec_not_nan(&self) -> N32Bits {
        N32Bits { bits: self.bits }
    }

    open spec fn not_nan_wf(w: N32Bits) -> bool {
        !f32_bits_is_nan(w.spec_bits())
    }

    open spec fn spec_from_not_nan(w: N32Bits) -> F32Bits {
        F32Bits { bits: w.spec_bits() }
    }

    open spec fn spec_nan() -> F32Bits {
        F32Bits { bits: F32_NAN_BITS }
    }

    proof fn lemma_round_trip(v: F32Bits) {
    }

    proof fn lemma_from_not_nan_wf(w: N32Bits) {
    }

    proof fn lemma_nan_is_nan() {
        assert(0x7fc0_0000u32 & 0x7f80_0000u32 == 0x7f80_0000u32
            && 0x7fc0_0000u32 & 0x007f_ffffu32 != 0u32) by (bit_vector);
    }

    fn is_nan(&self) -> (r: bool) {
        self.bits & F32_EXP_MASK == F32_EXP_MASK && self.bits & F32_SIG_MASK != 0
    }

    fn try_as_not_nan(&self) -> (r: Option<N32Bits>) {
        if self.is_nan() {
            None
        } else {
            Some(N32Bits { bits: self.bits })
        }
    }

    fn from_not_nan(value: N32Bits) -> (r: F32Bits) {
        value.raw()
    }

    fn from_not_nan_opt(value: Option<N32Bits>) -> (r: F32Bits) {
        match value {
            None => F32Bits { bits: F32_NAN_BITS },
            Some(num) => num.raw(),
        }
    }

    fn from_not_nan_ref_opt(value: Option<&N32Bits>) -> (r: F32Bits) {
        match value {
            None => F32Bits { bits: F32_NAN_BITS },
            Some(num) => (*num).raw(),
        }
    }
}

impl MaybeNan for F32Bits {
}

impl MaybeNanValue for F64Bits {
    type NotNan = N64Bits;

    open spec fn spec_is_nan(&self) -> bool {
        f64_bits_is_nan(self.bits)
    }

    closed spec fn spec_not_nan(&self) -> N64Bits {
        N64Bits { bits: self.bits }
    }

    open spec fn not_nan_wf(w: N64Bits) -> bool {
        !f64_bits_is_nan(w.spec_bits())
    }

    open spec fn spec_from_not_nan(w: N64Bits) -> F64Bits {
        F64Bits { bits: w.spec_bits() }
    }

    open spec fn spec_nan() -> F64Bits {
        F64Bits { bits: F64_NAN_BITS }
    }

    proof fn lemma_round_trip(v: F64Bits) {
    }

    proof fn lemma_from_not_nan_wf(w: N64Bits) {
    }

    proof fn lemma_nan_is_nan() {
        assert(0x7ff8_0000_0000_0000u64 & 0x7ff0_0000_0000_0000u64 == 0x7ff0_0000_0000_0000u64
            && 0x7ff8_0000_0000_0000u64 & 0x000f_ffff_ffff_ffffu64 != 0u64) by (bit_vector);
    }

    fn is_nan(&self) -> (r: bool) {
        self.bits & F64_EXP_MASK == F64_EXP_MASK && self.bits & F64_SIG_MASK != 0
    }

    fn try_as_not_nan(&self) -> (r: Option<N64Bits>) {
        if self.is_nan() {
            None
        } else {
            Some(N64Bits { bits: self.bits })
        }
    }

    fn from_not_nan(value: N64Bits) -> (r: F64Bits) {
        value.raw()
    }

    fn from_not_nan_opt(value: Option<N64Bits>) -> (r: F64Bits) {
        match value {
            None => F64Bits { bits: F64_NAN_BITS },
            Some(num) => num.raw(),
        }
    }

    fn from_not_nan_ref_opt(value: Option<&N64Bits>) -> (r: F64Bits) {
        match value {
            None => F64Bits { bits: F64_NAN_BITS },
            Some(num) => (*num).raw(),
        }
    }
}

impl MaybeNan for F64Bits {
}

} // verus!
