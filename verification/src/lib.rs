//! NaN-aware utilities for one-dimensional sequences of values.
//!
//! A [`MaybeNan`] value type distinguishes a "not a number" (or absent) state
//! from ordinary values and names a companion type that is guaranteed never to
//! be in that state. On top of that capability the crate provides an in-place
//! partition that moves every non-NaN element of a vector to the front
//! ([`MaybeNan::remove_nan_mut`]) and a fold that visits only the non-NaN
//! elements.
//!
//! Floating-point values are handled through their bit patterns, so that the
//! NaN predicate and all conversions are exact bit-level functions; optional
//! discrete values use [`NotNone`], a wrapper whose invariant is that the
//! wrapped option is always present.

pub mod float_bits;
pub mod fold;
pub mod maybe_nan;
pub mod not_none;

pub use float_bits::F32Bits;
pub use float_bits::F64Bits;
pub use float_bits::N32Bits;
pub use float_bits::N64Bits;
pub use fold::MaybeNanExt;
pub use maybe_nan::MaybeNan;
pub use maybe_nan::MaybeNanValue;
pub use not_none::NotNone;
