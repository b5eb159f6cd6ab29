//! A wrapper around `Option` that guarantees the value is present, and the
//! maybe-NaN capability of optional discrete values, for which "NaN" means
//! "absent".

use crate::maybe_nan::MaybeNan;
use crate::maybe_nan::MaybeNanValue;
use vstd::prelude::*;

verus! {

/// A thin wrapper around `Option` that guarantees that the value is not
/// `None`.
#[derive(Copy)]
pub struct NotNone<T>(Option<T>);

impl<T: Copy> Clone for NotNone<T> {
    fn clone(&self) -> (r: Self)
        ensures
            r == *self,
    {
        *self
    }
}

impl<T> NotNone<T> {
    /// The wrapped option; always a `Some` value.
    pub closed spec fn spec_inner(self) -> Option<T> {
        self.0
    }

    #[verifier::type_invariant]
    spec fn inv(self) -> bool {
        self.0 is Some
    }

    /// Wraps a value that is known to be present.
    pub fn new(value: T) -> (r: NotNone<T>)
        ensures
            r.spec_inner() == Some(value),
    {
        NotNone(Some(value))
    }

    /// Wraps an optional value, refusing the absent state.
    pub fn try_new(value: Option<T>) -> (r: Option<NotNone<T>>)
        ensures
            match r {
                Some(w) => w.spec_inner() == value && value is Some,
                None => value is None,
            },
    {
        match value {
            Some(inner) => Some(NotNone(Some(inner))),
            None => None,
        }
    }

    /// Returns the underlying option.
    pub fn into_inner(self) -> (r: Option<T>)
        ensures
            r == self.spec_inner(),
            r is Some,
    {
        proof {
            use_type_invariant(&self);
        }
        self.0
    }

    /// Moves the value out of the inner option.
    ///
    /// This method is guaranteed not to panic: the type's invariant excludes
    /// the absent state.
    pub fn unwrap(self) -> (r: T)
        ensures
            Some(r) == self.spec_inner(),
    {
        proof {
            use_type_invariant(&self);
        }
        match self.0 {
            Some(inner) => inner,
            None => vstd::pervasive::unreached(),
        }
    }
}

impl<T: Copy> MaybeNanValue for Option<T> {
    type NotNan = NotNone<T>;

    open spec fn spec_is_nan(&self) -> bool {
        self is None
    }

    closed spec fn spec_not_nan(&self) -> NotNone<T> {
        NotNone(*self)
    }

    open spec fn not_nan_wf(w: NotNone<T>) -> bool {
        w.spec_inner() is Some
    }

    open spec fn spec_from_not_nan(w: NotNone<T>) -> Option<T> {
        w.spec_inner()
    }

    open spec fn spec_nan() -> Option<T> {
        None
    }

    proof fn lemma_round_trip(v: Option<T>) {
    }

    proof fn lemma_from_not_nan_wf(w: NotNone<T>) {
    }

    proof fn lemma_nan_is_nan() {
    }

    fn is_nan(&self) -> (r: bool) {
        self.is_none()
    }

    fn try_as_not_nan(&self) -> (r: Option<NotNone<T>>) {
        match self {
            Some(inner) => Some(NotNone(Some(*inner))),
            None => None,
        }
    }

    fn from_not_nan(value: NotNone<T>) -> (r: Option<T>) {
        value.into_inner()
    }

    fn from_not_nan_opt(value: Option<NotNone<T>>) -> (r: Option<T>) {
        match value {
            Some(w) => w.into_inner(),
            None => None,
        }
    }

    fn from_not_nan_ref_opt(value: Option<&NotNone<T>>) -> (r: Option<T>) {
        match value {
            Some(w) => (*w).into_inner(),
            None => None,
        }
    }
}

impl<T: Copy> MaybeNan for Option<T> {
}

} // verus!
