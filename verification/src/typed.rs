//! Strongly typed wrappers around raw backend values.

use vstd::prelude::*;
use core::marker::PhantomData;

verus! {

/// A strong type around a raw value.
///
/// A type of this kind holds exactly one raw value. It is made from the raw
/// value, which is not examined, and gives read access to it; it offers no
/// way to change it.
pub trait Typed: Sized {
    /// The raw type behind the strong type.
    type Raw;

    /// The raw value that the typed value holds.
    spec fn spec_raw(&self) -> &Self::Raw;

    /// Wraps a raw value. Every raw value is accepted.
    fn new(raw: Self::Raw) -> (typed: Self)
        ensures
            *typed.raw() == raw,
    ;

    /// The raw value that the typed value holds.
    #[verifier::when_used_as_spec(spec_raw)]
    fn raw(&self) -> (raw: &Self::Raw)
        ensures
            raw == self.raw(),
    ;
}

/// A raw value of type `R` that stands for a resource of kind `K`.
///
/// The kind is a marker: no value of `K` is ever made, and two handles of
/// different kinds are different types though they hold the same raw type.
pub struct TypedHandle<R, K> {
    raw: R,
    kind: PhantomData<K>,
}

impl<R, K> Typed for TypedHandle<R, K> {
    type Raw = R;

    closed spec fn spec_raw(&self) -> &R {
        &self.raw
    }

    fn new(raw: R) -> (typed: Self) {
        TypedHandle { raw, kind: PhantomData }
    }

    fn raw(&self) -> (raw: &R) {
        &self.raw
    }
}

} // verus!
