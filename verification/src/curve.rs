//! The group in which the hash takes its values, as the evaluator sees it.

use vstd::prelude::*;

verus! {

/// A group element as a plain value, together with the group's operations.
///
/// The hash needs little of its group: an identity, a sum of which the
/// identity is neutral, and a way to derive base elements from a seed. That
/// is all this trait asks for, so any type that offers it can carry the hash.
pub trait Curve: Sized + Copy {
    /// Whether the value is one that the arithmetic accepts and returns.
    spec fn valid(self) -> bool;

    /// The neutral element.
    spec fn identity() -> Self;

    /// The sum of two elements.
    spec fn sum(self, other: Self) -> Self;

    /// The base element derived from `seed` for position `index`.
    spec fn generator_at(seed: Seq<u8>, index: nat) -> Self;

    /// The identity is valid.
    proof fn identity_is_valid()
        ensures
            Self::identity().valid(),
    ;

    /// A sum of valid elements is valid.
    proof fn sum_is_valid(a: Self, b: Self)
        requires
            a.valid(),
            b.valid(),
        ensures
            a.sum(b).valid(),
    ;

    /// Every derived base element is valid.
    proof fn generator_is_valid(seed: Seq<u8>, index: nat)
        ensures
            Self::generator_at(seed, index).valid(),
    ;

    /// Adding the identity, on either side, changes nothing.
    proof fn identity_is_neutral(a: Self)
        requires
            a.valid(),
        ensures
            a.sum(Self::identity()) == a,
            Self::identity().sum(a) == a,
    ;

    /// Returns the neutral element.
    fn zero() -> (element: Self)
        ensures
            element == Self::identity(),
    ;

    /// Adds two elements.
    fn add(&self, other: &Self) -> (element: Self)
        requires
            self.valid(),
            other.valid(),
        ensures
            element == self.sum(*other),
    ;

    /// Derives the base element for position `index` from `seed`.
    fn generator(seed: &[u8], index: usize) -> (element: Self)
        ensures
            element == Self::generator_at(seed@, index as nat),
    ;
}

} // verus!
