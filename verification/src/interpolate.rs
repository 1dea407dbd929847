use vstd::prelude::*;

verus! {

/// Values that can be blended between two endpoints.
///
/// The progress of a blend is the exact fraction `num / den` (with
/// `0 <= num <= den`, `den > 0`): `0` is `self`, `1` is `other`.
pub trait Interpolate: Sized {
    /// Blends `self` toward `other` by the fraction `num / den`.
    fn interpolate(&self, other: &Self, num: u128, den: u128) -> Self
        requires
            den > 0,
            num <= den,
    ;
}

/// `r` is a value that blending `a` toward `b` by `num / den` may return.
pub open spec fn interpolates_to<T: Interpolate>(a: T, b: T, num: nat, den: nat, r: T) -> bool {
    call_ensures(T::interpolate, (&a, &b, num as u128, den as u128), r)
}

/// Marker for every value type that a track can animate.
pub trait Animatable: Clone + Interpolate {

}

impl<T: Clone + Interpolate> Animatable for T {

}

} // verus!
