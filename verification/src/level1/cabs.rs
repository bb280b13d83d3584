//! Magnitude of a complex number as the sum of the magnitudes of its parts.
use vstd::prelude::*;
use crate::scalar::Scalar;

verus! {

/// `|re| + |im|`, the magnitude that sums of magnitudes and extremal
/// searches use in place of the Euclidean modulus.
pub trait Cabs {
    type Output;

    /// The magnitude that [`Cabs::cabs`] returns.
    spec fn cabs_spec(&self) -> Self::Output;

    fn cabs(&self) -> (r: Self::Output)
        ensures
            r == self.cabs_spec(),
    ;
}

impl<T: Scalar> Cabs for T {
    type Output = T::Real;

    open spec fn cabs_spec(&self) -> T::Real {
        self.abs1_spec()
    }

    fn cabs(&self) -> (r: T::Real) {
        self.abs1()
    }
}

} // verus!
