//! Rank-1 update of a Hermitian packed matrix.
use vstd::prelude::*;
use crate::level2::rank::{packed_updated, update_packed, Rank};
use crate::scalar::Scalar;
use crate::stride::spans;

verus! {

/// `A := alpha * x * conj(x)^T + A`.
pub trait Hpr {
    type Output: Scalar;

    /// The elements of the matrix buffer.
    spec fn elems(&self) -> Seq<Self::Output>;

    /// `A` is of order `n`, its lower triangle packed row after row, and
    /// `alpha` is real. Only the stored triangle is written: a diagonal entry
    /// receives the real quantity `alpha * |x(i)|^2`, and an entry `(i, j)`
    /// with `j < i` becomes `A(i, j) + (alpha * x(i)) * conj(x(j))`.
    fn hpr(
        &mut self,
        n: usize,
        alpha: <Self::Output as Scalar>::Real,
        x: &[Self::Output],
        incx: usize,
    )
        requires
            spans(x@.len() as int, n as int, incx as int),
            n * (n + 1) / 2 <= old(self).elems().len(),
        ensures
            packed_updated(
                Rank::Hermitian(alpha),
                old(self).elems(),
                final(self).elems(),
                n as int,
                x@,
                incx as int,
                x@,
                incx as int,
            ),
    ;
}

impl<T: Scalar> Hpr for [T] {
    type Output = T;

    open spec fn elems(&self) -> Seq<T> {
        self@
    }

    fn hpr(
        &mut self,
        n: usize,
        alpha: T::Real,
        x: &[T],
        incx: usize,
    ) {
        update_packed(Rank::Hermitian(alpha), self, n, x, incx, x, incx);
    }
}

} // verus!
