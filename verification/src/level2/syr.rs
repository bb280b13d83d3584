//! Rank-1 update of a symmetric matrix.
use vstd::prelude::*;
use crate::level2::rank::{dense_update, update_dense, Rank};
use crate::scalar::Scalar;
use crate::stride::spans;

verus! {

/// `A := alpha * x * x^T + A`.
pub trait Syr {
    type Output: Scalar;

    /// The elements of the matrix buffer.
    spec fn elems(&self) -> Seq<Self::Output>;

    /// `A` is of order `n` in dense row-major storage. Both triangles are
    /// updated: the entry `(i, j)` becomes `A(i, j) + (alpha * x(i)) * x(j)`.
    fn syr(
        &mut self,
        n: usize,
        alpha: Self::Output,
        x: &[Self::Output],
        incx: usize,
    )
        requires
            spans(x@.len() as int, n as int, incx as int),
        ensures
            final(self).elems() == dense_update(
                Rank::Outer(alpha),
                old(self).elems(),
                n as int,
                n as int,
                x@,
                incx as int,
                x@,
                incx as int,
            ),
    ;
}

impl<T: Scalar> Syr for [T] {
    type Output = T;

    open spec fn elems(&self) -> Seq<T> {
        self@
    }

    fn syr(
        &mut self,
        n: usize,
        alpha: T,
        x: &[T],
        incx: usize,
    ) {
        update_dense(Rank::Outer(alpha), self, n, n, x, incx, x, incx);
    }
}

} // verus!
