//! Rank-2 update of a symmetric matrix.
use vstd::prelude::*;
use crate::level2::rank::{dense_update, update_dense, Rank};
use crate::scalar::Scalar;
use crate::stride::spans;

verus! {

/// `A := alpha * (x * y^T + y * x^T) + A`.
pub trait Syr2 {
    type Output: Scalar;

    /// The elements of the matrix buffer.
    spec fn elems(&self) -> Seq<Self::Output>;

    /// `A` is of order `n` in dense row-major storage. Both triangles are
    /// updated: the entry `(i, j)` becomes `A(i, j) + alpha * (x(i) * y(j) +
    /// y(i) * x(j))`.
    fn syr2(
        &mut self,
        n: usize,
        alpha: Self::Output,
        x: &[Self::Output],
        y: &[Self::Output],
        incx: usize,
        incy: usize,
    )
        requires
            spans(x@.len() as int, n as int, incx as int),
            spans(y@.len() as int, n as int, incy as int),
        ensures
            final(self).elems() == dense_update(
                Rank::Symmetric2(alpha),
                old(self).elems(),
                n as int,
                n as int,
                x@,
                incx as int,
                y@,
                incy as int,
            ),
    ;
}

impl<T: Scalar> Syr2 for [T] {
    type Output = T;

    open spec fn elems(&self) -> Seq<T> {
        self@
    }

    fn syr2(
        &mut self,
        n: usize,
        alpha: T,
        x: &[T],
        y: &[T],
        incx: usize,
        incy: usize,
    ) {
        update_dense(Rank::Symmetric2(alpha), self, n, n, x, incx, y, incy);
    }
}

} // verus!
