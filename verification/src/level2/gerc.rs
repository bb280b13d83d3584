//! Conjugated rank-1 update of a general matrix.
use vstd::prelude::*;
use crate::level2::rank::{dense_update, update_dense, Rank};
use crate::scalar::Scalar;
use crate::stride::spans;

verus! {

/// `A := alpha * x * conj(y)^T + A`.
pub trait Gerc {
    type Output: Scalar;

    /// The elements of the matrix buffer.
    spec fn elems(&self) -> Seq<Self::Output>;

    /// `A` has `m` rows and `n` columns in dense row-major storage; `x` has `m`
    /// elements and `y` has `n`. The entry `(i, j)` becomes `A(i, j) + (alpha *
    /// x(i)) * conj(y(j))`.
    fn gerc(
        &mut self,
        m: usize,
        n: usize,
        alpha: Self::Output,
        x: &[Self::Output],
        y: &[Self::Output],
        incx: usize,
        incy: usize,
    )
        requires
            spans(x@.len() as int, m as int, incx as int),
            spans(y@.len() as int, n as int, incy as int),
        ensures
            final(self).elems() == dense_update(
                Rank::OuterConj(alpha),
                old(self).elems(),
                m as int,
                n as int,
                x@,
                incx as int,
                y@,
                incy as int,
            ),
    ;
}

impl<T: Scalar> Gerc for [T] {
    type Output = T;

    open spec fn elems(&self) -> Seq<T> {
        self@
    }

    fn gerc(
        &mut self,
        m: usize,
        n: usize,
        alpha: T,
        x: &[T],
        y: &[T],
        incx: usize,
        incy: usize,
    ) {
        update_dense(Rank::OuterConj(alpha), self, m, n, x, incx, y, incy);
    }
}

} // verus!
