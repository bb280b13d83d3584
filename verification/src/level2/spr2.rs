//! Rank-2 update of a symmetric packed matrix.
use vstd::prelude::*;
use crate::level2::rank::{packed_updated, update_packed, Rank};
use crate::scalar::Scalar;
use crate::stride::spans;

verus! {

/// `A := alpha * (x * y^T + y * x^T) + A`.
pub trait Spr2 {
    type Output: Scalar;

    /// The elements of the matrix buffer.
    spec fn elems(&self) -> Seq<Self::Output>;

    /// `A` is of order `n`, its lower triangle packed row after row. Only the
    /// stored triangle is written.
    fn spr2(
        &mut self,
        n: usize,
        alpha: Self::Output,
        x: &[Self::Output],
        y: &[Self::Output],
        incx: usize,
        incy: usize,
    )
        requires
            spans(x@.len() as int, n as int, incx as int),
            spans(y@.len() as int, n as int, incy as int),
            n * (n + 1) / 2 <= old(self).elems().len(),
        ensures
            packed_updated(
                Rank::Symmetric2(alpha),
                old(self).elems(),
                final(self).elems(),
                n as int,
                x@,
                incx as int,
                y@,
                incy as int,
            ),
    ;
}

impl<T: Scalar> Spr2 for [T] {
    type Output = T;

    open spec fn elems(&self) -> Seq<T> {
        self@
    }

    fn spr2(
        &mut self,
        n: usize,
        alpha: T,
        x: &[T],
        y: &[T],
        incx: usize,
        incy: usize,
    ) {
        update_packed(Rank::Symmetric2(alpha), self, n, x, incx, y, incy);
    }
}

} // verus!
