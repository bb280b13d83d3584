//! Rank-1 update of a symmetric packed matrix.
use vstd::prelude::*;
use crate::level2::rank::{packed_updated, update_packed, Rank};
use crate::scalar::Scalar;
use crate::stride::spans;

verus! {

/// `A := alpha * x * x^T + A`.
pub trait Spr {
    type Output: Scalar;

    /// The elements of the matrix buffer.
    spec fn elems(&self) -> Seq<Self::Output>;

    /// `A` is of order `n`, its lower triangle packed row after row. Only the
    /// stored triangle is written: the entry `(i, j)`, `j <= i`, becomes `A(i,
    /// j) + (alpha * x(i)) * x(j)`.
    fn spr(
        &mut self,
        n: usize,
        alpha: Self::Output,
        x: &[Self::Output],
        incx: usize,
    )
        requires
            spans(x@.len() as int, n as int, incx as int),
            n * (n + 1) / 2 <= old(self).elems().len(),
        ensures
            packed_updated(
                Rank::Outer(alpha),
                old(self).elems(),
                final(self).elems(),
                n as int,
                x@,
                incx as int,
                x@,
                incx as int,
            ),
    ;
}

impl<T: Scalar> Spr for [T] {
    type Output = T;

    open spec fn elems(&self) -> Seq<T> {
        self@
    }

    fn spr(
        &mut self,
        n: usize,
        alpha: T,
        x: &[T],
        incx: usize,
    ) {
        update_packed(Rank::Outer(alpha), self, n, x, incx, x, incx);
    }
}

} // verus!
