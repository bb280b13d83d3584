//! Hermitian band matrix-vector product.
use vstd::prelude::*;
use crate::layout::Layout;
use crate::level2::matvec::{matvec, product};
use crate::scalar::Scalar;
use crate::stride::spans;

verus! {

/// `y := alpha * A * x + beta * y` for a Hermitian band matrix.
pub trait Hbmv {
    type Output: Scalar;

    /// The elements of the matrix buffer.
    spec fn elems(&self) -> Seq<Self::Output>;

    /// `A` is of order `n` with `k` super-diagonals, in band storage whose
    /// diagonal is band row `k`. Only the diagonal and the super-diagonals are
    /// read; the sub-diagonals are their conjugates.
    fn hbmv(
        &self,
        n: usize,
        k: usize,
        alpha: Self::Output,
        x: &[Self::Output],
        beta: Self::Output,
        y: &mut [Self::Output],
        incx: usize,
        incy: usize,
    )
        requires
            incy > 0,
            spans(x@.len() as int, n as int, incx as int),
            spans(old(y)@.len() as int, n as int, incy as int),
        ensures
            final(y)@ == matvec(
                Layout::HermitianBand { k },
                self.elems(),
                n as int,
                n as int,
                alpha,
                x@,
                incx as int,
                beta,
                old(y)@,
                incy as int,
            ),
    ;
}

impl<T: Scalar> Hbmv for [T] {
    type Output = T;

    open spec fn elems(&self) -> Seq<T> {
        self@
    }

    fn hbmv(
        &self,
        n: usize,
        k: usize,
        alpha: T,
        x: &[T],
        beta: T,
        y: &mut [T],
        incx: usize,
        incy: usize,
    ) {
        product(Layout::HermitianBand { k }, self, n, n, alpha, x, incx, beta, y, incy);
    }
}

} // verus!
