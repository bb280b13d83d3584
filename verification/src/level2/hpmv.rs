//! Hermitian packed matrix-vector product.
use vstd::prelude::*;
use crate::layout::Layout;
use crate::level2::matvec::{matvec, product};
use crate::scalar::Scalar;
use crate::stride::spans;

verus! {

/// `y := alpha * A * x + beta * y` for a Hermitian matrix in packed storage.
pub trait Hpmv {
    type Output: Scalar;

    /// The elements of the matrix buffer.
    spec fn elems(&self) -> Seq<Self::Output>;

    /// `A` is of order `n`; its lower triangle is packed row after row, and the
    /// entries above the diagonal are the conjugates of their transposes.
    fn hpmv(
        &self,
        n: usize,
        alpha: Self::Output,
        x: &[Self::Output],
        beta: Self::Output,
        y: &mut [Self::Output],
        incx: usize,
        incy: usize,
    )
        requires
            incy > 0,
            spans(x@.len() as int, n as int, incx as int),
            spans(old(y)@.len() as int, n as int, incy as int),
            n * (n + 1) / 2 <= self.elems().len(),
        ensures
            final(y)@ == matvec(
                Layout::HermitianPacked,
                self.elems(),
                n as int,
                n as int,
                alpha,
                x@,
                incx as int,
                beta,
                old(y)@,
                incy as int,
            ),
    ;
}

impl<T: Scalar> Hpmv for [T] {
    type Output = T;

    open spec fn elems(&self) -> Seq<T> {
        self@
    }

    fn hpmv(
        &self,
        n: usize,
        alpha: T,
        x: &[T],
        beta: T,
        y: &mut [T],
        incx: usize,
        incy: usize,
    ) {
        product(Layout::HermitianPacked, self, n, n, alpha, x, incx, beta, y, incy);
    }
}

} // verus!
