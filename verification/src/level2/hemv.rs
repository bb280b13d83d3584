//! Hermitian matrix-vector product.
use vstd::prelude::*;
use crate::layout::Layout;
use crate::level2::matvec::{matvec, product};
use crate::scalar::Scalar;
use crate::stride::spans;

verus! {

/// `y := alpha * A * x + beta * y` for a Hermitian matrix in dense storage.
pub trait Hemv {
    type Output: Scalar;

    /// The elements of the matrix buffer.
    spec fn elems(&self) -> Seq<Self::Output>;

    /// `A` is of order `n`. Only its upper triangle is read: `A(i, j)` with
    /// `j < i` is the conjugate of `A(j, i)`.
    fn hemv(
        &self,
        n: usize,
        alpha: Self::Output,
        x: &[Self::Output],
        beta: Self::Output,
        y: &mut [Self::Output],
        incx: usize,
        incy: usize,
    )
        requires
            incy > 0,
            spans(x@.len() as int, n as int, incx as int),
            spans(old(y)@.len() as int, n as int, incy as int),
        ensures
            final(y)@ == matvec(
                Layout::Hermitian,
                self.elems(),
                n as int,
                n as int,
                alpha,
                x@,
                incx as int,
                beta,
                old(y)@,
                incy as int,
            ),
    ;
}

impl<T: Scalar> Hemv for [T] {
    type Output = T;

    open spec fn elems(&self) -> Seq<T> {
        self@
    }

    fn hemv(
        &self,
        n: usize,
        alpha: T,
        x: &[T],
        beta: T,
        y: &mut [T],
        incx: usize,
        incy: usize,
    ) {
        product(Layout::Hermitian, self, n, n, alpha, x, incx, beta, y, incy);
    }
}

} // verus!
