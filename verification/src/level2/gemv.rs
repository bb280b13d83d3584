//! General matrix-vector product.
use vstd::prelude::*;
use crate::layout::Layout;
use crate::level2::matvec::{matvec, product};
use crate::scalar::Scalar;
use crate::stride::{lemma_logical_len, logical_count, logical_len, spans};

verus! {

/// `y := alpha * A * x + beta * y` for a general matrix in row-major storage.
pub trait Gemv {
    type Output: Scalar;

    /// The elements of the matrix buffer.
    spec fn elems(&self) -> Seq<Self::Output>;

    /// The matrix has `cols` columns and one row for each logical element of
    /// `y`, that is for each of the offsets `0, incy, 2 * incy, ...` of `y`.
    fn gemv(
        &self,
        cols: usize,
        alpha: Self::Output,
        x: &[Self::Output],
        beta: Self::Output,
        y: &mut [Self::Output],
        incx: usize,
        incy: usize,
    )
        requires
            incy > 0,
            spans(x@.len() as int, cols as int, incx as int),
            logical_len(old(y)@.len() as int, incy as int) * cols <= self.elems().len(),
        ensures
            final(y)@ == matvec(
                Layout::Dense,
                self.elems(),
                logical_len(old(y)@.len() as int, incy as int),
                cols as int,
                alpha,
                x@,
                incx as int,
                beta,
                old(y)@,
                incy as int,
            ),
    ;
}

impl<T: Scalar> Gemv for [T] {
    type Output = T;

    open spec fn elems(&self) -> Seq<T> {
        self@
    }

    fn gemv(&self, cols: usize, alpha: T, x: &[T], beta: T, y: &mut [T], incx: usize, incy: usize) {
        let m: usize = logical_count(y.len(), incy);
        proof {
            lemma_logical_len(y@.len() as int, incy as int);
        }
        product(Layout::Dense, self, m, cols, alpha, x, incx, beta, y, incy);
    }
}

} // verus!
