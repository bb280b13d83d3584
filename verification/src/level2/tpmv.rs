//! Triangular packed matrix-vector product.
use vstd::prelude::*;
use crate::layout::Layout;
use crate::level2::triangular::{lemma_packed_diagonal, multiply, tri_mul};
use crate::scalar::Scalar;
use crate::stride::spans;

verus! {

/// `x := A * x` for an upper triangular matrix in packed storage.
pub trait Tpmv {
    type Output: Scalar;

    /// The elements of the matrix buffer.
    spec fn elems(&self) -> Seq<Self::Output>;

    /// `A` is upper triangular of order `n`, in packed storage, `(i, j)` with
    /// `i <= j` at `j * (j + 1) / 2 + i`. Element `i` of `x` becomes row `i` of
    /// `A` times `x` as it was on entry: `A(i, i) * x(i)` plus the sum of `A(i,
    /// j) * x(j)` over `j > i`. The elements of `x` are distinct, so `incx` is
    /// not zero.
    fn tpmv(&self, n: usize, x: &mut [Self::Output], incx: usize)
        requires
            incx > 0,
            spans(old(x)@.len() as int, n as int, incx as int),
            n * (n + 1) / 2 <= self.elems().len(),
        ensures
            final(x)@.len() == old(x)@.len(),
            final(x)@ == tri_mul(Layout::UpperPacked, self.elems(), n as int, old(x)@, incx as int, n as int),
    ;
}

impl<T: Scalar> Tpmv for [T] {
    type Output = T;

    open spec fn elems(&self) -> Seq<T> {
        self@
    }

    fn tpmv(&self, n: usize, x: &mut [T], incx: usize) {
        proof {
            lemma_packed_diagonal(self@, n as int);
        }
        multiply(Layout::UpperPacked, self, n, x, incx);
    }
}

} // verus!
