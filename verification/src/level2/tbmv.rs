//! Triangular band matrix-vector product.
use vstd::prelude::*;
use crate::layout::Layout;
use crate::level2::triangular::{lemma_band_diagonal, multiply, tri_mul};
use crate::scalar::Scalar;
use crate::stride::spans;

verus! {

/// `x := A * x` for an upper triangular matrix in band storage.
pub trait Tbmv {
    type Output: Scalar;

    /// The elements of the matrix buffer.
    spec fn elems(&self) -> Seq<Self::Output>;

    /// `A` is upper triangular of order `n`, with `k` super-diagonals in band
    /// storage, whose diagonal is band row `k`; super-diagonal entries beyond
    /// the end of the buffer count as zero. Element `i` of `x` becomes row `i`
    /// of `A` times `x` as it was on entry: `A(i, i) * x(i)` plus the sum of
    /// `A(i, j) * x(j)` over `j > i`. The elements of `x` are distinct, so
    /// `incx` is not zero.
    fn tbmv(&self, n: usize, k: usize, x: &mut [Self::Output], incx: usize)
        requires
            incx > 0,
            spans(old(x)@.len() as int, n as int, incx as int),
            (k + 1) * n <= self.elems().len(),
        ensures
            final(x)@.len() == old(x)@.len(),
            final(x)@ == tri_mul(Layout::UpperBand { k }, self.elems(), n as int, old(x)@, incx as int, n as int),
    ;
}

impl<T: Scalar> Tbmv for [T] {
    type Output = T;

    open spec fn elems(&self) -> Seq<T> {
        self@
    }

    fn tbmv(&self, n: usize, k: usize, x: &mut [T], incx: usize) {
        proof {
            lemma_band_diagonal(self@, n as int, k);
        }
        multiply(Layout::UpperBand { k }, self, n, x, incx);
    }
}

} // verus!
