//! Triangular band solve.
use vstd::prelude::*;
use crate::layout::Layout;
use crate::level2::triangular::{lemma_band_diagonal, solve, tri_solve};
use crate::scalar::Scalar;
use crate::stride::spans;

verus! {

/// Solves `A * x = b` in place, `x` holding `b` on entry, for an upper
/// triangular matrix in band storage.
pub trait Tbsv {
    type Output: Scalar;

    /// The elements of the matrix buffer.
    spec fn elems(&self) -> Seq<Self::Output>;

    /// `A` is upper triangular of order `n`, with `k` super-diagonals in band
    /// storage, whose diagonal is band row `k`; super-diagonal entries beyond
    /// the end of the buffer count as zero. Rows are taken from the last to the
    /// first. A row whose diagonal entry is exactly zero leaves its element of
    /// `x` unchanged; no error is raised for it.
    fn tbsv(&self, n: usize, k: usize, x: &mut [Self::Output], incx: usize)
        requires
            spans(old(x)@.len() as int, n as int, incx as int),
            (k + 1) * n <= self.elems().len(),
        ensures
            final(x)@.len() == old(x)@.len(),
            final(x)@ == tri_solve(Layout::UpperBand { k }, self.elems(), n as int, old(x)@, incx as int, 0),
    ;
}

impl<T: Scalar> Tbsv for [T] {
    type Output = T;

    open spec fn elems(&self) -> Seq<T> {
        self@
    }

    fn tbsv(&self, n: usize, k: usize, x: &mut [T], incx: usize) {
        proof {
            lemma_band_diagonal(self@, n as int, k);
        }
        solve(Layout::UpperBand { k }, self, n, x, incx);
    }
}

} // verus!
