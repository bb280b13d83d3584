//! Triangular packed solve.
use vstd::prelude::*;
use crate::layout::Layout;
use crate::level2::triangular::{lemma_packed_diagonal, solve, tri_solve};
use crate::scalar::Scalar;
use crate::stride::spans;

verus! {

/// Solves `A * x = b` in place, `x` holding `b` on entry, for an upper
/// triangular matrix in packed storage.
pub trait Tpsv {
    type Output: Scalar;

    /// The elements of the matrix buffer.
    spec fn elems(&self) -> Seq<Self::Output>;

    /// `A` is upper triangular of order `n`, in packed storage, `(i, j)` with
    /// `i <= j` at `j * (j + 1) / 2 + i`. Rows are taken from the last to the
    /// first. A row whose diagonal entry is exactly zero leaves its element of
    /// `x` unchanged; no error is raised for it.
    fn tpsv(&self, n: usize, x: &mut [Self::Output], incx: usize)
        requires
            spans(old(x)@.len() as int, n as int, incx as int),
            n * (n + 1) / 2 <= self.elems().len(),
        ensures
            final(x)@.len() == old(x)@.len(),
            final(x)@ == tri_solve(Layout::UpperPacked, self.elems(), n as int, old(x)@, incx as int, 0),
    ;
}

impl<T: Scalar> Tpsv for [T] {
    type Output = T;

    open spec fn elems(&self) -> Seq<T> {
        self@
    }

    fn tpsv(&self, n: usize, x: &mut [T], incx: usize) {
        proof {
            lemma_packed_diagonal(self@, n as int);
        }
        solve(Layout::UpperPacked, self, n, x, incx);
    }
}

} // verus!
