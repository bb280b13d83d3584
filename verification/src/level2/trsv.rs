//! Triangular solve.
use vstd::prelude::*;
use crate::layout::Layout;
use crate::level2::triangular::{lemma_dense_diagonal, solve, tri_solve};
use crate::scalar::Scalar;
use crate::stride::spans;

verus! {

/// Solves `A * x = b` in place, `x` holding `b` on entry, for an upper
/// triangular matrix in dense storage.
pub trait Trsv {
    type Output: Scalar;

    /// The elements of the matrix buffer.
    spec fn elems(&self) -> Seq<Self::Output>;

    /// `A` is upper triangular of order `n`, in dense row-major storage. Rows
    /// are taken from the last to the first. A row whose diagonal entry is
    /// exactly zero leaves its element of `x` unchanged; no error is raised for
    /// it.
    fn trsv(&self, n: usize, x: &mut [Self::Output], incx: usize)
        requires
            spans(old(x)@.len() as int, n as int, incx as int),
            n * n <= self.elems().len(),
        ensures
            final(x)@.len() == old(x)@.len(),
            final(x)@ == tri_solve(Layout::UpperTriangular, self.elems(), n as int, old(x)@, incx as int, 0),
    ;
}

impl<T: Scalar> Trsv for [T] {
    type Output = T;

    open spec fn elems(&self) -> Seq<T> {
        self@
    }

    fn trsv(&self, n: usize, x: &mut [T], incx: usize) {
        proof {
            lemma_dense_diagonal(self@, n as int);
        }
        solve(Layout::UpperTriangular, self, n, x, incx);
    }
}

} // verus!
