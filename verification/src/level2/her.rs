//! Rank-1 update of a Hermitian matrix.
use vstd::prelude::*;
use crate::level2::rank::{dense_update, update_dense, Rank};
use crate::scalar::Scalar;
use crate::stride::spans;

verus! {

/// `A := alpha * x * conj(x)^T + A`.
pub trait Her {
    type Output: Scalar;

    /// The elements of the matrix buffer.
    spec fn elems(&self) -> Seq<Self::Output>;

    /// `A` is of order `n` in dense row-major storage and `alpha` is real.
    /// Only the diagonal and the upper triangle are written: a diagonal entry
    /// receives the real quantity `alpha * |x(i)|^2`, an entry `(i, j)` with
    /// `i < j` becomes `A(i, j) + (alpha * x(i)) * conj(x(j))`, and the
    /// entries below the diagonal are left as they are.
    fn her(
        &mut self,
        n: usize,
        alpha: <Self::Output as Scalar>::Real,
        x: &[Self::Output],
        incx: usize,
    )
        requires
            spans(x@.len() as int, n as int, incx as int),
        ensures
            final(self).elems() == dense_update(
                Rank::Hermitian(alpha),
                old(self).elems(),
                n as int,
                n as int,
                x@,
                incx as int,
                x@,
                incx as int,
            ),
    ;
}

impl<T: Scalar> Her for [T] {
    type Output = T;

    open spec fn elems(&self) -> Seq<T> {
        self@
    }

    fn her(
        &mut self,
        n: usize,
        alpha: T::Real,
        x: &[T],
        incx: usize,
    ) {
        update_dense(Rank::Hermitian(alpha), self, n, n, x, incx, x, incx);
    }
}

} // verus!
