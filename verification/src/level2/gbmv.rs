//! General band matrix-vector product.
use vstd::prelude::*;
use crate::layout::Layout;
use crate::level2::matvec::{matvec, product};
use crate::scalar::Scalar;
use crate::stride::spans;

verus! {

/// `y := alpha * A * x + beta * y` for a general band matrix.
pub trait Gbmv {
    type Output: Scalar;

    /// The elements of the matrix buffer.
    spec fn elems(&self) -> Seq<Self::Output>;

    /// `A` has `m` rows and `n` columns, in `kl + ku + 1` band rows: `A(i, j)`
    /// is in band row `ku + j - i`, and the diagonal is band row `ku`. Entries
    /// whose band row falls outside `0..=kl + ku`, and band entries that the
    /// buffer is too short to hold, count as zero.
    fn gbmv(
        &self,
        m: usize,
        n: usize,
        kl: usize,
        ku: usize,
        alpha: Self::Output,
        x: &[Self::Output],
        beta: Self::Output,
        y: &mut [Self::Output],
        incx: usize,
        incy: usize,
    )
        requires
            incy > 0,
            spans(x@.len() as int, n as int, incx as int),
            spans(old(y)@.len() as int, m as int, incy as int),
        ensures
            final(y)@ == matvec(
                Layout::Band { kl, ku },
                self.elems(),
                m as int,
                n as int,
                alpha,
                x@,
                incx as int,
                beta,
                old(y)@,
                incy as int,
            ),
    ;
}

impl<T: Scalar> Gbmv for [T] {
    type Output = T;

    open spec fn elems(&self) -> Seq<T> {
        self@
    }

    fn gbmv(
        &self,
        m: usize,
        n: usize,
        kl: usize,
        ku: usize,
        alpha: T,
        x: &[T],
        beta: T,
        y: &mut [T],
        incx: usize,
        incy: usize,
    ) {
        product(Layout::Band { kl, ku }, self, m, n, alpha, x, incx, beta, y, incy);
    }
}

} // verus!
