//! Dot product of two vectors.
use vstd::prelude::*;
use crate::scalar::Scalar;
use crate::stride::{lemma_spans_index, paired_count, paired_len, spans};

verus! {

/// The sum of `x(i) * y(i)` over the logical elements `i < count`,
/// accumulated from zero in ascending order of `i`.
pub open spec fn dot_sum<T: Scalar>(x: Seq<T>, incx: int, y: Seq<T>, incy: int, count: int) -> T
    decreases count,
{
    if count <= 0 {
        T::zero_spec()
    } else {
        dot_sum(x, incx, y, incy, count - 1).add_spec(
            x[(count - 1) * incx].mul_spec(y[(count - 1) * incy]),
        )
    }
}

/// The sum of the products of paired elements, without conjugation.
pub trait Dot {
    type Output: Scalar;

    /// The elements of the buffer.
    spec fn elems(&self) -> Seq<Self::Output>;

    /// Pairs the elements of `self` at the offsets `0, incx, 2 * incx, ...`
    /// with those of `y` at `0, incy, 2 * incy, ...`, as far as both last.
    fn dot(&self, incx: usize, y: &Self, incy: usize) -> (r: Self::Output)
        requires
            incx > 0,
            incy > 0,
        ensures
            r == dot_sum(
                self.elems(),
                incx as int,
                y.elems(),
                incy as int,
                paired_len(
                    self.elems().len() as int,
                    incx as int,
                    y.elems().len() as int,
                    incy as int,
                ),
            ),
    ;
}

impl<T: Scalar> Dot for [T] {
    type Output = T;

    open spec fn elems(&self) -> Seq<T> {
        self@
    }

    fn dot(&self, incx: usize, y: &[T], incy: usize) -> (r: T) {
        let m: usize = paired_count(self.len(), incx, y.len(), incy);
        let mut sum: T = T::zero();
        let mut i: usize = 0;
        while i < m
            invariant
                i <= m,
                spans(self@.len() as int, m as int, incx as int),
                spans(y@.len() as int, m as int, incy as int),
                sum == dot_sum(self@, incx as int, y@, incy as int, i as int),
            decreases m - i,
        {
            proof {
                lemma_spans_index(self@.len() as int, m as int, incx as int, i as int);
                lemma_spans_index(y@.len() as int, m as int, incy as int, i as int);
                assert(self@.len() == self.len() && y@.len() == y.len());
            }
            sum = sum.add(self[i * incx].mul(y[i * incy]));
            i = i + 1;
        }
        sum
    }
}

} // verus!
