//! Scaled accumulation of one vector into another.
use vstd::prelude::*;
use crate::scalar::Scalar;
use crate::stride::{
    lemma_spans_index, lemma_stride_offset, lemma_stride_step, on_stride, paired_count,
    paired_len, spans,
};

verus! {

/// The buffer `y` with `a * x(i) + y(i)` in place of its logical elements
/// `i < count`.
pub open spec fn accumulated<T: Scalar>(
    a: T,
    x: Seq<T>,
    incx: int,
    y: Seq<T>,
    incy: int,
    count: int,
) -> Seq<T> {
    Seq::new(
        y.len(),
        |p: int|
            if on_stride(p, incy, count) {
                a.mul_spec(x[(p / incy) * incx]).add_spec(y[p])
            } else {
                y[p]
            },
    )
}

/// `y := a * x + y`.
pub trait Axpy {
    type Output: Scalar;

    /// The elements of the buffer.
    spec fn elems(&self) -> Seq<Self::Output>;

    /// Pairs the elements of `self` at the offsets `0, incx, 2 * incx, ...`
    /// with those of `y` at `0, incy, 2 * incy, ...`, as far as both last, and
    /// replaces each such element of `y`.
    fn axpy(&self, a: Self::Output, incx: usize, y: &mut Self, incy: usize)
        requires
            incx > 0,
            incy > 0,
        ensures
            final(y).elems() == accumulated(
                a,
                self.elems(),
                incx as int,
                old(y).elems(),
                incy as int,
                paired_len(
                    self.elems().len() as int,
                    incx as int,
                    old(y).elems().len() as int,
                    incy as int,
                ),
            ),
    ;
}

impl<T: Scalar> Axpy for [T] {
    type Output = T;

    open spec fn elems(&self) -> Seq<T> {
        self@
    }

    fn axpy(&self, a: T, incx: usize, y: &mut [T], incy: usize) {
        let m: usize = paired_count(self.len(), incx, y.len(), incy);
        let mut i: usize = 0;
        assert(y@ =~= accumulated(a, self@, incx as int, old(y)@, incy as int, 0));
        while i < m
            invariant
                incx > 0,
                incy > 0,
                i <= m,
                y@.len() == old(y)@.len(),
                spans(self@.len() as int, m as int, incx as int),
                spans(y@.len() as int, m as int, incy as int),
                y@ == accumulated(a, self@, incx as int, old(y)@, incy as int, i as int),
            decreases m - i,
        {
            proof {
                lemma_spans_index(self@.len() as int, m as int, incx as int, i as int);
                lemma_spans_index(y@.len() as int, m as int, incy as int, i as int);
                lemma_stride_offset(i as int, incy as int);
                assert(self@.len() == self.len() && y@.len() == y.len());
            }
            let p: usize = i * incy;
            y[p] = a.mul(self[i * incx]).add(y[p]);
            proof {
                let next = accumulated(a, self@, incx as int, old(y)@, incy as int, i + 1);
                assert forall|q: int| 0 <= q < y@.len() implies y@[q] == next[q] by {
                    lemma_stride_step(q, incy as int, i as int);
                }
                assert(y@ =~= next);
            }
            i = i + 1;
        }
    }
}

} // verus!
