//! Plane rotation of two vectors.
use vstd::prelude::*;
use crate::scalar::Scalar;
use crate::stride::{
    lemma_spans_index, lemma_stride_offset, lemma_stride_step, on_stride, paired_count,
    paired_len, spans,
};

verus! {

/// The buffer `x` with `c * x(i) + s * y(i)` in place of its logical
/// elements `i < count`.
pub open spec fn rotated_x<T: Scalar>(
    x: Seq<T>,
    incx: int,
    y: Seq<T>,
    incy: int,
    c: T,
    s: T,
    count: int,
) -> Seq<T> {
    Seq::new(
        x.len(),
        |p: int|
            if on_stride(p, incx, count) {
                c.mul_spec(x[p]).add_spec(s.mul_spec(y[(p / incx) * incy]))
            } else {
                x[p]
            },
    )
}

/// The buffer `y` with `c * y(i) - s * x(i)` in place of its logical
/// elements `i < count`.
pub open spec fn rotated_y<T: Scalar>(
    x: Seq<T>,
    incx: int,
    y: Seq<T>,
    incy: int,
    c: T,
    s: T,
    count: int,
) -> Seq<T> {
    Seq::new(
        y.len(),
        |p: int|
            if on_stride(p, incy, count) {
                c.mul_spec(y[p]).sub_spec(s.mul_spec(x[(p / incy) * incx]))
            } else {
                y[p]
            },
    )
}

/// Rotates one pair: `(c * x + s * y, c * y - s * x)`.
pub fn rotate<T: Scalar>(c: T, s: T, x: T, y: T) -> (r: (T, T))
    ensures
        r.0 == c.mul_spec(x).add_spec(s.mul_spec(y)),
        r.1 == c.mul_spec(y).sub_spec(s.mul_spec(x)),
{
    (c.mul(x).add(s.mul(y)), c.mul(y).sub(s.mul(x)))
}

/// `(x, y) := (c * x + s * y, c * y - s * x)`.
pub trait Rot {
    type Output: Scalar;

    /// The elements of the buffer.
    spec fn elems(&self) -> Seq<Self::Output>;

    /// Pairs the elements of `self` at the offsets `0, incx, 2 * incx, ...`
    /// with those of `y` at `0, incy, 2 * incy, ...`, as far as both last, and
    /// rotates each pair; both new values are computed from the old pair.
    fn rot(
        &mut self,
        incx: usize,
        y: &mut Self,
        incy: usize,
        c: Self::Output,
        s: Self::Output,
    )
        requires
            incx > 0,
            incy > 0,
        ensures
            final(self).elems() == rotated_x(
                old(self).elems(),
                incx as int,
                old(y).elems(),
                incy as int,
                c,
                s,
                paired_len(
                    old(self).elems().len() as int,
                    incx as int,
                    old(y).elems().len() as int,
                    incy as int,
                ),
            ),
            final(y).elems() == rotated_y(
                old(self).elems(),
                incx as int,
                old(y).elems(),
                incy as int,
                c,
                s,
                paired_len(
                    old(self).elems().len() as int,
                    incx as int,
                    old(y).elems().len() as int,
                    incy as int,
                ),
            ),
    ;
}

impl<T: Scalar> Rot for [T] {
    type Output = T;

    open spec fn elems(&self) -> Seq<T> {
        self@
    }

    fn rot(&mut self, incx: usize, y: &mut [T], incy: usize, c: T, s: T) {
        let m: usize = paired_count(self.len(), incx, y.len(), incy);
        let mut i: usize = 0;
        assert(self@ =~= rotated_x(old(self)@, incx as int, old(y)@, incy as int, c, s, 0));
        assert(y@ =~= rotated_y(old(self)@, incx as int, old(y)@, incy as int, c, s, 0));
        while i < m
            invariant
                incx > 0,
                incy > 0,
                i <= m,
                self@.len() == old(self)@.len(),
                y@.len() == old(y)@.len(),
                spans(self@.len() as int, m as int, incx as int),
                spans(y@.len() as int, m as int, incy as int),
                self@ == rotated_x(old(self)@, incx as int, old(y)@, incy as int, c, s, i as int),
                y@ == rotated_y(old(self)@, incx as int, old(y)@, incy as int, c, s, i as int),
            decreases m - i,
        {
            proof {
                lemma_spans_index(self@.len() as int, m as int, incx as int, i as int);
                lemma_spans_index(y@.len() as int, m as int, incy as int, i as int);
                lemma_stride_offset(i as int, incx as int);
                lemma_stride_offset(i as int, incy as int);
                assert(self@.len() == self.len() && y@.len() == y.len());
            }
            let p: usize = i * incx;
            let q: usize = i * incy;
            let pair = rotate(c, s, self[p], y[q]);
            self[p] = pair.0;
            y[q] = pair.1;
            proof {
                let next_x = rotated_x(old(self)@, incx as int, old(y)@, incy as int, c, s, i + 1);
                let next_y = rotated_y(old(self)@, incx as int, old(y)@, incy as int, c, s, i + 1);
                assert forall|k: int| 0 <= k < self@.len() implies self@[k] == next_x[k] by {
                    lemma_stride_step(k, incx as int, i as int);
                }
                assert forall|k: int| 0 <= k < y@.len() implies y@[k] == next_y[k] by {
                    lemma_stride_step(k, incy as int, i as int);
                }
                assert(self@ =~= next_x);
                assert(y@ =~= next_y);
            }
            i = i + 1;
        }
    }
}

} // verus!
