//! Scaling of a vector.
use vstd::prelude::*;
use crate::scalar::{is_unit, Scalar};
use crate::stride::{
    lemma_logical_len, lemma_spans_index, lemma_stride_offset, lemma_stride_step, logical_count,
    logical_len, on_stride,
};

verus! {

/// The buffer `x` with its first `count` logical elements multiplied by `a`
/// on the right.
pub open spec fn scaled<T: Scalar>(x: Seq<T>, a: T, incx: int, count: int) -> Seq<T> {
    Seq::new(
        x.len(),
        |p: int|
            if on_stride(p, incx, count) {
                x[p].mul_spec(a)
            } else {
                x[p]
            },
    )
}

/// Scaling by the unit leaves the vector as it is.
pub proof fn lemma_scal_by_unit<T: Scalar>(x: Seq<T>, one: T, incx: int, count: int)
    requires
        is_unit(one),
    ensures
        scaled(x, one, incx, count) == x,
{
    assert(scaled(x, one, incx, count) =~= x);
}

/// `x := x * a`.
pub trait Scal {
    type Output: Scalar;

    /// The elements of the buffer.
    spec fn elems(&self) -> Seq<Self::Output>;

    /// Multiplies by `a` every element at the offsets `0, incx, 2 * incx, ...`
    /// and leaves the others as they are.
    fn scal(&mut self, a: Self::Output, incx: usize)
        requires
            incx > 0,
        ensures
            final(self).elems() == scaled(
                old(self).elems(),
                a,
                incx as int,
                logical_len(old(self).elems().len() as int, incx as int),
            ),
    ;
}

impl<T: Scalar> Scal for [T] {
    type Output = T;

    open spec fn elems(&self) -> Seq<T> {
        self@
    }

    fn scal(&mut self, a: T, incx: usize) {
        let m: usize = logical_count(self.len(), incx);
        proof {
            lemma_logical_len(self@.len() as int, incx as int);
        }
        let mut i: usize = 0;
        assert(self@ =~= scaled(old(self)@, a, incx as int, 0));
        while i < m
            invariant
                incx > 0,
                i <= m,
                self@.len() == old(self)@.len(),
                crate::stride::spans(self@.len() as int, m as int, incx as int),
                self@ == scaled(old(self)@, a, incx as int, i as int),
            decreases m - i,
        {
            proof {
                lemma_spans_index(self@.len() as int, m as int, incx as int, i as int);
                lemma_stride_offset(i as int, incx as int);
                assert(self@.len() == self.len());
            }
            let p: usize = i * incx;
            self[p] = self[p].mul(a);
            proof {
                let next = scaled(old(self)@, a, incx as int, i + 1);
                assert forall|q: int| 0 <= q < self@.len() implies self@[q] == next[q] by {
                    lemma_stride_step(q, incx as int, i as int);
                }
                assert(self@ =~= next);
            }
            i = i + 1;
        }
    }
}

} // verus!
