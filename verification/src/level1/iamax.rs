//! Index of the greatest element of a vector.
use vstd::prelude::*;
use crate::scalar::{strict_weak_order, RealScalar, Scalar};
use crate::stride::{
    elem, lemma_logical_len, lemma_spans_index, logical_count, logical_len, spans,
};

verus! {

/// The logical index of the greatest of the first `count` logical elements,
/// found by taking them in ascending order: an element
/// replaces the best so far unless it is strictly below it.
/// Elements are ranked by their [`Scalar::order_key`].
pub open spec fn argmax<T: Scalar>(x: Seq<T>, incx: int, count: int) -> int
    decreases count,
{
    if count <= 1 {
        0
    } else {
        let best = argmax(x, incx, count - 1);
        if x[(count - 1) * incx].order_key_spec().lt_spec(x[best * incx].order_key_spec()) {
            best
        } else {
            count - 1
        }
    }
}

/// Of two candidates, each an offset with its key, the one that a search
/// for the greatest keeps: the first only where the second is strictly below
/// it.
pub fn greater_of<R: RealScalar>(a: (usize, R), b: (usize, R)) -> (r: (usize, R))
    ensures
        r == (if b.1.lt_spec(a.1) {
            a
        } else {
            b
        }),
{
    if b.1.lt(a.1) {
        a
    } else {
        b
    }
}

/// The index found lies among the elements searched.
pub proof fn lemma_argmax_bounds<T: Scalar>(x: Seq<T>, incx: int, count: int)
    ensures
        0 <= argmax(x, incx, count),
        count >= 1 ==> argmax(x, incx, count) < count,
    decreases count,
{
    if count > 1 {
        lemma_argmax_bounds(x, incx, count - 1);
    }
}

/// Every element after the one found is strictly below it: of several
/// greatest elements the last is found.
pub proof fn lemma_argmax_is_last<T: Scalar>(x: Seq<T>, incx: int, count: int, i: int)
    requires
        argmax(x, incx, count) < i < count,
    ensures
        elem(x, incx, i).order_key_spec().lt_spec(
            elem(x, incx, argmax(x, incx, count)).order_key_spec(),
        ),
    decreases count,
{
    if count > 1 {
        lemma_argmax_bounds(x, incx, count - 1);
        if i < count - 1 {
            lemma_argmax_is_last(x, incx, count - 1, i);
        }
    }
}

/// Where the keys are strictly weakly ordered, no element searched is above
/// the one found.
pub proof fn lemma_argmax_is_greatest<T: Scalar>(x: Seq<T>, incx: int, count: int, i: int)
    requires
        strict_weak_order::<T::Real>(),
        0 <= i < count,
    ensures
        !elem(x, incx, argmax(x, incx, count)).order_key_spec().lt_spec(
            elem(x, incx, i).order_key_spec(),
        ),
    decreases count,
{
    let key = |k: int| elem(x, incx, k).order_key_spec();
    if count <= 1 {
        assert(key(0).lt_spec(key(0)) ==> !key(0).lt_spec(key(0)));
    } else {
        let best = argmax(x, incx, count - 1);
        let last = count - 1;
        if key(last).lt_spec(key(best)) {
            if i < last {
                lemma_argmax_is_greatest(x, incx, count - 1, i);
            }
        } else {
            if i < last {
                lemma_argmax_is_greatest(x, incx, count - 1, i);
                assert(!key(last).lt_spec(key(best)) && !key(best).lt_spec(key(i)));
            } else {
                assert(key(last).lt_spec(key(last)) ==> !key(last).lt_spec(key(last)));
            }
        }
    }
}

/// The offset of the greatest element.
pub trait Iamax {
    type Elem: Scalar;

    type Output;

    /// The elements of the buffer.
    spec fn elems(&self) -> Seq<Self::Elem>;

    /// The offset that [`Iamax::iamax`] returns.
    spec fn iamax_spec(&self, incx: int) -> Self::Output;

    /// Searches the elements at the offsets `0, incx, 2 * incx, ...` and
    /// returns the offset in the buffer of the greatest one, or 0 for an empty
    /// buffer. Of several greatest elements the last is found.
    fn iamax(&self, incx: usize) -> (r: Self::Output)
        requires
            incx > 0,
        ensures
            r == self.iamax_spec(incx as int),
    ;
}

impl<T: Scalar> Iamax for [T] {
    type Elem = T;

    type Output = usize;

    open spec fn elems(&self) -> Seq<T> {
        self@
    }

    open spec fn iamax_spec(&self, incx: int) -> usize {
        (argmax(self@, incx, logical_len(self@.len() as int, incx)) * incx) as usize
    }

    fn iamax(&self, incx: usize) -> (r: usize) {
        let m: usize = logical_count(self.len(), incx);
        proof {
            lemma_logical_len(self@.len() as int, incx as int);
        }
        if m == 0 {
            assert(0 * incx == 0) by (nonlinear_arith);
            return 0;
        }
        proof {
            lemma_spans_index(self@.len() as int, m as int, incx as int, 0);
            assert(self@.len() == self.len());
        }
        let mut best: usize = 0;
        let mut best_key: T::Real = self[0].order_key();
        let mut i: usize = 1;
        while i < m
            invariant
                1 <= i <= m,
                spans(self@.len() as int, m as int, incx as int),
                best == argmax(self@, incx as int, i as int),
                best < i,
                best_key == self@[best * incx].order_key_spec(),
            decreases m - i,
        {
            proof {
                lemma_spans_index(self@.len() as int, m as int, incx as int, i as int);
                assert(self@.len() == self.len());
            }
            let key: T::Real = self[i * incx].order_key();
            let kept: (usize, T::Real) = greater_of((best, best_key), (i, key));
            best = kept.0;
            best_key = kept.1;
            i = i + 1;
        }
        proof {
            lemma_spans_index(self@.len() as int, m as int, incx as int, best as int);
            assert(self@.len() == self.len());
        }
        best * incx
    }
}

} // verus!
