//! Index of the least element of a vector.
use vstd::prelude::*;
use crate::scalar::{total_preorder, RealScalar, Scalar};
use crate::stride::{
    elem, lemma_logical_len, lemma_spans_index, logical_count, logical_len, spans,
};

verus! {

/// The logical index of the least of the first `count` logical elements,
/// found by taking them in ascending order: an element
/// replaces the best so far unless that one is below or equal to it.
/// Elements are ranked by their [`Scalar::order_key`].
pub open spec fn argmin<T: Scalar>(x: Seq<T>, incx: int, count: int) -> int
    decreases count,
{
    if count <= 1 {
        0
    } else {
        let best = argmin(x, incx, count - 1);
        if x[best * incx].order_key_spec().le_spec(x[(count - 1) * incx].order_key_spec()) {
            best
        } else {
            count - 1
        }
    }
}

/// Of two candidates, each an offset with its key, the one that a search
/// for the least keeps: the first where it is below or equal to the second.
pub fn lesser_of<R: RealScalar>(a: (usize, R), b: (usize, R)) -> (r: (usize, R))
    ensures
        r == (if a.1.le_spec(b.1) {
            a
        } else {
            b
        }),
{
    if a.1.le(b.1) {
        a
    } else {
        b
    }
}

/// The index found lies among the elements searched.
pub proof fn lemma_argmin_bounds<T: Scalar>(x: Seq<T>, incx: int, count: int)
    ensures
        0 <= argmin(x, incx, count),
        count >= 1 ==> argmin(x, incx, count) < count,
    decreases count,
{
    if count > 1 {
        lemma_argmin_bounds(x, incx, count - 1);
    }
}

/// Where the keys are totally ordered, the element found is below or equal
/// to every element searched, and every element before it is strictly above
/// it: of several least elements the first is found.
pub proof fn lemma_argmin_is_least<T: Scalar>(x: Seq<T>, incx: int, count: int, i: int)
    requires
        total_preorder::<T::Real>(),
        0 <= i < count,
    ensures
        elem(x, incx, argmin(x, incx, count)).order_key_spec().le_spec(
            elem(x, incx, i).order_key_spec(),
        ),
        i < argmin(x, incx, count) ==> !elem(x, incx, i).order_key_spec().le_spec(
            elem(x, incx, argmin(x, incx, count)).order_key_spec(),
        ),
    decreases count,
{
    let key = |k: int| elem(x, incx, k).order_key_spec();
    if count <= 1 {
        assert(key(0).le_spec(key(0)) || key(0).le_spec(key(0)));
    } else {
        let best = argmin(x, incx, count - 1);
        let last = count - 1;
        lemma_argmin_bounds(x, incx, count - 1);
        if key(best).le_spec(key(last)) {
            if i < last {
                lemma_argmin_is_least(x, incx, count - 1, i);
            }
        } else {
            assert(key(best).le_spec(key(last)) || key(last).le_spec(key(best)));
            if i < last {
                lemma_argmin_is_least(x, incx, count - 1, i);
                assert(key(last).le_spec(key(best)) && key(best).le_spec(key(i)));
                if key(i).le_spec(key(last)) {
                    assert(key(best).le_spec(key(i)) && key(i).le_spec(key(last)));
                }
            } else {
                assert(key(last).le_spec(key(last)) || key(last).le_spec(key(last)));
            }
        }
    }
}

/// The offset of the least element.
pub trait Iamin {
    type Elem: Scalar;

    type Output;

    /// The elements of the buffer.
    spec fn elems(&self) -> Seq<Self::Elem>;

    /// The offset that [`Iamin::iamin`] returns.
    spec fn iamin_spec(&self, incx: int) -> Self::Output;

    /// Searches the elements at the offsets `0, incx, 2 * incx, ...` and
    /// returns the offset in the buffer of the least one, or 0 for an empty
    /// buffer. Of several least elements the first is found.
    fn iamin(&self, incx: usize) -> (r: Self::Output)
        requires
            incx > 0,
        ensures
            r == self.iamin_spec(incx as int),
    ;
}

impl<T: Scalar> Iamin for [T] {
    type Elem = T;

    type Output = usize;

    open spec fn elems(&self) -> Seq<T> {
        self@
    }

    open spec fn iamin_spec(&self, incx: int) -> usize {
        (argmin(self@, incx, logical_len(self@.len() as int, incx)) * incx) as usize
    }

    fn iamin(&self, incx: usize) -> (r: usize) {
        let m: usize = logical_count(self.len(), incx);
        proof {
            lemma_logical_len(self@.len() as int, incx as int);
        }
        if m == 0 {
            assert(0 * incx == 0) by (nonlinear_arith);
            return 0;
        }
        proof {
            lemma_spans_index(self@.len() as int, m as int, incx as int, 0);
            assert(self@.len() == self.len());
        }
        let mut best: usize = 0;
        let mut best_key: T::Real = self[0].order_key();
        let mut i: usize = 1;
        while i < m
            invariant
                1 <= i <= m,
                spans(self@.len() as int, m as int, incx as int),
                best == argmin(self@, incx as int, i as int),
                best < i,
                best_key == self@[best * incx].order_key_spec(),
            decreases m - i,
        {
            proof {
                lemma_spans_index(self@.len() as int, m as int, incx as int, i as int);
                assert(self@.len() == self.len());
            }
            let key: T::Real = self[i * incx].order_key();
            let kept: (usize, T::Real) = lesser_of((best, best_key), (i, key));
            best = kept.0;
            best_key = kept.1;
            i = i + 1;
        }
        proof {
            lemma_spans_index(self@.len() as int, m as int, incx as int, best as int);
            assert(self@.len() == self.len());
        }
        best * incx
    }
}

} // verus!
