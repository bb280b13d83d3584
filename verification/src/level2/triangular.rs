//! In-place multiplication and solution with an upper triangular matrix,
//! shared by the dense, band and packed formats.
//!
//! The solution runs from the last row to the first: row `i` reads the
//! elements `j > i` of the vector as solved already, so the rows cannot be
//! taken in another order or side by side. The multiplication reads the
//! elements `j >= i` as they were on entry, and runs in place from the first
//! row to the last.
use vstd::prelude::*;
use crate::layout::{entry, fetch, Layout};
use crate::level2::matvec::{lemma_row_dot_same_vector, row_dot, row_sum};
use crate::scalar::{sums_cancel, Scalar};
use crate::stride::{
    elem, lemma_spans_index, lemma_stride_offset, lemma_stride_step, on_stride, spans,
};

verus! {

/// The diagonal entries of the first `n` rows are inside the buffer.
pub open spec fn diagonal_stored<T: Scalar>(layout: Layout, a: Seq<T>, n: int) -> bool {
    forall|i: int| 0 <= i < n ==> (#[trigger] entry(layout, a, n, i, i)) is Some
}

/// A dense buffer of `n * n` elements holds the whole diagonal.
pub proof fn lemma_dense_diagonal<T: Scalar>(a: Seq<T>, n: int)
    requires
        0 <= n,
        n * n <= a.len(),
    ensures
        diagonal_stored(Layout::UpperTriangular, a, n),
{
    assert forall|i: int| 0 <= i < n implies (#[trigger] entry(
        Layout::UpperTriangular,
        a,
        n,
        i,
        i,
    )) is Some by {
        assert(0 <= i * n + i < n * n) by (nonlinear_arith)
            requires
                0 <= i < n,
        ;
    }
}

/// A band buffer of `(k + 1) * n` elements holds the whole diagonal, which
/// is band row `k`.
pub proof fn lemma_band_diagonal<T: Scalar>(a: Seq<T>, n: int, k: usize)
    requires
        0 <= n,
        (k + 1) * n <= a.len(),
    ensures
        diagonal_stored(Layout::UpperBand { k }, a, n),
{
    assert forall|i: int| 0 <= i < n implies (#[trigger] entry(
        Layout::UpperBand { k },
        a,
        n,
        i,
        i,
    )) is Some by {
        assert(0 <= (k + i - i) * n + i < (k + 1) * n) by (nonlinear_arith)
            requires
                0 <= i < n,
                0 <= k,
        ;
    }
}

/// A packed buffer of `n * (n + 1) / 2` elements holds the whole diagonal.
pub proof fn lemma_packed_diagonal<T: Scalar>(a: Seq<T>, n: int)
    requires
        0 <= n,
        n * (n + 1) / 2 <= a.len(),
    ensures
        diagonal_stored(Layout::UpperPacked, a, n),
{
    assert forall|i: int| 0 <= i < n implies (#[trigger] entry(
        Layout::UpperPacked,
        a,
        n,
        i,
        i,
    )) is Some by {
        assert(0 <= i * (i + 1) / 2 + i < n * (n + 1) / 2) by (nonlinear_arith)
            requires
                0 <= i < n,
        ;
    }
}

/// Row `i` of `A` times the vector `x`:
/// `A(i, i) * x(i) + sum of A(i, j) * x(j) over j > i`, the sum accumulated
/// from zero in ascending order of `j`.
pub open spec fn mul_step<T: Scalar>(
    layout: Layout,
    a: Seq<T>,
    n: int,
    x: Seq<T>,
    incx: int,
    i: int,
) -> T {
    entry(layout, a, n, i, i).unwrap().mul_spec(x[i * incx]).add_spec(
        row_dot(layout, a, n, x, incx, i, i + 1, n),
    )
}

/// The new value of element `i` in the solving sweep:
/// `(x(i) - sum of A(i, j) * x(j) over j > i) / A(i, i)`, and `x(i)`
/// unchanged where `A(i, i)` is exactly zero.
pub open spec fn solve_step<T: Scalar>(
    layout: Layout,
    a: Seq<T>,
    n: int,
    x: Seq<T>,
    incx: int,
    i: int,
) -> T {
    let d = entry(layout, a, n, i, i).unwrap();
    if d.is_zero_spec() {
        x[i * incx]
    } else {
        x[i * incx].sub_spec(row_dot(layout, a, n, x, incx, i, i + 1, n)).div_spec(d)
    }
}

/// The vector `x` with the first `rows` rows of the product `A * x` in place
/// of its first `rows` logical elements. Every row is taken with `x` as it
/// stands, and every other element of the buffer is kept.
pub open spec fn tri_mul<T: Scalar>(
    layout: Layout,
    a: Seq<T>,
    n: int,
    x: Seq<T>,
    incx: int,
    rows: int,
) -> Seq<T> {
    Seq::new(
        x.len(),
        |p: int|
            if on_stride(p, incx, rows) {
                mul_step(layout, a, n, x, incx, p / incx)
            } else {
                x[p]
            },
    )
}

/// Logical element `i` of the product is row `i` of `A` times `x`.
pub proof fn lemma_product_row<T: Scalar>(
    layout: Layout,
    a: Seq<T>,
    n: int,
    x: Seq<T>,
    incx: int,
    i: int,
)
    requires
        incx > 0,
        0 <= i < n,
        spans(x.len() as int, n, incx),
    ensures
        elem(tri_mul(layout, a, n, x, incx, n), incx, i) == mul_step(layout, a, n, x, incx, i),
{
    lemma_spans_index(x.len() as int, n, incx, i);
    lemma_stride_offset(i, incx);
}

/// The vector after the solving sweep has done the rows `n - 1` down to `i`.
pub open spec fn tri_solve<T: Scalar>(
    layout: Layout,
    a: Seq<T>,
    n: int,
    x: Seq<T>,
    incx: int,
    i: int,
) -> Seq<T>
    decreases n - i,
{
    if i >= n {
        x
    } else {
        let below = tri_solve(layout, a, n, x, incx, i + 1);
        below.update(i * incx, solve_step(layout, a, n, below, incx, i))
    }
}

/// The diagonal entry `d` is not zero, and dividing `d * v` by `d` gives `v`
/// back.
pub open spec fn divides_back<T: Scalar>(d: T, v: T) -> bool {
    !d.is_zero_spec() && d.mul_spec(v).div_spec(d) == v
}

/// `p` is the offset of one of the logical elements `i <= j < n`.
pub open spec fn in_rows(p: int, inc: int, i: int, n: int) -> bool {
    inc > 0 && p % inc == 0 && i <= p / inc < n
}

/// The solution undoes the multiplication: solving with the product `A * x`
/// gives `x` back, in arithmetic whose sums cancel and for a matrix whose
/// diagonal entries are not zero and divide back out of their products with
/// the elements of `x`.
pub proof fn lemma_solve_undoes_multiply<T: Scalar>(
    layout: Layout,
    a: Seq<T>,
    n: int,
    x: Seq<T>,
    incx: int,
)
    requires
        sums_cancel::<T>(),
        incx > 0,
        0 <= n,
        spans(x.len() as int, n, incx),
        diagonal_stored(layout, a, n),
        forall|i: int|
            0 <= i < n ==> divides_back((#[trigger] entry(layout, a, n, i, i)).unwrap(), elem(x, incx, i)),
    ensures
        tri_solve(layout, a, n, tri_mul(layout, a, n, x, incx, n), incx, 0) == x,
{
    let product = tri_mul(layout, a, n, x, incx, n);
    lemma_solve_restores(layout, a, n, x, incx, 0);
    let solved = tri_solve(layout, a, n, product, incx, 0);
    assert forall|p: int| 0 <= p < x.len() implies solved[p] == x[p] by {
        if in_rows(p, incx, 0, n) {
            vstd::arithmetic::div_mod::lemma_fundamental_div_mod(p, incx);
            assert(p == (p / incx) * incx) by (nonlinear_arith)
                requires
                    p == incx * (p / incx) + p % incx,
                    p % incx == 0,
            ;
            assert(elem(solved, incx, p / incx) == elem(x, incx, p / incx));
        } else {
            assert(0 <= p / incx) by (nonlinear_arith)
                requires
                    0 <= p,
                    0 < incx,
            ;
        }
    }
    assert(solved =~= x);
}

/// The solving sweep down to row `i` keeps the length of the vector and
/// every element but those of the rows `i <= j < n`.
pub proof fn lemma_solve_frame<T: Scalar>(
    layout: Layout,
    a: Seq<T>,
    n: int,
    x: Seq<T>,
    incx: int,
    i: int,
)
    requires
        incx > 0,
        0 <= i,
        spans(x.len() as int, n, incx),
    ensures
        tri_solve(layout, a, n, x, incx, i).len() == x.len(),
        forall|p: int|
            0 <= p < x.len() && !in_rows(p, incx, i, n) ==> #[trigger] tri_solve(
                layout,
                a,
                n,
                x,
                incx,
                i,
            )[p] == x[p],
    decreases n - i,
{
    if i < n {
        lemma_solve_frame(layout, a, n, x, incx, i + 1);
        lemma_spans_index(x.len() as int, n, incx, i);
        lemma_stride_offset(i, incx);
    }
}

/// The rows above `i` leave the elements `j >= i` as the solving sweep down
/// to row `i` has made them.
pub proof fn lemma_solve_settled<T: Scalar>(
    layout: Layout,
    a: Seq<T>,
    n: int,
    x: Seq<T>,
    incx: int,
    k: int,
    i: int,
)
    requires
        incx > 0,
        0 <= k <= i,
        spans(x.len() as int, n, incx),
    ensures
        forall|j: int|
            i <= j < n ==> #[trigger] elem(tri_solve(layout, a, n, x, incx, k), incx, j) == elem(
                tri_solve(layout, a, n, x, incx, i),
                incx,
                j,
            ),
    decreases i - k,
{
    if k < i {
        lemma_solve_settled(layout, a, n, x, incx, k + 1, i);
        lemma_solve_frame(layout, a, n, x, incx, k + 1);
        assert forall|j: int| i <= j < n implies #[trigger] elem(
            tri_solve(layout, a, n, x, incx, k),
            incx,
            j,
        ) == elem(tri_solve(layout, a, n, x, incx, i), incx, j) by {
            lemma_spans_index(x.len() as int, n, incx, j);
            lemma_spans_index(x.len() as int, n, incx, k);
            assert(k * incx < j * incx) by (nonlinear_arith)
                requires
                    k < j,
                    incx > 0,
            ;
            assert(elem(tri_solve(layout, a, n, x, incx, k + 1), incx, j) == elem(
                tri_solve(layout, a, n, x, incx, i),
                incx,
                j,
            ));
        }
    }
}

/// The diagonal entry `d` is not zero, and `d * ((b - s) / d) + s` gives `b`
/// back.
pub open spec fn multiplies_back<T: Scalar>(d: T, b: T, s: T) -> bool {
    !d.is_zero_spec() && d.mul_spec(b.sub_spec(s).div_spec(d)).add_spec(s) == b
}

/// The solving sweep solves `A * x = b`: row `i` of `A` times the vector it
/// leaves, taken as `A(i, i) * x(i)` plus the sum over the rest of the row,
/// is element `i` of `b`. This holds where each diagonal entry is not zero
/// and multiplies back into what it divided, as it does in exact arithmetic.
pub proof fn lemma_solve_solves<T: Scalar>(
    layout: Layout,
    a: Seq<T>,
    n: int,
    b: Seq<T>,
    incx: int,
    i: int,
)
    requires
        incx > 0,
        0 <= i < n,
        spans(b.len() as int, n, incx),
        diagonal_stored(layout, a, n),
        multiplies_back(
            entry(layout, a, n, i, i).unwrap(),
            elem(b, incx, i),
            row_dot(layout, a, n, tri_solve(layout, a, n, b, incx, 0), incx, i, i + 1, n),
        ),
    ensures
        mul_step(layout, a, n, tri_solve(layout, a, n, b, incx, 0), incx, i) == elem(b, incx, i),
{
    let solved = tri_solve(layout, a, n, b, incx, 0);
    let below = tri_solve(layout, a, n, b, incx, i + 1);
    let here = tri_solve(layout, a, n, b, incx, i);
    let p = i * incx;
    lemma_spans_index(b.len() as int, n, incx, i);
    lemma_stride_offset(i, incx);
    lemma_solve_frame(layout, a, n, b, incx, i + 1);
    lemma_solve_settled(layout, a, n, b, incx, 0, i);
    lemma_solve_settled(layout, a, n, b, incx, 0, i + 1);
    assert(!in_rows(p, incx, i + 1, n));
    assert(below[p] == b[p]);
    assert(elem(solved, incx, i) == elem(here, incx, i));
    assert(here[p] == solve_step(layout, a, n, below, incx, i));
    assert forall|j: int| i + 1 <= j < n implies #[trigger] elem(below, incx, j) == elem(
        solved,
        incx,
        j,
    ) by {
        assert(elem(solved, incx, j) == elem(below, incx, j));
    }
    lemma_row_dot_same_vector(layout, a, n, below, solved, incx, i, i + 1, n);
}

/// The solving sweep down to row `i`, run on the product `A * x`, has
/// restored the elements `i <= j < n` of `x` and left the others as the
/// product has them.
pub proof fn lemma_solve_restores<T: Scalar>(
    layout: Layout,
    a: Seq<T>,
    n: int,
    x: Seq<T>,
    incx: int,
    i: int,
)
    requires
        sums_cancel::<T>(),
        incx > 0,
        0 <= i,
        0 <= n,
        spans(x.len() as int, n, incx),
        diagonal_stored(layout, a, n),
        forall|i: int|
            0 <= i < n ==> divides_back((#[trigger] entry(layout, a, n, i, i)).unwrap(), elem(x, incx, i)),
    ensures
        tri_solve(layout, a, n, tri_mul(layout, a, n, x, incx, n), incx, i).len() == x.len(),
        forall|j: int|
            i <= j < n ==> #[trigger] elem(
                tri_solve(layout, a, n, tri_mul(layout, a, n, x, incx, n), incx, i),
                incx,
                j,
            ) == elem(x, incx, j),
        forall|p: int|
            0 <= p < x.len() && !in_rows(p, incx, i, n) ==> #[trigger] tri_solve(
                layout,
                a,
                n,
                tri_mul(layout, a, n, x, incx, n),
                incx,
                i,
            )[p] == tri_mul(layout, a, n, x, incx, n)[p],
    decreases n - i,
{
    let product = tri_mul(layout, a, n, x, incx, n);
    if i < n {
        lemma_solve_restores(layout, a, n, x, incx, i + 1);
        let below = tri_solve(layout, a, n, product, incx, i + 1);
        let here = tri_solve(layout, a, n, product, incx, i);
        let p = i * incx;
        lemma_spans_index(x.len() as int, n, incx, i);
        lemma_stride_offset(i, incx);
        let d = entry(layout, a, n, i, i).unwrap();
        assert(divides_back(d, elem(x, incx, i)));
        // The solving step starts from row `i` of the product.
        assert(!in_rows(p, incx, i + 1, n));
        assert(below[p] == product[p]);
        let sum = row_dot(layout, a, n, x, incx, i, i + 1, n);
        assert(product[p] == d.mul_spec(x[p]).add_spec(sum));
        // It takes away the sum over the elements restored already.
        lemma_row_dot_same_vector(layout, a, n, below, x, incx, i, i + 1, n);
        assert(solve_step(layout, a, n, below, incx, i) == d.mul_spec(x[p]).add_spec(sum).sub_spec(
            sum,
        ).div_spec(d));
        assert(d.mul_spec(x[p]).add_spec(sum).sub_spec(sum) == d.mul_spec(x[p]));
        assert(d.mul_spec(x[p]).div_spec(d) == x[p]);
        assert(here == below.update(p, x[p]));
        assert forall|j: int| i <= j < n implies #[trigger] elem(here, incx, j) == elem(
            x,
            incx,
            j,
        ) by {
            if j > i {
                assert(i * incx < j * incx) by (nonlinear_arith)
                    requires
                        i < j,
                        incx > 0,
                ;
                lemma_spans_index(x.len() as int, n, incx, j);
                assert(elem(below, incx, j) == elem(x, incx, j));
            }
        }
    }
}

/// `x := A * x` in place: element `i` becomes row `i` of `A` times `x` as
/// it was on entry. The rows are taken from the first to the last, so that
/// each reads only elements that are not overwritten yet.
pub fn multiply<T: Scalar>(layout: Layout, a: &[T], n: usize, x: &mut [T], incx: usize)
    requires
        incx > 0,
        spans(old(x)@.len() as int, n as int, incx as int),
        diagonal_stored(layout, a@, n as int),
    ensures
        final(x)@.len() == old(x)@.len(),
        final(x)@ == tri_mul(layout, a@, n as int, old(x)@, incx as int, n as int),
{
    let mut i: usize = 0;
    assert(x@ =~= tri_mul(layout, a@, n as int, old(x)@, incx as int, 0));
    while i < n
        invariant
            incx > 0,
            i <= n,
            x@.len() == old(x)@.len(),
            spans(old(x)@.len() as int, n as int, incx as int),
            diagonal_stored(layout, a@, n as int),
            x@ == tri_mul(layout, a@, n as int, old(x)@, incx as int, i as int),
        decreases n - i,
    {
        proof {
            lemma_spans_index(x@.len() as int, n as int, incx as int, i as int);
            lemma_stride_offset(i as int, incx as int);
            assert(x@.len() == x.len());
            assert(entry(layout, a@, n as int, i as int, i as int) is Some);
            // The elements from `i` on are still those of the entry vector.
            assert forall|j: int| i <= j < n implies #[trigger] elem(x@, incx as int, j) == elem(
                old(x)@,
                incx as int,
                j,
            ) by {
                lemma_spans_index(x@.len() as int, n as int, incx as int, j);
                lemma_stride_offset(j, incx as int);
            }
            assert(elem(x@, incx as int, i as int) == elem(old(x)@, incx as int, i as int));
            lemma_row_dot_same_vector(
                layout,
                a@,
                n as int,
                x@,
                old(x)@,
                incx as int,
                i as int,
                i + 1,
                n as int,
            );
        }
        let sum = row_sum(layout, a, n, x, incx, i, i + 1, n);
        let p: usize = i * incx;
        match fetch(layout, a, n, i, i) {
            Some(d) => {
                x[p] = d.mul(x[p]).add(sum);
            },
            None => {},
        }
        proof {
            let next = tri_mul(layout, a@, n as int, old(x)@, incx as int, i + 1);
            assert forall|q: int| 0 <= q < x@.len() implies x@[q] == next[q] by {
                lemma_stride_step(q, incx as int, i as int);
            }
            assert(x@ =~= next);
        }
        i = i + 1;
    }
}

/// Solves `A * x = b` in place, swept from the last row to the first; `x`
/// holds `b` on entry. A row whose diagonal entry is exactly zero leaves its
/// element as it was.
pub fn solve<T: Scalar>(layout: Layout, a: &[T], n: usize, x: &mut [T], incx: usize)
    requires
        spans(old(x)@.len() as int, n as int, incx as int),
        diagonal_stored(layout, a@, n as int),
    ensures
        final(x)@.len() == old(x)@.len(),
        final(x)@ == tri_solve(layout, a@, n as int, old(x)@, incx as int, 0),
{
    let mut i: usize = n;
    while i > 0
        invariant
            i <= n,
            x@.len() == old(x)@.len(),
            spans(old(x)@.len() as int, n as int, incx as int),
            diagonal_stored(layout, a@, n as int),
            x@ == tri_solve(layout, a@, n as int, old(x)@, incx as int, i as int),
        decreases i,
    {
        i = i - 1;
        proof {
            lemma_spans_index(x@.len() as int, n as int, incx as int, i as int);
            assert(x@.len() == x.len());
            assert(entry(layout, a@, n as int, i as int, i as int) is Some);
        }
        let sum = row_sum(layout, a, n, x, incx, i, i + 1, n);
        let p: usize = i * incx;
        let ghost before = x@;
        match fetch(layout, a, n, i, i) {
            Some(d) => {
                if !d.is_zero() {
                    x[p] = x[p].sub(sum).div(d);
                }
            },
            None => {},
        }
        assert(x@ =~= before.update(p as int, solve_step(layout, a@, n as int, before, incx as int, i as int)));
    }
}

} // verus!
