//! The product `y := alpha * A * x + beta * y`, shared by every storage
//! format.
//!
//! The result is stated operation by operation: each row sum starts from zero
//! and takes the stored entries of its row in ascending column order.
use vstd::prelude::*;
use crate::layout::{entry, fetch, packed_index, Layout};
use crate::scalar::{is_unit, zero_vanishes, Scalar};
use crate::stride::{
    elem, lemma_spans_index, lemma_stride_offset, lemma_stride_step, on_stride, spans,
};

verus! {

/// The sum over the columns `lo <= j < hi` of `A(i, j) * x(j)`, accumulated
/// from zero in ascending order of `j`. Entries that are not stored are
/// passed over.
pub open spec fn row_dot<T: Scalar>(
    layout: Layout,
    a: Seq<T>,
    n: int,
    x: Seq<T>,
    incx: int,
    i: int,
    lo: int,
    hi: int,
) -> T
    decreases hi - lo,
{
    if hi <= lo {
        T::zero_spec()
    } else {
        let acc = row_dot(layout, a, n, x, incx, i, lo, hi - 1);
        match entry(layout, a, n, i, hi - 1) {
            Some(v) => acc.add_spec(v.mul_spec(x[(hi - 1) * incx])),
            None => acc,
        }
    }
}

/// `alpha * sum + beta * y`, where a zero `beta` leaves `y` unread.
pub open spec fn combine<T: Scalar>(alpha: T, sum: T, beta: T, y: T) -> T {
    if beta.is_zero_spec() {
        alpha.mul_spec(sum)
    } else {
        alpha.mul_spec(sum).add_spec(beta.mul_spec(y))
    }
}

/// The vector `y` after `y := alpha * A * x + beta * y` for the matrix of `m`
/// rows and `n` columns held in `a`: logical element `i < m` of `y` is
/// replaced, every other element of the buffer is kept.
pub open spec fn matvec<T: Scalar>(
    layout: Layout,
    a: Seq<T>,
    m: int,
    n: int,
    alpha: T,
    x: Seq<T>,
    incx: int,
    beta: T,
    y: Seq<T>,
    incy: int,
) -> Seq<T> {
    Seq::new(
        y.len(),
        |p: int|
            if on_stride(p, incy, m) {
                combine(alpha, row_dot(layout, a, n, x, incx, p / incy, 0, n), beta, y[p])
            } else {
                y[p]
            },
    )
}

/// Computes the sum of row `i` over the columns `lo <= j < hi`.
pub fn row_sum<T: Scalar>(
    layout: Layout,
    a: &[T],
    n: usize,
    x: &[T],
    incx: usize,
    i: usize,
    lo: usize,
    hi: usize,
) -> (sum: T)
    requires
        spans(x@.len() as int, hi as int, incx as int),
    ensures
        sum == row_dot(layout, a@, n as int, x@, incx as int, i as int, lo as int, hi as int),
{
    let mut sum = T::zero();
    let mut j: usize = lo;
    while j < hi
        invariant
            spans(x@.len() as int, hi as int, incx as int),
            lo <= j <= hi || hi <= lo,
            hi <= lo ==> j == lo,
            sum == row_dot(layout, a@, n as int, x@, incx as int, i as int, lo as int, j as int),
        decreases hi - j,
    {
        proof {
            lemma_spans_index(x@.len() as int, hi as int, incx as int, j as int);
            assert(x@.len() == x.len());
        }
        match fetch(layout, a, n, i, j) {
            Some(v) => {
                sum = sum.add(v.mul(x[j * incx]));
            },
            None => {},
        }
        j = j + 1;
    }
    sum
}

/// Computes [`combine`]: `alpha * sum + beta * y`, or `alpha * sum` for a zero
/// `beta`.
pub fn axpby<T: Scalar>(alpha: T, sum: T, beta: T, y: T) -> (r: T)
    ensures
        r == combine(alpha, sum, beta, y),
{
    if beta.is_zero() {
        alpha.mul(sum)
    } else {
        alpha.mul(sum).add(beta.mul(y))
    }
}

/// The element at offset `p` of `y` after the product, from its value `y_p`
/// before: replaced if `p` is the offset of one of the `m` logical elements
/// of `y`, kept otherwise. The elements do not depend on one another and
/// may be computed in any order or side by side.
pub fn product_at<T: Scalar>(
    layout: Layout,
    a: &[T],
    m: usize,
    n: usize,
    alpha: T,
    x: &[T],
    incx: usize,
    beta: T,
    y_p: T,
    p: usize,
    incy: usize,
) -> (r: T)
    requires
        incy > 0,
        spans(x@.len() as int, n as int, incx as int),
    ensures
        r == (if on_stride(p as int, incy as int, m as int) {
            combine(
                alpha,
                row_dot(layout, a@, n as int, x@, incx as int, p as int / incy as int, 0, n as int),
                beta,
                y_p,
            )
        } else {
            y_p
        }),
{
    if p % incy == 0 && p / incy < m {
        let sum = row_sum(layout, a, n, x, incx, p / incy, 0, n);
        axpby(alpha, sum, beta, y_p)
    } else {
        y_p
    }
}

/// `y := alpha * A * x + beta * y` for the matrix of `m` rows and `n` columns
/// held in `a` in the given layout.
pub fn product<T: Scalar>(
    layout: Layout,
    a: &[T],
    m: usize,
    n: usize,
    alpha: T,
    x: &[T],
    incx: usize,
    beta: T,
    y: &mut [T],
    incy: usize,
)
    requires
        incy > 0,
        spans(x@.len() as int, n as int, incx as int),
        spans(old(y)@.len() as int, m as int, incy as int),
    ensures
        final(y)@ == matvec(
            layout,
            a@,
            m as int,
            n as int,
            alpha,
            x@,
            incx as int,
            beta,
            old(y)@,
            incy as int,
        ),
{
    let mut i: usize = 0;
    assert(y@ =~= matvec(layout, a@, 0, n as int, alpha, x@, incx as int, beta, old(y)@, incy as int));
    while i < m
        invariant
            incy > 0,
            i <= m,
            spans(x@.len() as int, n as int, incx as int),
            spans(old(y)@.len() as int, m as int, incy as int),
            y@.len() == old(y)@.len(),
            y@ == matvec(
                layout,
                a@,
                i as int,
                n as int,
                alpha,
                x@,
                incx as int,
                beta,
                old(y)@,
                incy as int,
            ),
        decreases m - i,
    {
        proof {
            lemma_spans_index(old(y)@.len() as int, m as int, incy as int, i as int);
            lemma_stride_offset(i as int, incy as int);
            assert(y@.len() == y.len());
        }
        let sum = row_sum(layout, a, n, x, incx, i, 0, n);
        let p: usize = i * incy;
        let ghost before = y@;
        assert(!on_stride(p as int, incy as int, i as int));
        y[p] = axpby(alpha, sum, beta, y[p]);
        proof {
            let next = matvec(
                layout,
                a@,
                i + 1,
                n as int,
                alpha,
                x@,
                incx as int,
                beta,
                old(y)@,
                incy as int,
            );
            assert forall|q: int| 0 <= q < y@.len() implies y@[q] == next[q] by {
                lemma_stride_step(q, incy as int, i as int);
            }
            assert(y@ =~= next);
        }
        i = i + 1;
    }
}

/// The sum of `a[i * cols + j] * x(j)` over the columns `j < hi`, taken
/// straight from a row-major buffer and accumulated from zero in ascending
/// order of `j`.
pub open spec fn direct_row<T: Scalar>(
    a: Seq<T>,
    cols: int,
    x: Seq<T>,
    incx: int,
    i: int,
    hi: int,
) -> T
    decreases hi,
{
    if hi <= 0 {
        T::zero_spec()
    } else {
        direct_row(a, cols, x, incx, i, hi - 1).add_spec(
            a[i * cols + (hi - 1)].mul_spec(x[(hi - 1) * incx]),
        )
    }
}

/// The dense row-major matrix of order `n` with the entries of the matrix
/// held in `a`, zero standing for each entry that is not stored.
pub open spec fn dense_of<T: Scalar>(layout: Layout, a: Seq<T>, n: int) -> Seq<T> {
    Seq::new(
        (n * n) as nat,
        |p: int|
            match entry(layout, a, n, p / n, p % n) {
                Some(v) => v,
                None => T::zero_spec(),
            },
    )
}

/// Every entry of the matrix of order `n` is stored, as it stands or as its
/// transpose.
pub open spec fn fully_stored<T: Scalar>(layout: Layout, a: Seq<T>, n: int) -> bool {
    forall|i: int, j: int| 0 <= i < n && 0 <= j < n ==> (#[trigger] entry(layout, a, n, i, j)) is Some
}

/// A dense buffer of `n * n` elements stores every entry of a symmetric or
/// Hermitian matrix of order `n`, and so does a packed buffer of
/// `n * (n + 1) / 2` elements.
pub proof fn lemma_fully_stored<T: Scalar>(layout: Layout, a: Seq<T>, n: int)
    requires
        0 <= n,
        ((layout is Symmetric || layout is Hermitian) && n * n <= a.len()) || ((layout
            is SymmetricPacked || layout is HermitianPacked) && n * (n + 1) / 2 <= a.len()),
    ensures
        fully_stored(layout, a, n),
{
    assert forall|i: int, j: int| 0 <= i < n && 0 <= j < n implies (#[trigger] entry(
        layout,
        a,
        n,
        i,
        j,
    )) is Some by {
        let hi = if i <= j {
            j
        } else {
            i
        };
        let lo = if i <= j {
            i
        } else {
            j
        };
        if layout is Symmetric || layout is Hermitian {
            assert(0 <= lo * n + hi < n * n) by (nonlinear_arith)
                requires
                    0 <= lo <= hi < n,
            ;
        } else {
            assert(0 <= packed_index(hi, lo) < n * (n + 1) / 2) by (nonlinear_arith)
                requires
                    0 <= lo <= hi < n,
            ;
        }
    }
}

/// The matrix reconstructed from symmetric storage is symmetric.
pub proof fn lemma_dense_of_symmetric<T: Scalar>(layout: Layout, a: Seq<T>, n: int, i: int, j: int)
    requires
        layout is Symmetric || layout is SymmetricBand || layout is SymmetricPacked,
        0 <= i < n,
        0 <= j < n,
    ensures
        dense_of(layout, a, n)[i * n + j] == dense_of(layout, a, n)[j * n + i],
{
    assert(0 <= i * n + j < n * n && 0 <= j * n + i < n * n) by (nonlinear_arith)
        requires
            0 <= i < n,
            0 <= j < n,
    ;
    vstd::arithmetic::div_mod::lemma_fundamental_div_mod_converse(i * n + j, n, i, j);
    vstd::arithmetic::div_mod::lemma_fundamental_div_mod_converse(j * n + i, n, j, i);
}

/// Row sums depend on the entries of their row alone: two matrices that
/// agree on row `i` over the columns `lo <= j < hi` give the same sum.
pub proof fn lemma_row_dot_same_entries<T: Scalar>(
    l1: Layout,
    a1: Seq<T>,
    n1: int,
    l2: Layout,
    a2: Seq<T>,
    n2: int,
    x: Seq<T>,
    incx: int,
    i: int,
    lo: int,
    hi: int,
)
    requires
        forall|j: int| lo <= j < hi ==> entry(l1, a1, n1, i, j) == #[trigger] entry(l2, a2, n2, i, j),
    ensures
        row_dot(l1, a1, n1, x, incx, i, lo, hi) == row_dot(l2, a2, n2, x, incx, i, lo, hi),
    decreases hi - lo,
{
    if hi > lo {
        lemma_row_dot_same_entries(l1, a1, n1, l2, a2, n2, x, incx, i, lo, hi - 1);
        assert(entry(l1, a1, n1, i, hi - 1) == entry(l2, a2, n2, i, hi - 1));
    }
}

/// Row sums depend on the elements of `x` that they multiply alone.
pub proof fn lemma_row_dot_same_vector<T: Scalar>(
    layout: Layout,
    a: Seq<T>,
    n: int,
    x1: Seq<T>,
    x2: Seq<T>,
    incx: int,
    i: int,
    lo: int,
    hi: int,
)
    requires
        forall|j: int| lo <= j < hi ==> #[trigger] elem(x1, incx, j) == elem(x2, incx, j),
    ensures
        row_dot(layout, a, n, x1, incx, i, lo, hi) == row_dot(layout, a, n, x2, incx, i, lo, hi),
    decreases hi - lo,
{
    if hi > lo {
        lemma_row_dot_same_vector(layout, a, n, x1, x2, incx, i, lo, hi - 1);
        assert(elem(x1, incx, hi - 1) == elem(x2, incx, hi - 1));
    }
}

/// With a zero `beta` the product overwrites: every element that it writes
/// is the same whatever `y` held before, and with `incy == 1` and `m`
/// elements in `y` so is the whole result.
pub proof fn lemma_zero_beta_overwrites<T: Scalar>(
    layout: Layout,
    a: Seq<T>,
    m: int,
    n: int,
    alpha: T,
    x: Seq<T>,
    incx: int,
    beta: T,
    y1: Seq<T>,
    y2: Seq<T>,
    incy: int,
)
    requires
        beta.is_zero_spec(),
        y1.len() == y2.len(),
    ensures
        forall|p: int|
            0 <= p < y1.len() && on_stride(p, incy, m) ==> matvec(
                layout,
                a,
                m,
                n,
                alpha,
                x,
                incx,
                beta,
                y1,
                incy,
            )[p] == #[trigger] matvec(layout, a, m, n, alpha, x, incx, beta, y2, incy)[p],
        incy == 1 && y1.len() <= m ==> matvec(layout, a, m, n, alpha, x, incx, beta, y1, incy)
            == matvec(layout, a, m, n, alpha, x, incx, beta, y2, incy),
{
    if incy == 1 && y1.len() <= m {
        assert(matvec(layout, a, m, n, alpha, x, incx, beta, y1, incy) =~= matvec(
            layout,
            a,
            m,
            n,
            alpha,
            x,
            incx,
            beta,
            y2,
            incy,
        ));
    }
}

/// In a dense buffer that holds row `i` whole, the row sum is the direct sum
/// of `a[i * cols + j] * x(j)`.
pub proof fn lemma_dense_row_is_direct<T: Scalar>(
    a: Seq<T>,
    cols: int,
    x: Seq<T>,
    incx: int,
    i: int,
    hi: int,
)
    requires
        0 <= i,
        0 <= hi <= cols,
        (i + 1) * cols <= a.len(),
    ensures
        row_dot(Layout::Dense, a, cols, x, incx, i, 0, hi) == direct_row(a, cols, x, incx, i, hi),
    decreases hi,
{
    if hi > 0 {
        lemma_dense_row_is_direct(a, cols, x, incx, i, hi - 1);
        assert(0 <= i * cols + (hi - 1) < a.len()) by (nonlinear_arith)
            requires
                0 <= i,
                0 < hi <= cols,
                (i + 1) * cols <= a.len(),
        ;
    }
}

/// With the unit for `alpha` and a zero `beta`, the general product in dense
/// storage puts into logical element `i` of `y` the direct sum of
/// `a[i * cols + j] * x(j)` over the columns.
pub proof fn lemma_plain_product_is_direct<T: Scalar>(
    a: Seq<T>,
    m: int,
    cols: int,
    one: T,
    x: Seq<T>,
    incx: int,
    beta: T,
    y: Seq<T>,
    incy: int,
    i: int,
)
    requires
        is_unit(one),
        beta.is_zero_spec(),
        incy > 0,
        0 <= cols,
        0 <= i < m,
        i * incy < y.len(),
        m * cols <= a.len(),
    ensures
        matvec(Layout::Dense, a, m, cols, one, x, incx, beta, y, incy)[i * incy] == direct_row(
            a,
            cols,
            x,
            incx,
            i,
            cols,
        ),
{
    lemma_stride_offset(i, incy);
    assert((i + 1) * cols <= m * cols) by (nonlinear_arith)
        requires
            i + 1 <= m,
            0 <= cols,
    ;
    assert(0 <= i * incy) by (nonlinear_arith)
        requires
            0 <= i,
            0 < incy,
    ;
    lemma_dense_row_is_direct(a, cols, x, incx, i, cols);
}

/// Row `i` of the reconstructed dense matrix sums to what row `i` of the
/// stored matrix sums to, where every entry is stored or zero vanishes.
pub proof fn lemma_row_matches_dense<T: Scalar>(
    layout: Layout,
    a: Seq<T>,
    n: int,
    x: Seq<T>,
    incx: int,
    i: int,
    hi: int,
)
    requires
        0 <= i < n,
        0 <= hi <= n,
        fully_stored(layout, a, n) || zero_vanishes::<T>(),
    ensures
        row_dot(layout, a, n, x, incx, i, 0, hi) == row_dot(
            Layout::Dense,
            dense_of(layout, a, n),
            n,
            x,
            incx,
            i,
            0,
            hi,
        ),
    decreases hi,
{
    if hi > 0 {
        lemma_row_matches_dense(layout, a, n, x, incx, i, hi - 1);
        let j = hi - 1;
        let p = i * n + j;
        assert(0 <= p < n * n) by (nonlinear_arith)
            requires
                0 <= i < n,
                0 <= j < n,
                p == i * n + j,
        ;
        vstd::arithmetic::div_mod::lemma_fundamental_div_mod_converse(p, n, i, j);
        let d = dense_of(layout, a, n);
        assert(entry(Layout::Dense, d, n, i, j) == Some(d[p]));
        if entry(layout, a, n, i, j) is None {
            let acc = row_dot(layout, a, n, x, incx, i, 0, hi - 1);
            assert(T::zero_spec().mul_spec(x[j * incx]) == T::zero_spec());
            assert(acc.add_spec(T::zero_spec()) == acc);
        }
    }
}

/// A product over a symmetric, Hermitian, band or packed matrix of order `n`
/// is the general dense product over the matrix reconstructed in full. This
/// holds where every entry is stored, and for entries that are not where
/// zero vanishes in the arithmetic.
pub proof fn lemma_matches_dense<T: Scalar>(
    layout: Layout,
    a: Seq<T>,
    n: int,
    alpha: T,
    x: Seq<T>,
    incx: int,
    beta: T,
    y: Seq<T>,
    incy: int,
)
    requires
        0 <= n,
        fully_stored(layout, a, n) || zero_vanishes::<T>(),
    ensures
        matvec(layout, a, n, n, alpha, x, incx, beta, y, incy) == matvec(
            Layout::Dense,
            dense_of(layout, a, n),
            n,
            n,
            alpha,
            x,
            incx,
            beta,
            y,
            incy,
        ),
{
    let lhs = matvec(layout, a, n, n, alpha, x, incx, beta, y, incy);
    let rhs = matvec(Layout::Dense, dense_of(layout, a, n), n, n, alpha, x, incx, beta, y, incy);
    assert forall|p: int| 0 <= p < y.len() implies lhs[p] == rhs[p] by {
        if on_stride(p, incy, n) {
            assert(0 <= p / incy) by (nonlinear_arith)
                requires
                    0 <= p,
                    0 < incy,
            ;
            lemma_row_matches_dense(layout, a, n, x, incx, p / incy, n);
        }
    }
    assert(lhs =~= rhs);
}

} // verus!
