//! Rank-1 and rank-2 updates, shared by the dense and packed formats.
//!
//! Every entry is updated from its own old value and the two vectors alone,
//! so the entries may be taken in any order.
use vstd::prelude::*;
use crate::layout::packed_index;
use crate::scalar::{GaussInt, RealScalar, Scalar};
use crate::stride::{lemma_spans_index, spans};

verus! {

/// The update to apply, with its coefficient.
pub enum Rank<T: Scalar> {
    /// `A := alpha * x * y^T + A`.
    Outer(T),
    /// `A := alpha * x * conj(y)^T + A`.
    OuterConj(T),
    /// `A := alpha * (x * y^T + y * x^T) + A`.
    Symmetric2(T),
    /// `A := alpha * x * conj(x)^T + A` with a real `alpha`; the diagonal
    /// receives the real quantity `alpha * |x(i)|^2`.
    Hermitian(T::Real),
    /// `A := alpha * x * conj(y)^T + conj(alpha) * y * conj(x)^T + A`.
    Hermitian2(T),
}

impl<T: Scalar> Rank<T> {
    /// Whether the update keeps to the diagonal and the upper triangle of a
    /// dense matrix.
    pub open spec fn upper_only_spec(self) -> bool {
        self is Hermitian || self is Hermitian2
    }

    /// Whether the update keeps to the diagonal and the upper triangle of a
    /// dense matrix.
    pub fn upper_only(&self) -> (r: bool)
        ensures
            r == self.upper_only_spec(),
    {
        match self {
            Rank::Hermitian(_) => true,
            Rank::Hermitian2(_) => true,
            _ => false,
        }
    }

    /// The vectors hold what the update of an `m` by `n` matrix reads: `x` is
    /// indexed by rows and `y` by columns, and the symmetric and Hermitian
    /// updates, which are for square matrices, index both by either.
    pub open spec fn readable(self, m: int, n: int, xlen: int, incx: int, ylen: int, incy: int) -> bool {
        if self is Outer || self is OuterConj {
            spans(xlen, m, incx) && spans(ylen, n, incy)
        } else {
            m == n && spans(xlen, n, incx) && spans(ylen, n, incy)
        }
    }
}

/// The vectors hold the elements that the update of the entry `(r, c)`
/// reads.
pub open spec fn entry_readable<T: Scalar>(
    op: Rank<T>,
    xlen: int,
    incx: int,
    ylen: int,
    incy: int,
    r: int,
    c: int,
) -> bool {
    if op is Outer || op is OuterConj {
        0 <= r * incx < xlen && 0 <= c * incy < ylen
    } else {
        &&& 0 <= r * incx < xlen
        &&& 0 <= c * incx < xlen
        &&& 0 <= r * incy < ylen
        &&& 0 <= c * incy < ylen
    }
}

/// Vectors that are readable for an `m` by `n` matrix hold what each of its
/// entries reads.
pub proof fn lemma_entry_readable<T: Scalar>(
    op: Rank<T>,
    m: int,
    n: int,
    xlen: int,
    incx: int,
    ylen: int,
    incy: int,
    r: int,
    c: int,
)
    requires
        op.readable(m, n, xlen, incx, ylen, incy),
        0 <= r < m,
        0 <= c < n,
        0 <= incx,
        0 <= incy,
    ensures
        entry_readable(op, xlen, incx, ylen, incy, r, c),
{
    lemma_spans_index(xlen, m, incx, r);
    lemma_spans_index(ylen, n, incy, c);
    if !(op is Outer || op is OuterConj) {
        lemma_spans_index(xlen, n, incx, c);
        lemma_spans_index(ylen, n, incy, r);
    }
}

/// The entry `(r, c)` after the update, from its value `old` before it.
pub open spec fn updated<T: Scalar>(
    op: Rank<T>,
    x: Seq<T>,
    incx: int,
    y: Seq<T>,
    incy: int,
    r: int,
    c: int,
    old: T,
) -> T {
    match op {
        Rank::Outer(alpha) => old.add_spec(alpha.mul_spec(x[r * incx]).mul_spec(y[c * incy])),
        Rank::OuterConj(alpha) => old.add_spec(
            alpha.mul_spec(x[r * incx]).mul_spec(y[c * incy].conj_spec()),
        ),
        Rank::Symmetric2(alpha) => old.add_spec(
            alpha.mul_spec(
                x[r * incx].mul_spec(y[c * incy]).add_spec(y[r * incy].mul_spec(x[c * incx])),
            ),
        ),
        Rank::Hermitian(alpha) => if r == c {
            old.add_real_spec(alpha.mul_spec(x[r * incx].norm_sqr_spec()))
        } else {
            old.add_spec(x[r * incx].scale_spec(alpha).mul_spec(x[c * incx].conj_spec()))
        },
        Rank::Hermitian2(alpha) => old.add_spec(
            alpha.mul_spec(x[r * incx]).mul_spec(y[c * incy].conj_spec()).add_spec(
                alpha.conj_spec().mul_spec(y[r * incy]).mul_spec(x[c * incx].conj_spec()),
            ),
        ),
    }
}

/// Computes [`updated`] for one entry.
pub fn update_entry<T: Scalar>(
    op: &Rank<T>,
    x: &[T],
    incx: usize,
    y: &[T],
    incy: usize,
    r: usize,
    c: usize,
    old: T,
) -> (new: T)
    requires
        entry_readable(*op, x@.len() as int, incx as int, y@.len() as int, incy as int, r as int, c as int),
    ensures
        new == updated(*op, x@, incx as int, y@, incy as int, r as int, c as int, old),
{
    proof {
        assert(x@.len() == x.len() && y@.len() == y.len());
    }
    match op {
        Rank::Outer(alpha) => old.add(alpha.mul(x[r * incx]).mul(y[c * incy])),
        Rank::OuterConj(alpha) => old.add(alpha.mul(x[r * incx]).mul(y[c * incy].conj())),
        Rank::Symmetric2(alpha) => old.add(
            alpha.mul(x[r * incx].mul(y[c * incy]).add(y[r * incy].mul(x[c * incx]))),
        ),
        Rank::Hermitian(alpha) => {
            if r == c {
                old.add_real(alpha.mul(x[r * incx].norm_sqr()))
            } else {
                old.add(x[r * incx].scale(*alpha).mul(x[c * incx].conj()))
            }
        },
        Rank::Hermitian2(alpha) => old.add(
            alpha.mul(x[r * incx]).mul(y[c * incy].conj()).add(
                alpha.conj().mul(y[r * incy]).mul(x[c * incx].conj()),
            ),
        ),
    }
}

/// Whether a dense update touches the element at offset `p` of an `m` by `n`
/// matrix: it is the entry `(p / n, p % n)` of one of the first `m` rows,
/// and on or above the diagonal where the update keeps to the upper triangle.
pub open spec fn touched(upper_only: bool, m: int, n: int, p: int) -> bool {
    n > 0 && p / n < m && (upper_only ==> p / n <= p % n)
}

/// The dense row-major buffer after the update.
pub open spec fn dense_update<T: Scalar>(
    op: Rank<T>,
    a: Seq<T>,
    m: int,
    n: int,
    x: Seq<T>,
    incx: int,
    y: Seq<T>,
    incy: int,
) -> Seq<T> {
    Seq::new(
        a.len(),
        |p: int|
            if touched(op.upper_only_spec(), m, n, p) {
                updated(op, x, incx, y, incy, p / n, p % n, a[p])
            } else {
                a[p]
            },
    )
}

/// The element at offset `p` of the dense buffer after the update, from its
/// value `old` before: updated if the update touches it, kept otherwise. The
/// elements do not depend on one another and may be computed in any order or
/// side by side.
pub fn update_at<T: Scalar>(
    op: &Rank<T>,
    m: usize,
    n: usize,
    x: &[T],
    incx: usize,
    y: &[T],
    incy: usize,
    p: usize,
    old: T,
) -> (r: T)
    requires
        op.readable(
            m as int,
            n as int,
            x@.len() as int,
            incx as int,
            y@.len() as int,
            incy as int,
        ),
    ensures
        r == (if touched(op.upper_only_spec(), m as int, n as int, p as int) {
            updated(*op, x@, incx as int, y@, incy as int, p as int / n as int, p as int % n as int, old)
        } else {
            old
        }),
{
    if n == 0 {
        return old;
    }
    let row: usize = p / n;
    let col: usize = p % n;
    if row < m && (!op.upper_only() || row <= col) {
        proof {
            lemma_entry_readable(
                *op,
                m as int,
                n as int,
                x@.len() as int,
                incx as int,
                y@.len() as int,
                incy as int,
                row as int,
                col as int,
            );
        }
        update_entry(op, x, incx, y, incy, row, col, old)
    } else {
        old
    }
}

/// Applies the update to an `m` by `n` matrix in dense row-major storage.
/// Entries that the buffer is too short to hold are passed over.
pub fn update_dense<T: Scalar>(
    op: Rank<T>,
    a: &mut [T],
    m: usize,
    n: usize,
    x: &[T],
    incx: usize,
    y: &[T],
    incy: usize,
)
    requires
        op.readable(
            m as int,
            n as int,
            x@.len() as int,
            incx as int,
            y@.len() as int,
            incy as int,
        ),
    ensures
        final(a)@ == dense_update(op, old(a)@, m as int, n as int, x@, incx as int, y@, incy as int),
{
    let len: usize = a.len();
    let mut p: usize = 0;
    while p < len
        invariant
            p <= len,
            len == a@.len(),
            a@.len() == old(a)@.len(),
            op.readable(
                m as int,
                n as int,
                x@.len() as int,
                incx as int,
                y@.len() as int,
                incy as int,
            ),
            forall|q: int|
                0 <= q < p ==> a@[q] == #[trigger] dense_update(
                    op,
                    old(a)@,
                    m as int,
                    n as int,
                    x@,
                    incx as int,
                    y@,
                    incy as int,
                )[q],
            forall|q: int| p <= q < len ==> a@[q] == old(a)@[q],
        decreases len - p,
    {
        a[p] = update_at(&op, m, n, x, incx, y, incy, p, a[p]);
        p = p + 1;
    }
    assert(a@ =~= dense_update(op, old(a)@, m as int, n as int, x@, incx as int, y@, incy as int));
}

/// A Hermitian rank-1 update of a dense matrix keeps the diagonal in any set
/// `is_real` of elements that adding a real quantity does not lead out of: a
/// real diagonal stays real.
pub proof fn lemma_her_diagonal_stays_real<T: Scalar>(
    is_real: spec_fn(T) -> bool,
    alpha: T::Real,
    a: Seq<T>,
    n: int,
    x: Seq<T>,
    incx: int,
    i: int,
)
    requires
        forall|v: T, k: T::Real| is_real(v) ==> is_real(#[trigger] v.add_real_spec(k)),
        0 <= i < n,
        i * n + i < a.len(),
        is_real(a[i * n + i]),
    ensures
        is_real(dense_update(Rank::Hermitian(alpha), a, n, n, x, incx, x, incx)[i * n + i]),
{
    assert(0 <= i * n + i) by (nonlinear_arith)
        requires
            0 <= i < n,
    ;
    vstd::arithmetic::div_mod::lemma_fundamental_div_mod_converse(i * n + i, n, i, i);
}

/// A Hermitian rank-1 update of a packed matrix keeps the diagonal in any
/// set `is_real` of elements that adding a real quantity does not lead out of.
pub proof fn lemma_hpr_diagonal_stays_real<T: Scalar>(
    is_real: spec_fn(T) -> bool,
    alpha: T::Real,
    before: Seq<T>,
    after: Seq<T>,
    n: int,
    x: Seq<T>,
    incx: int,
    i: int,
)
    requires
        forall|v: T, k: T::Real| is_real(v) ==> is_real(#[trigger] v.add_real_spec(k)),
        packed_updated(Rank::Hermitian(alpha), before, after, n, x, incx, x, incx),
        0 <= i < n,
        is_real(before[packed_index(i, i)]),
    ensures
        is_real(after[packed_index(i, i)]),
{
    assert(after[packed_index(i, i)] == updated(
        Rank::Hermitian(alpha),
        x,
        incx,
        x,
        incx,
        i,
        i,
        before[packed_index(i, i)],
    ));
}

/// In [`GaussInt`] arithmetic, adding a real quantity leaves the imaginary
/// part as it is, so that the elements with imaginary part zero are a set
/// that the two laws above apply to.
pub proof fn lemma_gauss_add_real_keeps_imaginary(v: GaussInt, k: i64)
    ensures
        v.add_real_spec(k).im == v.im,
{
}

/// Over [`GaussInt`] elements, a Hermitian rank-1 update leaves the
/// imaginary part of a diagonal entry at zero.
pub proof fn lemma_gauss_her_diagonal(
    alpha: i64,
    a: Seq<GaussInt>,
    n: int,
    x: Seq<GaussInt>,
    incx: int,
    i: int,
)
    requires
        0 <= i < n,
        i * n + i < a.len(),
        a[i * n + i].im == 0,
    ensures
        dense_update(Rank::Hermitian(alpha), a, n, n, x, incx, x, incx)[i * n + i].im == 0,
{
    lemma_her_diagonal_stays_real(|v: GaussInt| v.im == 0, alpha, a, n, x, incx, i);
}

/// The `i`-th triangular number, the offset of row `i` in packed storage.
pub open spec fn triangle(i: int) -> int {
    i * (i + 1) / 2
}

/// Row `i + 1` of a packed triangle starts `i + 1` elements after row `i`.
pub proof fn lemma_triangle_step(i: int)
    requires
        0 <= i,
    ensures
        triangle(i + 1) == triangle(i) + i + 1,
        triangle(i) >= 0,
{
    assert((i + 1) * (i + 2) == i * (i + 1) + 2 * (i + 1)) by (nonlinear_arith);
    assert(i * (i + 1) >= 0) by (nonlinear_arith)
        requires
            0 <= i,
    ;
}

/// The rows of a packed triangle follow one another.
pub proof fn lemma_triangle_monotone(i: int, k: int)
    requires
        0 <= i <= k,
    ensures
        triangle(i) <= triangle(k),
    decreases k - i,
{
    if i < k {
        lemma_triangle_monotone(i, k - 1);
        lemma_triangle_step(k - 1);
    }
}

/// Distinct entries of a packed triangle have distinct offsets, in the order
/// of rows and then columns.
pub proof fn lemma_packed_order(i: int, j: int, k: int, l: int)
    requires
        0 <= j <= i,
        0 <= l <= k,
        i < k || (i == k && j < l),
    ensures
        packed_index(i, j) < packed_index(k, l),
{
    if i < k {
        lemma_triangle_step(i);
        lemma_triangle_monotone(i + 1, k);
    }
}

/// The packed buffer `after` is `before` with the update applied to the
/// entries `(i, j)`, `j <= i < n`, of the lower triangle, and nothing else
/// changed.
pub open spec fn packed_updated<T: Scalar>(
    op: Rank<T>,
    before: Seq<T>,
    after: Seq<T>,
    n: int,
    x: Seq<T>,
    incx: int,
    y: Seq<T>,
    incy: int,
) -> bool {
    &&& after.len() == before.len()
    &&& forall|i: int, j: int|
        0 <= j <= i < n ==> #[trigger] after[packed_index(i, j)] == updated(
            op,
            x,
            incx,
            y,
            incy,
            i,
            j,
            before[packed_index(i, j)],
        )
    &&& forall|k: int| triangle(n) <= k < before.len() ==> after[k] == before[k]
}

/// Applies the update to the lower triangle of a matrix of order `n`, packed
/// row after row.
pub fn update_packed<T: Scalar>(
    op: Rank<T>,
    a: &mut [T],
    n: usize,
    x: &[T],
    incx: usize,
    y: &[T],
    incy: usize,
)
    requires
        op.readable(
            n as int,
            n as int,
            x@.len() as int,
            incx as int,
            y@.len() as int,
            incy as int,
        ),
        triangle(n as int) <= old(a)@.len(),
    ensures
        packed_updated(op, old(a)@, final(a)@, n as int, x@, incx as int, y@, incy as int),
{
    let mut k: usize = 0;
    let mut i: usize = 0;
    while i < n
        invariant
            i <= n,
            k == triangle(i as int),
            a@.len() == old(a)@.len(),
            triangle(n as int) <= a@.len(),
            op.readable(
                n as int,
                n as int,
                x@.len() as int,
                incx as int,
                y@.len() as int,
                incy as int,
            ),
            forall|r: int, c: int|
                0 <= c <= r < i ==> #[trigger] a@[packed_index(r, c)] == updated(
                    op,
                    x@,
                    incx as int,
                    y@,
                    incy as int,
                    r,
                    c,
                    old(a)@[packed_index(r, c)],
                ),
            forall|q: int| k <= q < a@.len() ==> a@[q] == old(a)@[q],
        decreases n - i,
    {
        let mut j: usize = 0;
        proof {
            lemma_triangle_step(i as int);
            lemma_triangle_monotone(i as int + 1, n as int);
        }
        while j <= i
            invariant
                i < n,
                j <= i + 1,
                k == packed_index(i as int, j as int),
                triangle(i as int + 1) <= triangle(n as int),
                triangle(i as int + 1) == triangle(i as int) + i + 1,
                a@.len() == old(a)@.len(),
                triangle(n as int) <= a@.len(),
                op.readable(
                    n as int,
                    n as int,
                    x@.len() as int,
                    incx as int,
                    y@.len() as int,
                    incy as int,
                ),
                forall|r: int, c: int|
                    0 <= c <= r && (r < i || (r == i && c < j)) ==> #[trigger] a@[packed_index(
                        r,
                        c,
                    )] == updated(
                        op,
                        x@,
                        incx as int,
                        y@,
                        incy as int,
                        r,
                        c,
                        old(a)@[packed_index(r, c)],
                    ),
                forall|q: int| k <= q < a@.len() ==> a@[q] == old(a)@[q],
            decreases i + 1 - j,
        {
            proof {
                assert(a@.len() == a.len());
                assert forall|r: int, c: int|
                    0 <= c <= r && (r < i || (r == i && c < j)) implies packed_index(r, c) < k by {
                    lemma_packed_order(r, c, i as int, j as int);
                }
            }
            proof {
                lemma_entry_readable(
                    op,
                    n as int,
                    n as int,
                    x@.len() as int,
                    incx as int,
                    y@.len() as int,
                    incy as int,
                    i as int,
                    j as int,
                );
            }
            a[k] = update_entry(&op, x, incx, y, incy, i, j, a[k]);
            k = k + 1;
            j = j + 1;
        }
        i = i + 1;
    }
    proof {
        assert forall|r: int, c: int| 0 <= c <= r < n implies packed_index(r, c) < triangle(
            n as int,
        ) by {
            lemma_triangle_step(r);
            lemma_triangle_monotone(r + 1, n as int);
        }
    }
}

} // verus!
