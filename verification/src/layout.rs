//! Storage layouts: where the entry `(i, j)` of a matrix lives in its flat
//! buffer, and where element `i` of a strided vector lives in its own.
//!
//! A matrix is a flat buffer together with a [`Layout`] and its number of
//! columns `n`. [`slot`] is the one place that knows the formats: it maps a
//! coordinate to a [`Slot`], which is either an offset to read as it stands,
//! an offset that holds the transposed entry, or the statement that the entry
//! is not stored and counts as zero.
use vstd::prelude::*;
use crate::scalar::Scalar;

verus! {

/// The storage format of a matrix.
///
/// Dense and band formats that keep one triangle keep the upper one; the
/// packed formats for symmetric and Hermitian matrices keep the lower one,
/// row after row.
#[derive(Clone, Copy, Debug, PartialEq, Eq)]
pub enum Layout {
    /// General matrix, row-major: `(i, j)` at `i * n + j`.
    Dense,
    /// Symmetric matrix in dense storage; entries below the diagonal are read
    /// from their transposes.
    Symmetric,
    /// Hermitian matrix in dense storage; entries below the diagonal are the
    /// conjugates of their transposes.
    Hermitian,
    /// Upper triangular matrix in dense storage; entries below the diagonal
    /// are zero.
    UpperTriangular,
    /// General band matrix in `kl + ku + 1` band rows of `n` columns:
    /// `(i, j)` is in band row `ku + j - i`, at `(ku + j - i) * n + j`, so
    /// that the diagonal is band row `ku`. Entries whose band row falls
    /// outside `0..=kl + ku` are zero.
    Band { kl: usize, ku: usize },
    /// Symmetric band matrix with `k` super-diagonals, stored as a band
    /// matrix with `kl = ku = k` whose upper part is read.
    SymmetricBand { k: usize },
    /// Hermitian band matrix with `k` super-diagonals.
    HermitianBand { k: usize },
    /// Upper triangular band matrix with `k` super-diagonals; the diagonal is
    /// band row `k`.
    UpperBand { k: usize },
    /// Symmetric matrix, lower triangle packed by rows: `(i, j)` with
    /// `j <= i` at `i * (i + 1) / 2 + j`.
    SymmetricPacked,
    /// Hermitian matrix, lower triangle packed by rows.
    HermitianPacked,
    /// Upper triangular matrix, packed by columns: `(i, j)` with `i <= j` at
    /// `j * (j + 1) / 2 + i`.
    UpperPacked,
}

/// Where an entry is found.
#[derive(Clone, Copy, Debug, PartialEq, Eq)]
pub enum Slot {
    /// The entry is stored at this offset.
    Stored(usize),
    /// The transposed entry is stored at this offset; the entry itself is its
    /// conjugate if the matrix is Hermitian, and equal to it otherwise.
    Mirrored(usize),
    /// The entry is not stored and counts as zero.
    Zero,
}

/// Offset of `(i, j)` in row-major storage with `n` columns.
pub open spec fn dense_index(n: int, i: int, j: int) -> int {
    i * n + j
}

/// Offset of `(i, j)` in band storage with `n` columns whose diagonal is band
/// row `k`.
pub open spec fn band_index(n: int, k: int, i: int, j: int) -> int {
    (k + j - i) * n + j
}

/// Offset of `(i, j)`, `j <= i`, in a triangle packed row after row.
pub open spec fn packed_index(i: int, j: int) -> int {
    i * (i + 1) / 2 + j
}

impl Layout {
    /// Whether mirrored entries are conjugated.
    pub open spec fn conjugates_spec(self) -> bool {
        self is Hermitian || self is HermitianBand || self is HermitianPacked
    }

    /// Whether mirrored entries are conjugated.
    pub fn conjugates(self) -> (r: bool)
        ensures
            r == self.conjugates_spec(),
    {
        match self {
            Layout::Hermitian => true,
            Layout::HermitianBand { .. } => true,
            Layout::HermitianPacked => true,
            _ => false,
        }
    }

    /// The offset at which the formats place `(i, j)`, with `true` where that
    /// offset holds the transposed entry; `None` where the format stores
    /// nothing for `(i, j)`.
    pub open spec fn offset(self, n: int, i: int, j: int) -> Option<(int, bool)> {
        match self {
            Layout::Dense => Some((dense_index(n, i, j), false)),
            Layout::Symmetric | Layout::Hermitian => if i <= j {
                Some((dense_index(n, i, j), false))
            } else {
                Some((dense_index(n, j, i), true))
            },
            Layout::UpperTriangular => if i <= j {
                Some((dense_index(n, i, j), false))
            } else {
                None
            },
            Layout::Band { kl, ku } => if i <= ku + j && j <= kl + i {
                Some((band_index(n, ku as int, i, j), false))
            } else {
                None
            },
            Layout::SymmetricBand { k } | Layout::HermitianBand { k } => if i <= j {
                if j <= k + i {
                    Some((band_index(n, k as int, i, j), false))
                } else {
                    None
                }
            } else {
                if i <= k + j {
                    Some((band_index(n, k as int, j, i), true))
                } else {
                    None
                }
            },
            Layout::UpperBand { k } => if i <= j && j <= k + i {
                Some((band_index(n, k as int, i, j), false))
            } else {
                None
            },
            Layout::SymmetricPacked | Layout::HermitianPacked => if j <= i {
                Some((packed_index(i, j), false))
            } else {
                Some((packed_index(j, i), true))
            },
            Layout::UpperPacked => if i <= j {
                Some((packed_index(j, i), false))
            } else {
                None
            },
        }
    }
}

/// Where the formats keep the diagonal entry `(i, i)`: at `i * n + i` in
/// dense storage, in band row `ku` (or `k`) at `ku * n + i` in band storage,
/// and at the end of row `i` of the triangle in packed storage. It is never
/// mirrored.
pub proof fn lemma_diagonal_offset(layout: Layout, n: int, i: int)
    ensures
        layout.offset(n, i, i) == Some(
            (
                match layout {
                    Layout::Dense
                    | Layout::Symmetric
                    | Layout::Hermitian
                    | Layout::UpperTriangular => i * n + i,
                    Layout::Band { kl, ku } => ku * n + i,
                    Layout::SymmetricBand { k }
                    | Layout::HermitianBand { k }
                    | Layout::UpperBand { k } => k * n + i,
                    Layout::SymmetricPacked
                    | Layout::HermitianPacked
                    | Layout::UpperPacked => i * (i + 1) / 2 + i,
                },
                false,
            ),
        ),
{
}

/// The slot of `(i, j)` in a buffer of `len` elements: an entry outside the
/// band, below an upper triangle, or whose offset lies beyond the buffer is
/// [`Slot::Zero`].
pub open spec fn slot(layout: Layout, n: int, len: int, i: int, j: int) -> Slot {
    match layout.offset(n, i, j) {
        Some((k, mirrored)) => if 0 <= k < len {
            if mirrored {
                Slot::Mirrored(k as usize)
            } else {
                Slot::Stored(k as usize)
            }
        } else {
            Slot::Zero
        },
        None => Slot::Zero,
    }
}

/// The entry `(i, j)` of the matrix held in `a`: `None` stands for an entry
/// that is not stored, or whose offset lies beyond the buffer, and that
/// contributes nothing to a sum. A mirrored entry of a Hermitian matrix is
/// the conjugate of its stored transpose.
pub open spec fn entry<T: Scalar>(layout: Layout, a: Seq<T>, n: int, i: int, j: int) -> Option<T> {
    match layout.offset(n, i, j) {
        Some((k, mirrored)) => if 0 <= k < a.len() {
            if mirrored && layout.conjugates_spec() {
                Some(a[k].conj_spec())
            } else {
                Some(a[k])
            }
        } else {
            None
        },
        None => None,
    }
}

/// `r * n + j` as a slot, for a band row or matrix row `r` that may exceed
/// `usize`.
fn linear_slot(r: u128, n: usize, j: usize, len: usize, mirrored: bool) -> (s: Slot)
    requires
        r <= 2 * usize::MAX,
    ensures
        s == (if r * n + j < len {
            if mirrored {
                Slot::Mirrored((r * n + j) as usize)
            } else {
                Slot::Stored((r * n + j) as usize)
            }
        } else {
            Slot::Zero
        }),
{
    if r > usize::MAX as u128 {
        if n == 0 {
            assert(r * n + j == j) by (nonlinear_arith)
                requires
                    n == 0,
            ;
            if j < len {
                if mirrored {
                    Slot::Mirrored(j)
                } else {
                    Slot::Stored(j)
                }
            } else {
                Slot::Zero
            }
        } else {
            assert(r * n + j >= len) by (nonlinear_arith)
                requires
                    r > usize::MAX,
                    n >= 1,
                    j >= 0,
                    len <= usize::MAX,
            ;
            Slot::Zero
        }
    } else {
        assert(r * n <= usize::MAX * usize::MAX) by (nonlinear_arith)
            requires
                0 <= r <= usize::MAX,
                0 <= n <= usize::MAX,
        ;
        let k: u128 = r * (n as u128) + (j as u128);
        if k < len as u128 {
            if mirrored {
                Slot::Mirrored(k as usize)
            } else {
                Slot::Stored(k as usize)
            }
        } else {
            Slot::Zero
        }
    }
}

/// `hi * (hi + 1) / 2 + lo` as a slot.
fn packed_slot(hi: usize, lo: usize, len: usize, mirrored: bool) -> (s: Slot)
    ensures
        s == (if packed_index(hi as int, lo as int) < len {
            if mirrored {
                Slot::Mirrored(packed_index(hi as int, lo as int) as usize)
            } else {
                Slot::Stored(packed_index(hi as int, lo as int) as usize)
            }
        } else {
            Slot::Zero
        }),
{
    assert(hi * (hi + 1) <= usize::MAX * (usize::MAX + 1)) by (nonlinear_arith)
        requires
            0 <= hi <= usize::MAX,
    ;
    let t: u128 = (hi as u128) * (hi as u128 + 1) / 2;
    let k: u128 = t + (lo as u128);
    if k < len as u128 {
        if mirrored {
            Slot::Mirrored(k as usize)
        } else {
            Slot::Stored(k as usize)
        }
    } else {
        Slot::Zero
    }
}

/// Whether a buffer of `len` elements holds `rows * cols` elements: a dense
/// matrix, or the rows of a band matrix down to its diagonal.
pub fn holds_rows(rows: usize, cols: usize, len: usize) -> (r: bool)
    ensures
        r == (rows * cols <= len),
{
    assert(rows * cols <= usize::MAX * usize::MAX) by (nonlinear_arith)
        requires
            0 <= rows <= usize::MAX,
            0 <= cols <= usize::MAX,
    ;
    (rows as u128) * (cols as u128) <= len as u128
}

/// Whether a buffer of `len` elements holds the packed triangle of a matrix
/// of order `n`, that is `n * (n + 1) / 2` elements.
pub fn holds_triangle(n: usize, len: usize) -> (r: bool)
    ensures
        r == (n * (n + 1) / 2 <= len),
{
    assert(n * (n + 1) <= usize::MAX * (usize::MAX + 1)) by (nonlinear_arith)
        requires
            0 <= n <= usize::MAX,
    ;
    (n as u128) * (n as u128 + 1) / 2 <= len as u128
}

/// Finds the slot of `(i, j)` in a buffer of `len` elements.
pub fn locate(layout: Layout, n: usize, len: usize, i: usize, j: usize) -> (s: Slot)
    ensures
        s == slot(layout, n as int, len as int, i as int, j as int),
{
    match layout {
        Layout::Dense => linear_slot(i as u128, n, j, len, false),
        Layout::Symmetric | Layout::Hermitian => {
            if i <= j {
                linear_slot(i as u128, n, j, len, false)
            } else {
                linear_slot(j as u128, n, i, len, true)
            }
        },
        Layout::UpperTriangular => {
            if i <= j {
                linear_slot(i as u128, n, j, len, false)
            } else {
                Slot::Zero
            }
        },
        Layout::Band { kl, ku } => {
            if i as u128 <= ku as u128 + j as u128 && j as u128 <= kl as u128 + i as u128 {
                linear_slot(ku as u128 + j as u128 - i as u128, n, j, len, false)
            } else {
                Slot::Zero
            }
        },
        Layout::SymmetricBand { k } | Layout::HermitianBand { k } => {
            if i <= j {
                if j as u128 <= k as u128 + i as u128 {
                    linear_slot(k as u128 + j as u128 - i as u128, n, j, len, false)
                } else {
                    Slot::Zero
                }
            } else {
                if i as u128 <= k as u128 + j as u128 {
                    linear_slot(k as u128 + i as u128 - j as u128, n, i, len, true)
                } else {
                    Slot::Zero
                }
            }
        },
        Layout::UpperBand { k } => {
            if i <= j && j as u128 <= k as u128 + i as u128 {
                linear_slot(k as u128 + j as u128 - i as u128, n, j, len, false)
            } else {
                Slot::Zero
            }
        },
        Layout::SymmetricPacked | Layout::HermitianPacked => {
            if j <= i {
                packed_slot(i, j, len, false)
            } else {
                packed_slot(j, i, len, true)
            }
        },
        Layout::UpperPacked => {
            if i <= j {
                packed_slot(j, i, len, false)
            } else {
                Slot::Zero
            }
        },
    }
}

/// Reads the entry `(i, j)` of the matrix held in `a`.
pub fn fetch<T: Scalar>(layout: Layout, a: &[T], n: usize, i: usize, j: usize) -> (r: Option<T>)
    ensures
        r == entry(layout, a@, n as int, i as int, j as int),
{
    match locate(layout, n, a.len(), i, j) {
        Slot::Stored(k) => Some(a[k]),
        Slot::Mirrored(k) => {
            if layout.conjugates() {
                Some(a[k].conj())
            } else {
                Some(a[k])
            }
        },
        Slot::Zero => None,
    }
}

} // verus!
