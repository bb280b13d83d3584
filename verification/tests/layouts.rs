use blas_rs::layout::{fetch, holds_rows, holds_triangle, locate, Layout, Slot};
use blas_rs::scalar::GaussInt;
use blas_rs::stride::{holds, logical_count, paired_count};

#[test]
fn dense_entries_are_row_major() {
    assert_eq!(locate(Layout::Dense, 3, 6, 0, 0), Slot::Stored(0));
    assert_eq!(locate(Layout::Dense, 3, 6, 1, 2), Slot::Stored(5));
    assert_eq!(locate(Layout::Dense, 3, 6, 2, 0), Slot::Zero);
    assert_eq!(locate(Layout::Dense, usize::MAX, 6, usize::MAX, 0), Slot::Zero);
}

#[test]
fn symmetric_entries_mirror_below_the_diagonal() {
    assert_eq!(locate(Layout::Symmetric, 3, 9, 0, 2), Slot::Stored(2));
    assert_eq!(locate(Layout::Symmetric, 3, 9, 2, 0), Slot::Mirrored(2));
    assert_eq!(locate(Layout::Hermitian, 3, 9, 2, 1), Slot::Mirrored(5));
    assert_eq!(locate(Layout::Hermitian, 3, 9, 1, 1), Slot::Stored(4));
    assert_eq!(locate(Layout::UpperTriangular, 3, 9, 1, 2), Slot::Stored(5));
    assert_eq!(locate(Layout::UpperTriangular, 3, 9, 2, 1), Slot::Zero);
}

#[test]
fn band_entries_sit_in_their_band_row() {
    let band = Layout::Band { kl: 1, ku: 1 };
    // the diagonal is band row ku
    assert_eq!(locate(band, 3, 9, 0, 0), Slot::Stored(3));
    assert_eq!(locate(band, 3, 9, 2, 2), Slot::Stored(5));
    // a sub-diagonal entry is in band row 0, a super-diagonal entry in row 2
    assert_eq!(locate(band, 3, 9, 1, 0), Slot::Stored(0));
    assert_eq!(locate(band, 3, 9, 0, 1), Slot::Stored(7));
    // outside the band
    assert_eq!(locate(band, 3, 9, 0, 2), Slot::Zero);
    assert_eq!(locate(band, 3, 9, 2, 0), Slot::Zero);
    // inside the band but beyond the buffer
    assert_eq!(locate(band, 3, 6, 0, 1), Slot::Zero);
}

#[test]
fn general_band_diagonal_is_band_row_ku() {
    let band = Layout::Band { kl: 0, ku: 1 };
    assert_eq!(locate(band, 2, 6, 0, 0), Slot::Stored(2));
    assert_eq!(locate(band, 2, 6, 1, 1), Slot::Stored(3));
    assert_eq!(locate(band, 2, 6, 1, 0), Slot::Stored(0));
    assert_eq!(locate(band, 2, 6, 0, 1), Slot::Zero);
    let other = Layout::Band { kl: 2, ku: 0 };
    assert_eq!(locate(other, 3, 9, 0, 0), Slot::Stored(0));
    assert_eq!(locate(other, 3, 9, 2, 2), Slot::Stored(2));
    assert_eq!(locate(other, 3, 9, 0, 1), Slot::Stored(4));
    assert_eq!(locate(other, 3, 9, 0, 2), Slot::Stored(8));
    assert_eq!(locate(other, 3, 9, 1, 0), Slot::Zero);
}

#[test]
fn symmetric_band_entries_mirror_the_super_diagonals() {
    let band = Layout::SymmetricBand { k: 1 };
    assert_eq!(locate(band, 3, 9, 1, 1), Slot::Stored(4));
    assert_eq!(locate(band, 3, 9, 0, 1), Slot::Stored(7));
    assert_eq!(locate(band, 3, 9, 1, 0), Slot::Mirrored(7));
    assert_eq!(locate(band, 3, 9, 2, 1), Slot::Mirrored(8));
    assert_eq!(locate(band, 3, 9, 0, 2), Slot::Zero);
    assert_eq!(locate(band, 3, 9, 2, 0), Slot::Zero);
    assert_eq!(locate(Layout::HermitianBand { k: 1 }, 3, 9, 1, 0), Slot::Mirrored(7));
    assert_eq!(locate(Layout::UpperBand { k: 1 }, 3, 9, 1, 0), Slot::Zero);
    assert_eq!(locate(Layout::UpperBand { k: 1 }, 3, 9, 1, 2), Slot::Stored(8));
    assert_eq!(locate(Layout::UpperBand { k: 1 }, 3, 9, 2, 2), Slot::Stored(5));
    assert_eq!(locate(Layout::UpperBand { k: 1 }, 3, 6, 1, 2), Slot::Zero);
}

#[test]
fn packed_entries_follow_the_triangle() {
    assert_eq!(locate(Layout::SymmetricPacked, 3, 6, 0, 0), Slot::Stored(0));
    assert_eq!(locate(Layout::SymmetricPacked, 3, 6, 1, 0), Slot::Stored(1));
    assert_eq!(locate(Layout::SymmetricPacked, 3, 6, 1, 1), Slot::Stored(2));
    assert_eq!(locate(Layout::SymmetricPacked, 3, 6, 2, 1), Slot::Stored(4));
    assert_eq!(locate(Layout::SymmetricPacked, 3, 6, 1, 2), Slot::Mirrored(4));
    assert_eq!(locate(Layout::HermitianPacked, 3, 6, 0, 2), Slot::Mirrored(3));
    assert_eq!(locate(Layout::HermitianPacked, 3, 5, 2, 2), Slot::Zero);
    assert_eq!(locate(Layout::UpperPacked, 3, 6, 0, 2), Slot::Stored(3));
    assert_eq!(locate(Layout::UpperPacked, 3, 6, 1, 2), Slot::Stored(4));
    assert_eq!(locate(Layout::UpperPacked, 3, 6, 2, 1), Slot::Zero);
    assert_eq!(locate(Layout::UpperPacked, 3, 6, 0, usize::MAX), Slot::Zero);
}

#[test]
fn only_hermitian_layouts_conjugate() {
    assert!(Layout::Hermitian.conjugates());
    assert!(Layout::HermitianBand { k: 2 }.conjugates());
    assert!(Layout::HermitianPacked.conjugates());
    assert!(!Layout::Symmetric.conjugates());
    assert!(!Layout::Dense.conjugates());
    assert!(!Layout::UpperPacked.conjugates());
}

#[test]
fn fetch_conjugates_mirrored_hermitian_entries() {
    let a = vec![
        GaussInt::new(1, 0),
        GaussInt::new(2, 1),
        GaussInt::new(9, 9),
        GaussInt::new(3, 0),
    ];
    assert_eq!(fetch(Layout::Hermitian, &a, 2, 0, 1), Some(GaussInt::new(2, 1)));
    assert_eq!(fetch(Layout::Hermitian, &a, 2, 1, 0), Some(GaussInt::new(2, -1)));
    assert_eq!(fetch(Layout::Symmetric, &a, 2, 1, 0), Some(GaussInt::new(2, 1)));
    assert_eq!(fetch(Layout::Dense, &a, 2, 1, 0), Some(GaussInt::new(9, 9)));
    assert_eq!(fetch(Layout::UpperTriangular, &a, 2, 1, 0), None);
    assert_eq!(fetch(Layout::Dense, &a, 2, 2, 0), None);
}

#[test]
fn logical_lengths() {
    assert_eq!(logical_count(0, 1), 0);
    assert_eq!(logical_count(5, 1), 5);
    assert_eq!(logical_count(5, 2), 3);
    assert_eq!(logical_count(5, 3), 2);
    assert_eq!(logical_count(6, 3), 2);
    assert_eq!(logical_count(7, 3), 3);
    assert_eq!(logical_count(5, 9), 1);
    assert_eq!(paired_count(5, 2, 2, 1), 2);
    assert_eq!(paired_count(5, 1, 9, 3), 3);
    assert_eq!(paired_count(0, 1, 9, 3), 0);
}

#[test]
fn buffers_that_hold_their_vectors_and_matrices() {
    assert!(holds(0, 0, 1));
    assert!(!holds(0, 1, 1));
    assert!(holds(5, 3, 2));
    assert!(!holds(4, 3, 2));
    assert!(holds(1, 7, 0));
    assert!(!holds(10, usize::MAX, usize::MAX));
    assert!(holds_rows(2, 3, 6));
    assert!(!holds_rows(2, 3, 5));
    assert!(holds_rows(0, usize::MAX, 0));
    assert!(!holds_rows(usize::MAX, usize::MAX, usize::MAX));
    assert!(holds_triangle(3, 6));
    assert!(!holds_triangle(3, 5));
    assert!(holds_triangle(0, 0));
    assert!(!holds_triangle(usize::MAX, usize::MAX));
}
