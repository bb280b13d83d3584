use blas_rs::level1::asum::Asum;
use blas_rs::level1::axpy::Axpy;
use blas_rs::level1::dot::Dot;
use blas_rs::level1::iamax::{greater_of, Iamax};
use blas_rs::level1::iamin::{lesser_of, Iamin};
use blas_rs::level1::nrm2::Nrm2;
use blas_rs::level1::rot::{rotate, Rot};
use blas_rs::level1::scal::Scal;
use blas_rs::scalar::GaussInt;

fn g(re: i64, im: i64) -> GaussInt {
    GaussInt::new(re, im)
}

#[test]
fn scal_by_one_changes_nothing() {
    let mut x: Vec<i64> = vec![3, -1, 4, -1, 5];
    x.as_mut_slice().scal(1, 1);
    assert_eq!(x, vec![3, -1, 4, -1, 5]);
    let mut z = vec![g(1, 2), g(3, 4)];
    z.as_mut_slice().scal(g(1, 0), 1);
    assert_eq!(z, vec![g(1, 2), g(3, 4)]);
}

#[test]
fn scal_honours_the_increment() {
    let mut x: Vec<i64> = vec![1, 2, 3, 4, 5, 6, 7];
    x.as_mut_slice().scal(10, 3);
    assert_eq!(x, vec![10, 2, 3, 40, 5, 6, 70]);
    let mut none: Vec<i64> = vec![];
    none.as_mut_slice().scal(10, 3);
    assert_eq!(none, Vec::<i64>::new());
}

#[test]
fn scal_multiplies_on_the_right() {
    let mut z = vec![g(1, 2)];
    z.as_mut_slice().scal(g(0, 1), 1);
    assert_eq!(z, vec![g(-2, 1)]);
}

#[test]
fn axpy_stops_with_the_shorter_vector() {
    let x: Vec<i64> = vec![1, 2, 3];
    let mut y: Vec<i64> = vec![10, 20, 30, 40, 50];
    x.as_slice().axpy(2, 1, &mut y, 1);
    assert_eq!(y, vec![12, 24, 36, 40, 50]);
    let long: Vec<i64> = vec![1, 2, 3, 4, 5, 6];
    let mut short: Vec<i64> = vec![0, 0];
    long.as_slice().axpy(1, 2, &mut short, 1);
    assert_eq!(short, vec![1, 3]);
}

#[test]
fn axpy_honours_both_increments() {
    let x: Vec<i64> = vec![1, 0, 2, 0, 3];
    let mut y: Vec<i64> = vec![10, 7, 7, 20, 7, 7, 30];
    x.as_slice().axpy(-1, 2, &mut y, 3);
    assert_eq!(y, vec![9, 7, 7, 18, 7, 7, 27]);
}

#[test]
fn distance_between_two_points() {
    let x: Vec<i64> = vec![4, 0, 8];
    let mut y: Vec<i64> = vec![1, 2, 3];
    x.as_slice().axpy(-1, 1, &mut y, 1);
    assert_eq!(y, vec![-3, 2, -5]);
    // the square root of 38, rounded down
    assert_eq!(y.as_slice().nrm2(1), 6);
}

#[test]
fn dot_does_not_conjugate() {
    let x = vec![g(0, 1), g(1, 1)];
    let y = vec![g(0, 1), g(1, -1)];
    assert_eq!(x.as_slice().dot(1, y.as_slice(), 1), g(1, 0));
    let a: Vec<i64> = vec![1, 2, 3, 4, 5];
    let b: Vec<i64> = vec![2, 2, 2];
    assert_eq!(a.as_slice().dot(2, b.as_slice(), 1), 18);
    assert_eq!(a.as_slice().dot(1, &b[..0], 1), 0);
}

#[test]
fn asum_adds_magnitudes() {
    let x: Vec<i64> = vec![1, -2, 3, -4, 5];
    assert_eq!(x.as_slice().asum(1), 15);
    assert_eq!(x.as_slice().asum(2), 9);
    assert_eq!(x.as_slice().asum(5), 1);
    let z = vec![g(1, -2), g(-3, 4)];
    assert_eq!(z.as_slice().asum(1), 10);
    let none: Vec<i64> = vec![];
    assert_eq!(none.as_slice().asum(1), 0);
}

#[test]
fn nrm2_takes_the_root_of_the_squares() {
    let x: Vec<i64> = vec![3, 100, 4];
    assert_eq!(x.as_slice().nrm2(2), 5);
    let z = vec![g(1, 2), g(2, 4)];
    assert_eq!(z.as_slice().nrm2(1), 5);
    let none: Vec<i64> = vec![];
    assert_eq!(none.as_slice().nrm2(1), 0);
}

#[test]
fn iamax_finds_the_last_of_the_greatest() {
    let x: Vec<i64> = vec![1, 5, 3, 5, 2];
    assert_eq!(x.as_slice().iamax(1), 3);
    assert_eq!(x.as_slice().iamax(2), 2);
    assert_eq!(x.as_slice().iamax(3), 3);
    let none: Vec<i64> = vec![];
    assert_eq!(none.as_slice().iamax(1), 0);
}

#[test]
fn iamax_ranks_real_elements_by_value() {
    let x: Vec<i64> = vec![-9, 2, 1];
    assert_eq!(x.as_slice().iamax(1), 1);
    assert_eq!(x.as_slice().iamin(1), 0);
}

#[test]
fn iamax_ranks_complex_elements_by_magnitude() {
    let z = vec![g(1, 1), g(-5, 0), g(0, 3)];
    assert_eq!(z.as_slice().iamax(1), 1);
    assert_eq!(z.as_slice().iamin(1), 0);
}

#[test]
fn iamin_finds_the_first_of_the_least() {
    let x: Vec<i64> = vec![4, 1, 3, 1, 2];
    assert_eq!(x.as_slice().iamin(1), 1);
    assert_eq!(x.as_slice().iamin(2), 4);
    let none: Vec<i64> = vec![];
    assert_eq!(none.as_slice().iamin(1), 0);
}

#[test]
fn rot_rotates_pairs() {
    let mut x: Vec<i64> = vec![1, 2, 3];
    let mut y: Vec<i64> = vec![10, 20, 30];
    x.as_mut_slice().rot(1, &mut y, 1, 2, 3);
    assert_eq!(x, vec![32, 64, 96]);
    assert_eq!(y, vec![17, 34, 51]);
}

#[test]
fn rot_honours_increments_and_the_shorter_vector() {
    let mut x: Vec<i64> = vec![1, 9, 2, 9, 3];
    let mut y: Vec<i64> = vec![10, 20];
    x.as_mut_slice().rot(2, &mut y, 1, 0, 1);
    assert_eq!(x, vec![10, 9, 20, 9, 3]);
    assert_eq!(y, vec![-1, -2]);
}

#[test]
fn candidates_of_a_search() {
    assert_eq!(greater_of((0, 5i64), (3, 4)), (0, 5));
    assert_eq!(greater_of((0, 5i64), (3, 5)), (3, 5));
    assert_eq!(greater_of((0, 5i64), (3, 6)), (3, 6));
    assert_eq!(lesser_of((0, 5i64), (3, 4)), (3, 4));
    assert_eq!(lesser_of((0, 5i64), (3, 5)), (0, 5));
    assert_eq!(lesser_of((0, 5i64), (3, 6)), (0, 5));
}

#[test]
fn rotation_of_one_pair() {
    assert_eq!(rotate(2i64, 3, 1, 10), (32, 17));
    assert_eq!(rotate(0i64, 1, 4, 9), (9, -4));
}
