use model_viewer::linalg::Vector;
use model_viewer::matrix::Matrix;

#[test]
fn identity_has_ones_on_the_diagonal() {
    let m = Matrix::<3, 3>::identity();
    assert_eq!(m.0, [[1, 0, 0], [0, 1, 0], [0, 0, 1]]);
}

#[test]
fn multiplying_by_identity_gives_the_matrix() {
    let m = Matrix([[1, 2, 3], [4, 5, 6], [7, 8, 9]]);
    assert_eq!(m.mul(&Matrix::identity()).0, m.0);
    assert_eq!(Matrix::identity().mul(&m).0, m.0);
}

#[test]
fn multiplying_a_non_square_matrix_by_identity() {
    let m = Matrix([[1, 4], [2, 5], [3, 6]]);
    assert_eq!(m.mul(&Matrix::<3, 3>::identity()).0, m.0);
    assert_eq!(Matrix::<2, 2>::identity().mul(&m).0, m.0);
}

#[test]
fn matrix_product() {
    // rows (1 2 3), (4 5 6) times rows (7 8), (9 10), (11 12)
    let a = Matrix([[1, 4], [2, 5], [3, 6]]);
    let b = Matrix([[7, 9, 11], [8, 10, 12]]);
    assert_eq!(a.mul(&b).0, [[58, 139], [64, 154]]);
}

#[test]
fn matrix_vector_product() {
    let a = Matrix([[1, 4], [2, 5], [3, 6]]);
    assert_eq!(a.mul_vector(&Vector([1, 0, -1])).0, [-2, -2]);
}

#[test]
fn det_of_identity() {
    assert_eq!(Matrix::<1, 1>::identity().det(), 1);
    assert_eq!(Matrix::<2, 2>::identity().det(), 1);
    assert_eq!(Matrix::<3, 3>::identity().det(), 1);
    assert_eq!(Matrix::<4, 4>::identity().det(), 1);
    assert_eq!(Matrix::<5, 5>::identity().det(), 1);
}

#[test]
fn det_in_two_dimensions() {
    // rows (1 2), (3 4)
    assert_eq!(Matrix([[1, 3], [2, 4]]).det(), -2);
    assert_eq!(Matrix::<0, 0>([]).det(), 1);
}

#[test]
fn det_of_triangular_matrix() {
    assert_eq!(Matrix([[2, 0, 0], [1, 3, 0], [4, 5, 6]]).det(), 36);
    assert_eq!(Matrix([[2, 1, 1], [0, 3, 1], [1, 2, 1]]).det(), 0);
}

#[test]
fn det_in_four_dimensions() {
    let m = Matrix([[2, 0, 0, 1], [1, 3, 0, 0], [0, 1, 4, 0], [0, 0, 1, 5]]);
    assert_eq!(m.det(), 119);
}

#[test]
fn transpose_twice_gives_the_matrix() {
    let m = Matrix([[1, 2], [3, 4], [5, 6]]);
    let t = m.transpose();
    assert_eq!(t.0, [[1, 3, 5], [2, 4, 6]]);
    assert_eq!(t.transpose().0, m.0);
}

#[test]
fn upper_left_block() {
    let m = Matrix([[1, 2, 3, 4], [5, 6, 7, 8], [9, 10, 11, 12], [13, 14, 15, 16]]);
    let u: Matrix<3, 3> = m.upper_left();
    assert_eq!(u.0, [[1, 2, 3], [5, 6, 7], [9, 10, 11]]);
    let v: Matrix<1, 2> = m.upper_left();
    assert_eq!(v.0, [[1], [5]]);
}
