use model_viewer::linalg::{cross, Scalar, Vector};

#[test]
fn add_then_sub_gives_start() {
    let a = Vector([3, -7, 11, 0]);
    let b = Vector([-5, 2, 100, 9]);
    assert_eq!(a.add(&b).sub(&b).0, a.0);
}

#[test]
fn add_and_sub_are_componentwise() {
    let a = Vector([1, 2, 3]);
    let b = Vector([10, 20, 30]);
    assert_eq!(a.add(&b).0, [11, 22, 33]);
    assert_eq!(a.sub(&b).0, [-9, -18, -27]);
}

#[test]
fn scalar_scales_every_component() {
    let v = Vector([1, -2, 3]);
    assert_eq!(Scalar(4).scale(&v).0, [4, -8, 12]);
    assert_eq!(Scalar::from(-1).scale(&v).0, [-1, 2, -3]);
}

#[test]
fn scalar_product() {
    assert_eq!(Scalar(6).mul(&Scalar(-7)).0, -42);
    assert_eq!(Scalar::from(5).0, 5);
}

#[test]
fn dot_sums_products() {
    let a = Vector([1, 2, 3]);
    let b = Vector([4, -5, 6]);
    assert_eq!(a.dot(&b), 4 - 10 + 18);
    assert_eq!(Vector::<0>([]).dot(&Vector([])), 0);
}

#[test]
fn cross_in_three_dimensions() {
    let a = Vector([1, 2, 3]);
    let b = Vector([4, 5, 6]);
    let c = cross([&a, &b]);
    assert_eq!(c.0, [-3, 6, -3]);
    assert_eq!(c.dot(&a), 0);
    assert_eq!(c.dot(&b), 0);
}

#[test]
fn cross_of_unit_axes() {
    let x = Vector([1, 0, 0]);
    let y = Vector([0, 1, 0]);
    assert_eq!(cross([&x, &y]).0, [0, 0, 1]);
    assert_eq!(cross([&y, &x]).0, [0, 0, -1]);
}

#[test]
fn cross_of_parallel_vectors_is_zero() {
    let a = Vector([1, 2, 3]);
    let b = Vector([2, 4, 6]);
    assert_eq!(cross([&a, &b]).0, [0, 0, 0]);
}

#[test]
fn cross_in_four_dimensions() {
    let a = Vector([1, 0, 0, 0]);
    let b = Vector([0, 1, 0, 0]);
    let c = Vector([0, 0, 1, 0]);
    let r = cross([&a, &b, &c]);
    assert_eq!(r.0, [0, 0, 0, 1]);
    assert_eq!(r.dot(&a), 0);
    assert_eq!(r.dot(&b), 0);
    assert_eq!(r.dot(&c), 0);
}

#[test]
fn cross_in_four_dimensions_is_orthogonal_to_each_input() {
    let a = Vector([1, 1, 0, 0]);
    let b = Vector([0, 0, 1, 0]);
    let c = Vector([0, 0, 0, 1]);
    let r = cross([&a, &b, &c]);
    assert_eq!(r.0, [-1, 1, 0, 0]);
    assert_eq!((r.dot(&a), r.dot(&b), r.dot(&c)), (0, 0, 0));

    let a = Vector([1, 2, 3, 4]);
    let b = Vector([0, 1, 5, 2]);
    let c = Vector([3, 0, 1, 1]);
    let r = cross([&a, &b, &c]);
    assert_eq!(r.0, [-7, -39, -1, 22]);
    assert_eq!((r.dot(&a), r.dot(&b), r.dot(&c)), (0, 0, 0));
}
