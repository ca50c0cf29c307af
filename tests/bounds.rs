use model_viewer::bounds::BoxBounds;

#[test]
fn extended_points_lie_within() {
    let mut b = BoxBounds::new([0, 0, 0]);
    let points = [[1, -2, 3], [-4, 5, 0], [2, 2, -7]];
    for p in points.iter() {
        b.extend(p);
    }
    assert_eq!(b.0, [[-4, -2, -7], [2, 5, 3]]);
    for p in points.iter() {
        for i in 0..3 {
            assert!(b.0[0][i] <= p[i] && p[i] <= b.0[1][i]);
        }
    }
}

#[test]
fn extending_with_an_inside_point_changes_nothing() {
    let mut b = BoxBounds([[-1, -1], [4, 4]]);
    b.extend(&[0, 3]);
    assert_eq!(b.0, [[-1, -1], [4, 4]]);
    b.extend(&[-1, 4]);
    assert_eq!(b.0, [[-1, -1], [4, 4]]);
}

#[test]
fn extend_reads_only_the_first_n_coordinates() {
    let mut b = BoxBounds::new([0, 0]);
    b.extend(&[5, -5, 100]);
    assert_eq!(b.0, [[0, -5], [5, 0]]);
}

#[test]
fn new_box_is_a_point() {
    let b = BoxBounds::new([3, -1]);
    assert_eq!(b.0, [[3, -1], [3, -1]]);
}
