use castle_game::geom::BoundingBox;
use castle_game::physics::Position;

#[test]
fn boxes_that_share_area_overlap() {
    let a = BoundingBox::new(0, 0, 10, 10);
    let b = BoundingBox::new(5, 5, 15, 15);
    assert!(a.overlaps(&b));
    assert!(b.overlaps(&a));
}

#[test]
fn a_box_overlaps_itself_and_what_it_holds() {
    let a = BoundingBox::new(0, 0, 10, 10);
    let inner = BoundingBox::new(3, 3, 4, 4);
    assert!(a.overlaps(&a));
    assert!(a.overlaps(&inner));
    assert!(inner.overlaps(&a));
}

#[test]
fn boxes_apart_on_one_axis_do_not_overlap() {
    let a = BoundingBox::new(0, 0, 10, 10);
    assert!(!a.overlaps(&BoundingBox::new(11, 0, 20, 10)));
    assert!(!a.overlaps(&BoundingBox::new(0, 11, 10, 20)));
    assert!(!a.overlaps(&BoundingBox::new(-20, 0, -1, 10)));
    assert!(!a.overlaps(&BoundingBox::new(0, -20, 10, -1)));
}

#[test]
fn boxes_that_touch_along_an_edge_do_not_overlap() {
    let a = BoundingBox::new(0, 0, 10, 10);
    let right = BoundingBox::new(10, 0, 20, 10);
    let below = BoundingBox::new(0, 10, 10, 20);
    let corner = BoundingBox::new(10, 10, 20, 20);
    assert!(!a.overlaps(&right));
    assert!(!right.overlaps(&a));
    assert!(!a.overlaps(&below));
    assert!(!below.overlaps(&a));
    assert!(!a.overlaps(&corner));
    assert!(!corner.overlaps(&a));
}

#[test]
fn one_unit_of_shared_width_is_enough() {
    let a = BoundingBox::new(0, 0, 10, 10);
    assert!(a.overlaps(&BoundingBox::new(9, 9, 20, 20)));
    assert!(a.overlaps(&BoundingBox::new(-5, -5, 1, 1)));
}

#[test]
fn a_shape_is_placed_where_the_body_stands() {
    let shape = BoundingBox::new(-5, -20, 5, 0);
    let placed = shape.at(Position::new(100, 50));
    assert_eq!(placed, BoundingBox::new(95, 30, 105, 50));
}

#[test]
fn placing_saturates_at_the_end_of_the_range() {
    let shape = BoundingBox::new(-5, -5, 5, 5);
    let placed = shape.at(Position::new(i64::MAX, i64::MIN));
    assert_eq!(placed, BoundingBox::new(i64::MAX - 5, i64::MIN, i64::MAX, i64::MIN + 5));
}
