use antsim::geometry::point::Point;
use antsim::geometry::rectangle::{Geometry, Rectangle};
use antsim::geometry::rotation::Rotation;
use antsim::geometry::shape::Shape;

/// A length in thousandths of a unit.
fn units(length: f64) -> i64 {
    (length * 1000.0).round() as i64
}

fn rectangle(x: f64, y: f64, width: f64, height: f64, degrees: i32) -> Rectangle {
    Rectangle::new(units(x), units(y), units(width), units(height), Rotation::new(degrees))
}

fn point(x: f64, y: f64) -> Point {
    Point::create_point(units(x), units(y))
}

#[test]
fn rect_contains_point() {
    let basic_rectangle = Shape::Rectangle(rectangle(0.0, 0.0, 100.0, 100.0, 0));

    // inside
    assert!(basic_rectangle.contains(&point(0.0, 0.0)));
    assert!(basic_rectangle.contains(&point(20.7, 30.4)));
    assert!(basic_rectangle.contains(&point(-25.2, 40.9)));

    // edges
    assert!(basic_rectangle.contains(&point(50.0, 0.0))); // right center
    assert!(basic_rectangle.contains(&point(50.0, 50.0))); // right bottom
    assert!(basic_rectangle.contains(&point(0.0, 50.0))); // right center
    assert!(basic_rectangle.contains(&point(-50.0, -50.0))); // bottom left
    assert!(basic_rectangle.contains(&point(-50.0, 0.0))); // bottom center
    assert!(basic_rectangle.contains(&point(-50.0, 50.0))); // top left
    assert!(basic_rectangle.contains(&point(0.0, 50.0))); // top center
    assert!(basic_rectangle.contains(&point(50.0, -50.0))); // top right

    // outside
    assert!(!basic_rectangle.contains(&point(100.0, 50.0)));
    assert!(!basic_rectangle.contains(&point(-100.0, 50.0)));
    assert!(!basic_rectangle.contains(&point(50.0, -100.0)));
    assert!(!basic_rectangle.contains(&point(50.0, 100.0)));
}

#[test]
fn rotated_rect_contains_point() {
    // technically rotated, but because the rectangle is a square should be virtually the same as if it was 0 degrees
    let rotated_rectangle = Shape::Rectangle(rectangle(0.0, 0.0, 100.0, 100.0, 45));

    // inside
    assert!(rotated_rectangle.contains(&point(0.0, 0.0)));
    assert!(rotated_rectangle.contains(&point(20.7, 30.4)));
    assert!(rotated_rectangle.contains(&point(-25.2, 40.9)));

    // edges
    assert!(rotated_rectangle.contains(&point(50.0, 0.0))); // right center
    assert!(rotated_rectangle.contains(&point(25.0, 25.0))); // bottom-right center
    assert!(rotated_rectangle.contains(&point(0.0, 50.0))); // right center
    assert!(rotated_rectangle.contains(&point(-25.0, -25.0))); // bottom left
    assert!(rotated_rectangle.contains(&point(-50.0, 0.0))); // bottom center
    assert!(rotated_rectangle.contains(&point(-25.0, 25.0))); // top left
    assert!(rotated_rectangle.contains(&point(0.0, 50.0))); // top center
    assert!(rotated_rectangle.contains(&point(25.0, -25.0))); // top right

    // outside
    assert!(!rotated_rectangle.contains(&point(100.0, 50.0)));
    assert!(!rotated_rectangle.contains(&point(-100.0, 50.0)));
    assert!(!rotated_rectangle.contains(&point(50.0, -100.0)));
    assert!(!rotated_rectangle.contains(&point(50.0, 100.0)));
}

#[test]
fn rect_intersects() {
    let main_rectangle = Shape::Rectangle(rectangle(0.0, 0.0, 100.0, 100.0, 0));

    let overlapping_rectangle = Shape::Rectangle(rectangle(25.0, 25.0, 100.0, 100.0, 0));
    let edge_overlapping_rectangle = Shape::Rectangle(rectangle(100.0, 100.0, 100.0, 100.0, 0));
    let not_overlapping_rectangle = Shape::Rectangle(rectangle(101.0, 101.0, 100.0, 100.0, 0));

    assert!(main_rectangle.intersects(&overlapping_rectangle));
    assert!(edge_overlapping_rectangle.intersects(&overlapping_rectangle));

    assert!(!main_rectangle.intersects(&not_overlapping_rectangle));
}

#[test]
fn rectangles_that_touch_at_a_corner_intersect() {
    let main_rectangle = rectangle(0.0, 0.0, 100.0, 100.0, 0);
    assert!(main_rectangle.intersects(&rectangle(25.0, 25.0, 100.0, 100.0, 0)));
    assert!(main_rectangle.intersects(&rectangle(100.0, 100.0, 100.0, 100.0, 0)));
    assert!(!main_rectangle.intersects(&rectangle(101.0, 101.0, 100.0, 100.0, 0)));
    assert!(!main_rectangle.intersects(&rectangle(100.001, 100.0, 100.0, 100.0, 0)));
}

#[test]
fn new_sets_the_corners_for_no_rotation() {
    let made = Rectangle::new(10, 20, 100, 50, Rotation::new(30));
    assert_eq!(made.origin, Point { x: 10, y: 20 });
    assert_eq!(made.width, 100);
    assert_eq!(made.height, 50);
    assert_eq!(made.rotation, Rotation(30));
    assert_eq!(made.top_right, Point { x: 60, y: -5 });
    assert_eq!(made.bottom_right, Point { x: 60, y: 45 });
    assert_eq!(made.bottom_left, Point { x: -40, y: 45 });
    assert_eq!(made.top_left, Point { x: -40, y: -5 });
    assert_eq!(made.get_x(), 10);
    assert_eq!(made.get_y(), 20);
}

#[test]
fn new_halves_odd_sides_toward_zero() {
    let made = Rectangle::new(0, 0, 5, 7, Rotation::new(0));
    assert_eq!(made.top_right, Point { x: 2, y: -3 });
    assert_eq!(made.bottom_left, Point { x: -2, y: 3 });
    let flipped = Rectangle::new(0, 0, -5, -7, Rotation::new(0));
    assert_eq!(flipped.top_right, Point { x: -2, y: 3 });
    assert_eq!(flipped.bottom_left, Point { x: 2, y: -3 });
    assert!(!flipped.contains(&Point { x: 0, y: 0 }));
}

#[test]
fn vertexes_come_in_the_order_of_the_corners() {
    let made = Rectangle::new(10, 20, 100, 50, Rotation::new(0));
    let vertexes = made.get_vertexes();
    assert_eq!(vertexes.len(), 4);
    assert_eq!(*vertexes[0], made.top_right);
    assert_eq!(*vertexes[1], made.bottom_right);
    assert_eq!(*vertexes[2], made.bottom_left);
    assert_eq!(*vertexes[3], made.top_left);
}

#[test]
fn rotate_turns_the_corners_by_the_new_rotation() {
    let made = Rectangle::new(0, 0, 200, 100, Rotation::new(0));
    let turned = made.rotate(Rotation::new(90));
    assert_eq!(turned.origin, made.origin);
    assert_eq!(turned.width, 200);
    assert_eq!(turned.height, 100);
    assert_eq!(turned.rotation, Rotation(90));
    // (x, y) goes to (y, -x)
    assert_eq!(turned.top_right, Point { x: -50, y: -100 });
    assert_eq!(turned.bottom_right, Point { x: 50, y: -100 });
    assert_eq!(turned.bottom_left, Point { x: 50, y: 100 });
    assert_eq!(turned.top_left, Point { x: -50, y: 100 });
    // the rotation adds up, and it is the sum that turns the corners again
    let again = turned.rotate(Rotation::new(300));
    assert_eq!(again.rotation, Rotation(30));
    assert_eq!(again.top_right, turned.top_right.rotate_around_origin(Rotation::new(30)));
    // the rectangle that was turned is as it was
    assert_eq!(made.rotation, Rotation(0));
    assert_eq!(made.top_right, Point { x: 100, y: -50 });
}

#[test]
fn unrotated_square_holds_its_edges_and_nothing_beyond() {
    // in hundredths of a unit: a square of side 100 about the origin
    let square = Rectangle::new(0, 0, 10_000, 10_000, Rotation::new(0));
    for x in [-5_000i64, -4_999, -1, 0, 1, 2_070, 4_999, 5_000] {
        for y in [-5_000i64, -4_999, 0, 3_040, 4_999, 5_000] {
            assert!(square.contains(&Point { x, y }));
        }
    }
    assert!(!square.contains(&Point { x: 5_001, y: 0 }));
    assert!(!square.contains(&Point { x: -5_001, y: 0 }));
    assert!(!square.contains(&Point { x: 0, y: 5_001 }));
    assert!(!square.contains(&Point { x: 0, y: -5_001 }));
    assert!(!square.contains(&Point { x: 5_001, y: 5_001 }));
}

#[test]
fn a_full_turn_is_no_rotation() {
    let plain = Rectangle::new(10, 20, 100, 50, Rotation::new(0));
    for degrees in [360, -360, 720] {
        let turned = Rectangle::new(10, 20, 100, 50, Rotation::new(degrees));
        for x in [-41i64, -40, 0, 60, 61] {
            for y in [-6i64, -5, 20, 45, 46] {
                let point = Point { x, y };
                assert_eq!(turned.contains(&point), plain.contains(&point));
            }
        }
    }
}

#[test]
fn contains_holds_for_points_beyond_the_reach_of_a_rotation() {
    let everything = Rectangle::new(0, 0, i64::MAX, i64::MAX, Rotation::new(45));
    let corner = Point { x: i64::MAX, y: i64::MAX };
    // turned back by 45 degrees the corner lies on the y axis, beyond the frame
    assert!(!everything.contains(&corner));
    assert!(everything.contains(&Point { x: i64::MAX / 2, y: 0 }));
    let upright = Rectangle::new(0, 0, i64::MAX, i64::MAX, Rotation::new(0));
    assert!(!upright.contains(&corner));
    assert!(upright.contains(&Point { x: i64::MAX / 2, y: i64::MIN / 2 + 1 }));
}

#[test]
fn intersects_misses_an_overlap_without_a_corner_inside() {
    let wide = Rectangle::new(0, 0, 100, 20, Rotation::new(0));
    let tall = Rectangle::new(0, 0, 20, 100, Rotation::new(0));
    // the two cross, and no corner of either lies in the other
    assert!(!wide.intersects(&tall));
    assert!(!tall.intersects(&wide));
    // a rectangle inside another: the corners of the inner lie in the outer
    let outer = Rectangle::new(0, 0, 100, 100, Rotation::new(0));
    let inner = Rectangle::new(0, 0, 10, 10, Rotation::new(0));
    assert!(outer.intersects(&inner));
    assert!(!inner.intersects(&outer));
}

#[test]
fn intersects_turns_the_corners_into_the_frame() {
    let turned = Rectangle::new(0, 0, 100, 100, Rotation::new(90));
    let other = Rectangle::new(100, 0, 100, 100, Rotation::new(90));
    // both rotations cancel: the corners of `other` stay, and are then turned
    // back by 90 degrees, (x, y) to (-y, x)
    assert!(turned.intersects(&other));
    let far = Rectangle::new(0, 200, 100, 100, Rotation::new(90));
    assert!(!turned.intersects(&far));
}

#[test]
fn shape_and_rectangle_agree() {
    let first = Rectangle::new(0, 0, 100, 100, Rotation::new(30));
    let second = Rectangle::new(40, 40, 100, 100, Rotation::new(75));
    let point = Point { x: 13, y: -27 };
    assert_eq!(Shape::Rectangle(first).contains(&point), first.contains(&point));
    assert_eq!(
        Shape::Rectangle(first).intersects(&Shape::Rectangle(second)),
        first.intersects(&second)
    );
    assert_eq!(Geometry::contains(&first, &point), first.contains(&point));
    assert_eq!(Geometry::intersects(&first, &second), first.intersects(&second));
}
