//! A rectangle given by its centre, its extent and a rotation, with its four
//! corners held beside them.
//!
//! ```text
//!    top-left ---------------- top-right
//!            |                |
//!            |     origin     |
//!            |                |
//! bottom-left ---------------- bottom-right
//! ```
//!
//! The y axis grows downward: the top corners have the smaller y.
use vstd::prelude::*;
use crate::geometry::arith::{abs, half, half_of};
use crate::geometry::point::{
    lemma_rotate_by_zero, lemma_rotation_fits, rotate_wide, Point, Vector, WIDE_LIMIT,
};
use crate::geometry::rotation::Rotation;

verus! {

/// What every shape of region can do: say whether it holds a point, and
/// whether it meets a region of type `T`.
pub trait Geometry<T> {
    /// Whether the region holds `point`.
    spec fn region_contains(&self, point: Point) -> bool;

    /// Whether the region meets `range`.
    spec fn region_intersects(&self, range: &T) -> bool;

    /// Whether the region holds `point`.
    fn contains(&self, point: &Point) -> (r: bool)
        ensures
            r == self.region_contains(*point),
    ;

    /// Whether the region meets `range`.
    fn intersects(&self, range: &T) -> (r: bool)
        ensures
            r == self.region_intersects(range),
    ;
}

/// A rectangle: centre, width, height, rotation and the four corners.
///
/// `new` sets the corners for a rotation of zero, whatever the rotation
/// given; `rotate` gives a new rectangle with the corners turned.
#[derive(Clone, Copy, Debug, PartialEq, Eq, Structural)]
pub struct Rectangle {
    /// The centre of the rectangle.
    pub origin: Point,
    pub width: i64,
    pub height: i64,
    pub rotation: Rotation,
    pub top_right: Point,
    pub bottom_right: Point,
    pub bottom_left: Point,
    pub top_left: Point,
}

impl Rectangle {
    /// Whether the corners of a rectangle about `(x, y)` of the given extent
    /// can be held in points.
    pub open spec fn corners_fit(x: int, y: int, width: int, height: int) -> bool {
        &&& i64::MIN <= x - half(width) <= i64::MAX
        &&& i64::MIN <= x + half(width) <= i64::MAX
        &&& i64::MIN <= y - half(height) <= i64::MAX
        &&& i64::MIN <= y + half(height) <= i64::MAX
    }

    /// The corners in the order in which `get_vertexes` gives them: top
    /// right, bottom right, bottom left, top left.
    pub open spec fn vertexes(self) -> Seq<Point> {
        seq![self.top_right, self.bottom_right, self.bottom_left, self.top_left]
    }

    /// Whether the four corners, turned by `self.rotation + rotation`, can be
    /// held in points.
    pub open spec fn rotation_fits(self, rotation: Rotation) -> bool {
        let turn = self.rotation.spec_add(rotation).0 as int;
        &&& self.top_right@.rotate(turn).fits()
        &&& self.bottom_right@.rotate(turn).fits()
        &&& self.bottom_left@.rotate(turn).fits()
        &&& self.top_left@.rotate(turn).fits()
    }

    /// Whether the rotation is a whole number of full turns.
    pub open spec fn is_unrotated(self) -> bool {
        self.rotation.0 % 360 == 0
    }

    /// Whether `point`, as it stands, lies between the corners: from the top
    /// left corner's x to the top right corner's, and from the top left
    /// corner's y to the bottom left corner's, the ends included.
    pub open spec fn spans(self, point: Point) -> bool {
        &&& self.top_left.x <= point.x <= self.top_right.x
        &&& self.top_left.y <= point.y <= self.bottom_left.y
    }

    /// Whether the span of `self` between its corners reaches over that of
    /// `inner` on both axes.
    pub open spec fn covers(self, inner: Rectangle) -> bool {
        &&& self.top_left.x <= inner.top_left.x
        &&& inner.top_right.x <= self.top_right.x
        &&& self.top_left.y <= inner.top_left.y
        &&& inner.bottom_left.y <= self.bottom_left.y
    }

    /// Whether `v`, once the rectangle's rotation is undone on it, lies
    /// between the corners: from the top left corner's x to the top right
    /// corner's, and from the top left corner's y to the bottom left
    /// corner's, the ends included.
    pub open spec fn frame_contains(self, v: Vector) -> bool {
        let local = v.rotate(self.rotation.spec_neg().0 as int);
        &&& self.top_left.x <= local.x <= self.top_right.x
        &&& self.top_left.y <= local.y <= self.bottom_left.y
    }

    /// The angle by which `intersects` turns the corners of `range`: the
    /// rotation of `range` less that of `self`.
    pub open spec fn turn_into_frame(self, range: Rectangle) -> Rotation {
        range.rotation.spec_add(self.rotation.spec_neg())
    }

    /// Whether the corner `corner` of another rectangle, turned by `turn`,
    /// lies in this rectangle.
    pub open spec fn holds_turned(self, corner: Point, turn: Rotation) -> bool {
        self.frame_contains(corner@.rotate(turn.0 as int))
    }

    /// The rectangle about `(x, y)` with the given extent and rotation. Its
    /// corners are those of the rectangle at rotation zero: the centre plus
    /// or minus half the extent, each half rounded toward zero.
    pub fn new(x: i64, y: i64, width: i64, height: i64, rotation: Rotation) -> (r: Rectangle)
        requires
            Self::corners_fit(x as int, y as int, width as int, height as int),
        ensures
            r.origin == (Point { x, y }),
            r.width == width,
            r.height == height,
            r.rotation == rotation,
            r.top_right@ == (Vector { x: x + half(width as int), y: y - half(height as int) }),
            r.bottom_right@ == (Vector { x: x + half(width as int), y: y + half(height as int) }),
            r.bottom_left@ == (Vector { x: x - half(width as int), y: y + half(height as int) }),
            r.top_left@ == (Vector { x: x - half(width as int), y: y - half(height as int) }),
    {
        let half_width: i64 = half_of(width);
        let half_height: i64 = half_of(height);
        Rectangle {
            origin: Point::create_point(x, y),
            width,
            height,
            rotation,
            top_right: Point::create_point(x + half_width, y - half_height),
            bottom_right: Point::create_point(x + half_width, y + half_height),
            bottom_left: Point::create_point(x - half_width, y + half_height),
            top_left: Point::create_point(x - half_width, y - half_height),
        }
    }

    /// The x coordinate of the centre.
    pub fn get_x(&self) -> (x: i64)
        ensures
            x == self.origin.x,
    {
        self.origin.x
    }

    /// The y coordinate of the centre.
    pub fn get_y(&self) -> (y: i64)
        ensures
            y == self.origin.y,
    {
        self.origin.y
    }

    /// The four corners: top right, bottom right, bottom left, top left.
    pub fn get_vertexes(&self) -> (v: Vec<&Point>)
        ensures
            v@.len() == 4,
            forall|i: int| 0 <= i < 4 ==> *(#[trigger] v@[i]) == self.vertexes()[i],
    {
        let mut v: Vec<&Point> = Vec::new();
        v.push(&self.top_right);
        v.push(&self.bottom_right);
        v.push(&self.bottom_left);
        v.push(&self.top_left);
        v
    }

    /// The rectangle with `rotation` added to its rotation and each corner
    /// turned about the origin of the plane by the new rotation.
    pub fn rotate(&self, rotation: Rotation) -> (r: Rectangle)
        requires
            self.rotation_fits(rotation),
        ensures
            r.origin == self.origin,
            r.width == self.width,
            r.height == self.height,
            r.rotation == self.rotation.spec_add(rotation),
            r.top_right@ == self.top_right@.rotate(r.rotation.0 as int),
            r.bottom_right@ == self.bottom_right@.rotate(r.rotation.0 as int),
            r.bottom_left@ == self.bottom_left@.rotate(r.rotation.0 as int),
            r.top_left@ == self.top_left@.rotate(r.rotation.0 as int),
    {
        let new_rotation = self.rotation + rotation;
        Rectangle {
            origin: self.origin,
            width: self.width,
            height: self.height,
            rotation: new_rotation,
            top_right: self.top_right.rotate_around_origin(new_rotation),
            bottom_right: self.bottom_right.rotate_around_origin(new_rotation),
            bottom_left: self.bottom_left.rotate_around_origin(new_rotation),
            top_left: self.top_left.rotate_around_origin(new_rotation),
        }
    }

    /// Whether the point `(x, y)`, on coordinates wider than a `Point` holds,
    /// lies in the rectangle.
    pub fn contains_wide(&self, x: i128, y: i128) -> (r: bool)
        requires
            -WIDE_LIMIT <= x <= WIDE_LIMIT,
            -WIDE_LIMIT <= y <= WIDE_LIMIT,
        ensures
            r == self.frame_contains(Vector { x: x as int, y: y as int }),
    {
        let back: Rotation = std::ops::Neg::neg(self.rotation);
        let local: (i128, i128) = rotate_wide(x, y, back);
        self.top_left.x as i128 <= local.0 && local.0 <= self.top_right.x as i128
            && self.top_left.y as i128 <= local.1 && local.1 <= self.bottom_left.y as i128
    }

    /// Whether `corner`, turned by `turn`, lies in the rectangle.
    fn contains_turned(&self, corner: &Point, turn: Rotation) -> (r: bool)
        ensures
            r == self.holds_turned(*corner, turn),
    {
        let turned: (i128, i128) = rotate_wide(corner.x as i128, corner.y as i128, turn);
        self.contains_wide(turned.0, turned.1)
    }

    /// Whether the rectangle holds `point`: the point is turned by the
    /// opposite of the rectangle's rotation and then held against the
    /// corners, the edges included.
    pub open spec fn contains_spec(self, point: Point) -> bool {
        self.frame_contains(point@)
    }

    /// Whether one of the four corners of `range`, turned by the rotation of
    /// `range` less that of `self`, lies in `self`. Two rectangles that
    /// overlap with no corner of `range` inside `self` do not intersect in
    /// this sense.
    pub open spec fn intersects_spec(self, range: Rectangle) -> bool {
        let turn = self.turn_into_frame(range);
        ||| self.holds_turned(range.top_right, turn)
        ||| self.holds_turned(range.bottom_right, turn)
        ||| self.holds_turned(range.bottom_left, turn)
        ||| self.holds_turned(range.top_left, turn)
    }

    /// Whether the rectangle holds `point`, the edges included.
    pub fn contains(&self, point: &Point) -> (r: bool)
        ensures
            r == self.contains_spec(*point),
    {
        self.contains_wide(point.x as i128, point.y as i128)
    }

    /// Whether a corner of `range`, brought into the frame of `self`, lies in
    /// `self`.
    pub fn intersects(&self, range: &Rectangle) -> (r: bool)
        ensures
            r == self.intersects_spec(*range),
    {
        let turn: Rotation = range.rotation + std::ops::Neg::neg(self.rotation);
        self.contains_turned(&range.top_right, turn)
            || self.contains_turned(&range.bottom_right, turn)
            || self.contains_turned(&range.bottom_left, turn)
            || self.contains_turned(&range.top_left, turn)
    }
}

/// A rectangle whose corners each have coordinates with magnitudes that add
/// up to no more than `i64::MAX` can be rotated by any angle.
pub proof fn lemma_rectangle_rotation_fits(rectangle: Rectangle, rotation: Rotation)
    requires
        abs(rectangle.top_right.x as int) + abs(rectangle.top_right.y as int) <= i64::MAX,
        abs(rectangle.bottom_right.x as int) + abs(rectangle.bottom_right.y as int) <= i64::MAX,
        abs(rectangle.bottom_left.x as int) + abs(rectangle.bottom_left.y as int) <= i64::MAX,
        abs(rectangle.top_left.x as int) + abs(rectangle.top_left.y as int) <= i64::MAX,
    ensures
        rectangle.rotation_fits(rotation),
{
    let turn = rectangle.rotation.spec_add(rotation).0 as int;
    lemma_rotation_fits(rectangle.top_right, turn);
    lemma_rotation_fits(rectangle.bottom_right, turn);
    lemma_rotation_fits(rectangle.bottom_left, turn);
    lemma_rotation_fits(rectangle.top_left, turn);
}

/// A rectangle whose rotation is a whole number of turns holds the points
/// between its corners, the edges included.
pub proof fn lemma_unrotated_contains(rectangle: Rectangle, point: Point)
    requires
        rectangle.is_unrotated(),
    ensures
        rectangle.contains_spec(point) <==> rectangle.spans(point),
{
    lemma_rotate_by_zero(point@, rectangle.rotation.spec_neg().0 as int);
}

/// A rectangle `new` made with sides that are not negative and without
/// rotation holds the points that lie within half a side of its centre on
/// both axes.
pub proof fn lemma_unrotated_contains_by_centre(rectangle: Rectangle, point: Point)
    requires
        rectangle.is_unrotated(),
        rectangle.width >= 0,
        rectangle.height >= 0,
        rectangle.top_left@ == (Vector {
            x: rectangle.origin.x - half(rectangle.width as int),
            y: rectangle.origin.y - half(rectangle.height as int),
        }),
        rectangle.top_right.x == rectangle.origin.x + half(rectangle.width as int),
        rectangle.bottom_left.y == rectangle.origin.y + half(rectangle.height as int),
    ensures
        rectangle.contains_spec(point) <==> abs(point.x - rectangle.origin.x) <= half(
            rectangle.width as int,
        ) && abs(point.y - rectangle.origin.y) <= half(rectangle.height as int),
{
    lemma_unrotated_contains(rectangle, point);
}

/// Between two rectangles without rotation, the first intersects the second
/// when one of the corners of the second lies between the corners of the
/// first.
pub proof fn lemma_unrotated_intersects(rectangle: Rectangle, range: Rectangle)
    requires
        rectangle.is_unrotated(),
        range.is_unrotated(),
    ensures
        rectangle.intersects_spec(range) <==> (rectangle.spans(range.top_right) || rectangle.spans(
            range.bottom_right,
        ) || rectangle.spans(range.bottom_left) || rectangle.spans(range.top_left)),
{
    let turn = rectangle.turn_into_frame(range).0 as int;
    let back = rectangle.rotation.spec_neg().0 as int;
    lemma_rotate_by_zero(range.top_right@, turn);
    lemma_rotate_by_zero(range.bottom_right@, turn);
    lemma_rotate_by_zero(range.bottom_left@, turn);
    lemma_rotate_by_zero(range.top_left@, turn);
    lemma_rotate_by_zero(range.top_right@, back);
    lemma_rotate_by_zero(range.bottom_right@, back);
    lemma_rotate_by_zero(range.bottom_left@, back);
    lemma_rotate_by_zero(range.top_left@, back);
}

impl Geometry<Rectangle> for Rectangle {
    open spec fn region_contains(&self, point: Point) -> bool {
        self.contains_spec(point)
    }

    open spec fn region_intersects(&self, range: &Rectangle) -> bool {
        self.intersects_spec(*range)
    }

    fn contains(&self, point: &Point) -> (r: bool) {
        Rectangle::contains(self, point)
    }

    fn intersects(&self, range: &Rectangle) -> (r: bool) {
        Rectangle::intersects(self, range)
    }
}

} // verus!
