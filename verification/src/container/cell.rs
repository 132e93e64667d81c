//! How the cell of a node is cut into the cells of its four children.
//!
//! A cell is the set of lattice points that a rectangle holds: those that,
//! with the rectangle's rotation undone, fall between its corners. The four
//! quadrants of a cell share its rotation and meet along its two middle
//! lines, so that together they hold what the cell holds.
use vstd::prelude::*;
use crate::geometry::arith::{half, half_of};
use crate::geometry::point::Point;
use crate::geometry::rectangle::Rectangle;
use crate::geometry::rotation::Rotation;

verus! {

/// One of the four quadrants of a cell, named by the corner of the cell that
/// it reaches. They are tried in the order of the variants.
#[derive(Clone, Copy, Debug, PartialEq, Eq, Structural)]
pub enum Quadrant {
    TopRight,
    BottomRight,
    BottomLeft,
    TopLeft,
}

/// The middle of `lo..=hi`, rounded down. Meant for `lo <= hi`.
pub open spec fn midpoint(lo: int, hi: int) -> int {
    lo + (hi - lo) / 2
}

/// Whether the corners leave room for any point at all.
pub open spec fn is_nonempty(bounds: Rectangle) -> bool {
    &&& bounds.top_left.x <= bounds.top_right.x
    &&& bounds.top_left.y <= bounds.bottom_left.y
}

/// Whether a cell can still be cut: it is not empty and one of its sides is
/// at least two units long. Cutting such a cell gives smaller cells.
pub open spec fn can_split(bounds: Rectangle) -> bool {
    &&& is_nonempty(bounds)
    &&& (bounds.top_right.x - bounds.top_left.x >= 2 || bounds.bottom_left.y - bounds.top_left.y
        >= 2)
}

/// The two side lengths of a cell added up; zero for an empty cell.
pub open spec fn extent(bounds: Rectangle) -> nat {
    if is_nonempty(bounds) {
        ((bounds.top_right.x - bounds.top_left.x) + (bounds.bottom_left.y
            - bounds.top_left.y)) as nat
    } else {
        0
    }
}

/// The rectangle whose corners span `x_lo..=x_hi` and `y_lo..=y_hi`, with its
/// centre in the middle of them.
pub open spec fn framed(
    x_lo: int,
    x_hi: int,
    y_lo: int,
    y_hi: int,
    width: i64,
    height: i64,
    rotation: Rotation,
) -> Rectangle {
    Rectangle {
        origin: Point { x: midpoint(x_lo, x_hi) as i64, y: midpoint(y_lo, y_hi) as i64 },
        width,
        height,
        rotation,
        top_right: Point { x: x_hi as i64, y: y_lo as i64 },
        bottom_right: Point { x: x_hi as i64, y: y_hi as i64 },
        bottom_left: Point { x: x_lo as i64, y: y_hi as i64 },
        top_left: Point { x: x_lo as i64, y: y_lo as i64 },
    }
}

/// The quadrant `which` of the cell `bounds`: the part of the cell between a
/// corner and the two middle lines, with the rotation of the cell and half
/// its width and height.
pub open spec fn quadrant(bounds: Rectangle, which: Quadrant) -> Rectangle {
    let x_lo = bounds.top_left.x as int;
    let x_hi = bounds.top_right.x as int;
    let y_lo = bounds.top_left.y as int;
    let y_hi = bounds.bottom_left.y as int;
    let x_mid = midpoint(x_lo, x_hi);
    let y_mid = midpoint(y_lo, y_hi);
    let width = half(bounds.width as int) as i64;
    let height = half(bounds.height as int) as i64;
    match which {
        Quadrant::TopRight => framed(x_mid, x_hi, y_lo, y_mid, width, height, bounds.rotation),
        Quadrant::BottomRight => framed(x_mid, x_hi, y_mid, y_hi, width, height, bounds.rotation),
        Quadrant::BottomLeft => framed(x_lo, x_mid, y_mid, y_hi, width, height, bounds.rotation),
        Quadrant::TopLeft => framed(x_lo, x_mid, y_lo, y_mid, width, height, bounds.rotation),
    }
}

/// The first quadrant of `bounds`, in the order of the variants, that holds
/// `position`.
pub open spec fn first_quadrant_holding(bounds: Rectangle, position: Point) -> Option<Quadrant> {
    if quadrant(bounds, Quadrant::TopRight).contains_spec(position) {
        Some(Quadrant::TopRight)
    } else if quadrant(bounds, Quadrant::BottomRight).contains_spec(position) {
        Some(Quadrant::BottomRight)
    } else if quadrant(bounds, Quadrant::BottomLeft).contains_spec(position) {
        Some(Quadrant::BottomLeft)
    } else if quadrant(bounds, Quadrant::TopLeft).contains_spec(position) {
        Some(Quadrant::TopLeft)
    } else {
        None
    }
}

/// A quadrant of a cell that can be cut is smaller than the cell.
pub proof fn lemma_quadrant_is_smaller(bounds: Rectangle, which: Quadrant)
    requires
        can_split(bounds),
    ensures
        extent(quadrant(bounds, which)) < extent(bounds),
        is_nonempty(quadrant(bounds, which)),
{
}

/// What a quadrant holds, the cell holds.
pub proof fn lemma_quadrant_within_cell(bounds: Rectangle, which: Quadrant, position: Point)
    requires
        is_nonempty(bounds),
        quadrant(bounds, which).contains_spec(position),
    ensures
        bounds.contains_spec(position),
{
}

/// What a cell holds, one of its quadrants holds.
pub proof fn lemma_quadrants_cover_cell(bounds: Rectangle, position: Point)
    requires
        bounds.contains_spec(position),
    ensures
        is_nonempty(bounds),
        first_quadrant_holding(bounds, position).is_some(),
{
}

/// The middle of `lo..=hi`, rounded down.
fn middle(lo: i64, hi: i64) -> (mid: i64)
    requires
        lo <= hi,
    ensures
        mid == midpoint(lo as int, hi as int),
        lo <= mid <= hi,
{
    let span: i128 = hi as i128 - lo as i128;
    (lo as i128 + span / 2) as i64
}

/// Whether a cell can still be cut.
pub fn splittable(bounds: &Rectangle) -> (r: bool)
    ensures
        r == can_split(*bounds),
{
    let x_lo: i128 = bounds.top_left.x as i128;
    let x_hi: i128 = bounds.top_right.x as i128;
    let y_lo: i128 = bounds.top_left.y as i128;
    let y_hi: i128 = bounds.bottom_left.y as i128;
    x_lo <= x_hi && y_lo <= y_hi && (x_hi - x_lo >= 2 || y_hi - y_lo >= 2)
}

/// The rectangle whose corners span `x_lo..=x_hi` and `y_lo..=y_hi`.
fn frame(
    x_lo: i64,
    x_hi: i64,
    y_lo: i64,
    y_hi: i64,
    width: i64,
    height: i64,
    rotation: Rotation,
) -> (r: Rectangle)
    requires
        x_lo <= x_hi,
        y_lo <= y_hi,
    ensures
        r == framed(x_lo as int, x_hi as int, y_lo as int, y_hi as int, width, height, rotation),
{
    Rectangle {
        origin: Point::create_point(middle(x_lo, x_hi), middle(y_lo, y_hi)),
        width,
        height,
        rotation,
        top_right: Point::create_point(x_hi, y_lo),
        bottom_right: Point::create_point(x_hi, y_hi),
        bottom_left: Point::create_point(x_lo, y_hi),
        top_left: Point::create_point(x_lo, y_lo),
    }
}

/// The quadrant `which` of the cell `bounds`.
pub fn quadrant_of(bounds: &Rectangle, which: Quadrant) -> (r: Rectangle)
    requires
        is_nonempty(*bounds),
    ensures
        r == quadrant(*bounds, which),
{
    let x_lo: i64 = bounds.top_left.x;
    let x_hi: i64 = bounds.top_right.x;
    let y_lo: i64 = bounds.top_left.y;
    let y_hi: i64 = bounds.bottom_left.y;
    let x_mid: i64 = middle(x_lo, x_hi);
    let y_mid: i64 = middle(y_lo, y_hi);
    let width: i64 = half_of(bounds.width);
    let height: i64 = half_of(bounds.height);
    match which {
        Quadrant::TopRight => frame(x_mid, x_hi, y_lo, y_mid, width, height, bounds.rotation),
        Quadrant::BottomRight => frame(x_mid, x_hi, y_mid, y_hi, width, height, bounds.rotation),
        Quadrant::BottomLeft => frame(x_lo, x_mid, y_mid, y_hi, width, height, bounds.rotation),
        Quadrant::TopLeft => frame(x_lo, x_mid, y_lo, y_mid, width, height, bounds.rotation),
    }
}

} // verus!
