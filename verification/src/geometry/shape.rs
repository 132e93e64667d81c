//! The shapes that can serve as a region.
use vstd::prelude::*;
use crate::geometry::point::Point;
use crate::geometry::rectangle::Rectangle;

verus! {

/// A region of the plane. The rectangle is the one shape there is.
#[derive(Clone, Copy, Debug, PartialEq, Eq, Structural)]
pub enum Shape {
    Rectangle(Rectangle),
}

impl Shape {
    /// Whether the shape holds `point`.
    pub open spec fn contains_spec(self, point: Point) -> bool {
        match self {
            Shape::Rectangle(rectangle) => rectangle.contains_spec(point),
        }
    }

    /// Whether the shape meets `range`.
    pub open spec fn intersects_spec(self, range: Shape) -> bool {
        match (self, range) {
            (Shape::Rectangle(rectangle), Shape::Rectangle(other)) => rectangle.intersects_spec(other),
        }
    }

    /// Whether the shape holds `point`.
    pub fn contains(&self, point: &Point) -> (r: bool)
        ensures
            r == self.contains_spec(*point),
    {
        match self {
            Shape::Rectangle(rectangle) => rectangle.contains(point),
        }
    }

    /// Whether the shape meets `range`.
    pub fn intersects(&self, range: &Shape) -> (r: bool)
        ensures
            r == self.intersects_spec(*range),
    {
        match self {
            Shape::Rectangle(rectangle) => match range {
                Shape::Rectangle(other) => rectangle.intersects(other),
            },
        }
    }
}

} // verus!
