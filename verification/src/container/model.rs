//! What a quadtree is, as a mathematical value, and what inserting into it
//! and querying it mean.
use vstd::prelude::*;
use crate::container::cell::{can_split, extent, first_quadrant_holding, quadrant, Quadrant};
use crate::geometry::point::Point;
use crate::geometry::rectangle::Rectangle;

verus! {

/// A node of a quadtree and all that hangs below it.
pub struct TreeView<T> {
    /// The cell that the node covers.
    pub bounds: Rectangle,
    /// How many entries a node takes before it is cut.
    pub capacity: nat,
    /// The entries held in the node itself, oldest first.
    pub entities: Seq<(T, Point)>,
    /// The four children, once the node has been cut.
    pub quadrants: Option<Box<QuadrantsView<T>>>,
}

/// The four children of a node that has been cut.
pub struct QuadrantsView<T> {
    pub top_right: TreeView<T>,
    pub bottom_right: TreeView<T>,
    pub bottom_left: TreeView<T>,
    pub top_left: TreeView<T>,
}

/// The entries of `entries` whose position `region` holds, in their order.
pub open spec fn within<T>(entries: Seq<(T, Point)>, region: Rectangle) -> Seq<(T, Point)>
    decreases entries.len(),
{
    if entries.len() == 0 {
        Seq::empty()
    } else if region.contains_spec(entries.last().1) {
        within(entries.drop_last(), region).push(entries.last())
    } else {
        within(entries.drop_last(), region)
    }
}

/// The items of the entries, in their order.
pub open spec fn items<T>(entries: Seq<(T, Point)>) -> Seq<T> {
    entries.map_values(|e: (T, Point)| e.0)
}

impl<T> QuadrantsView<T> {
    /// Four empty leaves over the four quadrants of `bounds`.
    pub open spec fn fresh(bounds: Rectangle, capacity: nat) -> QuadrantsView<T> {
        QuadrantsView {
            top_right: TreeView::leaf(quadrant(bounds, Quadrant::TopRight), capacity),
            bottom_right: TreeView::leaf(quadrant(bounds, Quadrant::BottomRight), capacity),
            bottom_left: TreeView::leaf(quadrant(bounds, Quadrant::BottomLeft), capacity),
            top_left: TreeView::leaf(quadrant(bounds, Quadrant::TopLeft), capacity),
        }
    }

    /// The child over the quadrant `which`.
    pub open spec fn child(self, which: Quadrant) -> TreeView<T> {
        match which {
            Quadrant::TopRight => self.top_right,
            Quadrant::BottomRight => self.bottom_right,
            Quadrant::BottomLeft => self.bottom_left,
            Quadrant::TopLeft => self.top_left,
        }
    }

    /// The children with the one over the quadrant `which` replaced.
    pub open spec fn with_child(self, which: Quadrant, child: TreeView<T>) -> QuadrantsView<T> {
        match which {
            Quadrant::TopRight => QuadrantsView { top_right: child, ..self },
            Quadrant::BottomRight => QuadrantsView { bottom_right: child, ..self },
            Quadrant::BottomLeft => QuadrantsView { bottom_left: child, ..self },
            Quadrant::TopLeft => QuadrantsView { top_left: child, ..self },
        }
    }

    /// The first child, in the order of the quadrants, whose cell holds
    /// `position`.
    pub open spec fn first_holding(self, position: Point) -> Option<Quadrant> {
        if self.top_right.bounds.contains_spec(position) {
            Some(Quadrant::TopRight)
        } else if self.bottom_right.bounds.contains_spec(position) {
            Some(Quadrant::BottomRight)
        } else if self.bottom_left.bounds.contains_spec(position) {
            Some(Quadrant::BottomLeft)
        } else if self.top_left.bounds.contains_spec(position) {
            Some(Quadrant::TopLeft)
        } else {
            None
        }
    }

    /// The children after the entry went to the first of them whose cell
    /// holds `position`; unchanged where none does.
    pub open spec fn insert(self, item: T, position: Point) -> QuadrantsView<T>
        decreases self, 0nat,
    {
        match self.first_holding(position) {
            Some(which) => self.with_child(which, self.child(which).insert(item, position)),
            None => self,
        }
    }

    /// All entries below, child by child in the order of the quadrants.
    pub open spec fn entries(self) -> Seq<(T, Point)>
        decreases self, 0nat,
    {
        self.top_right.entries() + self.bottom_right.entries() + self.bottom_left.entries()
            + self.top_left.entries()
    }

    /// What a query for `region` finds below, child by child in the order of
    /// the quadrants.
    pub open spec fn found(self, region: Rectangle) -> Seq<(T, Point)>
        decreases self, 0nat,
    {
        self.top_right.found(region) + self.bottom_right.found(region) + self.bottom_left.found(
            region,
        ) + self.top_left.found(region)
    }

    /// Whether the four children are well formed and cover the quadrants of
    /// `bounds` with the capacity `capacity`.
    pub open spec fn wf(self, bounds: Rectangle, capacity: nat) -> bool
        decreases self, 0nat,
    {
        &&& self.top_right.wf()
        &&& self.bottom_right.wf()
        &&& self.bottom_left.wf()
        &&& self.top_left.wf()
        &&& self.top_right.bounds == quadrant(bounds, Quadrant::TopRight)
        &&& self.bottom_right.bounds == quadrant(bounds, Quadrant::BottomRight)
        &&& self.bottom_left.bounds == quadrant(bounds, Quadrant::BottomLeft)
        &&& self.top_left.bounds == quadrant(bounds, Quadrant::TopLeft)
        &&& self.top_right.capacity == capacity
        &&& self.bottom_right.capacity == capacity
        &&& self.bottom_left.capacity == capacity
        &&& self.top_left.capacity == capacity
    }
}

impl<T> TreeView<T> {
    /// A node without entries and without children.
    pub open spec fn leaf(bounds: Rectangle, capacity: nat) -> TreeView<T> {
        TreeView { bounds, capacity, entities: Seq::empty(), quadrants: None }
    }

    /// Whether the node has not been cut.
    pub open spec fn is_leaf(self) -> bool {
        self.quadrants.is_none()
    }

    /// The tree that holds one entry in a cell that was empty and had no
    /// children. The entry stays in the node where the capacity allows one
    /// or the cell cannot be cut; else the node is cut and the entry goes to
    /// the first quadrant that holds its position.
    pub open spec fn sprout(bounds: Rectangle, capacity: nat, item: T, position: Point) -> TreeView<
        T,
    >
        decreases extent(bounds), 1nat,
    {
        if capacity > 0 || !can_split(bounds) {
            TreeView { bounds, capacity, entities: seq![(item, position)], quadrants: None }
        } else {
            TreeView {
                bounds,
                capacity,
                entities: Seq::empty(),
                quadrants: Some(Box::new(Self::split(bounds, capacity, item, position))),
            }
        }
    }

    /// The four children of a node that is cut for the sake of one entry:
    /// empty leaves, but for the first whose cell holds `position`, which
    /// takes the entry.
    pub open spec fn split(bounds: Rectangle, capacity: nat, item: T, position: Point)
        -> QuadrantsView<T>
        decreases extent(bounds), 0nat,
    {
        let fresh = QuadrantsView::<T>::fresh(bounds, capacity);
        if !can_split(bounds) {
            fresh
        } else {
            match first_quadrant_holding(bounds, position) {
                Some(which) => fresh.with_child(
                    which,
                    Self::sprout(quadrant(bounds, which), capacity, item, position),
                ),
                None => fresh,
            }
        }
    }

    /// The tree after `insert(item, position)`.
    ///
    /// A position outside the cell changes nothing. A node with room takes
    /// the entry, and so does a leaf whose cell cannot be cut. A full leaf is
    /// cut, keeping what it holds, and the entry goes down to the first
    /// child whose cell holds the position.
    pub open spec fn insert(self, item: T, position: Point) -> TreeView<T>
        decreases self, 1nat,
    {
        if !self.bounds.contains_spec(position) {
            self
        } else if self.entities.len() < self.capacity {
            TreeView { entities: self.entities.push((item, position)), ..self }
        } else {
            match self.quadrants {
                Some(quadrants) => TreeView {
                    quadrants: Some(Box::new(quadrants.insert(item, position))),
                    ..self
                },
                None => if can_split(self.bounds) {
                    TreeView {
                        quadrants: Some(
                            Box::new(Self::split(self.bounds, self.capacity, item, position)),
                        ),
                        ..self
                    }
                } else {
                    TreeView { entities: self.entities.push((item, position)), ..self }
                },
            }
        }
    }

    /// The tree after the entries were inserted one after the other, the
    /// first first.
    pub open spec fn insert_all(self, entries: Seq<(T, Point)>) -> TreeView<T>
        decreases entries.len(),
    {
        if entries.len() == 0 {
            self
        } else {
            self.insert_all(entries.drop_last()).insert(entries.last().0, entries.last().1)
        }
    }

    /// All entries of the tree: those of the node, then those of the
    /// children.
    pub open spec fn entries(self) -> Seq<(T, Point)>
        decreases self, 1nat,
    {
        match self.quadrants {
            Some(quadrants) => self.entities + quadrants.entries(),
            None => self.entities,
        }
    }

    /// The entries that a query for `region` finds. A node whose cell
    /// `region` does not intersect gives nothing, and neither does anything
    /// below it. Any other node gives those of its own entries whose
    /// position `region` holds, then what its children give.
    pub open spec fn found(self, region: Rectangle) -> Seq<(T, Point)>
        decreases self, 1nat,
    {
        if !region.intersects_spec(self.bounds) {
            Seq::empty()
        } else {
            match self.quadrants {
                Some(quadrants) => within(self.entities, region) + quadrants.found(region),
                None => within(self.entities, region),
            }
        }
    }

    /// The items that a query for `region` returns.
    pub open spec fn query(self, region: Rectangle) -> Seq<T> {
        items(self.found(region))
    }

    /// Whether the tree is well formed.
    ///
    /// Every entry of a node lies in the node's cell. A leaf holds no more
    /// entries than its capacity, unless its cell cannot be cut. A node that
    /// has been cut holds as many entries as its capacity, its cell can be
    /// cut, and its four children are well formed trees of the same capacity
    /// over the four quadrants of its cell.
    pub open spec fn wf(self) -> bool
        decreases self, 1nat,
    {
        &&& forall|i: int|
            0 <= i < self.entities.len() ==> self.bounds.contains_spec(
                (#[trigger] self.entities[i]).1,
            )
        &&& match self.quadrants {
            Some(quadrants) => {
                &&& self.entities.len() == self.capacity
                &&& can_split(self.bounds)
                &&& quadrants.wf(self.bounds, self.capacity)
            },
            None => self.entities.len() <= self.capacity || !can_split(self.bounds),
        }
    }
}

} // verus!
