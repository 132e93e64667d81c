//! The quadtree itself: a node owns its entries and, once cut, its four
//! children.
use vstd::prelude::*;
use crate::container::cell::{
    can_split, extent, lemma_quadrant_is_smaller, quadrant_of, splittable, Quadrant,
};
use crate::container::laws::{
    lemma_fresh_wf, lemma_insert_preserves_wf, lemma_items_concat,
    lemma_split_is_insert_into_fresh,
};
use crate::container::model::{items, within, QuadrantsView, TreeView};
use crate::geometry::point::Point;
use crate::geometry::rectangle::Rectangle;

verus! {

/// A region quadtree that holds items of type `T`, each at a point.
///
/// A node takes up to `capacity` entries. One more cuts its cell into four
/// quadrants, each with a node of its own; what the node held stays where it
/// is, and later entries go down. A leaf whose cell is too small to be cut
/// takes entries beyond its capacity. Nothing is ever taken out.
#[derive(Debug)]
pub struct QuadTree<T> {
    root: Node<T>,
}

/// A node of the tree: its cell, its entries and, once cut, its children.
#[derive(Debug)]
struct Node<T> {
    bounds: Rectangle,
    capacity: usize,
    entities: Vec<(T, Point)>,
    quadrants: Option<Box<Quadrants<T>>>,
}

/// The four children of a node that has been cut.
#[derive(Debug)]
struct Quadrants<T> {
    top_right: Node<T>,
    bottom_right: Node<T>,
    bottom_left: Node<T>,
    top_left: Node<T>,
}

/// The values that the references of `found` point to.
pub open spec fn referents<T>(found: Seq<&T>) -> Seq<T> {
    found.map_values(|item: &T| *item)
}

impl<T> Quadrants<T> {
    spec fn model(self) -> QuadrantsView<T>
        decreases self, 0nat,
    {
        QuadrantsView {
            top_right: self.top_right.model(),
            bottom_right: self.bottom_right.model(),
            bottom_left: self.bottom_left.model(),
            top_left: self.top_left.model(),
        }
    }
}

impl<T> View for QuadTree<T> {
    type V = TreeView<T>;

    closed spec fn view(&self) -> TreeView<T> {
        self.root.model()
    }
}

impl<T> QuadTree<T> {
    /// The tree is well formed at all times.
    #[verifier::type_invariant]
    spec fn well_formed(self) -> bool {
        self.root.model().wf()
    }

    /// An empty tree over `bounds` whose nodes take `capacity` entries.
    pub fn new(bounds: Rectangle, capacity: usize) -> (tree: QuadTree<T>)
        ensures
            tree@ == TreeView::<T>::leaf(bounds, capacity as nat),
            tree@.wf(),
    {
        QuadTree { root: Node::new(bounds, capacity) }
    }

    /// Puts `item` into the tree at `position`. A position that the bounds of
    /// the tree do not hold is dropped without a word.
    pub fn insert(&mut self, item: T, position: Point)
        ensures
            final(self)@ == old(self)@.insert(item, position),
            final(self)@.wf(),
    {
        proof {
            use_type_invariant(&*self);
        }
        let mut root: Node<T> = Node::new(self.root.bounds, self.root.capacity);
        std::mem::swap(&mut root, &mut self.root);
        root.insert(item, position);
        self.root = root;
    }

    /// The items whose position `region` holds, found in the nodes whose
    /// cell `region` intersects: those of a node before those of its
    /// children, and the children in the order of the quadrants.
    pub fn query<'a>(&'a self, region: &Rectangle) -> (found: Vec<&'a T>)
        ensures
            referents(found@) == self@.query(*region),
            self@.wf(),
    {
        proof {
            use_type_invariant(&*self);
        }
        self.root.query(region)
    }
}

impl<T> Node<T> {
    spec fn model(self) -> TreeView<T>
        decreases self, 1nat,
    {
        TreeView {
            bounds: self.bounds,
            capacity: self.capacity as nat,
            entities: self.entities@,
            quadrants: match self.quadrants {
                Some(quadrants) => Some(Box::new(quadrants.model())),
                None => None,
            },
        }
    }

    /// A leaf over `bounds` without entries.
    fn new(bounds: Rectangle, capacity: usize) -> (node: Node<T>)
        ensures
            node.model() == TreeView::<T>::leaf(bounds, capacity as nat),
            node.model().wf(),
    {
        Node { bounds, capacity, entities: Vec::new(), quadrants: None }
    }

    /// Cuts a leaf: gives it four empty children over the quadrants of its
    /// cell.
    fn create_quadrants(&mut self)
        requires
            old(self).model().is_leaf(),
            can_split(old(self).model().bounds),
        ensures
            final(self).model() == (TreeView {
                quadrants: Some(
                    Box::new(
                        QuadrantsView::<T>::fresh(
                            old(self).model().bounds,
                            old(self).model().capacity,
                        ),
                    ),
                ),
                ..old(self).model()
            }),
    {
        let quadrants = Quadrants {
            top_right: Node::new(quadrant_of(&self.bounds, Quadrant::TopRight), self.capacity),
            bottom_right: Node::new(
                quadrant_of(&self.bounds, Quadrant::BottomRight),
                self.capacity,
            ),
            bottom_left: Node::new(
                quadrant_of(&self.bounds, Quadrant::BottomLeft),
                self.capacity,
            ),
            top_left: Node::new(quadrant_of(&self.bounds, Quadrant::TopLeft), self.capacity),
        };
        self.quadrants = Some(Box::new(quadrants));
    }

    /// Puts `item` into the node or below it, unless the cell of the node
    /// does not hold `position`.
    fn insert(&mut self, item: T, position: Point)
        requires
            old(self).model().wf(),
        ensures
            final(self).model() == old(self).model().insert(item, position),
            final(self).model().wf(),
        decreases extent(old(self).model().bounds),
    {
        proof {
            lemma_insert_preserves_wf(self.model(), item, position);
        }
        if !self.bounds.contains(&position) {
            return ;
        }
        if self.entities.len() < self.capacity {
            self.entities.push((item, position));
            return ;
        }
        if self.quadrants.is_none() {
            if !splittable(&self.bounds) {
                self.entities.push((item, position));
                return ;
            }
            self.create_quadrants();
            proof {
                lemma_fresh_wf::<T>(self.bounds, self.capacity as nat);
                lemma_split_is_insert_into_fresh(
                    self.bounds,
                    self.capacity as nat,
                    item,
                    position,
                );
            }
        }
        let ghost cut = self.model();
        let mut quadrants: Box<Quadrants<T>> = self.quadrants.take().unwrap();
        let ghost children = quadrants.model();
        assert(cut.quadrants == Some(Box::new(children)));
        assert(children.wf(self.bounds, self.capacity as nat));
        if quadrants.top_right.bounds.contains(&position) {
            proof {
                lemma_quadrant_is_smaller(self.bounds, Quadrant::TopRight);
            }
            quadrants.top_right.insert(item, position);
        } else if quadrants.bottom_right.bounds.contains(&position) {
            proof {
                lemma_quadrant_is_smaller(self.bounds, Quadrant::BottomRight);
            }
            quadrants.bottom_right.insert(item, position);
        } else if quadrants.bottom_left.bounds.contains(&position) {
            proof {
                lemma_quadrant_is_smaller(self.bounds, Quadrant::BottomLeft);
            }
            quadrants.bottom_left.insert(item, position);
        } else if quadrants.top_left.bounds.contains(&position) {
            proof {
                lemma_quadrant_is_smaller(self.bounds, Quadrant::TopLeft);
            }
            quadrants.top_left.insert(item, position);
        }
        assert(quadrants.model() == children.insert(item, position));
        self.quadrants = Some(quadrants);
    }

    /// What a query for `region` finds in the node and below it.
    fn query<'a>(&'a self, region: &Rectangle) -> (found: Vec<&'a T>)
        ensures
            referents(found@) == self.model().query(*region),
        decreases self,
    {
        let mut found: Vec<&'a T> = Vec::new();
        if !region.intersects(&self.bounds) {
            assert(referents(found@) =~= items(Seq::<(T, Point)>::empty()));
            return found;
        }
        let mut i: usize = 0;
        assert(referents(found@) =~= items(within(self.entities@.take(0), *region)));
        while i < self.entities.len()
            invariant
                i <= self.entities.len(),
                referents(found@) == items(within(self.entities@.take(i as int), *region)),
            decreases self.entities.len() - i,
        {
            let entry: &'a (T, Point) = &self.entities[i];
            let ghost before = found@;
            let ghost seen = self.entities@.take(i as int);
            let ghost next = self.entities@.take(i + 1);
            proof {
                assert(next.drop_last() =~= seen);
                assert(next.last() == *entry);
            }
            if region.contains(&entry.1) {
                found.push(&entry.0);
                proof {
                    assert(referents(found@) =~= referents(before).push(entry.0));
                    assert(items(within(seen, *region).push(*entry)) =~= items(
                        within(seen, *region),
                    ).push(entry.0));
                }
            }
            i += 1;
        }
        assert(self.entities@.take(i as int) =~= self.entities@);
        let ghost own = within(self.entities@, *region);
        match &self.quadrants {
            Some(quadrants) => {
                let ghost children = quadrants.model();
                let mut part: Vec<&'a T> = quadrants.top_right.query(region);
                let ghost first = part@;
                found.append(&mut part);
                let mut part: Vec<&'a T> = quadrants.bottom_right.query(region);
                let ghost second = part@;
                found.append(&mut part);
                let mut part: Vec<&'a T> = quadrants.bottom_left.query(region);
                let ghost third = part@;
                found.append(&mut part);
                let mut part: Vec<&'a T> = quadrants.top_left.query(region);
                let ghost fourth = part@;
                found.append(&mut part);
                proof {
                    let a = children.top_right.found(*region);
                    let b = children.bottom_right.found(*region);
                    let c = children.bottom_left.found(*region);
                    let d = children.top_left.found(*region);
                    lemma_items_concat(a, b);
                    lemma_items_concat(a + b, c);
                    lemma_items_concat(a + b + c, d);
                    lemma_items_concat(own, a + b + c + d);
                    assert(referents(found@) =~= items(own) + referents(first) + referents(second)
                        + referents(third) + referents(fourth));
                    assert(items(own) + items(a) + items(b) + items(c) + items(d) =~= items(own)
                        + (items(a) + items(b) + items(c) + items(d)));
                    assert(self.model().found(*region) == own + (a + b + c + d));
                }
            },
            None => {},
        }
        found
    }
}

} // verus!

