//! What holds of every quadtree, proved of the model.
use vstd::prelude::*;
use crate::container::cell::{
    can_split, extent, first_quadrant_holding, is_nonempty, lemma_quadrant_is_smaller,
    lemma_quadrant_within_cell, lemma_quadrants_cover_cell, quadrant, Quadrant,
};
use crate::container::model::{items, within, QuadrantsView, TreeView};
use crate::geometry::point::Point;
use crate::geometry::rectangle::{lemma_unrotated_contains, lemma_unrotated_intersects, Rectangle};
use vstd::multiset::Multiset;
use vstd::seq_lib::lemma_multiset_commutative;

verus! {

/// Inserting into an empty leaf gives the tree that sprouts from its cell.
pub proof fn lemma_insert_into_leaf<T>(
    bounds: Rectangle,
    capacity: nat,
    item: T,
    position: Point,
)
    requires
        bounds.contains_spec(position),
    ensures
        TreeView::<T>::leaf(bounds, capacity).insert(item, position) == TreeView::sprout(
            bounds,
            capacity,
            item,
            position,
        ),
{
    let leaf = TreeView::<T>::leaf(bounds, capacity);
    assert(leaf.entities.push((item, position)) == seq![(item, position)]);
}

/// Cutting a leaf for the sake of an entry is the same as giving it four
/// empty children and then inserting the entry among them.
pub proof fn lemma_split_is_insert_into_fresh<T>(
    bounds: Rectangle,
    capacity: nat,
    item: T,
    position: Point,
)
    requires
        can_split(bounds),
    ensures
        TreeView::split(bounds, capacity, item, position) == QuadrantsView::<T>::fresh(
            bounds,
            capacity,
        ).insert(item, position),
{
    let fresh = QuadrantsView::<T>::fresh(bounds, capacity);
    assert(fresh.first_holding(position) == first_quadrant_holding(bounds, position));
    match first_quadrant_holding(bounds, position) {
        Some(which) => {
            lemma_insert_into_leaf(quadrant(bounds, which), capacity, item, position);
        },
        None => {},
    }
}

/// The items of two runs of entries, one after the other.
pub proof fn lemma_items_concat<T>(a: Seq<(T, Point)>, b: Seq<(T, Point)>)
    ensures
        items(a + b) == items(a) + items(b),
{
    assert(items(a + b) =~= items(a) + items(b));
}

/// Four empty leaves over the quadrants of a cell are well formed children.
pub proof fn lemma_fresh_wf<T>(bounds: Rectangle, capacity: nat)
    ensures
        QuadrantsView::<T>::fresh(bounds, capacity).wf(bounds, capacity),
{
    let fresh = QuadrantsView::<T>::fresh(bounds, capacity);
    assert(fresh.top_right.wf());
    assert(fresh.bottom_right.wf());
    assert(fresh.bottom_left.wf());
    assert(fresh.top_left.wf());
}

/// Well formed children stay so when one of them is replaced by a well
/// formed tree over the same quadrant.
pub proof fn lemma_with_child_wf<T>(
    quadrants: QuadrantsView<T>,
    bounds: Rectangle,
    capacity: nat,
    which: Quadrant,
    child: TreeView<T>,
)
    requires
        quadrants.wf(bounds, capacity),
        child.wf(),
        child.bounds == quadrant(bounds, which),
        child.capacity == capacity,
    ensures
        quadrants.with_child(which, child).wf(bounds, capacity),
{
}

/// A tree sprouted from a cell that holds the position is well formed.
pub proof fn lemma_sprout_wf<T>(bounds: Rectangle, capacity: nat, item: T, position: Point)
    requires
        bounds.contains_spec(position),
    ensures
        TreeView::sprout(bounds, capacity, item, position).wf(),
        TreeView::sprout(bounds, capacity, item, position).bounds == bounds,
        TreeView::sprout(bounds, capacity, item, position).capacity == capacity,
    decreases extent(bounds),
{
    if capacity > 0 || !can_split(bounds) {
    } else {
        lemma_quadrants_cover_cell(bounds, position);
        let which = first_quadrant_holding(bounds, position).unwrap();
        lemma_quadrant_is_smaller(bounds, which);
        let child = TreeView::sprout(quadrant(bounds, which), capacity, item, position);
        lemma_sprout_wf(quadrant(bounds, which), capacity, item, position);
        lemma_fresh_wf::<T>(bounds, capacity);
        lemma_with_child_wf(QuadrantsView::fresh(bounds, capacity), bounds, capacity, which, child);
        let cut = TreeView::split(bounds, capacity, item, position);
        assert(cut == QuadrantsView::fresh(bounds, capacity).with_child(which, child));
        assert(cut.wf(bounds, capacity));
        let tree = TreeView::sprout(bounds, capacity, item, position);
        assert(tree.quadrants == Some(Box::new(cut)));
        assert(tree.entities.len() == 0);
    }
}

/// Inserting keeps a tree well formed, with its bounds and its capacity.
pub proof fn lemma_insert_preserves_wf<T>(tree: TreeView<T>, item: T, position: Point)
    requires
        tree.wf(),
    ensures
        tree.insert(item, position).wf(),
        tree.insert(item, position).bounds == tree.bounds,
        tree.insert(item, position).capacity == tree.capacity,
    decreases tree,
{
    if !tree.bounds.contains_spec(position) {
    } else if tree.entities.len() < tree.capacity {
    } else {
        match tree.quadrants {
            Some(quadrants) => {
                match quadrants.first_holding(position) {
                    Some(which) => {
                        let child = quadrants.child(which);
                        lemma_insert_preserves_wf(child, item, position);
                        lemma_with_child_wf(
                            *quadrants,
                            tree.bounds,
                            tree.capacity,
                            which,
                            child.insert(item, position),
                        );
                    },
                    None => {},
                }
            },
            None => {
                if can_split(tree.bounds) {
                    lemma_quadrants_cover_cell(tree.bounds, position);
                    let which = first_quadrant_holding(tree.bounds, position).unwrap();
                    let child = TreeView::sprout(
                        quadrant(tree.bounds, which),
                        tree.capacity,
                        item,
                        position,
                    );
                    lemma_sprout_wf(quadrant(tree.bounds, which), tree.capacity, item, position);
                    lemma_fresh_wf::<T>(tree.bounds, tree.capacity);
                    lemma_with_child_wf(
                        QuadrantsView::fresh(tree.bounds, tree.capacity),
                        tree.bounds,
                        tree.capacity,
                        which,
                        child,
                    );
                }
            },
        }
    }
}

/// Whether the position of every entry lies in `bounds`.
pub open spec fn all_within<T>(entries: Seq<(T, Point)>, bounds: Rectangle) -> bool {
    forall|i: int| 0 <= i < entries.len() ==> bounds.contains_spec((#[trigger] entries[i]).1)
}

/// Two runs of entries that lie in a cell lie in it when put together.
pub proof fn lemma_all_within_concat<T>(a: Seq<(T, Point)>, b: Seq<(T, Point)>, bounds: Rectangle)
    requires
        all_within(a, bounds),
        all_within(b, bounds),
    ensures
        all_within(a + b, bounds),
{
    assert forall|i: int| 0 <= i < (a + b).len() implies bounds.contains_spec(
        (#[trigger] (a + b)[i]).1,
    ) by {
        if i < a.len() {
            assert((a + b)[i] == a[i]);
        } else {
            assert((a + b)[i] == b[i - a.len()]);
        }
    }
}

/// Entries that lie in a quadrant of a cell lie in the cell.
pub proof fn lemma_all_within_quadrant<T>(
    entries: Seq<(T, Point)>,
    bounds: Rectangle,
    which: Quadrant,
)
    requires
        is_nonempty(bounds),
        all_within(entries, quadrant(bounds, which)),
    ensures
        all_within(entries, bounds),
{
    assert forall|i: int| 0 <= i < entries.len() implies bounds.contains_spec(
        (#[trigger] entries[i]).1,
    ) by {
        lemma_quadrant_within_cell(bounds, which, entries[i].1);
    }
}

/// Every entry of a well formed tree lies in the bounds of the tree.
pub proof fn lemma_entries_within_bounds<T>(tree: TreeView<T>)
    requires
        tree.wf(),
    ensures
        all_within(tree.entries(), tree.bounds),
    decreases tree,
{
    match tree.quadrants {
        Some(quadrants) => {
            let a = quadrants.top_right.entries();
            let b = quadrants.bottom_right.entries();
            let c = quadrants.bottom_left.entries();
            let d = quadrants.top_left.entries();
            lemma_entries_within_bounds(quadrants.top_right);
            lemma_entries_within_bounds(quadrants.bottom_right);
            lemma_entries_within_bounds(quadrants.bottom_left);
            lemma_entries_within_bounds(quadrants.top_left);
            lemma_all_within_quadrant(a, tree.bounds, Quadrant::TopRight);
            lemma_all_within_quadrant(b, tree.bounds, Quadrant::BottomRight);
            lemma_all_within_quadrant(c, tree.bounds, Quadrant::BottomLeft);
            lemma_all_within_quadrant(d, tree.bounds, Quadrant::TopLeft);
            lemma_all_within_concat(a, b, tree.bounds);
            lemma_all_within_concat(a + b, c, tree.bounds);
            lemma_all_within_concat(a + b + c, d, tree.bounds);
            lemma_all_within_concat(tree.entities, a + b + c + d, tree.bounds);
        },
        None => {},
    }
}

/// What `within` keeps of a run of entries lies in the region, and lies
/// wherever the whole run lies.
pub proof fn lemma_within_lies_within<T>(
    entries: Seq<(T, Point)>,
    region: Rectangle,
    bounds: Rectangle,
)
    requires
        all_within(entries, bounds),
    ensures
        all_within(within(entries, region), region),
        all_within(within(entries, region), bounds),
        within(entries, region).len() <= entries.len(),
    decreases entries.len(),
{
    if entries.len() > 0 {
        let rest = entries.drop_last();
        assert forall|i: int| 0 <= i < rest.len() implies bounds.contains_spec(
            (#[trigger] rest[i]).1,
        ) by {
            assert(rest[i] == entries[i]);
        }
        lemma_within_lies_within(rest, region, bounds);
    }
}

/// Where the region holds every entry, `within` keeps them all.
pub proof fn lemma_within_keeps_all<T>(entries: Seq<(T, Point)>, region: Rectangle)
    requires
        all_within(entries, region),
    ensures
        within(entries, region) == entries,
    decreases entries.len(),
{
    if entries.len() > 0 {
        let rest = entries.drop_last();
        assert forall|i: int| 0 <= i < rest.len() implies region.contains_spec(
            (#[trigger] rest[i]).1,
        ) by {
            assert(rest[i] == entries[i]);
        }
        lemma_within_keeps_all(rest, region);
        assert(rest.push(entries.last()) =~= entries);
    } else {
        assert(within(entries, region) =~= entries);
    }
}

/// What `within` keeps of a run of entries is part of the run, each entry
/// as often as there at most.
pub proof fn lemma_within_is_part<T>(entries: Seq<(T, Point)>, region: Rectangle)
    ensures
        within(entries, region).to_multiset().subset_of(entries.to_multiset()),
        within(entries, region).len() <= entries.len(),
    decreases entries.len(),
{
    broadcast use {
        vstd::multiset::group_multiset_axioms,
        vstd::multiset::group_multiset_properties,
    };

    if entries.len() > 0 {
        let rest = entries.drop_last();
        let last = entries.last();
        lemma_within_is_part(rest, region);
        assert(rest.push(last) =~= entries);
        rest.to_multiset_ensures();
        within(rest, region).to_multiset_ensures();
        assert(entries.to_multiset() == rest.to_multiset().insert(last));
        if region.contains_spec(last.1) {
            assert(within(entries, region).to_multiset() == within(
                rest,
                region,
            ).to_multiset().insert(last));
        }
    } else {
        lemma_empty_run_has_nothing::<T>();
    }
}

/// The empty run of entries holds nothing.
pub proof fn lemma_empty_run_has_nothing<T>()
    ensures
        Seq::<(T, Point)>::empty().to_multiset() == Multiset::<(T, Point)>::empty(),
{
    broadcast use vstd::multiset::group_multiset_axioms;

    let nothing = Seq::<(T, Point)>::empty();
    nothing.to_multiset_ensures();
    vstd::multiset::lemma_multiset_empty_len(nothing.to_multiset());
}

/// Parts of two runs, one after the other, are part of the two runs one
/// after the other.
pub proof fn lemma_parts_concat<T>(
    a: Seq<(T, Point)>,
    b: Seq<(T, Point)>,
    c: Seq<(T, Point)>,
    d: Seq<(T, Point)>,
)
    requires
        a.to_multiset().subset_of(c.to_multiset()),
        b.to_multiset().subset_of(d.to_multiset()),
    ensures
        (a + b).to_multiset().subset_of((c + d).to_multiset()),
{
    broadcast use vstd::multiset::group_multiset_axioms;

    lemma_multiset_commutative(a, b);
    lemma_multiset_commutative(c, d);
}

/// Every entry that a query finds lies in the region and in the bounds of
/// the tree.
pub proof fn lemma_found_lies_within<T>(tree: TreeView<T>, region: Rectangle)
    requires
        tree.wf(),
    ensures
        all_within(tree.found(region), region),
        all_within(tree.found(region), tree.bounds),
    decreases tree,
{
    if region.intersects_spec(tree.bounds) {
        lemma_within_lies_within(tree.entities, region, tree.bounds);
        match tree.quadrants {
            Some(quadrants) => {
                let a = quadrants.top_right.found(region);
                let b = quadrants.bottom_right.found(region);
                let c = quadrants.bottom_left.found(region);
                let d = quadrants.top_left.found(region);
                lemma_found_lies_within(quadrants.top_right, region);
                lemma_found_lies_within(quadrants.bottom_right, region);
                lemma_found_lies_within(quadrants.bottom_left, region);
                lemma_found_lies_within(quadrants.top_left, region);
                lemma_all_within_quadrant(a, tree.bounds, Quadrant::TopRight);
                lemma_all_within_quadrant(b, tree.bounds, Quadrant::BottomRight);
                lemma_all_within_quadrant(c, tree.bounds, Quadrant::BottomLeft);
                lemma_all_within_quadrant(d, tree.bounds, Quadrant::TopLeft);
                lemma_all_within_concat(a, b, tree.bounds);
                lemma_all_within_concat(a + b, c, tree.bounds);
                lemma_all_within_concat(a + b + c, d, tree.bounds);
                lemma_all_within_concat(within(tree.entities, region), a + b + c + d, tree.bounds);
                lemma_all_within_concat(a, b, region);
                lemma_all_within_concat(a + b, c, region);
                lemma_all_within_concat(a + b + c, d, region);
                lemma_all_within_concat(within(tree.entities, region), a + b + c + d, region);
            },
            None => {},
        }
    }
}

/// What a query finds is part of what the tree holds: no entry is found
/// more often than it was inserted.
pub proof fn lemma_found_is_part_of_entries<T>(tree: TreeView<T>, region: Rectangle)
    ensures
        tree.found(region).to_multiset().subset_of(tree.entries().to_multiset()),
        tree.found(region).len() <= tree.entries().len(),
    decreases tree,
{
    broadcast use vstd::multiset::group_multiset_axioms;

    if region.intersects_spec(tree.bounds) {
        lemma_within_is_part(tree.entities, region);
        match tree.quadrants {
            Some(quadrants) => {
                lemma_found_is_part_of_entries(quadrants.top_right, region);
                lemma_found_is_part_of_entries(quadrants.bottom_right, region);
                lemma_found_is_part_of_entries(quadrants.bottom_left, region);
                lemma_found_is_part_of_entries(quadrants.top_left, region);
                let a = quadrants.top_right.found(region);
                let b = quadrants.bottom_right.found(region);
                let c = quadrants.bottom_left.found(region);
                let d = quadrants.top_left.found(region);
                let a2 = quadrants.top_right.entries();
                let b2 = quadrants.bottom_right.entries();
                let c2 = quadrants.bottom_left.entries();
                let d2 = quadrants.top_left.entries();
                lemma_parts_concat(a, b, a2, b2);
                lemma_parts_concat(a + b, c, a2 + b2, c2);
                lemma_parts_concat(a + b + c, d, a2 + b2 + c2, d2);
                lemma_parts_concat(
                    within(tree.entities, region),
                    a + b + c + d,
                    tree.entities,
                    a2 + b2 + c2 + d2,
                );
            },
            None => {},
        }
    } else {
        lemma_empty_run_has_nothing::<T>();
    }
}

/// Whether no point lies in both rectangles.
pub open spec fn disjoint(a: Rectangle, b: Rectangle) -> bool {
    forall|point: Point| !(#[trigger] a.contains_spec(point) && b.contains_spec(point))
}

/// A query for a region that shares no point with the bounds of the tree
/// finds nothing, whatever the tree holds.
pub proof fn lemma_query_disjoint_region_is_empty<T>(tree: TreeView<T>, region: Rectangle)
    requires
        tree.wf(),
        disjoint(region, tree.bounds),
    ensures
        tree.found(region) == Seq::<(T, Point)>::empty(),
        tree.query(region) == Seq::<T>::empty(),
{
    lemma_found_lies_within(tree, region);
    let found = tree.found(region);
    if found.len() > 0 {
        assert(region.contains_spec(found[0].1));
        assert(tree.bounds.contains_spec(found[0].1));
    }
    assert(found =~= Seq::empty());
    assert(tree.query(region) =~= Seq::empty());
}

/// A query for a region that does not intersect the bounds of the tree
/// finds nothing.
pub proof fn lemma_query_without_intersection_is_empty<T>(tree: TreeView<T>, region: Rectangle)
    requires
        !region.intersects_spec(tree.bounds),
    ensures
        tree.query(region) == Seq::<T>::empty(),
{
    assert(tree.query(region) =~= Seq::empty());
}

/// Two queries for one region on one tree return the same, item for item:
/// what a query returns depends on the tree and the region alone.
pub proof fn lemma_query_is_repeatable<T>(
    tree: TreeView<T>,
    region: Rectangle,
    first: Seq<T>,
    second: Seq<T>,
)
    requires
        first == tree.query(region),
        second == tree.query(region),
    ensures
        first == second,
{
}

/// Inserting at a position outside the bounds changes nothing.
pub proof fn lemma_insert_outside_is_dropped<T>(tree: TreeView<T>, item: T, position: Point)
    requires
        !tree.bounds.contains_spec(position),
    ensures
        tree.insert(item, position) == tree,
{
}

/// Inserting among well formed children whose cell holds the position adds
/// the entry once and leaves the others.
pub proof fn lemma_quadrants_insert_adds_entry<T>(
    quadrants: QuadrantsView<T>,
    bounds: Rectangle,
    capacity: nat,
    item: T,
    position: Point,
)
    requires
        quadrants.wf(bounds, capacity),
        can_split(bounds),
        bounds.contains_spec(position),
    ensures
        quadrants.insert(item, position).entries().to_multiset() == quadrants.entries().to_multiset().insert(
            (item, position),
        ),
        quadrants.insert(item, position).entries().len() == quadrants.entries().len() + 1,
    decreases extent(bounds), 0nat,
{
    broadcast use {
        vstd::multiset::group_multiset_axioms,
        vstd::multiset::group_multiset_properties,
    };

    lemma_quadrants_cover_cell(bounds, position);
    assert(quadrants.first_holding(position) == first_quadrant_holding(bounds, position));
    let which = quadrants.first_holding(position).unwrap();
    lemma_quadrant_is_smaller(bounds, which);
    lemma_insert_adds_entry(quadrants.child(which), item, position);
    let after = quadrants.insert(item, position);
    let a = quadrants.top_right.entries();
    let b = quadrants.bottom_right.entries();
    let c = quadrants.bottom_left.entries();
    let d = quadrants.top_left.entries();
    let a2 = after.top_right.entries();
    let b2 = after.bottom_right.entries();
    let c2 = after.bottom_left.entries();
    let d2 = after.top_left.entries();
    lemma_multiset_commutative(a, b);
    lemma_multiset_commutative(a + b, c);
    lemma_multiset_commutative(a + b + c, d);
    lemma_multiset_commutative(a2, b2);
    lemma_multiset_commutative(a2 + b2, c2);
    lemma_multiset_commutative(a2 + b2 + c2, d2);
    assert(after.entries().to_multiset() =~= quadrants.entries().to_multiset().insert(
        (item, position),
    ));
}

/// Inserting at a position that the bounds hold adds the entry to the tree
/// once, and leaves every other entry as often as it was.
pub proof fn lemma_insert_adds_entry<T>(tree: TreeView<T>, item: T, position: Point)
    requires
        tree.wf(),
        tree.bounds.contains_spec(position),
    ensures
        tree.insert(item, position).entries().to_multiset() == tree.entries().to_multiset().insert(
            (item, position),
        ),
        tree.insert(item, position).entries().len() == tree.entries().len() + 1,
    decreases extent(tree.bounds), 1nat,
{
    broadcast use {
        vstd::multiset::group_multiset_axioms,
        vstd::multiset::group_multiset_properties,
    };

    let entry = (item, position);
    let after = tree.insert(item, position);
    if tree.entities.len() < tree.capacity {
        tree.entities.to_multiset_ensures();
    } else {
        match tree.quadrants {
            Some(quadrants) => {
                lemma_quadrants_insert_adds_entry(
                    *quadrants,
                    tree.bounds,
                    tree.capacity,
                    item,
                    position,
                );
                lemma_multiset_commutative(tree.entities, quadrants.entries());
                lemma_multiset_commutative(
                    tree.entities,
                    quadrants.insert(item, position).entries(),
                );
                assert(after.entries().to_multiset() =~= tree.entries().to_multiset().insert(
                    entry,
                ));
            },
            None => {
                if can_split(tree.bounds) {
                    let fresh = QuadrantsView::<T>::fresh(tree.bounds, tree.capacity);
                    lemma_fresh_wf::<T>(tree.bounds, tree.capacity);
                    lemma_split_is_insert_into_fresh(tree.bounds, tree.capacity, item, position);
                    lemma_quadrants_insert_adds_entry(
                        fresh,
                        tree.bounds,
                        tree.capacity,
                        item,
                        position,
                    );
                    assert(fresh.entries() =~= Seq::empty());
                    lemma_empty_run_has_nothing::<T>();
                    lemma_multiset_commutative(
                        tree.entities,
                        fresh.insert(item, position).entries(),
                    );
                    assert(after.entries().to_multiset() =~= tree.entries().to_multiset().insert(
                        entry,
                    ));
                } else {
                    tree.entities.to_multiset_ensures();
                }
            },
        }
    }
}

/// Where neither the bounds of the tree nor the region is rotated, and the
/// region reaches over the bounds, a query finds every entry of the tree, in
/// the order in which the tree holds them. So a query for the bounds
/// themselves returns all that was inserted within them.
pub proof fn lemma_query_over_bounds_finds_all<T>(tree: TreeView<T>, region: Rectangle)
    requires
        tree.wf(),
        tree.bounds.is_unrotated(),
        region.is_unrotated(),
        region.covers(tree.bounds),
    ensures
        tree.found(region) == tree.entries(),
        tree.query(region) == items(tree.entries()),
    decreases tree,
{
    assert forall|i: int| 0 <= i < tree.entities.len() implies region.contains_spec(
        (#[trigger] tree.entities[i]).1,
    ) by {
        lemma_unrotated_contains(tree.bounds, tree.entities[i].1);
        lemma_unrotated_contains(region, tree.entities[i].1);
    }
    lemma_within_keeps_all(tree.entities, region);
    if is_nonempty(tree.bounds) {
        lemma_unrotated_intersects(region, tree.bounds);
        assert(region.spans(tree.bounds.top_left));
        match tree.quadrants {
            Some(quadrants) => {
                lemma_query_over_bounds_finds_all(quadrants.top_right, region);
                lemma_query_over_bounds_finds_all(quadrants.bottom_right, region);
                lemma_query_over_bounds_finds_all(quadrants.bottom_left, region);
                lemma_query_over_bounds_finds_all(quadrants.top_left, region);
            },
            None => {},
        }
    } else {
        if tree.entities.len() > 0 {
            lemma_quadrants_cover_cell(tree.bounds, tree.entities[0].1);
        }
        assert(tree.entities =~= Seq::empty());
        assert(tree.found(region) =~= tree.entries());
    }
}

/// The test that picks the entries whose position lies in `bounds`.
pub open spec fn lies_in<T>(bounds: Rectangle) -> spec_fn((T, Point)) -> bool {
    |entry: (T, Point)| bounds.contains_spec(entry.1)
}

/// Inserting entries one after the other adds those whose position the
/// bounds hold, each once, and drops the others.
pub proof fn lemma_insert_all_adds_what_lies_within<T>(tree: TreeView<T>, entries: Seq<(T, Point)>)
    requires
        tree.wf(),
    ensures
        tree.insert_all(entries).wf(),
        tree.insert_all(entries).bounds == tree.bounds,
        tree.insert_all(entries).capacity == tree.capacity,
        tree.insert_all(entries).entries().to_multiset() == tree.entries().to_multiset().add(
            entries.to_multiset().filter(lies_in(tree.bounds)),
        ),
    decreases entries.len(),
{
    broadcast use {
        vstd::multiset::group_multiset_axioms,
        vstd::multiset::group_multiset_properties,
    };

    let kept = entries.to_multiset().filter(lies_in(tree.bounds));
    if entries.len() == 0 {
        lemma_empty_run_has_nothing::<T>();
        assert(entries =~= Seq::empty());
        assert(kept =~= Multiset::empty());
        assert(tree.entries().to_multiset().add(kept) =~= tree.entries().to_multiset());
    } else {
        let rest = entries.drop_last();
        let last = entries.last();
        let before = tree.insert_all(rest);
        let kept_before = rest.to_multiset().filter(lies_in(tree.bounds));
        lemma_insert_all_adds_what_lies_within(tree, rest);
        lemma_insert_preserves_wf(before, last.0, last.1);
        assert(rest.push(last) =~= entries);
        rest.to_multiset_ensures();
        assert(entries.to_multiset() == rest.to_multiset().insert(last));
        if tree.bounds.contains_spec(last.1) {
            lemma_insert_adds_entry(before, last.0, last.1);
            assert(kept =~= kept_before.insert(last));
            assert(tree.entries().to_multiset().add(kept) =~= tree.entries().to_multiset().add(
                kept_before,
            ).insert(last));
        } else {
            assert(kept =~= kept_before);
        }
    }
}

/// What a query over the bounds finds after any run of inserts into an
/// empty tree: the entries of the run whose position the bounds hold, each
/// as often as it was inserted. Neither the bounds nor the region may be
/// rotated, and the region must reach over the bounds.
pub proof fn lemma_query_finds_what_was_inserted<T>(
    bounds: Rectangle,
    capacity: nat,
    entries: Seq<(T, Point)>,
    region: Rectangle,
)
    requires
        bounds.is_unrotated(),
        region.is_unrotated(),
        region.covers(bounds),
    ensures
        TreeView::<T>::leaf(bounds, capacity).insert_all(entries).found(region).to_multiset()
            == entries.to_multiset().filter(lies_in(bounds)),
{
    broadcast use vstd::multiset::group_multiset_axioms;

    let empty = TreeView::<T>::leaf(bounds, capacity);
    lemma_insert_all_adds_what_lies_within(empty, entries);
    lemma_query_over_bounds_finds_all(empty.insert_all(entries), region);
    lemma_empty_run_has_nothing::<T>();
    assert(empty.entries() =~= Seq::empty());
    assert(empty.entries().to_multiset().add(entries.to_multiset().filter(lies_in(bounds)))
        =~= entries.to_multiset().filter(lies_in(bounds)));
}

/// What a query over the bounds finds does not depend on the order in which
/// the entries were inserted: two runs of the same entries give trees in
/// which the query finds the same entries, each as often.
pub proof fn lemma_query_ignores_order_of_insertion<T>(
    bounds: Rectangle,
    capacity: nat,
    first: Seq<(T, Point)>,
    second: Seq<(T, Point)>,
    region: Rectangle,
)
    requires
        first.to_multiset() == second.to_multiset(),
        bounds.is_unrotated(),
        region.is_unrotated(),
        region.covers(bounds),
    ensures
        TreeView::<T>::leaf(bounds, capacity).insert_all(first).found(region).to_multiset()
            == TreeView::<T>::leaf(bounds, capacity).insert_all(second).found(
            region,
        ).to_multiset(),
{
    lemma_query_finds_what_was_inserted(bounds, capacity, first, region);
    lemma_query_finds_what_was_inserted(bounds, capacity, second, region);
}

} // verus!
