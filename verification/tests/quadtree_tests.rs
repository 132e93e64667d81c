use antsim::container::cell::{quadrant_of, splittable, Quadrant};
use antsim::container::quadtree::QuadTree;
use antsim::entity::Entity;
use antsim::geometry::point::Point;
use antsim::geometry::rectangle::Rectangle;
use antsim::geometry::rotation::Rotation;

/// A length in thousandths of a unit.
fn units(length: f64) -> i64 {
    (length * 1000.0).round() as i64
}

fn point(x: f64, y: f64) -> Point {
    Point { x: units(x), y: units(y) }
}

fn sorted(mut numbers: Vec<u32>) -> Vec<u32> {
    numbers.sort();
    numbers
}

fn found(tree: &QuadTree<u32>, region: &Rectangle) -> Vec<u32> {
    tree.query(region).iter().map(|&&item| item).collect()
}

#[test]
fn insert_items() {
    let bounds = Rectangle::new(units(0.0), units(0.0), units(200.0), units(200.0), Rotation::new(0));
    let mut tree: QuadTree<Entity> = QuadTree::new(bounds, 4);

    let inside_entites: Vec<Entity> = vec![
        point(0.0, 0.0),
        point(25.3, 40.9),
        point(-54.2, -90.5),
        point(100.0, 100.0),
        point(-100.0, -100.0),
    ]
    .iter()
    .map(|&point| Entity::new(point))
    .collect();

    let outside_entities: Vec<Entity> =
        vec![point(200.0, 200.0)].iter().map(|&point| Entity::new(point)).collect();

    inside_entites.iter().for_each(|&entity| tree.insert(entity, entity.position));

    outside_entities.iter().for_each(|&entity| tree.insert(entity, entity.position));

    let actual_results: Vec<Entity> = tree.query(&bounds).iter().map(|&&entity| entity).collect();

    assert_eq!(actual_results, inside_entites);
}

#[derive(Debug, Clone, PartialEq, PartialOrd, Ord, Hash, Eq, Copy)]
struct TestItem;

#[test]
fn quadtree_insert_items() {
    let bounds = Rectangle::new(units(0.0), units(0.0), units(200.0), units(200.0), Rotation::new(0));
    let mut tree: QuadTree<TestItem> = QuadTree::new(bounds, 4);

    let inside_entites: Vec<(TestItem, Point)> = vec![
        point(0.0, 0.0),
        point(25.3, 40.9),
        point(-54.2, -90.5),
        point(100.0, 100.0),
        point(-100.0, -100.0),
    ]
    .iter()
    .map(|&point| (TestItem, point))
    .collect();

    let outside_entities: Vec<(TestItem, Point)> =
        vec![point(200.0, 200.0)].iter().map(|&point| (TestItem, point)).collect();

    inside_entites.iter().for_each(|(entity, position)| tree.insert(*entity, *position));

    outside_entities.iter().for_each(|(entity, position)| tree.insert(*entity, *position));

    let mut expected_results: Vec<TestItem> =
        inside_entites.iter().map(|(entity, _)| *entity).collect();
    let mut actual_results: Vec<TestItem> =
        tree.query(&bounds).iter().map(|&&entity| entity).collect();

    assert_eq!(actual_results.sort(), expected_results.sort());
    assert_eq!(actual_results, expected_results);
}

#[test]
fn empty_tree_finds_nothing() {
    let bounds = Rectangle::new(0, 0, 200, 200, Rotation::new(0));
    let tree: QuadTree<u32> = QuadTree::new(bounds, 4);
    assert!(tree.query(&bounds).is_empty());
}

#[test]
fn query_over_the_bounds_finds_the_inside_points_in_any_order_of_insertion() {
    let bounds = Rectangle::new(0, 0, units(200.0), units(200.0), Rotation::new(0));
    let entries: [(u32, Point); 6] = [
        (1, point(0.0, 0.0)),
        (2, point(25.3, 40.9)),
        (3, point(-54.2, -90.5)),
        (4, point(100.0, 100.0)),
        (5, point(-100.0, -100.0)),
        (6, point(200.0, 200.0)),
    ];
    // every order of the six entries, by Heap's algorithm
    let mut order: Vec<usize> = (0..6).collect();
    let mut counters = [0usize; 6];
    let mut orders: Vec<Vec<usize>> = vec![order.clone()];
    let mut i = 0;
    while i < 6 {
        if counters[i] < i {
            if i % 2 == 0 {
                order.swap(0, i);
            } else {
                order.swap(counters[i], i);
            }
            orders.push(order.clone());
            counters[i] += 1;
            i = 0;
        } else {
            counters[i] = 0;
            i += 1;
        }
    }
    assert_eq!(orders.len(), 720);
    for order in orders {
        let mut tree: QuadTree<u32> = QuadTree::new(bounds, 4);
        for index in order {
            tree.insert(entries[index].0, entries[index].1);
        }
        assert_eq!(sorted(found(&tree, &bounds)), vec![1, 2, 3, 4, 5]);
    }
}

#[test]
fn insert_outside_the_bounds_is_dropped() {
    let bounds = Rectangle::new(0, 0, 200, 200, Rotation::new(0));
    let everything = Rectangle::new(0, 0, 2000, 2000, Rotation::new(0));
    let mut tree: QuadTree<u32> = QuadTree::new(bounds, 4);
    tree.insert(1, Point { x: 101, y: 0 });
    tree.insert(2, Point { x: 0, y: -101 });
    tree.insert(3, Point { x: 200, y: 200 });
    assert!(tree.query(&bounds).is_empty());
    assert!(tree.query(&everything).is_empty());
    tree.insert(4, Point { x: 100, y: -100 });
    assert_eq!(found(&tree, &bounds), vec![4]);
}

#[test]
fn the_same_item_twice_is_held_twice() {
    let bounds = Rectangle::new(0, 0, 200, 200, Rotation::new(0));
    let mut tree: QuadTree<u32> = QuadTree::new(bounds, 4);
    tree.insert(7, Point { x: 1, y: 1 });
    tree.insert(7, Point { x: 1, y: 1 });
    assert_eq!(found(&tree, &bounds), vec![7, 7]);
}

#[test]
fn a_full_node_keeps_its_entries_and_sends_the_next_down() {
    let bounds = Rectangle::new(0, 0, 200, 200, Rotation::new(0));
    let mut tree: QuadTree<u32> = QuadTree::new(bounds, 2);
    tree.insert(1, Point { x: -50, y: -50 }); // top left, stays in the root
    tree.insert(2, Point { x: 50, y: 50 }); // bottom right, stays in the root
    tree.insert(3, Point { x: -60, y: 60 }); // goes to the bottom left child
    tree.insert(4, Point { x: 60, y: -60 }); // goes to the top right child
    tree.insert(5, Point { x: -70, y: -70 }); // goes to the top left child
    tree.insert(6, Point { x: 70, y: 70 }); // goes to the bottom right child
    // the root first, then top right, bottom right, bottom left, top left
    assert_eq!(found(&tree, &bounds), vec![1, 2, 4, 6, 3, 5]);
    // a region over the bottom right quadrant: its corner at the centre lies
    // in no other quadrant's interior, and the centre of the bounds is a
    // corner of every child
    let bottom_right = Rectangle::new(50, 50, 100, 100, Rotation::new(0));
    assert_eq!(found(&tree, &bottom_right), vec![2, 6]);
}

#[test]
fn a_point_on_the_middle_lines_goes_to_the_first_quadrant_that_holds_it() {
    let bounds = Rectangle::new(0, 0, 200, 200, Rotation::new(0));
    let mut tree: QuadTree<u32> = QuadTree::new(bounds, 0);
    tree.insert(1, Point { x: 0, y: 0 });
    // with no room in any node the entry goes down to a cell that cannot be
    // cut, always through the top right quadrant while that holds the point
    let top_right = quadrant_of(&bounds, Quadrant::TopRight);
    assert_eq!(found(&tree, &top_right), vec![1]);
    let top_left_only = Rectangle::new(-60, -60, 100, 100, Rotation::new(0));
    assert_eq!(found(&tree, &top_left_only), Vec::<u32>::new());
}

#[test]
fn capacity_zero_stores_in_cells_that_cannot_be_cut() {
    let bounds = Rectangle::new(0, 0, 64, 64, Rotation::new(0));
    let mut tree: QuadTree<u32> = QuadTree::new(bounds, 0);
    for (item, x, y) in [(1u32, -32i64, -32i64), (2, 32, 32), (3, 5, -7), (4, 5, -7), (5, 0, 0)] {
        tree.insert(item, Point { x, y });
    }
    assert_eq!(sorted(found(&tree, &bounds)), vec![1, 2, 3, 4, 5]);
}

#[test]
fn many_entries_at_one_point_end_in_one_cell() {
    let bounds = Rectangle::new(0, 0, 1000, 1000, Rotation::new(0));
    let mut tree: QuadTree<u32> = QuadTree::new(bounds, 1);
    for item in 0..200 {
        tree.insert(item, Point { x: 333, y: -444 });
    }
    assert_eq!(sorted(found(&tree, &bounds)), (0..200).collect::<Vec<u32>>());
}

#[test]
fn a_cell_of_one_point_takes_any_number_of_entries() {
    let bounds = Rectangle::new(5, 5, 0, 0, Rotation::new(0));
    assert!(!splittable(&bounds));
    let mut tree: QuadTree<u32> = QuadTree::new(bounds, 1);
    for item in 0..10 {
        tree.insert(item, Point { x: 5, y: 5 });
        tree.insert(100 + item, Point { x: 5, y: 6 });
    }
    assert_eq!(found(&tree, &bounds), (0..10).collect::<Vec<u32>>());
}

#[test]
fn query_for_a_disjoint_region_is_empty() {
    let bounds = Rectangle::new(0, 0, 200, 200, Rotation::new(0));
    let mut tree: QuadTree<u32> = QuadTree::new(bounds, 2);
    let mut item = 0;
    for x in [-100i64, -50, 0, 50, 100] {
        for y in [-100i64, -50, 0, 50, 100] {
            tree.insert(item, Point { x, y });
            item += 1;
        }
    }
    assert_eq!(found(&tree, &bounds).len(), 25);
    for region in [
        Rectangle::new(301, 0, 400, 400, Rotation::new(0)),
        Rectangle::new(0, -400, 100, 100, Rotation::new(0)),
        Rectangle::new(1000, 1000, 10, 10, Rotation::new(45)),
        Rectangle::new(-151, -151, 100, 100, Rotation::new(0)),
    ] {
        assert!(tree.query(&region).is_empty());
    }
}

#[test]
fn query_twice_gives_the_same() {
    let bounds = Rectangle::new(0, 0, 200, 200, Rotation::new(0));
    let mut tree: QuadTree<u32> = QuadTree::new(bounds, 3);
    let mut item = 0;
    for x in [-100i64, -37, 0, 12, 100] {
        for y in [-100i64, -50, 3, 50, 99] {
            tree.insert(item, Point { x, y });
            item += 1;
        }
    }
    for region in [
        bounds,
        Rectangle::new(50, 50, 100, 100, Rotation::new(0)),
        Rectangle::new(0, 0, 150, 150, Rotation::new(45)),
        Rectangle::new(100, 100, 50, 50, Rotation::new(0)),
    ] {
        let first = found(&tree, &region);
        let second = found(&tree, &region);
        assert_eq!(first, second);
    }
}

#[test]
fn query_returns_only_what_the_region_holds() {
    let bounds = Rectangle::new(0, 0, 200, 200, Rotation::new(0));
    let mut tree: QuadTree<u32> = QuadTree::new(bounds, 4);
    tree.insert(1, Point { x: 10, y: 10 });
    tree.insert(2, Point { x: 90, y: 90 });
    tree.insert(3, Point { x: -90, y: 90 });
    // the region reaches the bottom right corner of the bounds
    let region = Rectangle::new(100, 100, 60, 60, Rotation::new(0));
    assert_eq!(found(&tree, &region), vec![2]);
}

#[test]
fn a_region_that_holds_no_corner_of_the_bounds_finds_nothing() {
    let bounds = Rectangle::new(0, 0, 200, 200, Rotation::new(0));
    let mut tree: QuadTree<u32> = QuadTree::new(bounds, 4);
    tree.insert(1, Point { x: 10, y: 10 });
    // the region holds the point, but none of the four corners of the bounds
    let region = Rectangle::new(0, 0, 50, 50, Rotation::new(0));
    assert!(region.contains(&Point { x: 10, y: 10 }));
    assert!(tree.query(&region).is_empty());
}

#[test]
fn quadrants_share_the_middle_lines_and_the_rotation() {
    let bounds = Rectangle::new(0, 0, 200, 100, Rotation::new(30));
    let top_right = quadrant_of(&bounds, Quadrant::TopRight);
    assert_eq!(top_right, Rectangle::new(50, -25, 100, 50, Rotation::new(30)));
    let bottom_right = quadrant_of(&bounds, Quadrant::BottomRight);
    assert_eq!(bottom_right, Rectangle::new(50, 25, 100, 50, Rotation::new(30)));
    let bottom_left = quadrant_of(&bounds, Quadrant::BottomLeft);
    assert_eq!(bottom_left, Rectangle::new(-50, 25, 100, 50, Rotation::new(30)));
    let top_left = quadrant_of(&bounds, Quadrant::TopLeft);
    assert_eq!(top_left, Rectangle::new(-50, -25, 100, 50, Rotation::new(30)));
}

#[test]
fn quadrants_of_a_cell_with_odd_sides_leave_no_gap() {
    let bounds = Rectangle::new(0, 0, 10, 6, Rotation::new(0));
    // the cell spans -5..=5 and -3..=3; the middle of each is rounded down
    let top_right = quadrant_of(&bounds, Quadrant::TopRight);
    assert_eq!(top_right.top_left, Point { x: 0, y: -3 });
    assert_eq!(top_right.bottom_right, Point { x: 5, y: 0 });
    let odd = Rectangle::new(0, 0, 6, 6, Rotation::new(0));
    let shifted = Rectangle {
        top_right: Point { x: 4, y: -3 },
        bottom_right: Point { x: 4, y: 3 },
        ..odd
    };
    // the cell spans -3..=4: the middle is 0, rounded down from a half
    let left = quadrant_of(&shifted, Quadrant::TopLeft);
    let right = quadrant_of(&shifted, Quadrant::TopRight);
    assert_eq!(left.top_left.x, -3);
    assert_eq!(left.top_right.x, 0);
    assert_eq!(right.top_left.x, 0);
    assert_eq!(right.top_right.x, 4);
    for x in -3..=4 {
        let point = Point { x, y: -1 };
        assert!(left.contains(&point) || right.contains(&point));
    }
}

#[test]
fn splittable_asks_for_a_side_of_two() {
    assert!(splittable(&Rectangle::new(0, 0, 2, 0, Rotation::new(0))));
    assert!(splittable(&Rectangle::new(0, 0, 0, 2, Rotation::new(0))));
    assert!(!splittable(&Rectangle::new(0, 0, 1, 1, Rotation::new(0))));
    assert!(!splittable(&Rectangle::new(0, 0, 0, 0, Rotation::new(0))));
    assert!(!splittable(&Rectangle::new(0, 0, -10, 10, Rotation::new(0))));
    let narrow = Rectangle {
        top_right: Point { x: 1, y: 0 },
        bottom_right: Point { x: 1, y: 1 },
        bottom_left: Point { x: 0, y: 1 },
        top_left: Point { x: 0, y: 0 },
        ..Rectangle::new(0, 0, 1, 1, Rotation::new(0))
    };
    assert!(!splittable(&narrow));
}

#[test]
fn rotated_tree_keeps_what_its_bounds_hold() {
    let bounds = Rectangle::new(0, 0, 200, 200, Rotation::new(45));
    let mut tree: QuadTree<u32> = QuadTree::new(bounds, 1);
    let mut expected = Vec::new();
    let mut item = 0;
    for x in [-140i64, -100, -30, 0, 30, 100, 140] {
        for y in [-140i64, -100, -30, 0, 30, 100, 140] {
            let position = Point { x, y };
            tree.insert(item, position);
            if bounds.contains(&position) {
                expected.push(item);
            }
            item += 1;
        }
    }
    assert!(expected.len() > 10 && expected.len() < 49);
    // a region of no rotation that the corners of every cell, turned by 45
    // degrees and held against it, fall into
    let everything = Rectangle::new(0, 0, 1000, 1000, Rotation::new(0));
    let all: Vec<u32> = sorted(found(&tree, &everything));
    assert_eq!(all, expected);
}

#[test]
fn entity_ids_are_random_and_of_version_four() {
    let position = Point { x: 1, y: 2 };
    let first = Entity::new(position);
    let second = Entity::new(position);
    assert_eq!(first.position, position);
    assert_eq!(second.position, position);
    assert_ne!(first.id, second.id);
    for entity in [first, second] {
        assert_eq!((entity.id >> 76) & 0xf, 4);
        assert_eq!((entity.id >> 62) & 0x3, 2);
    }
}
