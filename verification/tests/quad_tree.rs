use platformer_core::physics::quad_tree::{QuadTree, Volume, MAX_LEVELS, MAX_OBJECTS};
use platformer_core::physics::systems::CollisionSystem;
use specs::world::EntitiesRes;
use specs::Entity;

fn entities(n: usize) -> Vec<Entity> {
    let store = EntitiesRes::default();
    let mut out = vec![];
    for _ in 0..n {
        out.push(store.create());
    }
    out
}

// Boxes in rows across the area, some of them across the centre lines, some
// of them one upon the other, some of them outside the area.
fn boxes(n: usize) -> Vec<Volume> {
    let mut out = vec![];
    for i in 0..n {
        let k = i as i64;
        let x = (k * 37) % 1000 - 100;
        let y = (k * 91) % 1000 - 100;
        let w = (k * 13 % 90) as u64;
        let h = (k * 7 % 120) as u64;
        out.push(Volume::new(x, y, w, h));
    }
    out
}

#[test]
fn the_limits_are_ten_objects_and_five_levels() {
    assert_eq!(MAX_OBJECTS, 10);
    assert_eq!(MAX_LEVELS, 5);
}

#[test]
fn boxes_that_touch_intersect() {
    let a = Volume::new(0, 0, 10, 10);
    assert!(a.intersects(&a));
    assert!(a.intersects(&Volume::new(10, 10, 5, 5)));
    assert!(a.intersects(&Volume::new(-5, -5, 5, 5)));
    assert!(a.intersects(&Volume::new(3, 3, 1, 1)));
    assert!(Volume::new(3, 3, 1, 1).intersects(&a));
    assert!(!a.intersects(&Volume::new(11, 0, 5, 5)));
    assert!(!a.intersects(&Volume::new(0, 11, 5, 5)));
    assert!(!a.intersects(&Volume::new(-6, 0, 5, 5)));
    assert!(!a.intersects(&Volume::new(0, -6, 5, 5)));
    // A box without extent is a point.
    assert!(a.intersects(&Volume::new(10, 0, 0, 0)));
}

#[test]
fn boxes_at_the_ends_of_the_range_do_not_overflow() {
    let low = Volume::new(i64::MIN, i64::MIN, 0, 0);
    let high = Volume::new(i64::MAX, i64::MAX, u64::MAX, u64::MAX);
    let all = Volume::new(i64::MIN, i64::MIN, u64::MAX, u64::MAX);
    assert!(!low.intersects(&high));
    assert!(!high.intersects(&low));
    assert!(all.intersects(&low));
    assert!(all.intersects(&high));
    assert!(all.intersects(&Volume::new(0, 0, 1, 1)));
}

#[test]
fn an_empty_tree_gives_nothing() {
    let tree = QuadTree::new(Volume::new(0, 0, 100, 100));
    assert!(tree.retrieve(Volume::new(0, 0, 100, 100)).is_empty());
}

#[test]
fn a_small_tree_gives_all_it_holds_in_order() {
    let es = entities(3);
    let mut tree = QuadTree::new(Volume::new(0, 0, 100, 100));
    let vs = [Volume::new(1, 1, 2, 2), Volume::new(90, 90, 5, 5), Volume::new(40, 40, 20, 20)];
    for i in 0..3 {
        tree.insert(es[i], vs[i]);
    }
    let found = tree.retrieve(Volume::new(1, 1, 1, 1));
    assert_eq!(found, vec![(es[0], vs[0]), (es[1], vs[1]), (es[2], vs[2])]);
}

#[test]
fn a_split_tree_leaves_out_other_quarters() {
    let es = entities(12);
    let mut tree = QuadTree::new(Volume::new(0, 0, 100, 100));
    // Eleven boxes in the quarter of least x and y, one in the opposite one.
    for i in 0..11 {
        tree.insert(es[i], Volume::new(i as i64, i as i64, 2, 2));
    }
    tree.insert(es[11], Volume::new(80, 80, 5, 5));
    let near = tree.retrieve(Volume::new(0, 0, 30, 30));
    assert_eq!(near.len(), 11);
    assert!(!near.contains(&(es[11], Volume::new(80, 80, 5, 5))));
    let far = tree.retrieve(Volume::new(70, 70, 20, 20));
    assert_eq!(far, vec![(es[11], Volume::new(80, 80, 5, 5))]);
    // A box across the centre lines is looked up in every quarter.
    let across = tree.retrieve(Volume::new(5, 5, 80, 80));
    assert_eq!(across.len(), 12);
    // Deeper down the quarters get smaller: a box near the centre is clear of
    // the boxes in the corner.
    let centre = tree.retrieve(Volume::new(40, 40, 20, 20));
    assert_eq!(centre, vec![(es[11], Volume::new(80, 80, 5, 5))]);
}

#[test]
fn no_overlapping_box_is_missed() {
    let n = 400;
    let es = entities(n);
    let vs = boxes(n);
    let mut tree = QuadTree::new(Volume::new(0, 0, 800, 800));
    for i in 0..n {
        tree.insert(es[i], vs[i]);
    }
    for i in 0..n {
        let found = tree.retrieve(vs[i]);
        for j in 0..n {
            if vs[i].intersects(&vs[j]) {
                assert!(found.contains(&(es[j], vs[j])), "{} misses {}", i, j);
            }
        }
        for item in found.iter() {
            let k = es.iter().position(|e| *e == item.0).unwrap();
            assert_eq!(item.1, vs[k]);
        }
    }
}

#[test]
fn every_box_is_found_once() {
    let n = 200;
    let es = entities(n);
    let vs = boxes(n);
    let mut tree = QuadTree::new(Volume::new(0, 0, 800, 800));
    for i in 0..n {
        tree.insert(es[i], vs[i]);
    }
    let all = tree.retrieve(Volume::new(-1000, -1000, 3000, 3000));
    assert_eq!(all.len(), n);
    for i in 0..n {
        assert_eq!(all.iter().filter(|item| item.0 == es[i]).count(), 1);
    }
}

#[test]
fn many_boxes_in_one_place_stop_splitting_at_the_deepest_level() {
    let n = 100;
    let es = entities(n);
    let mut tree = QuadTree::new(Volume::new(0, 0, 1024, 1024));
    for i in 0..n {
        tree.insert(es[i], Volume::new(1, 1, 2, 2));
    }
    assert_eq!(tree.retrieve(Volume::new(1, 1, 2, 2)).len(), n);
    assert_eq!(tree.retrieve(Volume::new(900, 900, 2, 2)).len(), 0);
}

#[test]
fn a_tree_over_the_whole_range_works() {
    let es = entities(30);
    let mut tree = QuadTree::new(Volume::new(i64::MIN, i64::MIN, u64::MAX, u64::MAX));
    for i in 0..30 {
        let k = i as i64;
        tree.insert(es[i], Volume::new(i64::MAX - k, i64::MIN + k, u64::MAX, 3));
    }
    tree.insert(es[0], Volume::new(i64::MIN, i64::MAX, 0, u64::MAX));
    let found = tree.retrieve(Volume::new(i64::MAX - 5, i64::MIN, 1, 1));
    assert!(found.contains(&(es[0], Volume::new(i64::MAX, i64::MIN, u64::MAX, 3))));
    assert!(found.contains(&(es[5], Volume::new(i64::MAX - 5, i64::MIN + 5, u64::MAX, 3))));
}

#[test]
fn build_holds_every_item() {
    let n = 50;
    let es = entities(n);
    let vs = boxes(n);
    let mut items = vec![];
    for i in 0..n {
        items.push((es[i], vs[i]));
    }
    let tree = CollisionSystem::build(Volume::new(0, 0, 800, 800), &items);
    let all = tree.retrieve(Volume::new(-1000, -1000, 3000, 3000));
    assert_eq!(all.len(), n);
    for item in items.iter() {
        assert!(all.contains(item));
    }
}

#[test]
fn an_entity_meets_the_others_that_overlap_it() {
    let es = entities(4);
    let items = vec![
        (es[0], Volume::new(0, 0, 10, 10)),
        (es[1], Volume::new(5, 5, 10, 10)),
        (es[2], Volume::new(50, 50, 10, 10)),
        (es[3], Volume::new(10, 0, 3, 3)),
    ];
    let tree = CollisionSystem::build(Volume::new(0, 0, 100, 100), &items);
    let met = CollisionSystem::colliding(&tree, es[0], items[0].1);
    assert_eq!(met, vec![items[1], items[3]]);
    let met = CollisionSystem::colliding(&tree, es[2], items[2].1);
    assert!(met.is_empty());
    let met = CollisionSystem::colliding(&tree, es[1], items[1].1);
    assert_eq!(met, vec![items[0]]);
    let met = CollisionSystem::colliding(&tree, es[3], items[3].1);
    assert_eq!(met, vec![items[0]]);
}

#[test]
fn an_entity_does_not_meet_itself() {
    let es = entities(2);
    // Two entities with the same box.
    let items = vec![(es[0], Volume::new(0, 0, 10, 10)), (es[1], Volume::new(0, 0, 10, 10))];
    let tree = CollisionSystem::build(Volume::new(0, 0, 100, 100), &items);
    assert_eq!(CollisionSystem::colliding(&tree, es[0], items[0].1), vec![items[1]]);
    assert_eq!(CollisionSystem::colliding(&tree, es[1], items[1].1), vec![items[0]]);
}

#[test]
fn the_area_decides_what_a_search_leaves_out() {
    let es = entities(12);
    let far = (es[11], Volume::new(80, 80, 5, 5));
    let mut small = QuadTree::new(Volume::new(0, 0, 100, 100));
    let mut large = QuadTree::new(Volume::new(0, 0, 1000, 1000));
    for i in 0..11 {
        small.insert(es[i], Volume::new(i as i64, i as i64, 2, 2));
        large.insert(es[i], Volume::new(i as i64, i as i64, 2, 2));
    }
    small.insert(far.0, far.1);
    large.insert(far.0, far.1);
    // Over the small area the box to look for lies across the centre lines,
    // and the far box, in a quarter of its own, is a candidate. Over the
    // large area both lie in one quarter, and further down they are parted.
    let rect = Volume::new(40, 40, 20, 20);
    assert_eq!(small.retrieve(rect), vec![far]);
    assert_eq!(large.retrieve(rect), vec![]);
    // Ten boxes do not part a tree, whatever its area: all are candidates.
    let mut whole = QuadTree::new(Volume::new(0, 0, 100, 100));
    for i in 0..10 {
        whole.insert(es[i], Volume::new(i as i64 * 10, i as i64 * 10, 2, 2));
    }
    assert_eq!(whole.retrieve(Volume::new(0, 0, 1, 1)).len(), 10);
    // The eleventh parts it: five boxes lie in the quarter that is searched,
    // and the one at the centre lies in none and stays a candidate.
    whole.insert(es[10], Volume::new(95, 95, 2, 2));
    assert_eq!(whole.retrieve(Volume::new(0, 0, 1, 1)).len(), 6);
}
