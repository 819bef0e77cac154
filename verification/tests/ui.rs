use foxiefox::ui::{button_step, PointerEvent, TreeWalk};

// Walks a tree given as child lists, the way the UI does, and returns the
// visits as (node, depth) pairs.
fn walk(root_children: Vec<u64>, children_of: &dyn Fn(u64) -> Vec<u64>) -> Vec<(u64, usize)> {
    let mut walk = TreeWalk::new(root_children);
    let mut visits = Vec::new();
    while let Some((node, depth)) = walk.next() {
        visits.push((node, depth));
        walk.descend(children_of(node));
    }
    visits
}

#[test]
fn walk_visits_depth_first_in_order() {
    // 1 has 10 and 11; 10 has 100; 2 is a leaf
    let children_of = |n: u64| match n {
        1 => vec![10, 11],
        10 => vec![100],
        _ => vec![],
    };
    let visits = walk(vec![1, 2], &children_of);
    assert_eq!(visits, vec![(1, 0), (10, 1), (100, 2), (11, 1), (2, 0)]);
}

#[test]
fn walk_of_leaf_root_is_empty() {
    let mut walk = TreeWalk::new(Vec::new());
    assert_eq!(walk.next(), None);
    assert_eq!(walk.next(), None);
}

#[test]
fn walk_child_comes_right_after_parent() {
    let mut walk = TreeWalk::new(vec![5, 6]);
    assert_eq!(walk.next(), Some((5, 0)));
    walk.descend(vec![50, 51]);
    assert_eq!(walk.next(), Some((50, 1)));
    walk.descend(vec![]);
    assert_eq!(walk.next(), Some((51, 1)));
    walk.descend(vec![]);
    assert_eq!(walk.next(), Some((6, 0)));
    walk.descend(vec![]);
    assert_eq!(walk.next(), None);
}

#[test]
fn walk_stopped_early_keeps_rest() {
    // Stopping is the caller's: it simply stops asking.
    let mut walk = TreeWalk::new(vec![1, 2, 3]);
    assert_eq!(walk.next(), Some((1, 0)));
    walk.descend(vec![]);
    assert_eq!(walk.next(), Some((2, 0)));
}

#[test]
fn button_press_inside_holds_down() {
    assert_eq!(button_step(false, PointerEvent::Down { inside: true }), (true, false));
    assert_eq!(button_step(false, PointerEvent::Down { inside: false }), (false, false));
    assert_eq!(button_step(true, PointerEvent::Down { inside: false }), (true, false));
}

#[test]
fn button_release_inside_clicks() {
    assert_eq!(button_step(true, PointerEvent::Up { inside: true }), (false, true));
    // A release inside clicks even without a press before it.
    assert_eq!(button_step(false, PointerEvent::Up { inside: true }), (false, true));
    assert_eq!(button_step(true, PointerEvent::Up { inside: false }), (false, false));
}

#[test]
fn button_ignores_other_events() {
    assert_eq!(button_step(true, PointerEvent::Other), (true, false));
    assert_eq!(button_step(false, PointerEvent::Other), (false, false));
}
