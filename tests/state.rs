use ag::layout_node::LayoutWord;
use ag::state::Action;
use ag::{Configuration, Node, Point, Size, State, UNIT};

fn pt(x: i32, y: i32) -> Point {
    Point::from_units(x, y)
}

#[test]
fn new_state_has_node_zero() {
    let (state, node) = State::new(pt(0, 0), "a");
    assert_eq!(node, Node::new(0));
    assert_eq!(state.len(), 1);
    assert_eq!(state.get(&node), Some(&"a"));
    assert_eq!(state.internal().position(node), Some(pt(0, 0)));
}

#[test]
fn with_configuration_starts_at_origin() {
    let state = State::with_configuration(Configuration::Node(7u32));
    assert_eq!(state.len(), 1);
    assert_eq!(state.get(&Node::new(0)), Some(&7));
    assert_eq!(state.internal().position(Node::new(0)), Some(Point::new(0, 0)));
}

#[test]
fn inserted_ids_strictly_increase() {
    let (mut state, first) = State::new(pt(0, 0), 0u32);
    let mut last = first.id;
    for k in 1..6u32 {
        let n = state.insert(pt(k as i32 * 10, 0), k).unwrap();
        assert!(n.id > last);
        last = n.id;
        assert_eq!(state.get(&n), Some(&k));
    }
    assert_eq!(state.len(), 6);
    assert_eq!(last, 5);
}

#[test]
fn get_of_unknown_node_is_none() {
    let (mut state, _) = State::new(pt(0, 0), 1u8);
    assert_eq!(state.get(&Node::new(3)), None);
    assert!(state.get_mut(&Node::new(3)).is_none());
}

#[test]
fn get_mut_changes_the_payload() {
    let (mut state, node) = State::new(pt(0, 0), 1u8);
    *state.get_mut(&node).unwrap() = 9;
    assert_eq!(state.get(&node), Some(&9));
}

#[test]
fn translate_clamps_at_zero() {
    let (mut state, node) = State::new(pt(10, 10), ());
    let prev = state.translate(node, pt(-50, -3));
    assert_eq!(prev, Some(pt(10, 10)));
    assert_eq!(state.internal().position(node), Some(pt(0, 7)));
}

#[test]
fn translate_adds_the_offset() {
    let (mut state, node) = State::new(pt(1, 2), ());
    assert_eq!(state.translate(node, pt(3, 4)), Some(pt(1, 2)));
    assert_eq!(state.internal().position(node), Some(pt(4, 6)));
}

#[test]
fn translate_saturates_at_the_largest_coordinate() {
    let (mut state, node) = State::new(Point::new(i64::MAX - 1, 0), ());
    state.translate(node, Point::new(10, i64::MIN));
    assert_eq!(state.internal().position(node), Some(Point::new(i64::MAX, 0)));
}

#[test]
fn translate_of_unknown_node_changes_nothing() {
    let (mut state, _) = State::new(pt(5, 5), ());
    let before = state.internal().hash_layout();
    assert_eq!(state.translate(Node::new(1), pt(1, 1)), None);
    assert_eq!(state.internal().hash_layout(), before);
    assert_eq!(state.len(), 1);
}

#[test]
fn pick_then_idle() {
    let (mut state, node) = State::new(pt(0, 0), ());
    let (internal, _) = state.parts_mut();
    assert_eq!(internal.picked_node(), None);
    internal.pick_node(&node, pt(5, 5), pt(10, 10));
    assert_eq!(internal.picked_node(), Some((node, pt(5, 5), pt(10, 10))));
    internal.pick_node(&Node::new(4), pt(1, 1), pt(2, 2));
    assert_eq!(internal.picked_node(), Some((Node::new(4), pt(1, 1), pt(2, 2))));
    internal.idle();
    assert_eq!(internal.picked_node(), None);
    let _ = Action::Idle;
}

#[test]
fn positions_lists_nodes_in_order() {
    let (mut state, a) = State::new(pt(0, 0), ());
    let b = state.insert(pt(400, 0), ()).unwrap();
    assert_eq!(state.internal().positions(), vec![(a, pt(0, 0)), (b, pt(400, 0))]);
}

#[test]
fn node_regions_cover_the_whole_area() {
    let (mut state, a) = State::new(pt(3, 3), ());
    let b = state.insert(pt(400, 0), ()).unwrap();
    let size = Size::new(900 * UNIT, 700 * UNIT);
    let r = state.internal().node_regions(0, size);
    assert_eq!(r.len(), 2);
    assert_eq!(r[0].0, a);
    assert_eq!(r[1].0, b);
    assert_eq!(r[1].1.width, 900 * UNIT);
    assert_eq!(r[1].1.height, 700 * UNIT);
    assert_eq!((r[1].1.x, r[1].1.y), (0, 0));
}

#[test]
fn hash_layout_words_are_exact() {
    let (mut state, _) = State::new(Point::new(1, 2), ());
    state.insert(Point::new(3, 4), ()).unwrap();
    assert_eq!(
        state.internal().hash_layout(),
        vec![
            LayoutWord::Index(0),
            LayoutWord::Index(1),
            LayoutWord::Index(0),
            LayoutWord::Coord(1),
            LayoutWord::Coord(2),
            LayoutWord::Index(1),
            LayoutWord::Coord(3),
            LayoutWord::Coord(4),
        ]
    );
}

#[test]
fn hash_layout_is_stable_and_tracks_moves() {
    let (mut state, node) = State::new(pt(10, 10), ());
    state.insert(pt(400, 0), ()).unwrap();
    let first = state.internal().hash_layout();
    assert_eq!(state.internal().hash_layout(), first);
    // one step is 1 / UNIT of a layout unit: moving by it changes the words
    state.translate(node, Point::new(1, 0));
    let moved = state.internal().hash_layout();
    assert_ne!(moved, first);
    // moving by nothing keeps them
    state.translate(node, Point::new(0, 0));
    assert_eq!(state.internal().hash_layout(), moved);
}

#[test]
fn insert_changes_the_hash_layout() {
    let (mut state, _) = State::new(pt(0, 0), ());
    let before = state.internal().hash_layout();
    state.insert(pt(0, 0), ()).unwrap();
    assert_ne!(state.internal().hash_layout(), before);
}
