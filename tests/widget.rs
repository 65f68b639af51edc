use ag::audio_graph::{
    connector, draw_plan, Child, EventOutcome, MouseButton, PointerEvent, Status, NODE_EXTENT,
};
use ag::{AudioGraph, DragEvent, Length, Node, Output, Point, Rectangle, State, UNIT};

fn pt(x: i32, y: i32) -> Point {
    Point::from_units(x, y)
}

fn rect(x: i32, y: i32, w: i32, h: i32) -> Rectangle {
    Rectangle::new(x as i64 * UNIT, y as i64 * UNIT, w as i64 * UNIT, h as i64 * UNIT)
}

fn children_of(state: &State<()>, graph: &AudioGraph, pickable: bool) -> Vec<Child> {
    let nodes: Vec<Node> = state.internal().positions().iter().map(|(n, _)| *n).collect();
    graph
        .layout_regions(state.internal(), &nodes)
        .into_iter()
        .map(|(node, bounds)| Child { node, bounds, pickable })
        .collect()
}

#[test]
fn drop_reports_the_cursor_move_since_the_pick() {
    let (mut state, n0) = State::new(pt(0, 0), ());
    let n1 = state.insert(pt(400, 0), ()).unwrap();
    assert_eq!(n1, Node::new(1));
    let graph = AudioGraph::new().on_drag();
    let children = children_of(&state, &graph, true);
    let (internal, _) = state.parts_mut();
    internal.pick_node(&n0, pt(5, 5), pt(10, 10));
    let mut messages = Vec::new();
    let outcome = graph.on_event(
        internal,
        PointerEvent::ButtonReleased(MouseButton::Left),
        rect(0, 0, 1000, 1000),
        &children,
        pt(20, 5),
        &mut messages,
    );
    assert_eq!(messages, vec![Output::Dragged(DragEvent::Dropped { node: n0, diff: pt(10, -5) })]);
    assert_eq!(outcome, EventOutcome { status: Status::Captured, forward: true });
    assert_eq!(internal.picked_node(), None);
}

#[test]
fn drop_diff_is_taken_from_the_pick_cursor() {
    // picked at cursor (5,5), released at (20,5): moved by (15,0)
    let (mut state, n0) = State::new(pt(0, 0), ());
    state.insert(pt(400, 0), ()).unwrap();
    let graph = AudioGraph::new().on_drag();
    let (internal, _) = state.parts_mut();
    internal.pick_node(&n0, pt(5, 5), pt(5, 5));
    let mut messages = Vec::new();
    graph.on_event(
        internal,
        PointerEvent::ButtonReleased(MouseButton::Left),
        rect(0, 0, 1000, 1000),
        &Vec::new(),
        pt(20, 5),
        &mut messages,
    );
    assert_eq!(messages, vec![Output::Dragged(DragEvent::Dropped { node: n0, diff: pt(15, 0) })]);
    assert_eq!(internal.picked_node(), None);
}

#[test]
fn press_without_handlers_emits_nothing() {
    let (mut state, _) = State::new(pt(0, 0), ());
    state.insert(pt(400, 0), ()).unwrap();
    let graph = AudioGraph::new();
    let children = children_of(&state, &graph, true);
    let before = state.internal().hash_layout();
    let (internal, _) = state.parts_mut();
    let mut messages = Vec::new();
    let outcome = graph.on_event(
        internal,
        PointerEvent::ButtonPressed(MouseButton::Left),
        rect(0, 0, 1000, 1000),
        &children,
        pt(450, 50),
        &mut messages,
    );
    assert!(messages.is_empty());
    assert_eq!(outcome, EventOutcome { status: Status::Captured, forward: true });
    assert_eq!(internal.picked_node(), None);
    assert_eq!(state.internal().hash_layout(), before);
}

#[test]
fn press_on_a_node_clicks_and_picks_it() {
    let (mut state, _) = State::new(pt(0, 0), ());
    let n1 = state.insert(pt(400, 0), ()).unwrap();
    let graph = AudioGraph::new().on_click().on_drag();
    let children = children_of(&state, &graph, true);
    let (internal, _) = state.parts_mut();
    let mut messages = Vec::new();
    let outcome = graph.on_event(
        internal,
        PointerEvent::ButtonPressed(MouseButton::Left),
        rect(0, 0, 1000, 1000),
        &children,
        pt(450, 50),
        &mut messages,
    );
    assert_eq!(
        messages,
        vec![Output::Clicked(n1), Output::Dragged(DragEvent::Picked { node: n1 })]
    );
    assert_eq!(outcome, EventOutcome { status: Status::Captured, forward: false });
    assert_eq!(internal.picked_node(), Some((n1, pt(50, 50), pt(450, 50))));
}

#[test]
fn press_where_the_node_cannot_be_picked_only_clicks() {
    let (mut state, n0) = State::new(pt(0, 0), ());
    let graph = AudioGraph::new().on_click().on_drag();
    let children = children_of(&state, &graph, false);
    let (internal, _) = state.parts_mut();
    let mut messages = Vec::new();
    graph.click_node(internal, &children, pt(1, 1), &mut messages);
    assert_eq!(messages, vec![Output::Clicked(n0)]);
    assert_eq!(internal.picked_node(), None);
}

#[test]
fn press_outside_the_widget_is_ignored() {
    let (mut state, _) = State::new(pt(0, 0), ());
    let graph = AudioGraph::new().on_click();
    let children = children_of(&state, &graph, true);
    let (internal, _) = state.parts_mut();
    let mut messages = Vec::new();
    let outcome = graph.on_event(
        internal,
        PointerEvent::ButtonPressed(MouseButton::Left),
        rect(0, 0, 100, 100),
        &children,
        pt(200, 200),
        &mut messages,
    );
    assert!(messages.is_empty());
    assert_eq!(outcome, EventOutcome { status: Status::Ignored, forward: true });
}

#[test]
fn events_during_a_drag_are_captured() {
    let (mut state, n0) = State::new(pt(0, 0), ());
    let graph = AudioGraph::new().on_drag();
    let (internal, _) = state.parts_mut();
    internal.pick_node(&n0, pt(0, 0), pt(1, 1));
    let mut messages = Vec::new();
    let outcome = graph.on_event(
        internal,
        PointerEvent::CursorMoved,
        rect(0, 0, 100, 100),
        &Vec::new(),
        pt(5, 5),
        &mut messages,
    );
    assert!(messages.is_empty());
    assert_eq!(outcome, EventOutcome { status: Status::Captured, forward: false });
    let outcome = graph.on_event(
        internal,
        PointerEvent::ButtonPressed(MouseButton::Right),
        rect(0, 0, 100, 100),
        &Vec::new(),
        pt(5, 5),
        &mut messages,
    );
    assert_eq!(outcome, EventOutcome { status: Status::Captured, forward: false });
}

#[test]
fn release_without_a_drag_is_ignored() {
    let (mut state, _) = State::new(pt(0, 0), ());
    let graph = AudioGraph::new().on_drag();
    let (internal, _) = state.parts_mut();
    let mut messages = Vec::new();
    let outcome = graph.on_event(
        internal,
        PointerEvent::ButtonReleased(MouseButton::Left),
        rect(0, 0, 100, 100),
        &Vec::new(),
        pt(5, 5),
        &mut messages,
    );
    assert!(messages.is_empty());
    assert_eq!(outcome, EventOutcome { status: Status::Ignored, forward: true });
}

#[test]
fn first_node_under_the_cursor_wins() {
    let (mut state, n0) = State::new(pt(0, 0), ());
    state.insert(pt(100, 100), ()).unwrap();
    let graph = AudioGraph::new().on_click();
    let children = children_of(&state, &graph, true);
    let (internal, _) = state.parts_mut();
    let mut messages = Vec::new();
    graph.click_node(internal, &children, pt(150, 150), &mut messages);
    assert_eq!(messages, vec![Output::Clicked(n0)]);
}

#[test]
fn status_merge() {
    assert_eq!(Status::Ignored.merge(Status::Ignored), Status::Ignored);
    assert_eq!(Status::Ignored.merge(Status::Captured), Status::Captured);
    assert_eq!(Status::Captured.merge(Status::Ignored), Status::Captured);
}

#[test]
fn layout_gives_each_node_a_fixed_square() {
    let (mut state, n0) = State::new(pt(7, 8), ());
    let n1 = state.insert(pt(400, 0), ()).unwrap();
    let graph = AudioGraph::new();
    let r = graph.layout_regions(state.internal(), &vec![n1, Node::new(9), n0]);
    assert_eq!(
        r,
        vec![
            (n1, Rectangle::new(400 * UNIT, 0, NODE_EXTENT, NODE_EXTENT)),
            (n0, Rectangle::new(7 * UNIT, 8 * UNIT, NODE_EXTENT, NODE_EXTENT)),
        ]
    );
    assert_eq!(NODE_EXTENT, 300 * UNIT);
}

#[test]
fn builders_set_their_field() {
    let g = AudioGraph::new().width(Length::Units(5)).height(Length::Shrink).spacing(3);
    assert_eq!(g.get_width(), Length::Units(5));
    assert_eq!(g.get_height(), Length::Shrink);
}

#[test]
fn draw_plan_without_drag_keeps_order_and_clips() {
    let regions = vec![(Node::new(0), rect(0, 0, 300, 300)), (Node::new(1), rect(400, 0, 300, 300))];
    let plan = draw_plan(&regions, None, pt(0, 0));
    assert_eq!(plan.order, vec![0, 1]);
    assert!(plan.clip_to_widget);
    assert!(plan.dragged.is_none());
}

#[test]
fn draw_plan_draws_the_dragged_node_last() {
    let regions = vec![
        (Node::new(0), rect(0, 0, 300, 300)),
        (Node::new(1), rect(400, 0, 300, 300)),
        (Node::new(2), rect(800, 0, 300, 300)),
    ];
    let plan = draw_plan(&regions, Some((Node::new(0), pt(5, 5), pt(10, 10))), pt(50, 60));
    assert_eq!(plan.order, vec![1, 2, 0]);
    assert!(!plan.clip_to_widget);
    let f = plan.dragged.unwrap();
    assert_eq!(f.index, 0);
    assert_eq!(f.clip, Rectangle::new(45 * UNIT, 55 * UNIT, 300 * UNIT + UNIT / 2, 300 * UNIT + UNIT / 2));
    assert_eq!(f.translation, pt(45, 55));
}

#[test]
fn connector_follows_the_drag() {
    let regions = vec![(Node::new(0), rect(0, 0, 300, 300)), (Node::new(1), rect(400, 0, 300, 300))];
    let still = draw_plan(&regions, None, pt(0, 0));
    let c = connector(&regions, &still).unwrap();
    assert_eq!(c.from, pt(700, 0));
    assert_eq!(c.control, pt(780, 90));
    assert_eq!(c.to, pt(0, 0));
    let moving = draw_plan(&regions, Some((Node::new(0), pt(5, 5), pt(10, 10))), pt(50, 60));
    assert_eq!(connector(&regions, &moving).unwrap().to, pt(45, 55));
    assert!(connector(&regions[..1].to_vec(), &still).is_none());
}

#[test]
fn dropped_node_moves_by_the_reported_distance() {
    let (mut state, n0) = State::new(pt(0, 0), ());
    state.insert(pt(400, 0), ()).unwrap();
    let graph = AudioGraph::new().on_drag();
    let mut messages = Vec::new();
    {
        let (internal, _) = state.parts_mut();
        internal.pick_node(&n0, pt(5, 5), pt(5, 5));
        graph.on_event(
            internal,
            PointerEvent::ButtonReleased(MouseButton::Left),
            rect(0, 0, 1000, 1000),
            &Vec::new(),
            pt(20, 5),
            &mut messages,
        );
    }
    let event = match messages[0] {
        Output::Dragged(e) => e,
        Output::Clicked(_) => panic!("expected a drag message"),
    };
    assert_eq!(state.apply_drag(event), Some(pt(0, 0)));
    assert_eq!(state.internal().position(n0), Some(pt(15, 0)));
}

#[test]
fn only_drops_move_nodes() {
    let (mut state, n0) = State::new(pt(3, 3), ());
    assert_eq!(state.apply_drag(DragEvent::Picked { node: n0 }), None);
    assert_eq!(state.apply_drag(DragEvent::Canceled { node: n0 }), None);
    assert_eq!(state.apply_drag(DragEvent::Dropped { node: Node::new(7), diff: pt(1, 1) }), None);
    assert_eq!(state.internal().position(n0), Some(pt(3, 3)));
    assert_eq!(state.apply_drag(DragEvent::Dropped { node: n0, diff: pt(-9, 1) }), Some(pt(3, 3)));
    assert_eq!(state.internal().position(n0), Some(pt(0, 4)));
}
