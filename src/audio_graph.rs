//! The graph widget: where its nodes go, how pointer events move them, and
//! in what order they are drawn.
use vstd::prelude::*;
use crate::geometry::{saturate, saturating, Length, Point, Rectangle, UNIT};
use crate::node::Node;
use crate::state::{picked_of, translated, Action, GraphModel, Internal, State};

verus! {

/// The side of the square each node is given.
pub const NODE_EXTENT: i64 = 300 * UNIT;

/// How far the clip of a dragged node reaches past its bounds (half a unit).
pub const DRAG_CLIP_MARGIN: i64 = 524288;

/// An event of a drag and drop interaction.
#[derive(Clone, Copy, Debug, PartialEq, Eq, Structural)]
pub enum DragEvent {
    /// A node was picked for dragging.
    Picked { node: Node },
    /// A picked node was dropped, the cursor having moved by `diff` since
    /// the pick.
    Dropped { node: Node, diff: Point },
    /// A picked node was dropped outside of other nodes. Nothing emits it
    /// yet.
    Canceled { node: Node },
}

/// A message the widget produces for its host.
#[derive(Clone, Copy, Debug, PartialEq, Eq, Structural)]
pub enum Output {
    /// A node was clicked.
    Clicked(Node),
    Dragged(DragEvent),
}

/// Whether an event was used up.
#[derive(Clone, Copy, Debug, PartialEq, Eq, Structural)]
pub enum Status {
    Ignored,
    Captured,
}

impl Status {
    /// Captured when either is.
    pub fn merge(self, b: Self) -> (r: Self)
        ensures
            r == (if self == Status::Captured { Status::Captured } else { b }),
    {
        match self {
            Status::Ignored => b,
            Status::Captured => Status::Captured,
        }
    }
}

#[derive(Clone, Copy, Debug, PartialEq, Eq, Structural)]
pub enum MouseButton {
    Left,
    Right,
    Middle,
    Other(u8),
}

/// A pointer event, as the widget sees it.
#[derive(Clone, Copy, Debug, PartialEq, Eq, Structural)]
pub enum PointerEvent {
    ButtonPressed(MouseButton),
    ButtonReleased(MouseButton),
    CursorMoved,
    /// Any other event; the widget does nothing with it.
    Other,
}

/// A node as laid out in the widget: its bounds, and whether a press at the
/// current cursor would pick it up.
#[derive(Clone, Copy, Debug, PartialEq, Eq, Structural)]
pub struct Child {
    pub node: Node,
    pub bounds: Rectangle,
    pub pickable: bool,
}

/// What became of an event: its status so far, and whether the nodes get it
/// too (they do not while a drag is in progress).
#[derive(Clone, Copy, Debug, PartialEq, Eq, Structural)]
pub struct EventOutcome {
    pub status: Status,
    pub forward: bool,
}

/// The settings of a graph widget.
#[derive(Clone, Copy, Debug, PartialEq, Eq, Structural)]
pub struct AudioGraph {
    width: Length,
    height: Length,
    spacing: u16,
    on_click: bool,
    on_drag: bool,
}

/// `k` is the first child whose bounds hold `cursor`.
pub open spec fn is_first_hit(children: Seq<Child>, cursor: Point, k: int) -> bool {
    &&& 0 <= k < children.len()
    &&& children[k].bounds.contains_spec(cursor)
    &&& forall|j: int| 0 <= j < k ==> !(#[trigger] children[j]).bounds.contains_spec(cursor)
}

/// Where `cursor` is relative to the top-left corner of `bounds`.
pub open spec fn offset_in(cursor: Point, bounds: Rectangle) -> Point {
    Point { x: saturate(cursor.x - bounds.x) as i64, y: saturate(cursor.y - bounds.y) as i64 }
}

/// The model and the messages after a press at `cursor` over `children`.
pub open spec fn press_result(
    on_click: bool,
    on_drag: bool,
    m: GraphModel,
    children: Seq<Child>,
    cursor: Point,
) -> (GraphModel, Seq<Output>) {
    if exists|k: int| is_first_hit(children, cursor, k) {
        let k = choose|k: int| is_first_hit(children, cursor, k);
        let c = children[k];
        let clicked = if on_click { seq![Output::Clicked(c.node)] } else { Seq::empty() };
        if on_drag && c.pickable {
            (
                GraphModel {
                    action: Action::Dragging {
                        node: c.node,
                        origin: offset_in(cursor, c.bounds),
                        cursor_position: cursor,
                    },
                    ..m
                },
                clicked.push(Output::Dragged(DragEvent::Picked { node: c.node })),
            )
        } else {
            (m, clicked)
        }
    } else {
        (m, Seq::empty())
    }
}

/// The model and the messages after a release at `cursor`.
pub open spec fn release_result(on_drag: bool, m: GraphModel, cursor: Point) -> (
    GraphModel,
    Seq<Output>,
) {
    match picked_of(m.action) {
        Some((node, _origin, picked_at)) => (
            GraphModel { action: Action::Idle, ..m },
            if on_drag {
                seq![
                    Output::Dragged(
                        DragEvent::Dropped {
                            node,
                            diff: Point {
                                x: saturate(cursor.x - picked_at.x) as i64,
                                y: saturate(cursor.y - picked_at.y) as i64,
                            },
                        },
                    ),
                ]
            } else {
                Seq::empty()
            },
        ),
        None => (m, Seq::empty()),
    }
}

/// The model, the messages and the status after `event`, before the nodes
/// see it.
pub open spec fn event_result(
    on_click: bool,
    on_drag: bool,
    m: GraphModel,
    event: PointerEvent,
    bounds: Rectangle,
    children: Seq<Child>,
    cursor: Point,
) -> (GraphModel, Seq<Output>, Status) {
    match event {
        PointerEvent::ButtonPressed(MouseButton::Left) => if bounds.contains_spec(cursor) {
            let (m2, out) = press_result(on_click, on_drag, m, children, cursor);
            (m2, out, Status::Captured)
        } else {
            (m, Seq::empty(), Status::Ignored)
        },
        PointerEvent::ButtonReleased(MouseButton::Left) => if picked_of(m.action).is_some() {
            let (m2, out) = release_result(on_drag, m, cursor);
            (m2, out, Status::Captured)
        } else {
            (m, Seq::empty(), Status::Ignored)
        },
        _ => (m, Seq::empty(), Status::Ignored),
    }
}

/// The region of each of `nodes` that has a position: a square of
/// `NODE_EXTENT` at that position.
pub open spec fn regions_of(nodes: Seq<Node>, positions: Map<Node, Point>) -> Seq<(Node, Rectangle)>
    decreases nodes.len(),
{
    if nodes.len() == 0 {
        Seq::empty()
    } else {
        let n = nodes.last();
        let front = regions_of(nodes.drop_last(), positions);
        if positions.contains_key(n) {
            front.push(
                (
                    n,
                    Rectangle {
                        x: positions[n].x,
                        y: positions[n].y,
                        width: NODE_EXTENT,
                        height: NODE_EXTENT,
                    },
                ),
            )
        } else {
            front
        }
    }
}

proof fn lemma_first_hit_unique(children: Seq<Child>, cursor: Point, a: int, b: int)
    requires
        is_first_hit(children, cursor, a),
        is_first_hit(children, cursor, b),
    ensures
        a == b,
{
    if a < b {
        assert(!children[a].bounds.contains_spec(cursor));
    } else if b < a {
        assert(!children[b].bounds.contains_spec(cursor));
    }
}

/// The first child whose bounds hold `cursor`.
fn find_hit(children: &Vec<Child>, cursor: Point) -> (r: Option<usize>)
    ensures
        r.is_some() ==> is_first_hit(children@, cursor, r.unwrap() as int),
        r.is_none() ==> !exists|k: int| is_first_hit(children@, cursor, k),
{
    let mut i: usize = 0;
    while i < children.len()
        invariant
            i <= children@.len(),
            forall|j: int| 0 <= j < i ==> !(#[trigger] children@[j]).bounds.contains_spec(cursor),
        decreases children@.len() - i,
    {
        if children[i].bounds.contains(cursor) {
            return Some(i);
        }
        i += 1;
    }
    None
}

impl AudioGraph {
    /// A widget that fills its space and emits no messages.
    pub fn new() -> (r: Self)
        ensures
            r.width_spec() == Length::Fill,
            r.height_spec() == Length::Fill,
            r.spacing_spec() == 0,
            !r.clicks(),
            !r.drags(),
    {
        AudioGraph { width: Length::Fill, height: Length::Fill, spacing: 0, on_click: false, on_drag: false }
    }

    pub closed spec fn width_spec(&self) -> Length {
        self.width
    }

    pub closed spec fn height_spec(&self) -> Length {
        self.height
    }

    pub closed spec fn spacing_spec(&self) -> u16 {
        self.spacing
    }

    /// Whether clicks on nodes produce messages.
    pub closed spec fn clicks(&self) -> bool {
        self.on_click
    }

    /// Whether nodes can be dragged, producing messages.
    pub closed spec fn drags(&self) -> bool {
        self.on_drag
    }

    /// Sets the width.
    pub fn width(self, width: Length) -> (r: Self)
        ensures
            r.width_spec() == width,
            r.height_spec() == self.height_spec(),
            r.spacing_spec() == self.spacing_spec(),
            r.clicks() == self.clicks(),
            r.drags() == self.drags(),
    {
        AudioGraph { width, ..self }
    }

    /// Sets the height.
    pub fn height(self, height: Length) -> (r: Self)
        ensures
            r.width_spec() == self.width_spec(),
            r.height_spec() == height,
            r.spacing_spec() == self.spacing_spec(),
            r.clicks() == self.clicks(),
            r.drags() == self.drags(),
    {
        AudioGraph { height, ..self }
    }

    /// Sets the spacing between nodes, in layout units.
    pub fn spacing(self, units: u16) -> (r: Self)
        ensures
            r.width_spec() == self.width_spec(),
            r.height_spec() == self.height_spec(),
            r.spacing_spec() == units,
            r.clicks() == self.clicks(),
            r.drags() == self.drags(),
    {
        AudioGraph { spacing: units, ..self }
    }

    /// Makes a click on a node produce a message.
    pub fn on_click(self) -> (r: Self)
        ensures
            r.width_spec() == self.width_spec(),
            r.height_spec() == self.height_spec(),
            r.spacing_spec() == self.spacing_spec(),
            r.clicks() == true,
            r.drags() == self.drags(),
    {
        AudioGraph { on_click: true, ..self }
    }

    /// Enables dragging nodes, which produces messages.
    pub fn on_drag(self) -> (r: Self)
        ensures
            r.width_spec() == self.width_spec(),
            r.height_spec() == self.height_spec(),
            r.spacing_spec() == self.spacing_spec(),
            r.clicks() == self.clicks(),
            r.drags() == true,
    {
        AudioGraph { on_drag: true, ..self }
    }

    pub fn get_width(&self) -> (r: Length)
        ensures
            r == self.width_spec(),
    {
        self.width
    }

    pub fn get_height(&self) -> (r: Length)
        ensures
            r == self.height_spec(),
    {
        self.height
    }

    /// Handles a press at `cursor`: the first node under it is clicked and,
    /// if it can be picked there, picked up.
    pub fn click_node(
        &self,
        state: &mut Internal,
        children: &Vec<Child>,
        cursor: Point,
        messages: &mut Vec<Output>,
    )
        ensures
            ({
                let (m, out) = press_result(
                    self.clicks(),
                    self.drags(),
                    old(state)@,
                    children@,
                    cursor,
                );
                &&& final(state)@ == m
                &&& final(messages)@ == old(messages)@ + out
            }),
            final(state).count() == old(state).count(),
            old(state).wf() ==> final(state).wf(),
    {
        match find_hit(children, cursor) {
            Some(k) => {
                let c = children[k];
                proof {
                    assert forall|j: int| is_first_hit(children@, cursor, j) implies j == k by {
                        lemma_first_hit_unique(children@, cursor, j, k as int);
                    }
                }
                let ghost start = messages@;
                if self.on_click {
                    messages.push(Output::Clicked(c.node));
                }
                if self.on_drag && c.pickable {
                    let origin = cursor.minus(c.bounds.position());
                    state.pick_node(&c.node, origin, cursor);
                    messages.push(Output::Dragged(DragEvent::Picked { node: c.node }));
                }
                proof {
                    let clicked = if self.on_click {
                        seq![Output::Clicked(c.node)]
                    } else {
                        Seq::empty()
                    };
                    if self.on_drag && c.pickable {
                        assert(messages@ =~= start + clicked.push(
                            Output::Dragged(DragEvent::Picked { node: c.node }),
                        ));
                    } else {
                        assert(messages@ =~= start + clicked);
                    }
                }
            },
            None => {
                proof {
                    assert(messages@ =~= old(messages)@ + Seq::<Output>::empty());
                }
            },
        }
    }

    /// Handles `event` at `cursor` for a widget with `bounds` whose nodes
    /// are laid out as `children`. A left press inside the widget clicks or
    /// picks a node; a left release ends a drag, reporting how far the
    /// cursor moved since the pick. While a drag is in progress the nodes do
    /// not get the event, and it counts as captured.
    pub fn on_event(
        &self,
        state: &mut Internal,
        event: PointerEvent,
        bounds: Rectangle,
        children: &Vec<Child>,
        cursor: Point,
        messages: &mut Vec<Output>,
    ) -> (r: EventOutcome)
        ensures
            ({
                let (m, out, status) = event_result(
                    self.clicks(),
                    self.drags(),
                    old(state)@,
                    event,
                    bounds,
                    children@,
                    cursor,
                );
                &&& final(state)@ == m
                &&& final(messages)@ == old(messages)@ + out
                &&& r.forward == picked_of(m.action).is_none()
                &&& r.status == (if r.forward { status } else { Status::Captured })
            }),
            final(state).count() == old(state).count(),
            old(state).wf() ==> final(state).wf(),
    {
        let mut status = Status::Ignored;
        match event {
            PointerEvent::ButtonPressed(MouseButton::Left) => {
                if bounds.contains(cursor) {
                    status = Status::Captured;
                    self.click_node(state, children, cursor, messages);
                } else {
                    proof {
                        assert(messages@ =~= old(messages)@ + Seq::<Output>::empty());
                    }
                }
            },
            PointerEvent::ButtonReleased(MouseButton::Left) => {
                match state.picked_node() {
                    Some((node, _origin, picked_at)) => {
                        if self.on_drag {
                            let diff = cursor.minus(picked_at);
                            messages.push(Output::Dragged(DragEvent::Dropped { node, diff }));
                        } else {
                            proof {
                                assert(messages@ =~= old(messages)@ + Seq::<Output>::empty());
                            }
                        }
                        state.idle();
                        status = Status::Captured;
                    },
                    None => {
                        proof {
                            assert(messages@ =~= old(messages)@ + Seq::<Output>::empty());
                        }
                    },
                }
            },
            _ => {
                proof {
                    assert(messages@ =~= old(messages)@ + Seq::<Output>::empty());
                }
            },
        }
        if state.picked_node().is_none() {
            EventOutcome { status, forward: true }
        } else {
            EventOutcome { status: Status::Captured, forward: false }
        }
    }

    /// The region of each of `elements` that has a position, in order: a
    /// square of `NODE_EXTENT` at the node's position.
    pub fn layout_regions(&self, state: &Internal, elements: &Vec<Node>) -> (r: Vec<(Node, Rectangle)>)
        requires
            state.wf(),
        ensures
            r@ == regions_of(elements@, state@.positions),
    {
        let mut r: Vec<(Node, Rectangle)> = Vec::new();
        let mut i: usize = 0;
        while i < elements.len()
            invariant
                state.wf(),
                i <= elements@.len(),
                r@ == regions_of(elements@.subrange(0, i as int), state@.positions),
            decreases elements@.len() - i,
        {
            let n = elements[i];
            match state.position(n) {
                Some(p) => {
                    r.push((n, Rectangle { x: p.x, y: p.y, width: NODE_EXTENT, height: NODE_EXTENT }));
                },
                None => {},
            }
            i += 1;
            proof {
                let s = elements@.subrange(0, i as int);
                assert(s.last() == n);
                assert(s.drop_last() =~= elements@.subrange(0, i - 1 as int));
            }
        }
        proof {
            assert(elements@.subrange(0, elements@.len() as int) =~= elements@);
        }
        r
    }
}

/// How a dragged node is drawn: clipped to a box that follows the cursor,
/// and moved along with it.
#[derive(Clone, Copy, Debug, PartialEq, Eq, Structural)]
pub struct DraggedFrame {
    /// Which node, by its place among the regions.
    pub index: usize,
    pub clip: Rectangle,
    pub translation: Point,
}

/// In what order to draw the nodes.
#[derive(Clone, Debug)]
pub struct DrawPlan {
    /// Places among the regions, first drawn first.
    pub order: Vec<usize>,
    /// Whether the nodes drawn in place are clipped to the widget.
    pub clip_to_widget: bool,
    /// The dragged node, drawn last, if it is among the regions.
    pub dragged: Option<DraggedFrame>,
}

/// The curve that joins two nodes: it leaves the top-right corner of one,
/// bends around `control`, and ends at `to`.
#[derive(Clone, Copy, Debug, PartialEq, Eq, Structural)]
pub struct Connector {
    pub from: Point,
    pub control: Point,
    pub to: Point,
}

/// How far right of its start a connector's bend lies.
pub const CONNECTOR_REACH: i64 = 80 * UNIT;

/// How far below its start a connector's bend lies.
pub const CONNECTOR_DROP: i64 = 90 * UNIT;

/// `k` is the last region that belongs to `node`.
pub open spec fn is_last_match(regions: Seq<(Node, Rectangle)>, node: Node, k: int) -> bool {
    &&& 0 <= k < regions.len()
    &&& regions[k].0 == node
    &&& forall|j: int| k < j < regions.len() ==> (#[trigger] regions[j]).0 != node
}

/// The frame of a node with `bounds`, picked at `origin`, under `cursor`:
/// its top-left corner follows the cursor.
pub open spec fn dragged_frame(index: usize, bounds: Rectangle, origin: Point, cursor: Point) -> DraggedFrame {
    DraggedFrame {
        index,
        clip: Rectangle {
            x: saturate(cursor.x - origin.x) as i64,
            y: saturate(cursor.y - origin.y) as i64,
            width: saturate(bounds.width + DRAG_CLIP_MARGIN) as i64,
            height: saturate(bounds.height + DRAG_CLIP_MARGIN) as i64,
        },
        translation: Point {
            x: saturate(cursor.x - bounds.x - origin.x) as i64,
            y: saturate(cursor.y - bounds.y - origin.y) as i64,
        },
    }
}

/// The last region that belongs to `node`.
fn find_last(regions: &Vec<(Node, Rectangle)>, node: Node) -> (r: Option<usize>)
    ensures
        r.is_some() ==> is_last_match(regions@, node, r.unwrap() as int),
        r.is_none() ==> forall|j: int| 0 <= j < regions@.len() ==> (#[trigger] regions@[j]).0 != node,
{
    let mut i: usize = regions.len();
    while i > 0
        invariant
            i <= regions@.len(),
            forall|j: int| i <= j < regions@.len() ==> (#[trigger] regions@[j]).0 != node,
        decreases i,
    {
        i -= 1;
        if regions[i].0 == node {
            return Some(i);
        }
    }
    None
}

/// Every place among `n` regions in order, with `skip` taken out.
fn order_without(n: usize, skip: usize) -> (r: Vec<usize>)
    requires
        skip < n,
    ensures
        r@.len() == n - 1,
        forall|t: int| 0 <= t < n - 1 ==> #[trigger] r@[t] == (if t < skip { t } else { t + 1 }),
{
    let mut r: Vec<usize> = Vec::new();
    let mut j: usize = 0;
    while j < n
        invariant
            j <= n,
            skip < n,
            r@.len() == (if skip < j { j - 1 } else { j as int }),
            forall|t: int| 0 <= t < r@.len() ==> #[trigger] r@[t] == (if t < skip { t } else { t + 1 }),
        decreases n - j,
    {
        if j != skip {
            r.push(j);
        }
        j += 1;
    }
    r
}

/// The order to draw `regions` in. With no drag, each node is drawn in
/// place, in order, clipped to the widget. During a drag nothing is clipped
/// to the widget, and the dragged node is taken out of its place and drawn
/// last, following the cursor, so that it shows above the others.
pub fn draw_plan(
    regions: &Vec<(Node, Rectangle)>,
    dragging: Option<(Node, Point, Point)>,
    cursor: Point,
) -> (r: DrawPlan)
    ensures
        r.clip_to_widget == dragging.is_none(),
        match dragging {
            Some((node, origin, _)) if exists|k: int| is_last_match(regions@, node, k) => {
                let k = choose|k: int| is_last_match(regions@, node, k);
                &&& r.dragged == Some(dragged_frame(k as usize, regions@[k].1, origin, cursor))
                &&& r.order@.len() == regions@.len()
                &&& r.order@.last() == k
                &&& forall|t: int|
                    0 <= t < regions@.len() - 1 ==> #[trigger] r.order@[t] == (if t < k {
                        t
                    } else {
                        t + 1
                    })
            },
            _ => {
                &&& r.dragged.is_none()
                &&& r.order@ == Seq::new(regions@.len(), |t: int| t as usize)
            },
        },
{
    let mut all: Vec<usize> = Vec::new();
    let mut j: usize = 0;
    while j < regions.len()
        invariant
            j <= regions@.len(),
            all@ == Seq::new(j as nat, |t: int| t as usize),
        decreases regions@.len() - j,
    {
        all.push(j);
        j += 1;
        proof {
            assert(all@ =~= Seq::new(j as nat, |t: int| t as usize));
        }
    }
    match dragging {
        Some((node, origin, _)) => {
            match find_last(regions, node) {
                Some(k) => {
                    proof {
                        assert forall|j: int| is_last_match(regions@, node, j) implies j == k by {
                            if j < k {
                                assert(regions@[k as int].0 == node);
                            } else if k < j {
                                assert(regions@[j].0 == node);
                            }
                        }
                    }
                    let bounds = regions[k].1;
                    let frame = DraggedFrame {
                        index: k,
                        clip: Rectangle {
                            x: saturating(cursor.x as i128 - origin.x as i128),
                            y: saturating(cursor.y as i128 - origin.y as i128),
                            width: saturating(bounds.width as i128 + DRAG_CLIP_MARGIN as i128),
                            height: saturating(bounds.height as i128 + DRAG_CLIP_MARGIN as i128),
                        },
                        translation: Point {
                            x: saturating(cursor.x as i128 - bounds.x as i128 - origin.x as i128),
                            y: saturating(cursor.y as i128 - bounds.y as i128 - origin.y as i128),
                        },
                    };
                    let mut order = order_without(regions.len(), k);
                    order.push(k);
                    DrawPlan { order, clip_to_widget: false, dragged: Some(frame) }
                },
                None => DrawPlan { order: all, clip_to_widget: false, dragged: None },
            }
        },
        None => DrawPlan { order: all, clip_to_widget: true, dragged: None },
    }
}

/// The connector from the second region to the first, or, while a node is
/// dragged, to the dragged node's corner under the cursor. None with fewer
/// than two regions.
pub fn connector(regions: &Vec<(Node, Rectangle)>, plan: &DrawPlan) -> (r: Option<Connector>)
    ensures
        regions@.len() < 2 ==> r.is_none(),
        regions@.len() >= 2 ==> r == Some(
            ({
                let a = regions@[1].1;
                let b = regions@[0].1;
                Connector {
                    from: Point { x: saturate(a.x + a.width) as i64, y: a.y },
                    control: Point {
                        x: saturate(a.x + CONNECTOR_REACH + a.width) as i64,
                        y: saturate(a.y + CONNECTOR_DROP) as i64,
                    },
                    to: match plan.dragged {
                        Some(f) => Point { x: f.clip.x, y: f.clip.y },
                        None => Point { x: b.x, y: b.y },
                    },
                }
            }),
        ),
{
    if regions.len() < 2 {
        return None;
    }
    let a = regions[1].1;
    let b = regions[0].1;
    let to = match plan.dragged {
        Some(f) => Point { x: f.clip.x, y: f.clip.y },
        None => Point { x: b.x, y: b.y },
    };
    Some(
        Connector {
            from: Point { x: saturating(a.x as i128 + a.width as i128), y: a.y },
            control: Point {
                x: saturating(a.x as i128 + CONNECTOR_REACH as i128 + a.width as i128),
                y: saturating(a.y as i128 + CONNECTOR_DROP as i128),
            },
            to,
        },
    )
}

impl<T> State<T> {
    /// Applies a drag message to the graph: a dropped node moves by the
    /// distance the cursor moved, as `translate` does, and its earlier
    /// position is returned. Other messages, and drops of unknown nodes,
    /// change nothing.
    pub fn apply_drag(&mut self, event: DragEvent) -> (r: Option<Point>)
        requires
            old(self).wf(),
        ensures
            final(self).wf(),
            match event {
                DragEvent::Dropped { node, diff } => {
                    &&& r.is_some() == old(self).model().positions.contains_key(node)
                    &&& r.is_none() ==> *final(self) == *old(self)
                    &&& r.is_some() ==> {
                        &&& r.unwrap() == old(self).model().positions[node]
                        &&& final(self).payloads() == old(self).payloads()
                        &&& final(self).model() == (GraphModel {
                            positions: old(self).model().positions.insert(
                                node,
                                translated(r.unwrap(), diff),
                            ),
                            ..old(self).model()
                        })
                    }
                },
                _ => r.is_none() && *final(self) == *old(self),
            },
    {
        match event {
            DragEvent::Dropped { node, diff } => self.translate(node, diff),
            _ => None,
        }
    }
}

} // verus!
