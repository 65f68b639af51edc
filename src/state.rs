//! The state of a graph: its nodes, their payloads and positions, and the
//! current interaction.
use vstd::prelude::*;
use crate::configuration::Configuration;
use crate::geometry::{floor_zero, saturate, saturating, Point, Rectangle, Size};
use crate::layout_node::{node_words, LayoutNode, LayoutWord};
use crate::node::Node;

verus! {

/// What the pointer is doing to the graph.
#[derive(Clone, Copy, Debug, PartialEq, Eq, Structural)]
pub enum Action {
    Idle,
    /// A node is being dragged. `origin` is where in the node it was picked,
    /// relative to its top-left corner, and `cursor_position` is where the
    /// cursor was when it was picked.
    Dragging { node: Node, origin: Point, cursor_position: Point },
}

/// The drag subject of an action, if there is one.
pub open spec fn picked_of(action: Action) -> Option<(Node, Point, Point)> {
    match action {
        Action::Dragging { node, origin, cursor_position } => Some((node, origin, cursor_position)),
        Action::Idle => None,
    }
}

/// The abstract contents of an [`Internal`].
pub struct GraphModel {
    /// Every node, in the order it was added.
    pub nodes: Seq<Node>,
    /// The top-left corner of every node.
    pub positions: Map<Node, Point>,
    /// The id most recently given out.
    pub last_id: nat,
    pub action: Action,
}

impl GraphModel {
    /// Nodes are listed once each, each has a position, and no id exceeds
    /// the last one given out.
    pub open spec fn well_formed(self) -> bool {
        &&& forall|i: int, j: int|
            0 <= i < j < self.nodes.len() ==> self.nodes[i].id < self.nodes[j].id
        &&& forall|n: Node| self.positions.contains_key(n) <==> self.nodes.contains(n)
        &&& forall|i: int| 0 <= i < self.nodes.len() ==> self.nodes[i].id <= self.last_id
    }
}

/// A coordinate moved by `d` and kept at zero or above.
pub open spec fn moved(v: i64, d: i64) -> i64 {
    floor_zero(saturate(v + d)) as i64
}

/// `p` moved by `offset`, each axis kept at zero or above.
pub open spec fn translated(p: Point, offset: Point) -> Point {
    Point { x: moved(p.x, offset.x), y: moved(p.y, offset.y) }
}

/// `after` is `before` with `n` added at `position`, `n` taking the id that
/// follows the last one given out.
pub open spec fn insert_step(before: GraphModel, after: GraphModel, n: Node, position: Point) -> bool {
    &&& n.id == before.last_id + 1
    &&& after == GraphModel {
        nodes: before.nodes.push(n),
        positions: before.positions.insert(n, position),
        last_id: n.id as nat,
        ..before
    }
}

/// The position words of `nodes`: for each node in order, its id and the two
/// coordinates of its position.
pub open spec fn position_words(nodes: Seq<Node>, positions: Map<Node, Point>) -> Seq<LayoutWord>
    decreases nodes.len(),
{
    if nodes.len() == 0 {
        Seq::empty()
    } else {
        let n = nodes.last();
        position_words(nodes.drop_last(), positions) + seq![
            LayoutWord::Index(n.id),
            LayoutWord::Coord(positions[n].x),
            LayoutWord::Coord(positions[n].y),
        ]
    }
}

/// The words that identify the layout of a graph: its node list, then the
/// position of each node.
pub open spec fn layout_key(m: GraphModel) -> Seq<LayoutWord> {
    node_words(m.nodes) + position_words(m.nodes, m.positions)
}

/// The bookkeeping of a graph that the widget reads and changes: which nodes
/// exist, where each one is, and what the pointer is doing.
#[derive(Clone, Debug)]
pub struct Internal {
    layout: LayoutNode,
    positions: Vec<Point>,
    last_id: usize,
    action: Action,
}

/// The nodes `0 .. n`, in order.
pub open spec fn first_nodes(n: nat) -> Seq<Node> {
    Seq::new(n, |i: int| Node { id: i as usize })
}

impl View for Internal {
    type V = GraphModel;

    closed spec fn view(&self) -> GraphModel {
        GraphModel {
            nodes: self.layout@,
            positions: Map::new(
                |n: Node| n.id < self.positions@.len(),
                |n: Node| self.positions@[n.id as int],
            ),
            last_id: self.last_id as nat,
            action: self.action,
        }
    }
}

impl Internal {
    /// Node `i` is the `i`-th node added, and every node has a position.
    pub closed spec fn wf(&self) -> bool {
        &&& self.positions@.len() == self.last_id + 1
        &&& self.layout@ == first_nodes(self.positions@.len())
    }

    /// The number of nodes.
    pub closed spec fn count(&self) -> nat {
        self.positions@.len()
    }

    proof fn lemma_model(&self)
        requires
            self.wf(),
        ensures
            self@.well_formed(),
            self@.nodes.len() == self.count(),
            self.count() == self@.last_id + 1,
            forall|i: int| 0 <= i < self.count() ==> (#[trigger] self@.nodes[i] == (Node { id: i as usize })),
            forall|n: Node| (#[trigger] self@.positions.contains_key(n) <==> (n.id < self.count())),
    {
        assert forall|n: Node| self@.positions.contains_key(n) <==> self@.nodes.contains(n) by {
            if n.id < self.count() {
                assert(self@.nodes[n.id as int] == n);
            }
        }
    }

    /// The current drag subject: the node, where in it it was picked, and
    /// where the cursor was.
    pub fn picked_node(&self) -> (r: Option<(Node, Point, Point)>)
        ensures
            r == picked_of(self@.action),
    {
        match self.action {
            Action::Dragging { node, origin, cursor_position } => Some(
                (node, origin, cursor_position),
            ),
            Action::Idle => None,
        }
    }

    /// Starts dragging `node`, replacing any drag in progress.
    pub fn pick_node(&mut self, node: &Node, origin: Point, cursor_position: Point)
        ensures
            final(self)@ == (GraphModel {
                action: Action::Dragging { node: *node, origin, cursor_position },
                ..old(self)@
            }),
            old(self).wf() ==> final(self).wf(),
            final(self).count() == old(self).count(),
    {
        self.action = Action::Dragging { node: *node, origin, cursor_position };
    }

    /// Ends any drag in progress.
    pub fn idle(&mut self)
        ensures
            final(self)@ == (GraphModel { action: Action::Idle, ..old(self)@ }),
            old(self).wf() ==> final(self).wf(),
            final(self).count() == old(self).count(),
    {
        self.action = Action::Idle;
    }

    /// The region of every node when each is given the whole of `size`.
    pub fn node_regions(&self, spacing: u16, size: Size) -> (r: Vec<(Node, Rectangle)>)
        ensures
            r@ == self@.nodes.map_values(
                |n: Node| (n, Rectangle { x: 0, y: 0, width: size.width, height: size.height }),
            ),
    {
        self.layout.node_regions(spacing, size)
    }

    /// Every node with its position, in the order the nodes were added.
    pub fn positions(&self) -> (r: Vec<(Node, Point)>)
        requires
            self.wf(),
        ensures
            r@ == self@.nodes.map_values(|n: Node| (n, self@.positions[n])),
    {
        proof {
            self.lemma_model();
        }
        let mut r: Vec<(Node, Point)> = Vec::new();
        let mut i: usize = 0;
        while i < self.positions.len()
            invariant
                self.wf(),
                i <= self.count(),
                r@ == self@.nodes.subrange(0, i as int).map_values(
                    |n: Node| (n, self@.positions[n]),
                ),
            decreases self.count() - i,
        {
            proof {
                self.lemma_model();
            }
            let n = Node::new(i);
            r.push((n, self.positions[i]));
            i += 1;
            proof {
                assert(self@.nodes[i - 1] == n);
                assert(self@.nodes.subrange(0, i as int).map_values(
                    |n: Node| (n, self@.positions[n]),
                ) =~= self@.nodes.subrange(0, i - 1 as int).map_values(
                    |n: Node| (n, self@.positions[n]),
                ).push((n, self@.positions[n])));
            }
        }
        proof {
            self.lemma_model();
            assert(self@.nodes.subrange(0, self.count() as int) =~= self@.nodes);
        }
        r
    }

    /// The position of `node`, if it exists.
    pub fn position(&self, node: Node) -> (r: Option<Point>)
        requires
            self.wf(),
        ensures
            r.is_some() == self@.positions.contains_key(node),
            r.is_some() ==> r.unwrap() == self@.positions[node],
    {
        if node.id < self.positions.len() {
            Some(self.positions[node.id])
        } else {
            None
        }
    }

    /// The words that identify the current layout: equal words exactly when
    /// the node list and every position are equal.
    pub fn hash_layout(&self) -> (r: Vec<LayoutWord>)
        requires
            self.wf(),
        ensures
            r@ == layout_key(self@),
    {
        proof {
            self.lemma_model();
        }
        let mut words = self.layout.layout_words();
        let ghost head = words@;
        let mut i: usize = 0;
        while i < self.positions.len()
            invariant
                self.wf(),
                i <= self.count(),
                head == node_words(self@.nodes),
                words@ == head + position_words(self@.nodes.subrange(0, i as int), self@.positions),
            decreases self.count() - i,
        {
            proof {
                self.lemma_model();
            }
            let p = self.positions[i];
            words.push(LayoutWord::Index(i));
            words.push(LayoutWord::Coord(p.x));
            words.push(LayoutWord::Coord(p.y));
            i += 1;
            proof {
                let n = Node { id: (i - 1) as usize };
                let s = self@.nodes.subrange(0, i as int);
                assert(s.last() == n);
                assert(s.drop_last() =~= self@.nodes.subrange(0, i - 1 as int));
                assert(self@.positions[n] == p);
                assert(words@ =~= head + position_words(s, self@.positions));
            }
        }
        proof {
            assert(self@.nodes.subrange(0, self.count() as int) =~= self@.nodes);
        }
        words
    }

    fn set_position(&mut self, node: Node, position: Point)
        requires
            old(self).wf(),
            node.id < old(self).count(),
        ensures
            final(self).wf(),
            final(self).count() == old(self).count(),
            final(self)@ == (GraphModel {
                positions: old(self)@.positions.insert(node, position),
                ..old(self)@
            }),
    {
        self.positions.set(node.id, position);
        proof {
            assert(final(self)@.positions =~= old(self)@.positions.insert(node, position));
        }
    }
}

/// The state of a graph editor.
///
/// It owns a payload of type `T` for each node, handed to the view of the
/// node every frame, and the [`Internal`] bookkeeping.
#[derive(Debug)]
pub struct State<T> {
    nodes: Vec<T>,
    internal: Internal,
}

impl<T> State<T> {
    /// Every node has a payload and a position, and node `i` is the `i`-th
    /// one added.
    pub closed spec fn wf(&self) -> bool {
        &&& self.internal.wf()
        &&& self.nodes@.len() == self.internal.count()
    }

    /// The payload of every node.
    pub closed spec fn payloads(&self) -> Map<Node, T> {
        Map::new(|n: Node| n.id < self.nodes@.len(), |n: Node| self.nodes@[n.id as int])
    }

    /// The payloads in the order of their nodes' ids.
    pub closed spec fn payload_seq(&self) -> Seq<T> {
        self.nodes@
    }

    /// The bookkeeping of the graph.
    pub closed spec fn model(&self) -> GraphModel {
        self.internal@
    }

    /// A well-formed state has a well-formed model, whose payloads and
    /// positions belong to the same nodes.
    pub proof fn lemma_wf(&self)
        requires
            self.wf(),
        ensures
            self.model().well_formed(),
            forall|n: Node| #[trigger]
                self.payloads().contains_key(n) <==> self.model().positions.contains_key(n),
            forall|n: Node| #[trigger]
                self.model().positions.contains_key(n) ==> n.id <= self.model().last_id,
    {
        self.internal.lemma_model();
    }

    /// A state with a single node, id 0, holding `first_node_state` at
    /// `position`. The node is returned beside the state.
    pub fn new(position: Point, first_node_state: T) -> (r: (Self, Node))
        ensures
            r.0.wf(),
            r.1 == (Node { id: 0 }),
            r.0.payloads() == map![r.1 => first_node_state],
            r.0.model() == (GraphModel {
                nodes: seq![r.1],
                positions: map![r.1 => position],
                last_id: 0,
                action: Action::Idle,
            }),
    {
        let mut state = Self::with_configuration(Configuration::Node(first_node_state));
        let node = Node::new(0);
        state.internal.set_position(node, position);
        proof {
            assert(state.internal@.positions =~= map![node => position]);
        }
        (state, node)
    }

    /// A state laid out as `config` says, its first node at the origin.
    pub fn with_configuration(config: Configuration<T>) -> (r: Self)
        ensures
            r.wf(),
            r.model() == (GraphModel {
                nodes: seq![Node { id: 0 }],
                positions: map![Node { id: 0 } => Point { x: 0, y: 0 }],
                last_id: 0,
                action: Action::Idle,
            }),
            match config {
                Configuration::Node(p) => r.payloads() == map![Node { id: 0 } => p],
            },
    {
        let ghost cfg = config;
        let mut nodes: Vec<T> = Vec::new();
        let (layout, last_id) = Self::distribute_content(&mut nodes, config, 0);
        let mut positions: Vec<Point> = Vec::new();
        positions.push(Point::new(0, 0));
        let r = State { nodes, internal: Internal { layout, positions, last_id, action: Action::Idle } };
        proof {
            assert(r.internal.layout@ =~= first_nodes(1));
            assert(r.internal@.positions =~= map![Node { id: 0 } => Point { x: 0, y: 0 }]);
            let p = match cfg {
                Configuration::Node(p) => p,
            };
            assert(r.payloads() =~= map![Node { id: 0 } => p]);
        }
        r
    }

    /// Stores the payloads of `content` in `nodes`, numbering from `next_id`.
    /// Returns the layout of the new nodes and the last id used.
    fn distribute_content(nodes: &mut Vec<T>, content: Configuration<T>, next_id: usize) -> (r: (
        LayoutNode,
        usize,
    ))
        ensures
            match content {
                Configuration::Node(p) => final(nodes)@ == old(nodes)@.push(p),
            },
            r.0@ == seq![Node { id: next_id }],
            r.1 == next_id,
    {
        match content {
            Configuration::Node(payload) => {
                nodes.push(payload);
                (LayoutNode::Node(Node::new(next_id)), next_id)
            },
        }
    }

    /// The number of nodes.
    pub fn len(&self) -> (r: usize)
        requires
            self.wf(),
        ensures
            r == self.model().nodes.len(),
    {
        proof {
            self.internal.lemma_model();
        }
        self.nodes.len()
    }

    /// The payload of `node`, if the node exists.
    pub fn get(&self, node: &Node) -> (r: Option<&T>)
        requires
            self.wf(),
        ensures
            r.is_some() == self.payloads().contains_key(*node),
            r.is_some() ==> *r.unwrap() == self.payloads()[*node],
    {
        if node.id < self.nodes.len() {
            Some(&self.nodes[node.id])
        } else {
            None
        }
    }

    /// The payload of `node` to change in place, if the node exists.
    pub fn get_mut(&mut self, node: &Node) -> (r: Option<&mut T>)
        requires
            old(self).wf(),
        ensures
            r.is_some() == old(self).payloads().contains_key(*node),
            r.is_none() ==> *final(self) == *old(self),
            r.is_some() ==> {
                &&& *r.unwrap() == old(self).payloads()[*node]
                &&& final(self).wf()
                &&& final(self).model() == old(self).model()
                &&& final(self).payloads() == old(self).payloads().insert(
                    *node,
                    *final(r.unwrap()),
                )
            },
    {
        if node.id < self.nodes.len() {
            Some(&mut self.nodes[node.id])
        } else {
            None
        }
    }

    /// The bookkeeping and the payloads, to borrow at once: the payload of
    /// node `i` is at index `i`.
    pub fn parts_mut(&mut self) -> (r: (&mut Internal, &mut [T]))
        requires
            old(self).wf(),
        ensures
            r.0@ == old(self).model(),
            r.0.wf(),
            r.1@ == old(self).payload_seq(),
            final(self).model() == final(r.0)@,
            final(self).payload_seq() == final(r.1)@,
            final(r.0).wf() && final(r.0).count() == final(r.1)@.len() ==> final(self).wf(),
    {
        (&mut self.internal, self.nodes.as_mut_slice())
    }

    /// The bookkeeping of the graph.
    pub fn internal(&self) -> (r: &Internal)
        ensures
            r@ == self.model(),
            self.wf() ==> r.wf(),
    {
        &self.internal
    }

    /// Adds a node holding `state` at `position`, with the next id. Returns
    /// nothing, and changes nothing, when the ids have run out.
    pub fn insert(&mut self, position: Point, state: T) -> (r: Option<Node>)
        requires
            old(self).wf(),
        ensures
            final(self).wf(),
            r.is_none() <==> old(self).model().last_id == usize::MAX,
            r.is_none() ==> *final(self) == *old(self),
            r.is_some() ==> {
                let n = r.unwrap();
                &&& n.id == old(self).model().last_id + 1
                &&& !old(self).payloads().contains_key(n)
                &&& final(self).payloads() == old(self).payloads().insert(n, state)
                &&& insert_step(old(self).model(), final(self).model(), n, position)
            },
    {
        proof {
            self.internal.lemma_model();
        }
        let id = match self.internal.last_id.checked_add(1) {
            Some(id) => id,
            None => {
                return None;
            },
        };
        self.internal.last_id = id;
        let new_node = Node::new(id);
        self.nodes.push(state);
        self.internal.positions.push(position);
        let mut layout = LayoutNode::Nodes(Vec::new());
        std::mem::swap(&mut self.internal.layout, &mut layout);
        self.internal.layout = LayoutNode::push(layout, new_node);
        proof {
            assert(self.internal.layout@ =~= first_nodes(self.internal.positions@.len()));
            assert(self.payloads() =~= old(self).payloads().insert(new_node, state));
            assert(self.internal@.positions =~= old(self).model().positions.insert(
                new_node,
                position,
            ));
        }
        Some(new_node)
    }

    /// Moves `id` by `offset`, keeping each coordinate at zero or above, and
    /// returns where it was. Returns nothing, and changes nothing, for an
    /// unknown node.
    pub fn translate(&mut self, id: Node, offset: Point) -> (r: Option<Point>)
        requires
            old(self).wf(),
        ensures
            final(self).wf(),
            r.is_none() <==> !old(self).model().positions.contains_key(id),
            r.is_none() ==> *final(self) == *old(self),
            r.is_some() ==> {
                &&& r.unwrap() == old(self).model().positions[id]
                &&& final(self).payloads() == old(self).payloads()
                &&& final(self).model() == (GraphModel {
                    positions: old(self).model().positions.insert(
                        id,
                        translated(r.unwrap(), offset),
                    ),
                    ..old(self).model()
                })
                &&& final(self).model().positions[id].x >= 0
                &&& final(self).model().positions[id].y >= 0
            },
    {
        let prev = match self.internal.position(id) {
            Some(p) => p,
            None => {
                return None;
            },
        };
        let x = saturating(prev.x as i128 + offset.x as i128);
        let y = saturating(prev.y as i128 + offset.y as i128);
        let next = Point::new(if x < 0 { 0 } else { x }, if y < 0 { 0 } else { y });
        self.internal.set_position(id, next);
        Some(prev)
    }
}

/// The last id of the `k`-th state of a run of inserts is `k` past the first.
proof fn lemma_insert_run_counter(
    models: Seq<GraphModel>,
    nodes: Seq<Node>,
    positions: Seq<Point>,
    k: int,
)
    requires
        models.len() == nodes.len() + 1,
        positions.len() == nodes.len(),
        forall|i: int|
            0 <= i < nodes.len() ==> insert_step(
                #[trigger] models[i],
                models[i + 1],
                nodes[i],
                positions[i],
            ),
        0 <= k < models.len(),
    ensures
        models[k].last_id == models[0].last_id + k,
    decreases k,
{
    if k > 0 {
        lemma_insert_run_counter(models, nodes, positions, k - 1);
        assert(insert_step(models[k - 1], models[k], nodes[k - 1], positions[k - 1]));
    }
}

/// An insert keeps a graph well formed.
proof fn lemma_insert_step_well_formed(before: GraphModel, after: GraphModel, n: Node, position: Point)
    requires
        before.well_formed(),
        insert_step(before, after, n, position),
    ensures
        after.well_formed(),
{
    assert forall|i: int| 0 <= i < after.nodes.len() implies #[trigger] after.nodes[i].id
        <= after.last_id by {
        if i < before.nodes.len() {
            assert(after.nodes[i] == before.nodes[i]);
        }
    }
    assert forall|i: int, j: int| 0 <= i < j < after.nodes.len() implies after.nodes[i].id
        < after.nodes[j].id by {
        assert(after.nodes[i] == before.nodes[i]);
        if j < before.nodes.len() {
            assert(after.nodes[j] == before.nodes[j]);
        } else {
            assert(before.nodes[i].id <= before.last_id);
        }
    }
    assert forall|m: Node| after.positions.contains_key(m) <==> after.nodes.contains(m) by {
        if before.nodes.contains(m) {
            let t = choose|t: int| 0 <= t < before.nodes.len() && before.nodes[t] == m;
            assert(after.nodes[t] == m);
        }
        if after.nodes.contains(m) && m != n {
            let t = choose|t: int| 0 <= t < after.nodes.len() && after.nodes[t] == m;
            assert(before.nodes[t] == m);
        }
        assert(after.nodes[before.nodes.len() as int] == n);
    }
}

/// Every state of a run of inserts from a well-formed graph is well formed.
proof fn lemma_insert_run_well_formed(
    models: Seq<GraphModel>,
    nodes: Seq<Node>,
    positions: Seq<Point>,
    k: int,
)
    requires
        models.len() == nodes.len() + 1,
        positions.len() == nodes.len(),
        forall|i: int|
            0 <= i < nodes.len() ==> insert_step(
                #[trigger] models[i],
                models[i + 1],
                nodes[i],
                positions[i],
            ),
        models[0].well_formed(),
        0 <= k < models.len(),
    ensures
        models[k].well_formed(),
    decreases k,
{
    if k > 0 {
        lemma_insert_run_well_formed(models, nodes, positions, k - 1);
        assert(insert_step(models[k - 1], models[k], nodes[k - 1], positions[k - 1]));
        lemma_insert_step_well_formed(models[k - 1], models[k], nodes[k - 1], positions[k - 1]);
    }
}

/// In any run of inserts, each returned node has a larger id than every node
/// returned before it, and no node returned was present before its insert.
pub proof fn lemma_inserted_ids_increase(
    models: Seq<GraphModel>,
    nodes: Seq<Node>,
    positions: Seq<Point>,
)
    requires
        models.len() == nodes.len() + 1,
        positions.len() == nodes.len(),
        forall|i: int|
            0 <= i < nodes.len() ==> insert_step(
                #[trigger] models[i],
                models[i + 1],
                nodes[i],
                positions[i],
            ),
        models[0].well_formed(),
    ensures
        forall|i: int, j: int| 0 <= i < j < nodes.len() ==> nodes[i].id < nodes[j].id,
        forall|j: int| 0 <= j < nodes.len() ==> !models[j].nodes.contains(#[trigger] nodes[j]),
{
    assert forall|i: int| 0 <= i < nodes.len() implies #[trigger] nodes[i].id == models[0].last_id
        + i + 1 by {
        lemma_insert_run_counter(models, nodes, positions, i);
        assert(insert_step(models[i], models[i + 1], nodes[i], positions[i]));
    }
    assert forall|j: int| 0 <= j < nodes.len() implies !models[j].nodes.contains(
        #[trigger] nodes[j],
    ) by {
        assert(insert_step(models[j], models[j + 1], nodes[j], positions[j]));
        lemma_insert_run_well_formed(models, nodes, positions, j);
        if models[j].nodes.contains(nodes[j]) {
            let t = models[j].nodes.index_of(nodes[j]);
            assert(models[j].nodes[t].id <= models[j].last_id);
        }
    }
}

/// Picking a node makes it the drag subject, exactly as given; going idle
/// leaves no drag subject.
pub proof fn lemma_pick_then_idle(m: GraphModel, node: Node, origin: Point, cursor_position: Point)
    ensures
        picked_of(
            (GraphModel { action: Action::Dragging { node, origin, cursor_position }, ..m }).action,
        ) == Some((node, origin, cursor_position)),
        picked_of((GraphModel { action: Action::Idle, ..m }).action) == None::<
            (Node, Point, Point),
        >,
{
}

proof fn lemma_position_words_len(nodes: Seq<Node>, positions: Map<Node, Point>)
    ensures
        position_words(nodes, positions).len() == 3 * nodes.len(),
    decreases nodes.len(),
{
    if nodes.len() > 0 {
        lemma_position_words_len(nodes.drop_last(), positions);
    }
}

proof fn lemma_position_words_agree(nodes: Seq<Node>, a: Map<Node, Point>, b: Map<Node, Point>)
    requires
        position_words(nodes, a) == position_words(nodes, b),
    ensures
        forall|i: int| 0 <= i < nodes.len() ==> a[#[trigger] nodes[i]] == b[nodes[i]],
    decreases nodes.len(),
{
    if nodes.len() > 0 {
        let front = nodes.drop_last();
        let n = nodes.last();
        lemma_position_words_len(front, a);
        lemma_position_words_len(front, b);
        let wa = position_words(nodes, a);
        let wb = position_words(nodes, b);
        let k: int = 3 * front.len() as int;
        assert(wa.subrange(0, k as int) =~= position_words(front, a));
        assert(wb.subrange(0, k as int) =~= position_words(front, b));
        lemma_position_words_agree(front, a, b);
        assert(wa[k + 1] == LayoutWord::Coord(a[n].x));
        assert(wb[k + 1] == LayoutWord::Coord(b[n].x));
        assert(wa[k + 2] == LayoutWord::Coord(a[n].y));
        assert(wb[k + 2] == LayoutWord::Coord(b[n].y));
        assert(a[n] == b[n]);
        assert forall|i: int| 0 <= i < nodes.len() implies a[#[trigger] nodes[i]] == b[nodes[i]] by {
            if i < front.len() {
                assert(front[i] == nodes[i]);
            }
        }
    }
}

/// The layout words of a graph are a function of its node list and
/// positions, so they stay the same while those do; and two well-formed
/// graphs have the same words only when both their node lists and all their
/// positions are the same. Positions are held to one step (`1 / UNIT` of a
/// layout unit), so any move of a step or more changes the words.
pub proof fn lemma_layout_key_identifies(a: GraphModel, b: GraphModel)
    requires
        a.well_formed(),
        b.well_formed(),
    ensures
        layout_key(a) == layout_key(b) <==> (a.nodes == b.nodes && a.positions == b.positions),
{
    if layout_key(a) == layout_key(b) {
        lemma_position_words_len(a.nodes, a.positions);
        lemma_position_words_len(b.nodes, b.positions);
        let ka = layout_key(a);
        let kb = layout_key(b);
        assert(ka.len() == 4 * a.nodes.len());
        assert(kb.len() == 4 * b.nodes.len());
        let n = a.nodes.len();
        assert(ka.subrange(0, n as int) =~= node_words(a.nodes));
        assert(kb.subrange(0, n as int) =~= node_words(b.nodes));
        assert forall|i: int| 0 <= i < n implies a.nodes[i] == b.nodes[i] by {
            assert(node_words(a.nodes)[i] == LayoutWord::Index(a.nodes[i].id));
            assert(node_words(b.nodes)[i] == LayoutWord::Index(b.nodes[i].id));
        }
        assert(a.nodes =~= b.nodes);
        assert(ka.subrange(n as int, ka.len() as int) =~= position_words(a.nodes, a.positions));
        assert(kb.subrange(n as int, kb.len() as int) =~= position_words(b.nodes, b.positions));
        lemma_position_words_agree(a.nodes, a.positions, b.positions);
        assert forall|m: Node|
            #![trigger a.positions.contains_key(m)]
            #![trigger b.positions.contains_key(m)]
            a.positions.contains_key(m) == b.positions.contains_key(m) && (
            a.positions.contains_key(m) ==> a.positions[m] == b.positions[m]) by {
            assert(a.positions.contains_key(m) == a.nodes.contains(m));
            assert(b.positions.contains_key(m) == b.nodes.contains(m));
            if a.nodes.contains(m) {
                let t = choose|t: int| 0 <= t < a.nodes.len() && a.nodes[t] == m;
                assert(a.positions[a.nodes[t]] == b.positions[a.nodes[t]]);
            }
        }
        assert(a.positions =~= b.positions);
    }
}

} // verus!
