//! The record of which nodes a graph holds, in the order they were added.
use vstd::prelude::*;
use crate::geometry::{Rectangle, Size};
use crate::node::Node;

verus! {

/// One word of the sequence that identifies a layout: equal layouts give
/// equal sequences, and a host hashes the words in order.
#[derive(Clone, Copy, Debug, PartialEq, Eq, Hash, Structural)]
pub enum LayoutWord {
    /// An identifier: a node id or a port type.
    Index(usize),
    /// A coordinate, in steps.
    Coord(i64),
    /// A count of layout units.
    Units(u16),
}

/// The nodes of a graph: a single one, or a list of them.
#[derive(Clone, Debug)]
pub enum LayoutNode {
    /// The region is taken by one node.
    Node(Node),
    Nodes(Vec<Node>),
}

impl View for LayoutNode {
    type V = Seq<Node>;

    open spec fn view(&self) -> Seq<Node> {
        match self {
            LayoutNode::Node(n) => seq![*n],
            LayoutNode::Nodes(v) => v@,
        }
    }
}

/// The words of a layout: one identifier per node, in order.
pub open spec fn node_words(nodes: Seq<Node>) -> Seq<LayoutWord> {
    nodes.map_values(|n: Node| LayoutWord::Index(n.id))
}

impl LayoutNode {
    /// The layout that holds the nodes of `ln` followed by `node`.
    pub fn push(ln: Self, node: Node) -> (r: Self)
        ensures
            r@ == ln@.push(node),
    {
        match ln {
            LayoutNode::Node(prev) => {
                let mut v: Vec<Node> = Vec::new();
                v.push(prev);
                v.push(node);
                proof {
                    assert(v@ =~= seq![prev].push(node));
                }
                LayoutNode::Nodes(v)
            },
            LayoutNode::Nodes(v) => {
                let mut v = v;
                v.push(node);
                LayoutNode::Nodes(v)
            },
        }
    }

    /// The node, when the layout is a single one.
    pub fn node(&self) -> (r: Option<Node>)
        ensures
            r == (match self {
                LayoutNode::Node(n) => Some(*n),
                LayoutNode::Nodes(_) => None::<Node>,
            }),
    {
        match self {
            LayoutNode::Node(n) => Some(*n),
            LayoutNode::Nodes(_) => None,
        }
    }

    /// The node that was added first.
    pub fn first_node(&self) -> (r: Node)
        requires
            self@.len() > 0,
        ensures
            r == self@[0],
    {
        match self {
            LayoutNode::Node(n) => *n,
            LayoutNode::Nodes(v) => v[0],
        }
    }

    /// Appends to `regions` the region `current` for every node, in order.
    pub fn compute_regions(&self, current: &Rectangle, regions: &mut Vec<(Node, Rectangle)>)
        ensures
            final(regions)@ == old(regions)@ + self@.map_values(|n: Node| (n, *current)),
    {
        match self {
            LayoutNode::Node(n) => {
                regions.push((*n, *current));
                proof {
                    assert(seq![*n].map_values(|n: Node| (n, *current)) =~= seq![(*n, *current)]);
                }
            },
            LayoutNode::Nodes(v) => {
                let ghost start = regions@;
                let mut i: usize = 0;
                while i < v.len()
                    invariant
                        i <= v@.len(),
                        regions@ == start + v@.subrange(0, i as int).map_values(
                            |n: Node| (n, *current),
                        ),
                    decreases v@.len() - i,
                {
                    regions.push((v[i], *current));
                    i += 1;
                    proof {
                        assert(v@.subrange(0, i as int).map_values(|n: Node| (n, *current))
                            =~= v@.subrange(0, i - 1 as int).map_values(
                            |n: Node| (n, *current),
                        ).push((v@[i - 1], *current)));
                    }
                }
                proof {
                    assert(v@.subrange(0, v@.len() as int) =~= v@);
                }
            },
        }
    }

    /// The region of every node: each one is given the whole area of `size`.
    /// Nodes are listed in the order they were added.
    pub fn node_regions(&self, spacing: u16, size: Size) -> (r: Vec<(Node, Rectangle)>)
        ensures
            r@ == self@.map_values(
                |n: Node| (n, Rectangle { x: 0, y: 0, width: size.width, height: size.height }),
            ),
    {
        let mut regions: Vec<(Node, Rectangle)> = Vec::new();
        let area = Rectangle { x: 0, y: 0, width: size.width, height: size.height };
        self.compute_regions(&area, &mut regions);
        proof {
            assert(regions@ =~= self@.map_values(|n: Node| (n, area)));
        }
        regions
    }

    /// The words that identify this layout.
    pub fn layout_words(&self) -> (r: Vec<LayoutWord>)
        ensures
            r@ == node_words(self@),
    {
        let mut words: Vec<LayoutWord> = Vec::new();
        match self {
            LayoutNode::Node(n) => {
                words.push(LayoutWord::Index(n.id));
                proof {
                    assert(words@ =~= node_words(self@));
                }
            },
            LayoutNode::Nodes(v) => {
                let mut i: usize = 0;
                while i < v.len()
                    invariant
                        i <= v@.len(),
                        words@ == node_words(v@.subrange(0, i as int)),
                    decreases v@.len() - i,
                {
                    words.push(LayoutWord::Index(v[i].id));
                    i += 1;
                    proof {
                        assert(node_words(v@.subrange(0, i as int)) =~= node_words(
                            v@.subrange(0, i - 1 as int),
                        ).push(LayoutWord::Index(v@[i - 1].id)));
                    }
                }
                proof {
                    assert(v@.subrange(0, v@.len() as int) =~= v@);
                }
            },
        }
        words
    }
}

} // verus!
