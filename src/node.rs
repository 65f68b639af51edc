use vstd::prelude::*;

verus! {

/// Identity of one box of the graph editor.
///
/// Two nodes are the same node exactly when their ids are equal.
#[derive(Clone, Copy, Debug, PartialEq, Eq, Hash, Structural)]
pub struct Node {
    pub id: usize,
}

impl Node {
    pub fn new(id: usize) -> (r: Self)
        ensures
            r.id == id,
    {
        Node { id }
    }
}

} // verus!
