use vstd::prelude::*;

verus! {

/// The arrangement a graph state starts from.
#[derive(Clone, Debug)]
pub enum Configuration<T> {
    /// A single node, with its payload.
    Node(T),
}

} // verus!
