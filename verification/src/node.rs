//! The inspector tree: one node of the widget tree in the wire schema, and
//! the identity rule used for navigation.

use vstd::prelude::*;

verus! {

/// A node of the inspector tree as the debugging endpoint reports it.
/// Every field is optional on the wire; `children` and `properties` hold the
/// same node type but are semantically distinct (structure vs. attributes).
pub struct RemoteDiagnosticsNode {
    pub description: Option<String>,
    pub node_type: Option<String>,
    pub name: Option<String>,
    pub style: Option<String>,
    pub has_children: Option<bool>,
    pub children: Option<Vec<RemoteDiagnosticsNode>>,
    pub widget_runtime_type: Option<String>,
    pub object_id: Option<String>,
    pub value_id: Option<String>,
    pub properties: Option<Vec<RemoteDiagnosticsNode>>,
}

impl RemoteDiagnosticsNode {
    /// Identity used for navigation: the stable-per-widget handle if present,
    /// else the per-session handle; a node with neither cannot be remembered.
    pub open spec fn spec_id(&self) -> Option<Seq<char>> {
        match self.value_id {
            Some(v) => Some(v@),
            None => match self.object_id {
                Some(o) => Some(o@),
                None => None,
            },
        }
    }

    /// The node's children as a sequence (empty when the field is absent).
    pub open spec fn spec_children(&self) -> Seq<RemoteDiagnosticsNode> {
        match self.children {
            Some(c) => c@,
            None => Seq::empty(),
        }
    }
}

/// The number of nodes in the subtree rooted here, counting every node
/// whether or not it is visible.
pub open spec fn subtree_size(node: RemoteDiagnosticsNode) -> nat
    decreases node, 1int, 0int,
{
    1 + subtree_size_from(node, 0)
}

/// The total size of the subtrees of `node`'s children from index `i` on.
pub open spec fn subtree_size_from(node: RemoteDiagnosticsNode, i: int) -> nat
    decreases node, 0int, node.spec_children().len() - i,
{
    if 0 <= i < node.spec_children().len() {
        subtree_size(node.spec_children()[i]) + subtree_size_from(node, i + 1)
    } else {
        0
    }
}

} // verus!
