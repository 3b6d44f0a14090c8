//! The flattened view of the inspector tree: a pre-order walk that descends
//! into a node's children only while the node is expanded. Every index-based
//! selection operation of the view-model is defined against this derivation.

use vstd::prelude::*;
use crate::idset::IdSet;
use crate::node::RemoteDiagnosticsNode;

verus! {

/// A node descends into its children when its identity is in the expansion
/// set; a node without an identity never hides its children.
pub open spec fn is_expanded_spec(node: RemoteDiagnosticsNode, s: Set<Seq<char>>) -> bool {
    match node.spec_id() {
        Some(id) => s.contains(id),
        None => true,
    }
}

/// How many nodes the flattened view of this subtree shows.
pub open spec fn visible_count(node: RemoteDiagnosticsNode, s: Set<Seq<char>>) -> nat
    decreases node, 1int, 0int,
{
    1 + if is_expanded_spec(node, s) {
        visible_count_from(node, s, 0)
    } else {
        0
    }
}

/// The visible counts of the subtrees of `node`'s children from index `i` on.
pub open spec fn visible_count_from(node: RemoteDiagnosticsNode, s: Set<Seq<char>>, i: int) -> nat
    decreases node, 0int, node.spec_children().len() - i,
{
    if 0 <= i < node.spec_children().len() {
        visible_count(node.spec_children()[i], s) + visible_count_from(node, s, i + 1)
    } else {
        0
    }
}

/// The visible nodes of this subtree in pre-order.
pub open spec fn flat_nodes(node: RemoteDiagnosticsNode, s: Set<Seq<char>>) -> Seq<
    RemoteDiagnosticsNode,
>
    decreases node, 1int, 0int,
{
    seq![node] + if is_expanded_spec(node, s) {
        flat_nodes_from(node, s, 0)
    } else {
        Seq::empty()
    }
}

pub open spec fn flat_nodes_from(node: RemoteDiagnosticsNode, s: Set<Seq<char>>, i: int) -> Seq<
    RemoteDiagnosticsNode,
>
    decreases node, 0int, node.spec_children().len() - i,
{
    if 0 <= i < node.spec_children().len() {
        flat_nodes(node.spec_children()[i], s) + flat_nodes_from(node, s, i + 1)
    } else {
        Seq::empty()
    }
}

/// The depths of the visible nodes, in the same order, when the subtree's
/// root sits at depth `d`.
pub open spec fn flat_depths(node: RemoteDiagnosticsNode, s: Set<Seq<char>>, d: nat) -> Seq<nat>
    decreases node, 1int, 0int,
{
    seq![d] + if is_expanded_spec(node, s) {
        flat_depths_from(node, s, d, 0)
    } else {
        Seq::empty()
    }
}

pub open spec fn flat_depths_from(
    node: RemoteDiagnosticsNode,
    s: Set<Seq<char>>,
    d: nat,
    i: int,
) -> Seq<nat>
    decreases node, 0int, node.spec_children().len() - i,
{
    if 0 <= i < node.spec_children().len() {
        flat_depths(node.spec_children()[i], s, d + 1) + flat_depths_from(node, s, d, i + 1)
    } else {
        Seq::empty()
    }
}

/// Flattening consistency: the flattened view has exactly `visible_count`
/// entries, for every root and every expansion set.
pub proof fn lemma_flatten_count(node: RemoteDiagnosticsNode, s: Set<Seq<char>>)
    ensures
        flat_nodes(node, s).len() == visible_count(node, s),
    decreases node, 1int, 0int,
{
    if is_expanded_spec(node, s) {
        lemma_flatten_count_from(node, s, 0);
    }
}

pub proof fn lemma_flatten_count_from(node: RemoteDiagnosticsNode, s: Set<Seq<char>>, i: int)
    ensures
        flat_nodes_from(node, s, i).len() == visible_count_from(node, s, i),
    decreases node, 0int, node.spec_children().len() - i,
{
    if 0 <= i < node.spec_children().len() {
        lemma_flatten_count(node.spec_children()[i], s);
        lemma_flatten_count_from(node, s, i + 1);
    }
}

/// The depth sequence runs in step with the node sequence.
pub proof fn lemma_depths_count(node: RemoteDiagnosticsNode, s: Set<Seq<char>>, d: nat)
    ensures
        flat_depths(node, s, d).len() == visible_count(node, s),
    decreases node, 1int, 0int,
{
    if is_expanded_spec(node, s) {
        lemma_depths_count_from(node, s, d, 0);
    }
}

pub proof fn lemma_depths_count_from(
    node: RemoteDiagnosticsNode,
    s: Set<Seq<char>>,
    d: nat,
    i: int,
)
    ensures
        flat_depths_from(node, s, d, i).len() == visible_count_from(node, s, i),
    decreases node, 0int, node.spec_children().len() - i,
{
    if 0 <= i < node.spec_children().len() {
        lemma_depths_count(node.spec_children()[i], s, (d + 1) as nat);
        lemma_depths_count_from(node, s, d, i + 1);
    }
}

/// Visible counts shrink as the starting child index grows.
pub proof fn lemma_counts_mono(node: RemoteDiagnosticsNode, s: Set<Seq<char>>, a: int, b: int)
    requires
        0 <= a <= b,
    ensures
        visible_count_from(node, s, b) <= visible_count_from(node, s, a),
    decreases b - a,
{
    if a < b {
        lemma_counts_mono(node, s, a + 1, b);
    }
}

/// At most every node of the subtree is visible.
pub proof fn lemma_vis_le_size(node: RemoteDiagnosticsNode, s: Set<Seq<char>>)
    ensures
        visible_count(node, s) <= crate::node::subtree_size(node),
    decreases node, 1int, 0int,
{
    if is_expanded_spec(node, s) {
        lemma_vis_le_size_from(node, s, 0);
    }
}

pub proof fn lemma_vis_le_size_from(node: RemoteDiagnosticsNode, s: Set<Seq<char>>, i: int)
    ensures
        visible_count_from(node, s, i) <= crate::node::subtree_size_from(node, i),
    decreases node, 0int, node.spec_children().len() - i,
{
    if 0 <= i < node.spec_children().len() {
        lemma_vis_le_size(node.spec_children()[i], s);
        lemma_vis_le_size_from(node, s, i + 1);
    }
}

/// Expanding more nodes never hides one: the visible count is monotone in
/// the expansion set.
pub proof fn lemma_vis_monotone(node: RemoteDiagnosticsNode, s1: Set<Seq<char>>, s2: Set<Seq<char>>)
    requires
        s1.subset_of(s2),
    ensures
        visible_count(node, s1) <= visible_count(node, s2),
    decreases node, 1int, 0int,
{
    if is_expanded_spec(node, s1) {
        lemma_vis_monotone_from(node, s1, s2, 0);
    }
}

pub proof fn lemma_vis_monotone_from(
    node: RemoteDiagnosticsNode,
    s1: Set<Seq<char>>,
    s2: Set<Seq<char>>,
    i: int,
)
    requires
        s1.subset_of(s2),
    ensures
        visible_count_from(node, s1, i) <= visible_count_from(node, s2, i),
    decreases node, 0int, node.spec_children().len() - i,
{
    if 0 <= i < node.spec_children().len() {
        lemma_vis_monotone(node.spec_children()[i], s1, s2);
        lemma_vis_monotone_from(node, s1, s2, i + 1);
    }
}

/// Entries inside the flattening of child `i` reappear in the flattening
/// from child `j` at the offset of everything flattened in between.
pub proof fn lemma_suffix_index(node: RemoteDiagnosticsNode, s: Set<Seq<char>>, j: int, i: int, k: int)
    requires
        0 <= j <= i < node.spec_children().len(),
        0 <= k < flat_nodes(node.spec_children()[i], s).len(),
    ensures
        flat_nodes_from(node, s, j)[visible_count_from(node, s, j) - visible_count_from(node, s, i)
            + k] == flat_nodes(node.spec_children()[i], s)[k],
    decreases i - j,
{
    lemma_flatten_count(node.spec_children()[j], s);
    lemma_flatten_count_from(node, s, j + 1);
    assert(flat_nodes_from(node, s, j) == flat_nodes(node.spec_children()[j], s)
        + flat_nodes_from(node, s, j + 1));
    assert(visible_count_from(node, s, j) == visible_count(node.spec_children()[j], s)
        + visible_count_from(node, s, j + 1));
    if j == i {
    } else {
        lemma_counts_mono(node, s, j + 1, i);
        lemma_suffix_index(node, s, j + 1, i, k);
        lemma_flatten_count(node.spec_children()[i], s);
        assert(visible_count_from(node, s, i) == visible_count(node.spec_children()[i], s)
            + visible_count_from(node, s, i + 1));
        let a = flat_nodes(node.spec_children()[j], s);
        let b = flat_nodes_from(node, s, j + 1);
        let idx = visible_count_from(node, s, j) - visible_count_from(node, s, i) + k;
        assert(idx - a.len() == visible_count_from(node, s, j + 1) - visible_count_from(
            node,
            s,
            i,
        ) + k);
        assert((a + b)[idx] == b[idx - a.len()]);
    }
}

/// Counts the nodes the flattened view of this subtree shows.
pub fn count_visible_nodes(node: &RemoteDiagnosticsNode, expanded_ids: &IdSet) -> (r: usize)
    requires
        visible_count(*node, expanded_ids@) <= usize::MAX,
    ensures
        r == visible_count(*node, expanded_ids@),
    decreases *node,
{
    let ghost s = expanded_ids@;
    let mut count: usize = 1;
    if is_expanded(node, expanded_ids) {
        if let Some(children) = &node.children {
            let n = children.len();
            let mut i: usize = 0;
            while i < n
                invariant
                    n == children@.len(),
                    i <= n,
                    children@ == node.spec_children(),
                    is_expanded_spec(*node, s),
                    s == expanded_ids@,
                    count + visible_count_from(*node, s, i as int) == visible_count(*node, s),
                    visible_count(*node, s) <= usize::MAX,
                decreases n - i,
            {
                count += count_visible_nodes(&children[i], expanded_ids);
                i += 1;
            }
        }
    }
    count
}

/// The navigation identity of a node: the stable handle if present, else the
/// per-session handle.
pub fn node_id_ref(node: &RemoteDiagnosticsNode) -> (r: Option<&String>)
    ensures
        match r {
            Some(id) => node.spec_id() == Some(id@),
            None => node.spec_id() is None,
        },
{
    match &node.value_id {
        Some(v) => Some(v),
        None => match &node.object_id {
            Some(o) => Some(o),
            None => None,
        },
    }
}

/// Whether the flattened view descends into this node's children.
pub fn is_expanded(node: &RemoteDiagnosticsNode, expanded_ids: &IdSet) -> (r: bool)
    ensures
        r == is_expanded_spec(*node, expanded_ids@),
{
    match node_id_ref(node) {
        Some(id) => expanded_ids.contains(id.as_str()),
        None => true,
    }
}

/// Walks the flattened view for the node at `target_index`, counting visited
/// visible nodes in `current_index`; the caller starts the walk with the
/// index the subtree's root has in the full view.
pub fn get_node_at_index<'a>(
    node: &'a RemoteDiagnosticsNode,
    expanded_ids: &IdSet,
    target_index: usize,
    current_index: &mut usize,
) -> (r: Option<&'a RemoteDiagnosticsNode>)
    requires
        *old(current_index) + visible_count(*node, expanded_ids@) <= usize::MAX,
    ensures
        match r {
            Some(found) => {
                &&& *old(current_index) <= target_index
                &&& target_index - *old(current_index) < flat_nodes(*node, expanded_ids@).len()
                &&& *found == flat_nodes(*node, expanded_ids@)[target_index - *old(current_index)]
                &&& *final(current_index) == target_index
            },
            None => {
                &&& !(*old(current_index) <= target_index < *old(current_index) + visible_count(
                    *node,
                    expanded_ids@,
                ))
                &&& *final(current_index) == *old(current_index) + visible_count(
                    *node,
                    expanded_ids@,
                )
            },
        },
    decreases *node,
{
    let ghost s = expanded_ids@;
    let ghost start = *current_index;
    proof {
        lemma_flatten_count(*node, s);
    }
    if *current_index == target_index {
        return Some(node);
    }
    *current_index += 1;
    if is_expanded(node, expanded_ids) {
        if let Some(children) = &node.children {
            let n = children.len();
            let mut i: usize = 0;
            while i < n
                invariant
                    n == children@.len(),
                    i <= n,
                    children@ == node.spec_children(),
                    is_expanded_spec(*node, s),
                    s == expanded_ids@,
                    start == *old(current_index),
                    start + visible_count(*node, s) <= usize::MAX,
                    visible_count_from(*node, s, i as int) <= visible_count_from(*node, s, 0),
                    *current_index == start + 1 + (visible_count_from(*node, s, 0)
                        - visible_count_from(*node, s, i as int)),
                    !(start <= target_index < *current_index),
                    flat_nodes(*node, s).len() == visible_count(*node, s),
                decreases n - i,
            {
                let ghost base = *current_index;
                proof {
                    lemma_flatten_count(node.spec_children()[i as int], s);
                    lemma_flatten_count_from(*node, s, i as int);
                    lemma_flatten_count_from(*node, s, i + 1);
                }
                let found = get_node_at_index(
                    &children[i],
                    expanded_ids,
                    target_index,
                    current_index,
                );
                if let Some(f) = found {
                    proof {
                        let k = target_index - base;
                        assert(base <= target_index);
                        assert(k < flat_nodes(node.spec_children()[i as int], s).len());
                        assert(visible_count_from(*node, s, i as int) == visible_count(
                            node.spec_children()[i as int],
                            s,
                        ) + visible_count_from(*node, s, i + 1));
                        lemma_suffix_index(*node, s, 0, i as int, k);
                        assert(visible_count_from(*node, s, 0) - visible_count_from(
                            *node,
                            s,
                            i as int,
                        ) + k == target_index - start - 1);
                        assert(target_index - start - 1 < visible_count_from(*node, s, 0));
                        assert(flat_nodes(*node, s) == seq![*node] + flat_nodes_from(*node, s, 0));
                        assert(flat_nodes(*node, s)[target_index - start] == flat_nodes_from(
                            *node,
                            s,
                            0,
                        )[target_index - start - 1]);
                    }
                    return Some(f);
                }
                i += 1;
                proof {
                    lemma_counts_mono(*node, s, 0, i as int);
                }
            }
        }
    }
    None
}

} // verus!
