//! Walks over the flattened view: looking up the depth of a row, finding the
//! first row that carries a given identity, and collecting the ancestor path
//! of an identity so it can be expanded into view.

use vstd::prelude::*;
use crate::idset::IdSet;
use crate::node::{subtree_size, RemoteDiagnosticsNode};
use crate::text::str_eq;
use crate::tree_nav::{
    flat_depths, flat_depths_from, flat_nodes, flat_nodes_from, is_expanded, is_expanded_spec,
    lemma_counts_mono, lemma_depths_count, lemma_depths_count_from, lemma_flatten_count,
    lemma_flatten_count_from, node_id_ref, visible_count, visible_count_from,
};

verus! {

/// Depth entries inside the flattening of child `i` reappear in the
/// flattening from child `j` at the offset of everything in between.
pub proof fn lemma_depths_suffix_index(
    node: RemoteDiagnosticsNode,
    s: Set<Seq<char>>,
    d: nat,
    j: int,
    i: int,
    k: int,
)
    requires
        0 <= j <= i < node.spec_children().len(),
        0 <= k < flat_depths(node.spec_children()[i], s, (d + 1) as nat).len(),
    ensures
        flat_depths_from(node, s, d, j)[visible_count_from(node, s, j) - visible_count_from(
            node,
            s,
            i,
        ) + k] == flat_depths(node.spec_children()[i], s, (d + 1) as nat)[k],
    decreases i - j,
{
    lemma_depths_count(node.spec_children()[j], s, (d + 1) as nat);
    lemma_depths_count_from(node, s, d, j + 1);
    assert(flat_depths_from(node, s, d, j) == flat_depths(node.spec_children()[j], s, (d + 1) as nat)
        + flat_depths_from(node, s, d, j + 1));
    assert(visible_count_from(node, s, j) == visible_count(node.spec_children()[j], s)
        + visible_count_from(node, s, j + 1));
    if j == i {
    } else {
        lemma_counts_mono(node, s, j + 1, i);
        lemma_depths_suffix_index(node, s, d, j + 1, i, k);
        lemma_flatten_count(node.spec_children()[i], s);
        lemma_depths_count(node.spec_children()[i], s, (d + 1) as nat);
        assert(visible_count_from(node, s, i) == visible_count(node.spec_children()[i], s)
            + visible_count_from(node, s, i + 1));
        let a = flat_depths(node.spec_children()[j], s, (d + 1) as nat);
        let b = flat_depths_from(node, s, d, j + 1);
        let idx = visible_count_from(node, s, j) - visible_count_from(node, s, i) + k;
        assert(idx - a.len() == visible_count_from(node, s, j + 1) - visible_count_from(
            node,
            s,
            i,
        ) + k);
        assert((a + b)[idx] == b[idx - a.len()]);
    }
}

/// Walks the flattened view for the depth of the row at `target_index`; the
/// subtree's root sits at depth `depth`.
pub fn find_depth_at_index(
    node: &RemoteDiagnosticsNode,
    expanded_ids: &IdSet,
    target_index: usize,
    current_index: &mut usize,
    depth: usize,
) -> (r: Option<usize>)
    requires
        *old(current_index) + visible_count(*node, expanded_ids@) <= usize::MAX,
        depth + subtree_size(*node) <= usize::MAX,
    ensures
        match r {
            Some(dep) => {
                &&& *old(current_index) <= target_index
                &&& target_index - *old(current_index) < flat_depths(
                    *node,
                    expanded_ids@,
                    depth as nat,
                ).len()
                &&& dep == flat_depths(*node, expanded_ids@, depth as nat)[target_index - *old(
                    current_index,
                )]
                &&& *final(current_index) == target_index
            },
            None => {
                &&& !(*old(current_index) <= target_index < *old(current_index) + visible_count(
                    *node,
                    expanded_ids@,
                ))
                &&& *final(current_index) == *old(current_index) + visible_count(
                    *node,
                    expanded_ids@,
                )
            },
        },
    decreases *node,
{
    let ghost s = expanded_ids@;
    let ghost start = *current_index;
    let ghost d = depth as nat;
    proof {
        lemma_depths_count(*node, s, d);
    }
    if *current_index == target_index {
        return Some(depth);
    }
    *current_index += 1;
    if is_expanded(node, expanded_ids) {
        if let Some(children) = &node.children {
            let n = children.len();
            let mut i: usize = 0;
            while i < n
                invariant
                    n == children@.len(),
                    i <= n,
                    children@ == node.spec_children(),
                    is_expanded_spec(*node, s),
                    s == expanded_ids@,
                    d == depth as nat,
                    start == *old(current_index),
                    start + visible_count(*node, s) <= usize::MAX,
                    depth + subtree_size(*node) <= usize::MAX,
                    visible_count_from(*node, s, i as int) <= visible_count_from(*node, s, 0),
                    *current_index == start + 1 + (visible_count_from(*node, s, 0)
                        - visible_count_from(*node, s, i as int)),
                    !(start <= target_index < *current_index),
                    flat_depths(*node, s, d).len() == visible_count(*node, s),
                decreases n - i,
            {
                let ghost base = *current_index;
                proof {
                    crate::render::lemma_child_size(*node, i as int);
                    lemma_depths_count(node.spec_children()[i as int], s, d + 1);
                    lemma_flatten_count(node.spec_children()[i as int], s);
                    lemma_flatten_count_from(*node, s, i as int);
                    lemma_flatten_count_from(*node, s, i + 1);
                }
                let found = find_depth_at_index(
                    &children[i],
                    expanded_ids,
                    target_index,
                    current_index,
                    depth + 1,
                );
                if let Some(dep) = found {
                    proof {
                        let k = target_index - base;
                        assert(visible_count_from(*node, s, i as int) == visible_count(
                            node.spec_children()[i as int],
                            s,
                        ) + visible_count_from(*node, s, i + 1));
                        lemma_depths_suffix_index(*node, s, d, 0, i as int, k);
                        assert(visible_count_from(*node, s, 0) - visible_count_from(
                            *node,
                            s,
                            i as int,
                        ) + k == target_index - start - 1);
                        assert(flat_depths(*node, s, d) == seq![d] + flat_depths_from(
                            *node,
                            s,
                            d,
                            0,
                        ));
                        assert(flat_depths(*node, s, d)[target_index - start] == flat_depths_from(
                            *node,
                            s,
                            d,
                            0,
                        )[target_index - start - 1]);
                    }
                    return Some(dep);
                }
                i += 1;
                proof {
                    lemma_counts_mono(*node, s, 0, i as int);
                }
            }
        }
    }
    None
}

/// Walks the flattened view for the first row whose node carries the given
/// identity.
pub fn find_visible_index_of_id_rec(
    node: &RemoteDiagnosticsNode,
    expanded_ids: &IdSet,
    target_id: &str,
    current_index: &mut usize,
) -> (r: Option<usize>)
    requires
        *old(current_index) + visible_count(*node, expanded_ids@) <= usize::MAX,
    ensures
        match r {
            Some(found) => {
                &&& found >= *old(current_index)
                &&& found - *old(current_index) < flat_nodes(*node, expanded_ids@).len()
                &&& flat_nodes(*node, expanded_ids@)[found - *old(current_index)].spec_id()
                    == Some(target_id@)
                &&& forall|m: int|
                    0 <= m < found - *old(current_index) ==> flat_nodes(*node, expanded_ids@)[m].spec_id()
                        != Some(target_id@)
                &&& *final(current_index) == found
            },
            None => {
                &&& forall|m: int|
                    0 <= m < flat_nodes(*node, expanded_ids@).len() ==> flat_nodes(
                        *node,
                        expanded_ids@,
                    )[m].spec_id() != Some(target_id@)
                &&& *final(current_index) == *old(current_index) + visible_count(
                    *node,
                    expanded_ids@,
                )
            },
        },
    decreases *node,
{
    let ghost s = expanded_ids@;
    let ghost start = *current_index;
    proof {
        lemma_flatten_count(*node, s);
    }
    let id_matches = match node_id_ref(node) {
        Some(id) => str_eq(id.as_str(), target_id),
        None => false,
    };
    proof {
        if is_expanded_spec(*node, s) {
            assert(flat_nodes(*node, s) == seq![*node] + flat_nodes_from(*node, s, 0));
        } else {
            assert(flat_nodes(*node, s) == seq![*node]
                + Seq::<RemoteDiagnosticsNode>::empty());
        }
        assert(flat_nodes(*node, s)[0] == *node);
    }
    if id_matches {
        return Some(*current_index);
    }
    *current_index += 1;
    if is_expanded(node, expanded_ids) {
        if let Some(children) = &node.children {
            let n = children.len();
            let mut i: usize = 0;
            while i < n
                invariant
                    n == children@.len(),
                    i <= n,
                    children@ == node.spec_children(),
                    is_expanded_spec(*node, s),
                    s == expanded_ids@,
                    start == *old(current_index),
                    start + visible_count(*node, s) <= usize::MAX,
                    visible_count_from(*node, s, i as int) <= visible_count_from(*node, s, 0),
                    *current_index == start + 1 + (visible_count_from(*node, s, 0)
                        - visible_count_from(*node, s, i as int)),
                    flat_nodes(*node, s).len() == visible_count(*node, s),
                    flat_nodes(*node, s)[0].spec_id() != Some(target_id@),
                    forall|m: int|
                        0 <= m < *current_index - start ==> flat_nodes(*node, s)[m].spec_id()
                            != Some(target_id@),
                decreases n - i,
            {
                let ghost base = *current_index;
                proof {
                    lemma_flatten_count(node.spec_children()[i as int], s);
                    lemma_flatten_count_from(*node, s, i as int);
                    lemma_flatten_count_from(*node, s, i + 1);
                    assert(visible_count_from(*node, s, i as int) == visible_count(
                        node.spec_children()[i as int],
                        s,
                    ) + visible_count_from(*node, s, i + 1));
                }
                let found = find_visible_index_of_id_rec(
                    &children[i],
                    expanded_ids,
                    target_id,
                    current_index,
                );
                if let Some(f) = found {
                    proof {
                        let k = f - base;
                        crate::tree_nav::lemma_suffix_index(*node, s, 0, i as int, k);
                        assert(flat_nodes(*node, s) == seq![*node] + flat_nodes_from(*node, s, 0));
                        assert(visible_count_from(*node, s, 0) - visible_count_from(
                            *node,
                            s,
                            i as int,
                        ) + k == f - start - 1);
                        assert(flat_nodes(*node, s)[f - start] == flat_nodes_from(
                            *node,
                            s,
                            0,
                        )[f - start - 1]);
                        assert forall|m: int|
                            0 <= m < f - start implies flat_nodes(*node, s)[m].spec_id() != Some(
                            target_id@,
                        ) by {
                            if m >= base - start {
                                let km = m - (base - start);
                                crate::tree_nav::lemma_suffix_index(*node, s, 0, i as int, km);
                                assert(flat_nodes(*node, s)[m] == flat_nodes_from(
                                    *node,
                                    s,
                                    0,
                                )[m - 1]);
                                assert(flat_nodes_from(*node, s, 0)[visible_count_from(
                                    *node,
                                    s,
                                    0,
                                ) - visible_count_from(*node, s, i as int) + km] == flat_nodes(
                                    node.spec_children()[i as int],
                                    s,
                                )[km]);
                            }
                        }
                    }
                    return Some(f);
                }
                i += 1;
                proof {
                    lemma_counts_mono(*node, s, 0, i as int);
                    assert forall|m: int|
                        0 <= m < *current_index - start implies flat_nodes(*node, s)[m].spec_id()
                        != Some(target_id@) by {
                        if m >= base - start {
                            let km = m - (base - start);
                            crate::tree_nav::lemma_suffix_index(*node, s, 0, (i - 1) as int, km);
                            assert(flat_nodes(*node, s)[m] == flat_nodes_from(*node, s, 0)[m - 1]);
                        }
                    }
                }
            }
        }
    }
    proof {
        assert forall|m: int|
            0 <= m < flat_nodes(*node, s).len() implies flat_nodes(*node, s)[m].spec_id() != Some(
            target_id@,
        ) by {}
    }
    None
}

/// The identities of the proper ancestors of the first node (in pre-order
/// over nodes with identities) that carries `target`; `None` when no such
/// node is reachable through identified ancestors.
pub open spec fn spec_path(node: RemoteDiagnosticsNode, target: Seq<char>) -> Option<
    Seq<Seq<char>>,
>
    decreases node, 1int, 0int,
{
    match node.spec_id() {
        None => None,
        Some(nid) => if nid == target {
            Some(Seq::empty())
        } else {
            match spec_path_from(node, target, 0) {
                Some(p) => Some(seq![nid] + p),
                None => None,
            }
        },
    }
}

pub open spec fn spec_path_from(node: RemoteDiagnosticsNode, target: Seq<char>, i: int) -> Option<
    Seq<Seq<char>>,
>
    decreases node, 0int, node.spec_children().len() - i,
{
    if 0 <= i < node.spec_children().len() {
        match spec_path(node.spec_children()[i], target) {
            Some(p) => Some(p),
            None => spec_path_from(node, target, i + 1),
        }
    } else {
        None
    }
}

/// Once every identity on the path is in the expansion set, a node carrying
/// the target identity shows in the flattened view.
pub proof fn lemma_path_visible(node: RemoteDiagnosticsNode, s: Set<Seq<char>>, target: Seq<char>)
    requires
        spec_path(node, target) is Some,
        forall|q: Seq<char>| spec_path(node, target).unwrap().contains(q) ==> s.contains(q),
    ensures
        exists|k: int|
            0 <= k < flat_nodes(node, s).len() && #[trigger] flat_nodes(node, s)[k].spec_id()
                == Some(target),
    decreases node, 1int, 0int,
{
    let nid = node.spec_id().unwrap();
    let p = spec_path(node, target).unwrap();
    if nid == target {
        if is_expanded_spec(node, s) {
            assert(flat_nodes(node, s) == seq![node] + flat_nodes_from(node, s, 0));
        } else {
            assert(flat_nodes(node, s) == seq![node] + Seq::<RemoteDiagnosticsNode>::empty());
        }
        assert(flat_nodes(node, s)[0] == node);
        assert(flat_nodes(node, s)[0].spec_id() == Some(target));
    } else {
        let p_rest = spec_path_from(node, target, 0).unwrap();
        assert(p == seq![nid] + p_rest);
        assert(p.contains(nid)) by {
            assert(p[0] == nid);
        }
        assert(s.contains(nid));
        assert(is_expanded_spec(node, s));
        assert forall|q: Seq<char>| p_rest.contains(q) implies s.contains(q) by {
            let m = choose|m: int| 0 <= m < p_rest.len() && p_rest[m] == q;
            assert(p[m + 1] == q);
            assert(p.contains(q));
        }
        lemma_path_visible_from(node, s, target, 0);
        let k = choose|k: int|
            0 <= k < flat_nodes_from(node, s, 0).len() && #[trigger] flat_nodes_from(
                node,
                s,
                0,
            )[k].spec_id() == Some(target);
        assert(flat_nodes(node, s) == seq![node] + flat_nodes_from(node, s, 0));
        assert(flat_nodes(node, s)[k + 1] == flat_nodes_from(node, s, 0)[k]);
    }
}

pub proof fn lemma_path_visible_from(
    node: RemoteDiagnosticsNode,
    s: Set<Seq<char>>,
    target: Seq<char>,
    i: int,
)
    requires
        spec_path_from(node, target, i) is Some,
        forall|q: Seq<char>| spec_path_from(node, target, i).unwrap().contains(q) ==> s.contains(q),
    ensures
        exists|k: int|
            0 <= k < flat_nodes_from(node, s, i).len() && #[trigger] flat_nodes_from(
                node,
                s,
                i,
            )[k].spec_id() == Some(target),
    decreases node, 0int, node.spec_children().len() - i,
{
    let child = node.spec_children()[i];
    if spec_path(child, target) is Some {
        lemma_path_visible(child, s, target);
        let k = choose|k: int|
            0 <= k < flat_nodes(child, s).len() && #[trigger] flat_nodes(child, s)[k].spec_id()
                == Some(target);
        assert(flat_nodes_from(node, s, i) == flat_nodes(child, s) + flat_nodes_from(
            node,
            s,
            i + 1,
        ));
        assert(flat_nodes_from(node, s, i)[k] == flat_nodes(child, s)[k]);
    } else {
        lemma_path_visible_from(node, s, target, i + 1);
        let k = choose|k: int|
            0 <= k < flat_nodes_from(node, s, i + 1).len() && #[trigger] flat_nodes_from(
                node,
                s,
                i + 1,
            )[k].spec_id() == Some(target);
        assert(flat_nodes_from(node, s, i) == flat_nodes(child, s) + flat_nodes_from(
            node,
            s,
            i + 1,
        ));
        let kk = flat_nodes(child, s).len() + k;
        assert(flat_nodes_from(node, s, i)[kk] == flat_nodes_from(node, s, i + 1)[k]);
    }
}

/// Collects onto `path` the identities of the ancestors leading to the first
/// node that carries `target_id`; leaves `path` unchanged and returns false
/// when no identified path reaches one.
pub fn find_path_to_node(
    node: &RemoteDiagnosticsNode,
    target_id: &str,
    path: &mut Vec<String>,
) -> (r: bool)
    ensures
        r == (spec_path(*node, target_id@) is Some),
        r ==> {
            let p = spec_path(*node, target_id@).unwrap();
            &&& final(path)@.len() == old(path)@.len() + p.len()
            &&& final(path)@.subrange(0, old(path)@.len() as int) == old(path)@
            &&& forall|k: int|
                0 <= k < p.len() ==> final(path)@[old(path)@.len() + k]@ == p[k]
        },
        !r ==> final(path)@ == old(path)@,
    decreases *node,
{
    let ghost t = target_id@;
    let id = match node_id_ref(node) {
        Some(id) => id,
        None => {
            return false;
        },
    };
    if str_eq(id.as_str(), target_id) {
        proof {
            assert(final(path)@.subrange(0, old(path)@.len() as int) =~= old(path)@);
        }
        return true;
    }
    let ghost nid = node.spec_id().unwrap();
    path.push(id.clone());
    if let Some(children) = &node.children {
        let n = children.len();
        let mut i: usize = 0;
        while i < n
            invariant
                n == children@.len(),
                i <= n,
                children@ == node.spec_children(),
                node.spec_id() == Some(nid),
                nid != t,
                t == target_id@,
                path@.len() == old(path)@.len() + 1,
                path@.subrange(0, old(path)@.len() as int) == old(path)@,
                path@[old(path)@.len() as int]@ == nid,
                spec_path_from(*node, t, 0) == spec_path_from(*node, t, i as int),
            decreases n - i,
        {
            let found = find_path_to_node(&children[i], target_id, path);
            if found {
                proof {
                    let p_child = spec_path(node.spec_children()[i as int], t).unwrap();
                    assert(spec_path_from(*node, t, i as int) == Some(p_child));
                    let p = spec_path(*node, t).unwrap();
                    assert(p == seq![nid] + p_child);
                    assert(final(path)@.subrange(0, old(path)@.len() as int) =~= old(path)@) by {
                        assert(path@.subrange(0, old(path)@.len() + 1 as int) == old(path)@ + seq![
                            path@[old(path)@.len() as int],
                        ]);
                    }
                    assert forall|k: int| 0 <= k < p.len() implies path@[old(path)@.len() + k]@
                        == p[k] by {
                        if k == 0 {
                            assert(path@.subrange(0, old(path)@.len() + 1 as int)[old(path)@.len() as int]
                                == path@[old(path)@.len() as int]);
                        }
                    }
                }
                return true;
            }
            i += 1;
        }
    }
    let _popped = path.pop();
    proof {
        assert(final(path)@ =~= old(path)@);
    }
    false
}

} // verus!
