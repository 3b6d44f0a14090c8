//! Fuzzy search over the widget tree. Every node whose description or
//! runtime type matches the query contributes its identity, in pre-order;
//! next/previous wrap around, and jumping to a match expands its ancestor
//! path and scrolls it into view.

use vstd::prelude::*;
use crate::app_state::{cap_usize, views_of, AppState};
use crate::node::RemoteDiagnosticsNode;
use crate::tree_nav::{flat_depths, lemma_flatten_count, lemma_vis_le_size};
use crate::walk::spec_path;

verus! {

/// The score fuzzy_matcher's default skim matcher assigns to `choice`
/// against `pattern`; no match, no score.
pub uninterp spec fn fuzzy_score_of(choice: Seq<char>, pattern: Seq<char>) -> Option<i64>;

/// Relies on fuzzy_matcher's `SkimMatcherV2::fuzzy_match` with the default
/// configuration: the score is a function of the two strings alone.
#[verifier::external_body]
fn fuzzy_score(choice: &str, pattern: &str) -> (r: Option<i64>)
    ensures
        r == fuzzy_score_of(choice@, pattern@),
{
    fuzzy_matcher::FuzzyMatcher::fuzzy_match(
        &fuzzy_matcher::skim::SkimMatcherV2::default(),
        choice,
        pattern,
    )
}

/// A node matches when its description or its widget runtime type scores
/// against the query.
pub open spec fn node_matches(node: RemoteDiagnosticsNode, q: Seq<char>) -> bool {
    ||| (node.description is Some && fuzzy_score_of(node.description.unwrap()@, q) is Some)
    ||| (node.widget_runtime_type is Some && fuzzy_score_of(
        node.widget_runtime_type.unwrap()@,
        q,
    ) is Some)
}

/// The identities of matching nodes in the subtree, in pre-order; nodes
/// without an identity match silently.
pub open spec fn search_ids(node: RemoteDiagnosticsNode, q: Seq<char>) -> Seq<Seq<char>>
    decreases node, 1int, 0int,
{
    (if node_matches(node, q) && node.spec_id() is Some {
        seq![node.spec_id().unwrap()]
    } else {
        Seq::empty()
    }) + search_ids_from(node, q, 0)
}

pub open spec fn search_ids_from(node: RemoteDiagnosticsNode, q: Seq<char>, i: int) -> Seq<
    Seq<char>,
>
    decreases node, 0int, node.spec_children().len() - i,
{
    if 0 <= i < node.spec_children().len() {
        search_ids(node.spec_children()[i], q) + search_ids_from(node, q, i + 1)
    } else {
        Seq::empty()
    }
}

/// The identities collected from the first `j` children's subtrees.
pub open spec fn search_ids_prefix(node: RemoteDiagnosticsNode, q: Seq<char>, j: int) -> Seq<
    Seq<char>,
>
    decreases j,
{
    if j <= 0 {
        Seq::empty()
    } else {
        search_ids_prefix(node, q, j - 1) + search_ids(node.spec_children()[j - 1], q)
    }
}

proof fn lemma_search_prefix(node: RemoteDiagnosticsNode, q: Seq<char>, j: int)
    requires
        0 <= j <= node.spec_children().len(),
    ensures
        search_ids_prefix(node, q, j) + search_ids_from(node, q, j) =~= search_ids_from(
            node,
            q,
            0,
        ),
    decreases j,
{
    if j > 0 {
        lemma_search_prefix(node, q, j - 1);
        assert(search_ids_prefix(node, q, j) + search_ids_from(node, q, j) =~= search_ids_prefix(
            node,
            q,
            j - 1,
        ) + (search_ids(node.spec_children()[j - 1], q) + search_ids_from(node, q, j)));
    }
}

/// Collects onto `results` the identities of the nodes under `node` that
/// match `query`, in pre-order.
pub fn search_recursive(node: &RemoteDiagnosticsNode, query: &str, results: &mut Vec<String>)
    ensures
        views_of(final(results)@) == views_of(old(results)@) + search_ids(*node, query@),
    decreases *node,
{
    let ghost q = query@;
    let mut match_found = false;
    match &node.description {
        Some(desc) => {
            if fuzzy_score(desc.as_str(), query).is_some() {
                match_found = true;
            }
        },
        None => {},
    }
    if !match_found {
        match &node.widget_runtime_type {
            Some(w_type) => {
                if fuzzy_score(w_type.as_str(), query).is_some() {
                    match_found = true;
                }
            },
            None => {},
        }
    }
    if match_found {
        match crate::tree_nav::node_id_ref(node) {
            Some(id) => {
                results.push(id.clone());
            },
            None => {},
        }
    }
    let ghost head = views_of(results@);
    proof {
        assert(head =~= views_of(old(results)@) + (if node_matches(*node, q) && node.spec_id()
            is Some {
            seq![node.spec_id().unwrap()]
        } else {
            Seq::<Seq<char>>::empty()
        }));
    }
    if let Some(children) = &node.children {
        let n = children.len();
        let mut i: usize = 0;
        while i < n
            invariant
                n == children@.len(),
                i <= n,
                children@ == node.spec_children(),
                q == query@,
                head == views_of(old(results)@) + (if node_matches(*node, q) && node.spec_id()
                    is Some {
                    seq![node.spec_id().unwrap()]
                } else {
                    Seq::<Seq<char>>::empty()
                }),
                views_of(results@) == head + search_ids_prefix(*node, q, i as int),
            decreases n - i,
        {
            let ghost before = views_of(results@);
            search_recursive(&children[i], query, results);
            i += 1;
            proof {
                assert(views_of(results@) =~= head + search_ids_prefix(*node, q, i as int)) by {
                    assert(search_ids_prefix(*node, q, i as int) =~= search_ids_prefix(
                        *node,
                        q,
                        i - 1,
                    ) + search_ids(node.spec_children()[i - 1], q));
                    assert(views_of(results@) =~= before + search_ids(
                        node.spec_children()[i - 1],
                        q,
                    ));
                }
            }
        }
        proof {
            lemma_search_prefix(*node, q, n as int);
            assert(views_of(results@) =~= views_of(old(results)@) + search_ids(*node, q));
        }
        return;
    }
    proof {
        assert(views_of(results@) =~= views_of(old(results)@) + search_ids(*node, q));
    }
}

impl AppState {
    /// The expansion set after jumping to the match with identity `id`.
    pub open spec fn jump_expansion(pre: AppState, id: Seq<char>) -> Set<Seq<char>> {
        match pre.root_node {
            Some(root) => match spec_path(root, id) {
                Some(p) => pre.exp().union(p.to_set()),
                None => pre.exp(),
            },
            None => pre.exp(),
        }
    }

    /// What jumping to the match with identity `id` does to `pre`, besides
    /// the caller's own bookkeeping: the ancestor path of the identity is
    /// expanded; if a row then carries it, the selection lands on the first
    /// such row, scrolled in with three rows of context above and six
    /// columns of slack to the left.
    pub open spec fn jump_effect(pre: AppState, post: AppState, id: Seq<char>) -> bool {
        let expd = Self::jump_expansion(pre, id);
        &&& post == (AppState {
            expanded_ids: post.expanded_ids,
            selected_index: post.selected_index,
            tree_scroll_offset: post.tree_scroll_offset,
            tree_horizontal_scroll: post.tree_horizontal_scroll,
            ..pre
        })
        &&& post.exp() =~= expd
        &&& match pre.root_node {
            None => {
                &&& post.selected_index == pre.selected_index
                &&& post.tree_scroll_offset == pre.tree_scroll_offset
                &&& post.tree_horizontal_scroll == pre.tree_horizontal_scroll
            },
            Some(root) => {
                if exists|k: int|
                    0 <= k < crate::tree_nav::flat_nodes(root, expd).len()
                        && #[trigger] crate::tree_nav::flat_nodes(root, expd)[k].spec_id() == Some(
                        id,
                    ) {
                    let k = choose|k: int|
                        0 <= k < crate::tree_nav::flat_nodes(root, expd).len()
                            && #[trigger] crate::tree_nav::flat_nodes(root, expd)[k].spec_id()
                            == Some(id) && (forall|m: int|
                            0 <= m < k ==> crate::tree_nav::flat_nodes(root, expd)[m].spec_id()
                                != Some(id));
                    &&& post.selected_index == k
                    &&& post.tree_scroll_offset == (if k >= 3 {
                        k - 3
                    } else {
                        0int
                    })
                    &&& post.tree_horizontal_scroll == cap_usize(
                        cap_usize(2 * (flat_depths(root, expd, 0)[k] as int)) - 6,
                    )
                } else {
                    &&& post.selected_index == pre.selected_index
                    &&& post.tree_scroll_offset == pre.tree_scroll_offset
                    &&& post.tree_horizontal_scroll == pre.tree_horizontal_scroll
                }
            },
        }
    }

    /// Expands the path to the match at `match_index` and scrolls it into
    /// view; an index past the matches changes nothing.
    #[verifier::rlimit(60)]
    pub fn jump_to_match(&mut self, match_index: usize)
        requires
            old(self).wf(),
        ensures
            final(self).wf(),
            match_index < old(self).search_results@.len() ==> Self::jump_effect(
                *old(self),
                *final(self),
                old(self).search_results@[match_index as int]@,
            ),
            match_index >= old(self).search_results@.len() ==> *final(self) == *old(self),
    {
        if match_index >= self.search_results.len() {
            return;
        }
        let id = self.search_results[match_index].clone();
        self.expand_path_to_node(id.as_str());
        match self.get_visible_index_of_id(id.as_str()) {
            Some(index) => {
                self.selected_index = index;
                proof {
                    if self.root_node is Some {
                        lemma_flatten_count(self.root_node.unwrap(), self.exp());
                    }
                }
                if index >= 3 {
                    self.tree_scroll_offset = index - 3;
                } else {
                    self.tree_scroll_offset = 0;
                }
                let depth = self.get_selected_depth();
                let start: usize = if depth <= usize::MAX / 2 {
                    depth * 2
                } else {
                    usize::MAX
                };
                self.tree_horizontal_scroll = if start >= 6 {
                    start - 6
                } else {
                    0
                };
            },
            None => {
                proof {
                    if self.root_node is Some {
                        let root = self.root_node.unwrap();
                        assert(old(self).exp().subset_of(self.exp()));
                        lemma_vis_le_size(root, self.exp());
                        crate::tree_nav::lemma_vis_monotone(root, old(self).exp(), self.exp());
                    }
                }
            },
        }
    }

    /// Re-runs the fuzzy search for the current query and jumps to the first
    /// match. An empty query yields no matches and moves nothing.
    pub fn perform_search(&mut self)
        requires
            old(self).wf(),
        ensures
            final(self).wf(),
            old(self).search_query@.len() == 0 ==> {
                &&& final(self).search_results@.len() == 0
                &&& final(self).current_match_index == 0
                &&& final(self).selected_index == old(self).selected_index
                &&& final(self).tree_scroll_offset == old(self).tree_scroll_offset
                &&& final(self).exp() == old(self).exp()
                &&& *final(self) == (AppState {
                    search_results: final(self).search_results,
                    current_match_index: 0,
                    ..*old(self)
                })
            },
            old(self).search_query@.len() > 0 ==> {
                let ids = match old(self).root_node {
                    Some(root) => search_ids(root, old(self).search_query@),
                    None => Seq::<Seq<char>>::empty(),
                };
                &&& views_of(final(self).search_results@) == ids
                &&& final(self).current_match_index == 0
                &&& (ids.len() == 0 ==> *final(self) == (AppState {
                    search_results: final(self).search_results,
                    current_match_index: 0,
                    ..*old(self)
                }))
                &&& (ids.len() > 0 ==> Self::jump_effect(
                    (AppState {
                        search_results: final(self).search_results,
                        current_match_index: 0,
                        ..*old(self)
                    }),
                    *final(self),
                    ids[0],
                ))
            },
    {
        self.search_results = Vec::new();
        self.current_match_index = 0;
        if self.search_query.as_str().is_empty() {
            return;
        }
        let mut results: Vec<String> = Vec::new();
        match &self.root_node {
            Some(root) => {
                search_recursive(root, self.search_query.as_str(), &mut results);
            },
            None => {},
        }
        self.search_results = results;
        if self.search_results.len() > 0 {
            self.jump_to_match(0);
        }
    }

    /// Steps to the next match, wrapping past the last one.
    pub fn next_match(&mut self)
        requires
            old(self).wf(),
        ensures
            final(self).wf(),
            old(self).search_results@.len() == 0 ==> *final(self) == *old(self),
            old(self).search_results@.len() > 0 ==> {
                let mi = (old(self).current_match_index + 1) % old(self).search_results@.len()
                    as int;
                &&& final(self).current_match_index == mi
                &&& Self::jump_effect(
                    (AppState { current_match_index: final(self).current_match_index, ..*old(self) }),
                    *final(self),
                    old(self).search_results@[mi]@,
                )
            },
    {
        if self.search_results.len() == 0 {
            return;
        }
        self.current_match_index = (self.current_match_index + 1) % self.search_results.len();
        self.jump_to_match(self.current_match_index);
    }

    /// Steps to the previous match, wrapping before the first one.
    pub fn prev_match(&mut self)
        requires
            old(self).wf(),
        ensures
            final(self).wf(),
            old(self).search_results@.len() == 0 ==> *final(self) == *old(self),
            old(self).search_results@.len() > 0 ==> {
                let mi = (if old(self).current_match_index == 0 {
                    old(self).search_results@.len() - 1
                } else {
                    old(self).current_match_index - 1
                });
                &&& final(self).current_match_index == mi
                &&& Self::jump_effect(
                    (AppState { current_match_index: final(self).current_match_index, ..*old(self) }),
                    *final(self),
                    old(self).search_results@[mi]@,
                )
            },
    {
        if self.search_results.len() == 0 {
            return;
        }
        if self.current_match_index == 0 {
            self.current_match_index = self.search_results.len() - 1;
        } else {
            self.current_match_index = self.current_match_index - 1;
        }
        self.jump_to_match(self.current_match_index);
    }
}

} // verus!
