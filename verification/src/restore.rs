//! Tree refresh with selection preservation, and parent/child navigation.
//! When a fresh tree arrives, the previously selected node's identity is
//! looked up again: if a path of identified ancestors reaches it, they are
//! all expanded and the selection moves to its new row; otherwise the view
//! resets to the top.

use vstd::prelude::*;
use crate::app_state::AppState;
use crate::idset::IdSet;
use crate::node::{subtree_size, RemoteDiagnosticsNode};
use crate::tree_nav::{
    flat_depths, flat_nodes, lemma_flatten_count, lemma_vis_le_size, visible_count,
};
use crate::walk::{find_depth_at_index, find_path_to_node, find_visible_index_of_id_rec, spec_path};
use crate::app_state::views_of;

verus! {

impl IdSet {
    /// Inserts every string of `ids`.
    pub fn insert_all(&mut self, ids: &Vec<String>)
        requires
            old(self).wf(),
        ensures
            final(self).wf(),
            final(self)@ =~= old(self)@.union(views_of(ids@).to_set()),
    {
        let n = ids.len();
        let mut i: usize = 0;
        while i < n
            invariant
                n == ids@.len(),
                i <= n,
                self.wf(),
                self@ =~= old(self)@.union(views_of(ids@).take(i as int).to_set()),
            decreases n - i,
        {
            let ghost before = self@;
            self.insert(ids[i].clone());
            i += 1;
            proof {
                assert(self@ =~= old(self)@.union(views_of(ids@).take(i as int).to_set())) by {
                    assert(self@ =~= before.insert(ids@[i - 1]@));
                    assert forall|q: Seq<char>|
                        views_of(ids@).take(i as int).to_set().contains(q) implies self@.contains(
                        q,
                    ) by {
                        let m = choose|m: int|
                            0 <= m < i && #[trigger] views_of(ids@).take(i as int)[m] == q;
                        if m < i - 1 {
                            assert(views_of(ids@).take(i - 1)[m] == q);
                            assert(views_of(ids@).take(i - 1).contains(q));
                        } else {
                            assert(views_of(ids@)[i - 1] == q);
                        }
                    }
                    assert forall|q: Seq<char>|
                        views_of(ids@).take(i - 1).to_set().contains(q) implies views_of(
                        ids@,
                    ).take(i as int).to_set().contains(q) by {
                        let m = choose|m: int|
                            0 <= m < i - 1 && #[trigger] views_of(ids@).take(i - 1)[m] == q;
                        assert(views_of(ids@).take(i as int)[m] == q);
                    }
                    assert(views_of(ids@).take(i as int).contains(ids@[i - 1]@)) by {
                        assert(views_of(ids@).take(i as int)[i - 1] == ids@[i - 1]@);
                    }
                }
            }
        }
        proof {
            assert(views_of(ids@).take(n as int) =~= views_of(ids@));
        }
    }
}

impl AppState {
    /// Expands every identified ancestor on the path to the first node that
    /// carries `target_id`, so that node becomes visible; no identified path,
    /// no change.
    pub fn expand_path_to_node(&mut self, target_id: &str)
        requires
            old(self).wf_rest(),
        ensures
            final(self).wf_rest(),
            match old(self).root_node {
                Some(root) => match spec_path(root, target_id@) {
                    Some(p) => {
                        &&& final(self).exp() =~= old(self).exp().union(p.to_set())
                        &&& *final(self) == (AppState {
                            expanded_ids: final(self).expanded_ids,
                            ..*old(self)
                        })
                    },
                    None => *final(self) == *old(self),
                },
                None => *final(self) == *old(self),
            },
    {
        let mut path: Vec<String> = Vec::new();
        let found = match &self.root_node {
            Some(root) => find_path_to_node(root, target_id, &mut path),
            None => {
                return;
            },
        };
        if found {
            proof {
                let root = self.root_node.unwrap();
                let p = spec_path(root, target_id@).unwrap();
                assert(views_of(path@) =~= p);
            }
            self.expanded_ids.insert_all(&path);
        }
    }

    /// The row index of the first visible node that carries `target_id`.
    pub fn get_visible_index_of_id(&self, target_id: &str) -> (r: Option<usize>)
        requires
            match self.root_node {
                Some(root) => subtree_size(root) <= usize::MAX,
                None => true,
            },
        ensures
            match r {
                Some(k) => {
                    &&& self.root_node is Some
                    &&& k < self.flat().len()
                    &&& self.flat()[k as int].spec_id() == Some(target_id@)
                    &&& forall|m: int|
                        0 <= m < k ==> self.flat()[m].spec_id() != Some(target_id@)
                },
                None => forall|m: int|
                    0 <= m < self.flat().len() ==> self.flat()[m].spec_id() != Some(target_id@),
            },
    {
        match &self.root_node {
            Some(root) => {
                proof {
                    lemma_vis_le_size(*root, self.exp());
                    lemma_flatten_count(*root, self.exp());
                }
                let mut current_index: usize = 0;
                find_visible_index_of_id_rec(root, &self.expanded_ids, target_id, &mut current_index)
            },
            None => None,
        }
    }

    /// After a restore, scroll so the selection shows with three rows of
    /// context above it.
    fn ensure_selection_visible_after_restore(&mut self)
        ensures
            final(self).tree_scroll_offset == (if old(self).selected_index < old(
                self,
            ).tree_scroll_offset {
                old(self).selected_index as int
            } else if old(self).selected_index >= 3 {
                old(self).selected_index - 3
            } else {
                0int
            }),
            *final(self) == (AppState {
                tree_scroll_offset: final(self).tree_scroll_offset,
                ..*old(self)
            }),
    {
        if self.selected_index < self.tree_scroll_offset {
            self.tree_scroll_offset = self.selected_index;
        } else if self.selected_index >= 3 {
            self.tree_scroll_offset = self.selected_index - 3;
        } else {
            self.tree_scroll_offset = 0;
        }
    }

    /// The expansion set after a refresh with `node` as the new root: the
    /// new root's identity joins the set, and so does every identity on the
    /// ancestor path to the previously selected node's identity, when one is
    /// reachable through identified ancestors.
    pub open spec fn refreshed_expansion(pre: AppState, node: RemoteDiagnosticsNode) -> Set<
        Seq<char>,
    > {
        let exp1 = (match node.spec_id() {
            Some(rid) => pre.exp().insert(rid),
            None => pre.exp(),
        });
        match pre.sel_id() {
            Some(t) => match spec_path(node, t) {
                Some(p) => exp1.union(p.to_set()),
                None => exp1,
            },
            None => exp1,
        }
    }

    /// Selection preservation: when the previously selected node's identity
    /// is reachable in the new tree through identified ancestors, the
    /// refreshed expansion set contains every ancestor identity on that
    /// path, and a node carrying the identity is visible in the new
    /// flattened view — so `set_root_node` lands the selection on its first
    /// visible row rather than resetting.
    pub proof fn lemma_selection_preserved(pre: AppState, node: RemoteDiagnosticsNode)
        requires
            pre.sel_id() is Some,
            spec_path(node, pre.sel_id().unwrap()) is Some,
        ensures
            forall|q: Seq<char>|
                spec_path(node, pre.sel_id().unwrap()).unwrap().contains(q)
                    ==> Self::refreshed_expansion(pre, node).contains(q),
            exists|k: int|
                0 <= k < flat_nodes(node, Self::refreshed_expansion(pre, node)).len()
                    && #[trigger] flat_nodes(node, Self::refreshed_expansion(pre, node))[k].spec_id()
                    == Some(pre.sel_id().unwrap()),
    {
        let t = pre.sel_id().unwrap();
        let p = spec_path(node, t).unwrap();
        let exp2 = Self::refreshed_expansion(pre, node);
        assert forall|q: Seq<char>| p.contains(q) implies exp2.contains(q) by {
            assert(p.to_set().contains(q));
        }
        crate::walk::lemma_path_visible(node, exp2, t);
    }

    /// Installs a fresh tree. The new root's identity is expanded so the
    /// tree never arrives fully collapsed. If the previously selected node's
    /// identity is reachable in the new tree through identified ancestors,
    /// those ancestors are expanded and the selection points at its first
    /// visible row, scrolled into view with three rows of context; if the
    /// identity is not found, selection, scroll and cached details reset.
    #[verifier::rlimit(100)]
    #[verifier::spinoff_prover]
    pub fn set_root_node(&mut self, node: RemoteDiagnosticsNode)
        requires
            old(self).wf(),
            subtree_size(node) <= usize::MAX,
        ensures
            final(self).wf(),
            final(self).root_node == Some(node),
            final(self).exp() =~= Self::refreshed_expansion(*old(self), node),
            *final(self) == (AppState {
                root_node: final(self).root_node,
                expanded_ids: final(self).expanded_ids,
                selected_index: final(self).selected_index,
                tree_scroll_offset: final(self).tree_scroll_offset,
                selected_node_details: final(self).selected_node_details,
                ..*old(self)
            }),
            ({
                let exp2 = Self::refreshed_expansion(*old(self), node);
                match old(self).sel_id() {
                    Some(t) => {
                        if exists|k: int|
                            0 <= k < flat_nodes(node, exp2).len() && #[trigger] flat_nodes(
                                node,
                                exp2,
                            )[k].spec_id() == Some(t) {
                            let k = choose|k: int|
                                0 <= k < flat_nodes(node, exp2).len() && #[trigger] flat_nodes(
                                    node,
                                    exp2,
                                )[k].spec_id() == Some(t) && (forall|m: int|
                                    0 <= m < k ==> flat_nodes(node, exp2)[m].spec_id() != Some(t));
                            &&& final(self).selected_index == k
                            &&& final(self).tree_scroll_offset == (if k < old(
                                self,
                            ).tree_scroll_offset {
                                k
                            } else if k >= 3 {
                                k - 3
                            } else {
                                0int
                            })
                            &&& final(self).selected_node_details == old(self).selected_node_details
                        } else {
                            &&& final(self).selected_index == 0
                            &&& final(self).tree_scroll_offset == 0
                            &&& final(self).selected_node_details is None
                        }
                    },
                    None => {
                        &&& final(self).selected_index == 0
                        &&& final(self).tree_scroll_offset == 0
                        &&& final(self).selected_node_details is None
                    },
                }
            }),
    {
        let selected_id: Option<String> = match self.get_selected_node() {
            Some(n) => Self::get_node_id(n),
            None => None,
        };
        if let Some(rid) = Self::get_node_id(&node) {
            self.expanded_ids.insert(rid);
        }
        self.root_node = Some(node);
        match selected_id {
            Some(id) => {
                self.expand_path_to_node(id.as_str());
                match self.get_visible_index_of_id(id.as_str()) {
                    Some(index) => {
                        self.selected_index = index;
                        self.ensure_selection_visible_after_restore();
                        proof {
                            lemma_flatten_count(
                                self.root_node.unwrap(),
                                self.expanded_ids@,
                            );
                        }
                    },
                    None => {
                        self.selected_index = 0;
                        self.tree_scroll_offset = 0;
                        self.selected_node_details = None;
                    },
                }
            },
            None => {
                self.selected_index = 0;
                self.tree_scroll_offset = 0;
                self.selected_node_details = None;
            },
        }
    }

    /// Moves the selection to the visible parent of the selected row: the
    /// nearest row above it that sits one level shallower.
    #[verifier::rlimit(60)]
    #[verifier::spinoff_prover]
    pub fn select_parent(&mut self)
        requires
            old(self).wf(),
        ensures
            final(self).wf(),
            match old(self).root_node {
                Some(root) => {
                    let ds = flat_depths(root, old(self).exp(), 0);
                    let sel = old(self).selected_index as int;
                    if exists|m: int| 0 <= m < sel && #[trigger] ds[m] + 1 == ds[sel] {
                        let pm = choose|m: int|
                            0 <= m < sel && #[trigger] ds[m] + 1 == ds[sel] && (forall|j: int|
                                m < j < sel ==> ds[j] + 1 != ds[sel]);
                        &&& final(self).selected_index == pm
                        &&& *final(self) == (AppState {
                            selected_index: final(self).selected_index,
                            selected_node_details: None,
                            ..*old(self)
                        })
                    } else {
                        *final(self) == *old(self)
                    }
                },
                None => *final(self) == *old(self),
            },
    {
        let ghost ds: Seq<nat> = if self.root_node is Some {
            flat_depths(self.root_node.unwrap(), self.exp(), 0)
        } else {
            Seq::<nat>::empty()
        };
        if self.root_node.is_none() {
            return;
        }
        let d0 = self.get_selected_depth();
        if d0 == 0 || self.selected_index == 0 {
            proof {
                if self.root_node is Some {
                    let sel = self.selected_index as int;
                    assert forall|m: int| 0 <= m < sel implies #[trigger] ds[m] + 1 != ds[sel]
                        by {}
                }
            }
            return;
        }
        proof {
            crate::tree_nav::lemma_depths_count(self.root_node.unwrap(), self.exp(), 0);
        }
        let sel = self.selected_index;
        let mut m: usize = sel;
        while m > 0
            invariant
                self.wf(),
                *self == *old(self),
                self.root_node is Some,
                ds == flat_depths(self.root_node.unwrap(), self.exp(), 0),
                sel == self.selected_index,
                0 < sel < ds.len(),
                m <= sel,
                d0 == ds[sel as int],
                d0 > 0,
                forall|j: int| m <= j < sel ==> #[trigger] ds[j] + 1 != ds[sel as int],
            decreases m,
        {
            m -= 1;
            let dm = self.depth_at(m);
            if dm == d0 - 1 {
                self.selected_index = m;
                self.selected_node_details = None;
                return;
            }
        }
    }

    /// The depth of the row at `index`.
    fn depth_at(&self, index: usize) -> (r: usize)
        requires
            self.wf(),
            self.root_node is Some,
            index < self.vis(),
        ensures
            r == flat_depths(self.root_node.unwrap(), self.exp(), 0)[index as int],
    {
        match &self.root_node {
            Some(root) => {
                proof {
                    lemma_vis_le_size(*root, self.exp());
                    crate::tree_nav::lemma_depths_count(*root, self.exp(), 0);
                }
                let mut current_index: usize = 0;
                match find_depth_at_index(root, &self.expanded_ids, index, &mut current_index, 0) {
                    Some(depth) => depth,
                    None => {
                        proof {
                            assert(false);
                        }
                        0
                    },
                }
            },
            None => {
                proof {
                    assert(false);
                }
                0
            },
        }
    }

    /// The right-arrow companion of `select_parent`: on an expanded node
    /// with children, step onto its first visible child, the next row.
    pub fn select_first_child(&mut self)
        requires
            old(self).wf(),
        ensures
            final(self).wf(),
            ({
                let can_step = old(self).sel_node() is Some
                    && crate::tree_nav::is_expanded_spec(
                    old(self).sel_node().unwrap(),
                    old(self).exp(),
                ) && old(self).sel_node().unwrap().spec_children().len() > 0 && old(
                    self,
                ).selected_index + 1 < old(self).vis();
                if can_step {
                    &&& final(self).selected_index == old(self).selected_index + 1
                    &&& *final(self) == (AppState {
                        selected_index: final(self).selected_index,
                        selected_node_details: None,
                        ..*old(self)
                    })
                } else {
                    *final(self) == *old(self)
                }
            }),
    {
        let step = match self.get_selected_node() {
            Some(node) => crate::tree_nav::is_expanded(node, &self.expanded_ids)
                && crate::render::has_children(node),
            None => false,
        };
        if step {
            let count = self.visible_count();
            if self.selected_index + 1 < count {
                self.selected_index = self.selected_index + 1;
                self.selected_node_details = None;
            }
        }
    }
}

} // verus!
