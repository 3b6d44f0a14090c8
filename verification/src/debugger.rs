//! The debugger side of the view-model: the source-file tree (built by the
//! surrounding program from the filesystem and navigated exactly like the
//! widget tree), the source viewer, and the breakpoint set keyed by
//! `"<relative_path>:<1-based line>"`.

use vstd::prelude::*;
use crate::app_state::{moved_index, AppState};
use crate::app_state::toggle_spec;
use crate::node::{subtree_size, RemoteDiagnosticsNode};
use crate::text::{dec_digits, usize_to_string};
use crate::tree_nav::{
    count_visible_nodes, flat_nodes, get_node_at_index, lemma_flatten_count, lemma_vis_le_size,
    visible_count,
};

verus! {

impl AppState {
    /// The flattened view of the file tree.
    pub open spec fn file_flat(self) -> Seq<RemoteDiagnosticsNode> {
        match self.file_tree {
            Some(f) => flat_nodes(f, self.debugger_expanded_ids@),
            None => Seq::empty(),
        }
    }

    /// The file-tree node the debugger's selection rests on.
    pub open spec fn debugger_sel_node(self) -> Option<RemoteDiagnosticsNode> {
        if self.file_tree is Some && self.debugger_selected_index < self.file_flat().len() {
            Some(self.file_flat()[self.debugger_selected_index as int])
        } else {
            None
        }
    }

    pub open spec fn debugger_sel_id(self) -> Option<Seq<char>> {
        match self.debugger_sel_node() {
            Some(n) => n.spec_id(),
            None => None,
        }
    }

    /// Installs the source-file tree; its root is expanded, and the
    /// debugger's selection and scroll reset to the top.
    pub fn set_file_tree(&mut self, node: RemoteDiagnosticsNode)
        requires
            old(self).wf(),
            subtree_size(node) <= usize::MAX,
        ensures
            final(self).wf(),
            final(self).file_tree == Some(node),
            final(self).debugger_selected_index == 0,
            final(self).debugger_tree_scroll_offset == 0,
            final(self).debugger_expanded_ids@ =~= (match node.spec_id() {
                Some(rid) => old(self).debugger_expanded_ids@.insert(rid),
                None => old(self).debugger_expanded_ids@,
            }),
            *final(self) == (AppState {
                file_tree: final(self).file_tree,
                debugger_selected_index: 0,
                debugger_tree_scroll_offset: 0,
                debugger_expanded_ids: final(self).debugger_expanded_ids,
                ..*old(self)
            }),
    {
        if let Some(rid) = Self::get_node_id(&node) {
            self.debugger_expanded_ids.insert(rid);
        }
        self.file_tree = Some(node);
        self.debugger_selected_index = 0;
        self.debugger_tree_scroll_offset = 0;
    }

    /// The file-tree node the debugger's selection rests on.
    pub fn get_selected_debugger_node(&self) -> (r: Option<&RemoteDiagnosticsNode>)
        requires
            self.wf(),
        ensures
            match r {
                Some(n) => self.debugger_sel_node() == Some(*n),
                None => self.file_tree is None && self.debugger_sel_node() is None,
            },
    {
        match &self.file_tree {
            Some(root) => {
                proof {
                    lemma_vis_le_size(*root, self.debugger_expanded_ids@);
                    lemma_flatten_count(*root, self.debugger_expanded_ids@);
                }
                let mut current_index: usize = 0;
                let r = get_node_at_index(
                    root,
                    &self.debugger_expanded_ids,
                    self.debugger_selected_index,
                    &mut current_index,
                );
                proof {
                    assert(r is Some);
                }
                r
            },
            None => None,
        }
    }

    /// Moves the debugger's file selection by `delta`, clamped into the
    /// visible rows.
    pub fn move_debugger_selection(&mut self, delta: isize)
        requires
            old(self).wf(),
        ensures
            final(self).wf(),
            old(self).file_vis() == 0 ==> *final(self) == *old(self),
            old(self).file_vis() > 0 ==> {
                &&& final(self).debugger_selected_index == moved_index(
                    old(self).debugger_selected_index as int,
                    delta as int,
                    old(self).file_vis() as int,
                )
                &&& *final(self) == (AppState {
                    debugger_selected_index: final(self).debugger_selected_index,
                    ..*old(self)
                })
            },
    {
        let count = match &self.file_tree {
            Some(root) => {
                proof {
                    lemma_vis_le_size(*root, self.debugger_expanded_ids@);
                }
                count_visible_nodes(root, &self.debugger_expanded_ids)
            },
            None => 0,
        };
        if count == 0 {
            return;
        }
        let sel = self.debugger_selected_index;
        let new_index: usize = if delta >= 0 {
            let d = delta as usize;
            if count - 1 - sel <= d {
                count - 1
            } else {
                sel + d
            }
        } else {
            let d: usize = if delta == isize::MIN {
                (isize::MAX as usize) + 1
            } else {
                (-delta) as usize
            };
            if d >= sel {
                0
            } else {
                sel - d
            }
        };
        self.debugger_selected_index = new_index;
    }

    /// Flips the selected file node's identity in or out of the debugger's
    /// expansion set; the selection is clamped back into the visible rows.
    pub fn toggle_debugger_expand(&mut self)
        requires
            old(self).wf(),
        ensures
            final(self).wf(),
            match old(self).debugger_sel_id() {
                Some(id) => {
                    &&& final(self).debugger_expanded_ids@ =~= toggle_spec(
                        old(self).debugger_expanded_ids@,
                        id,
                    )
                    &&& final(self).debugger_selected_index == (if old(
                        self,
                    ).debugger_selected_index < final(self).file_vis() {
                        old(self).debugger_selected_index as int
                    } else {
                        final(self).file_vis() - 1
                    })
                    &&& *final(self) == (AppState {
                        debugger_expanded_ids: final(self).debugger_expanded_ids,
                        debugger_selected_index: final(self).debugger_selected_index,
                        ..*old(self)
                    })
                },
                None => *final(self) == *old(self),
            },
    {
        let id_opt = match self.get_selected_debugger_node() {
            Some(node) => Self::get_node_id(node),
            None => None,
        };
        if let Some(id) = id_opt {
            if self.debugger_expanded_ids.contains(id.as_str()) {
                self.debugger_expanded_ids.remove(id.as_str());
            } else {
                self.debugger_expanded_ids.insert(id);
            }
            match &self.file_tree {
                Some(root) => {
                    proof {
                        lemma_vis_le_size(*root, self.debugger_expanded_ids@);
                    }
                    let count = count_visible_nodes(root, &self.debugger_expanded_ids);
                    if self.debugger_selected_index >= count {
                        self.debugger_selected_index = count - 1;
                    }
                },
                None => {},
            }
        }
    }

    /// Scrolls the file-tree viewport of `height` rows the least amount
    /// that brings the selection inside it.
    pub fn update_debugger_tree_scroll(&mut self, height: usize)
        requires
            old(self).wf(),
        ensures
            final(self).wf(),
            final(self).debugger_tree_scroll_offset == (if old(self).debugger_selected_index < old(
                self,
            ).debugger_tree_scroll_offset {
                old(self).debugger_selected_index as int
            } else if old(self).debugger_selected_index - old(self).debugger_tree_scroll_offset
                >= height {
                old(self).debugger_selected_index - height + 1
            } else {
                old(self).debugger_tree_scroll_offset as int
            }),
            *final(self) == (AppState {
                debugger_tree_scroll_offset: final(self).debugger_tree_scroll_offset,
                ..*old(self)
            }),
    {
        proof {
            if old(self).file_tree is Some {
                lemma_vis_le_size(old(self).file_tree.unwrap(), old(self).debugger_expanded_ids@);
            }
        }
        if self.debugger_selected_index < self.debugger_tree_scroll_offset {
            self.debugger_tree_scroll_offset = self.debugger_selected_index;
        } else if self.debugger_selected_index - self.debugger_tree_scroll_offset >= height {
            self.debugger_tree_scroll_offset = self.debugger_selected_index - height + 1;
        }
    }

    /// Activates the selected file-tree row: a directory (a node with
    /// children) toggles its expansion; a leaf hands back its path so the
    /// surrounding program can read the file and open it.
    pub fn activate_selected_debugger_node(&mut self) -> (r: Option<String>)
        requires
            old(self).wf(),
        ensures
            final(self).wf(),
            match old(self).debugger_sel_node() {
                Some(node) => {
                    if node.spec_children().len() > 0 {
                        r is None
                    } else {
                        &&& *final(self) == *old(self)
                        &&& match node.spec_id() {
                            Some(id) => r is Some && r.unwrap()@ == id,
                            None => r is None,
                        }
                    }
                },
                None => r is None && *final(self) == *old(self),
            },
    {
        let (is_dir, id_opt) = match self.get_selected_debugger_node() {
            Some(node) => (crate::render::has_children(node), Self::get_node_id(node)),
            None => (false, None),
        };
        if is_dir {
            self.toggle_debugger_expand();
            None
        } else {
            id_opt
        }
    }

    /// Opens a file's lines in the source viewer, selecting its first line.
    pub fn open_file(&mut self, path: String, content: Vec<String>)
        requires
            old(self).wf(),
        ensures
            final(self).wf(),
            final(self).open_file_path == Some(path),
            final(self).open_file_content == Some(content),
            final(self).source_selected_line == Some(0usize),
            final(self).source_scroll_offset == 0,
            *final(self) == (AppState {
                open_file_path: final(self).open_file_path,
                open_file_content: final(self).open_file_content,
                source_selected_line: Some(0usize),
                source_scroll_offset: 0,
                ..*old(self)
            }),
    {
        self.open_file_path = Some(path);
        self.open_file_content = Some(content);
        self.source_selected_line = Some(0);
        self.source_scroll_offset = 0;
    }

    /// Moves the source viewer's selected line by `delta`, clamped into the
    /// open file, and scrolls the viewport of `height` rows the least amount
    /// that keeps it visible.
    pub fn move_source_selection(&mut self, delta: isize, height: usize)
        requires
            old(self).wf(),
        ensures
            final(self).wf(),
            match (old(self).source_selected_line, old(self).open_file_content) {
                (Some(line), Some(content)) => if content@.len() == 0 {
                    *final(self) == *old(self)
                } else {
                    let moved = moved_index(line as int, delta as int, content@.len() as int);
                    &&& final(self).source_selected_line == Some(moved as usize)
                    &&& final(self).source_scroll_offset == (if moved < old(
                        self,
                    ).source_scroll_offset {
                        moved
                    } else if moved - old(self).source_scroll_offset >= height {
                        moved - height + 1
                    } else {
                        old(self).source_scroll_offset as int
                    })
                    &&& *final(self) == (AppState {
                        source_selected_line: final(self).source_selected_line,
                        source_scroll_offset: final(self).source_scroll_offset,
                        ..*old(self)
                    })
                },
                _ => *final(self) == *old(self),
            },
    {
        let line = match self.source_selected_line {
            Some(line) => line,
            None => {
                return;
            },
        };
        let count = match &self.open_file_content {
            Some(content) => content.len(),
            None => {
                return;
            },
        };
        if count == 0 {
            return;
        }
        let moved: usize = if delta >= 0 {
            let d = delta as usize;
            if line >= count || count - line <= d {
                count - 1
            } else {
                line + d
            }
        } else {
            let d: usize = if delta == isize::MIN {
                (isize::MAX as usize) + 1
            } else {
                (-delta) as usize
            };
            let down = if d >= line {
                0
            } else {
                line - d
            };
            if down >= count {
                count - 1
            } else {
                down
            }
        };
        self.source_selected_line = Some(moved);
        if moved < self.source_scroll_offset {
            self.source_scroll_offset = moved;
        } else if moved - self.source_scroll_offset >= height {
            self.source_scroll_offset = moved - height + 1;
        }
    }

    /// The expansion set after jumping to the file-tree match with identity
    /// `id`.
    pub open spec fn debugger_jump_expansion(pre: AppState, id: Seq<char>) -> Set<Seq<char>> {
        match pre.file_tree {
            Some(root) => match crate::walk::spec_path(root, id) {
                Some(p) => pre.debugger_expanded_ids@.union(p.to_set()),
                None => pre.debugger_expanded_ids@,
            },
            None => pre.debugger_expanded_ids@,
        }
    }

    /// What jumping to the file-tree match with identity `id` does: its
    /// ancestor directories are expanded, and if a row then carries it the
    /// debugger's selection lands on the first such row.
    pub open spec fn debugger_jump_effect(pre: AppState, post: AppState, id: Seq<char>) -> bool {
        let expd = Self::debugger_jump_expansion(pre, id);
        &&& post == (AppState {
            debugger_expanded_ids: post.debugger_expanded_ids,
            debugger_selected_index: post.debugger_selected_index,
            ..pre
        })
        &&& post.debugger_expanded_ids@ =~= expd
        &&& match pre.file_tree {
            None => post.debugger_selected_index == pre.debugger_selected_index,
            Some(root) => {
                if exists|k: int|
                    0 <= k < flat_nodes(root, expd).len() && #[trigger] flat_nodes(
                        root,
                        expd,
                    )[k].spec_id() == Some(id) {
                    let k = choose|k: int|
                        0 <= k < flat_nodes(root, expd).len() && #[trigger] flat_nodes(
                            root,
                            expd,
                        )[k].spec_id() == Some(id) && (forall|m: int|
                            0 <= m < k ==> flat_nodes(root, expd)[m].spec_id() != Some(id));
                    post.debugger_selected_index == k
                } else {
                    post.debugger_selected_index == pre.debugger_selected_index
                }
            },
        }
    }

    /// Expands the path to the file-tree match at `match_index` and selects
    /// it; an index past the matches changes nothing.
    #[verifier::rlimit(60)]
    pub fn debugger_jump_to_match(&mut self, match_index: usize)
        requires
            old(self).wf(),
        ensures
            final(self).wf(),
            match_index < old(self).debugger_search_results@.len() ==> Self::debugger_jump_effect(
                *old(self),
                *final(self),
                old(self).debugger_search_results@[match_index as int]@,
            ),
            match_index >= old(self).debugger_search_results@.len() ==> *final(self) == *old(self),
    {
        if match_index >= self.debugger_search_results.len() {
            return;
        }
        let id = self.debugger_search_results[match_index].clone();
        let mut path: Vec<String> = Vec::new();
        let found = match &self.file_tree {
            Some(root) => crate::walk::find_path_to_node(root, id.as_str(), &mut path),
            None => {
                return;
            },
        };
        if found {
            proof {
                let root = self.file_tree.unwrap();
                let p = crate::walk::spec_path(root, id@).unwrap();
                assert(crate::app_state::views_of(path@) =~= p);
            }
            self.debugger_expanded_ids.insert_all(&path);
        }
        let index_opt = match &self.file_tree {
            Some(root) => {
                proof {
                    lemma_vis_le_size(*root, self.debugger_expanded_ids@);
                    lemma_flatten_count(*root, self.debugger_expanded_ids@);
                }
                let mut current_index: usize = 0;
                crate::walk::find_visible_index_of_id_rec(
                    root,
                    &self.debugger_expanded_ids,
                    id.as_str(),
                    &mut current_index,
                )
            },
            None => None,
        };
        match index_opt {
            Some(index) => {
                self.debugger_selected_index = index;
                proof {
                    if self.file_tree is Some {
                        lemma_flatten_count(self.file_tree.unwrap(), self.debugger_expanded_ids@);
                    }
                }
            },
            None => {
                proof {
                    if self.file_tree is Some {
                        let root = self.file_tree.unwrap();
                        assert(old(self).debugger_expanded_ids@.subset_of(
                            self.debugger_expanded_ids@,
                        ));
                        crate::tree_nav::lemma_vis_monotone(
                            root,
                            old(self).debugger_expanded_ids@,
                            self.debugger_expanded_ids@,
                        );
                    }
                }
            },
        }
    }

    /// Re-runs the fuzzy search over the file tree and selects the first
    /// match. An empty query yields no matches and moves nothing.
    pub fn perform_debugger_search(&mut self)
        requires
            old(self).wf(),
        ensures
            final(self).wf(),
            old(self).debugger_search_query@.len() == 0 ==> {
                &&& final(self).debugger_search_results@.len() == 0
                &&& final(self).debugger_current_match_index == 0
                &&& *final(self) == (AppState {
                    debugger_search_results: final(self).debugger_search_results,
                    debugger_current_match_index: 0,
                    ..*old(self)
                })
            },
            old(self).debugger_search_query@.len() > 0 ==> {
                let ids = match old(self).file_tree {
                    Some(root) => crate::search::search_ids(
                        root,
                        old(self).debugger_search_query@,
                    ),
                    None => Seq::<Seq<char>>::empty(),
                };
                &&& crate::app_state::views_of(final(self).debugger_search_results@) == ids
                &&& final(self).debugger_current_match_index == 0
                &&& (ids.len() == 0 ==> *final(self) == (AppState {
                    debugger_search_results: final(self).debugger_search_results,
                    debugger_current_match_index: 0,
                    ..*old(self)
                }))
                &&& (ids.len() > 0 ==> Self::debugger_jump_effect(
                    (AppState {
                        debugger_search_results: final(self).debugger_search_results,
                        debugger_current_match_index: 0,
                        ..*old(self)
                    }),
                    *final(self),
                    ids[0],
                ))
            },
    {
        self.debugger_search_results = Vec::new();
        self.debugger_current_match_index = 0;
        if self.debugger_search_query.as_str().is_empty() {
            return;
        }
        let mut results: Vec<String> = Vec::new();
        match &self.file_tree {
            Some(root) => {
                crate::search::search_recursive(
                    root,
                    self.debugger_search_query.as_str(),
                    &mut results,
                );
            },
            None => {},
        }
        self.debugger_search_results = results;
        if self.debugger_search_results.len() > 0 {
            self.debugger_jump_to_match(0);
        }
    }

    /// Steps to the next file-tree match, wrapping past the last one.
    pub fn next_debugger_match(&mut self)
        requires
            old(self).wf(),
        ensures
            final(self).wf(),
            old(self).debugger_search_results@.len() == 0 ==> *final(self) == *old(self),
            old(self).debugger_search_results@.len() > 0 ==> {
                let mi = (old(self).debugger_current_match_index + 1) % old(
                    self,
                ).debugger_search_results@.len() as int;
                &&& final(self).debugger_current_match_index == mi
                &&& Self::debugger_jump_effect(
                    (AppState {
                        debugger_current_match_index: final(self).debugger_current_match_index,
                        ..*old(self)
                    }),
                    *final(self),
                    old(self).debugger_search_results@[mi]@,
                )
            },
    {
        if self.debugger_search_results.len() == 0 {
            return;
        }
        self.debugger_current_match_index = (self.debugger_current_match_index + 1)
            % self.debugger_search_results.len();
        self.debugger_jump_to_match(self.debugger_current_match_index);
    }

    /// Steps to the previous file-tree match, wrapping before the first one.
    pub fn previous_debugger_match(&mut self)
        requires
            old(self).wf(),
        ensures
            final(self).wf(),
            old(self).debugger_search_results@.len() == 0 ==> *final(self) == *old(self),
            old(self).debugger_search_results@.len() > 0 ==> {
                let mi = (if old(self).debugger_current_match_index == 0 {
                    old(self).debugger_search_results@.len() - 1
                } else {
                    old(self).debugger_current_match_index - 1
                });
                &&& final(self).debugger_current_match_index == mi
                &&& Self::debugger_jump_effect(
                    (AppState {
                        debugger_current_match_index: final(self).debugger_current_match_index,
                        ..*old(self)
                    }),
                    *final(self),
                    old(self).debugger_search_results@[mi]@,
                )
            },
    {
        if self.debugger_search_results.len() == 0 {
            return;
        }
        if self.debugger_current_match_index == 0 {
            self.debugger_current_match_index = self.debugger_search_results.len() - 1;
        } else {
            self.debugger_current_match_index = self.debugger_current_match_index - 1;
        }
        self.debugger_jump_to_match(self.debugger_current_match_index);
    }

    /// The breakpoint key of a path and 1-based line: `path:line`.
    pub open spec fn breakpoint_key(path: Seq<char>, line: nat) -> Seq<char> {
        path + seq![':'] + dec_digits(line)
    }

    /// Toggles the breakpoint on the selected line of the open file. A
    /// newly set breakpoint comes back as its path and 1-based line, for
    /// the orchestrator to register with the peer; clearing one, or having
    /// no file or line selected, hands nothing back.
    pub fn toggle_breakpoint(&mut self) -> (r: Option<(String, usize)>)
        requires
            old(self).wf(),
        ensures
            final(self).wf(),
            match (old(self).open_file_path, old(self).source_selected_line) {
                (Some(path), Some(line_idx)) => if line_idx == usize::MAX {
                    r is None && *final(self) == *old(self)
                } else {
                    let key = Self::breakpoint_key(path@, (line_idx + 1) as nat);
                    &&& *final(self) == (AppState {
                        breakpoints: final(self).breakpoints,
                        ..*old(self)
                    })
                    &&& if old(self).breakpoints@.contains(key) {
                        &&& final(self).breakpoints@ =~= old(self).breakpoints@.remove(key)
                        &&& r is None
                    } else {
                        &&& final(self).breakpoints@ =~= old(self).breakpoints@.insert(key)
                        &&& r is Some
                        &&& r.unwrap().0@ == path@
                        &&& r.unwrap().1 == line_idx + 1
                    }
                },
                _ => r is None && *final(self) == *old(self),
            },
    {
        let line_idx = match self.source_selected_line {
            Some(line) => line,
            None => {
                return None;
            },
        };
        if line_idx == usize::MAX {
            return None;
        }
        let path = match &self.open_file_path {
            Some(p) => p.clone(),
            None => {
                return None;
            },
        };
        let line = line_idx + 1;
        let mut key = path.clone();
        key.append(":");
        let digits = usize_to_string(line);
        key.append(digits.as_str());
        proof {
            reveal_strlit(":");
            assert(":"@ =~= seq![':']);
            assert(key@ == Self::breakpoint_key(path@, line as nat));
        }
        if self.breakpoints.contains(key.as_str()) {
            self.breakpoints.remove(key.as_str());
            None
        } else {
            self.breakpoints.insert(key);
            Some((path, line))
        }
    }
}

} // verus!
