//! The view-model shared between the renderer and the input handlers: the
//! expandable widget tree with its selection and scroll state, the isolate
//! picker, the log pane, the search overlay, the debugger's file tree and
//! source viewer, and the breakpoint set.

use vstd::prelude::*;
use crate::idset::IdSet;
use crate::node::{subtree_size, RemoteDiagnosticsNode};
use crate::tree_nav::{
    count_visible_nodes, flat_depths, flat_nodes, get_node_at_index, lemma_flatten_count,
    lemma_vis_le_size, lemma_vis_monotone, visible_count,
};
use crate::walk::find_depth_at_index;

verus! {

/// Which pane receives keyboard input. The search overlays are modal; the
/// isolate picker locks focus while it is open.
#[derive(Clone, Copy, PartialEq, Eq, Structural, Debug)]
pub enum Focus {
    Tree,
    Details,
    Logs,
    IsolateSelection,
    Search,
    DebuggerFiles,
    DebuggerSource,
    DebuggerSearch,
}

/// The two top-level screens.
#[derive(Clone, Copy, PartialEq, Eq, Structural, Debug)]
pub enum Tab {
    Inspector,
    Debugger,
}

/// The debug state of the attached runtime; it changes only in response to
/// events pushed by the peer.
#[derive(Clone, Debug)]
pub enum DebugState {
    Running,
    Paused { isolate_id: String, reason: String },
}

/// A reference to an execution context inside the attached runtime.
#[derive(Clone, Debug)]
pub struct IsolateRef {
    pub id: String,
    pub name: String,
}

pub struct AppState {
    pub root_node: Option<RemoteDiagnosticsNode>,
    pub selected_node_details: Option<RemoteDiagnosticsNode>,
    pub connection_status: String,
    pub available_isolates: Vec<IsolateRef>,
    pub show_isolate_selection: bool,
    pub selected_isolate_index: usize,
    pub selected_index: usize,
    pub expanded_ids: IdSet,
    pub tree_scroll_offset: usize,
    pub tree_horizontal_scroll: usize,
    pub logs: Vec<String>,
    pub log_scroll_state: usize,
    pub log_auto_scroll: bool,
    pub search_query: String,
    pub search_results: Vec<String>,
    pub current_match_index: usize,
    pub focus: Focus,
    pub current_tab: Tab,
    pub show_logs: bool,
    pub auto_reload: bool,
    pub debug_state: DebugState,
    pub stack_trace: Option<Vec<String>>,
    pub project_root: String,
    pub file_tree: Option<RemoteDiagnosticsNode>,
    pub debugger_selected_index: usize,
    pub debugger_expanded_ids: IdSet,
    pub debugger_tree_scroll_offset: usize,
    pub debugger_search_query: String,
    pub debugger_search_results: Vec<String>,
    pub debugger_current_match_index: usize,
    pub open_file_path: Option<String>,
    pub open_file_content: Option<Vec<String>>,
    pub source_selected_line: Option<usize>,
    pub source_scroll_offset: usize,
    pub breakpoints: IdSet,
}

/// Clamps `v` into the usize range.
pub open spec fn cap_usize(v: int) -> int {
    if v < 0 {
        0
    } else if v > usize::MAX {
        usize::MAX as int
    } else {
        v
    }
}

/// The selection index that results from moving by `delta` and clamping into
/// `[0, count)`.
pub open spec fn moved_index(sel: int, delta: int, count: int) -> int {
    if sel + delta <= 0 {
        0
    } else if sel + delta >= count {
        count - 1
    } else {
        sel + delta
    }
}

impl AppState {
    /// The expansion set of the widget tree.
    pub open spec fn exp(self) -> Set<Seq<char>> {
        self.expanded_ids@
    }

    /// How many rows the widget tree shows.
    pub open spec fn vis(self) -> nat {
        match self.root_node {
            Some(r) => visible_count(r, self.exp()),
            None => 0,
        }
    }

    /// The flattened view of the widget tree.
    pub open spec fn flat(self) -> Seq<RemoteDiagnosticsNode> {
        match self.root_node {
            Some(r) => flat_nodes(r, self.exp()),
            None => Seq::empty(),
        }
    }

    /// The node the selection rests on.
    pub open spec fn sel_node(self) -> Option<RemoteDiagnosticsNode> {
        if self.root_node is Some && self.selected_index < self.flat().len() {
            Some(self.flat()[self.selected_index as int])
        } else {
            None
        }
    }

    /// The identity of the selected node.
    pub open spec fn sel_id(self) -> Option<Seq<char>> {
        match self.sel_node() {
            Some(n) => n.spec_id(),
            None => None,
        }
    }

    /// How many rows the debugger's file tree shows.
    pub open spec fn file_vis(self) -> nat {
        match self.file_tree {
            Some(f) => visible_count(f, self.debugger_expanded_ids@),
            None => 0,
        }
    }

    /// Everything selection bounds need except the widget-tree selection
    /// clause itself: the sets are well-formed, the trees fit the machine,
    /// and the other indexed state sits inside its list.
    pub open spec fn wf_rest(self) -> bool {
        &&& self.expanded_ids.wf()
        &&& self.debugger_expanded_ids.wf()
        &&& self.breakpoints.wf()
        &&& match self.root_node {
            Some(r) => subtree_size(r) <= usize::MAX,
            None => self.selected_index == 0,
        }
        &&& match self.file_tree {
            Some(f) => subtree_size(f) <= usize::MAX,
            None => self.debugger_selected_index == 0,
        }
        &&& if self.available_isolates@.len() == 0 {
            self.selected_isolate_index == 0
        } else {
            self.selected_isolate_index < self.available_isolates@.len()
        }
        &&& if self.search_results@.len() == 0 {
            self.current_match_index == 0
        } else {
            self.current_match_index < self.search_results@.len()
        }
        &&& if self.debugger_search_results@.len() == 0 {
            self.debugger_current_match_index == 0
        } else {
            self.debugger_current_match_index < self.debugger_search_results@.len()
        }
    }

    /// The widget-tree selection sits inside its visible rows.
    pub open spec fn sel_ok(self) -> bool {
        match self.root_node {
            Some(r) => self.selected_index < visible_count(r, self.exp()),
            None => true,
        }
    }

    /// The file-tree selection sits inside its visible rows.
    pub open spec fn debugger_sel_ok(self) -> bool {
        match self.file_tree {
            Some(f) => self.debugger_selected_index < visible_count(
                f,
                self.debugger_expanded_ids@,
            ),
            None => true,
        }
    }

    /// Selection bounds: the selection of each tree sits inside its visible
    /// rows whenever there are any, and at zero otherwise.
    pub open spec fn wf(self) -> bool {
        &&& self.wf_rest()
        &&& self.sel_ok()
        &&& self.debugger_sel_ok()
    }

    pub fn new() -> (r: AppState)
        ensures
            r.wf(),
            r.root_node is None,
            r.selected_node_details is None,
            r.connection_status@ == "Connecting..."@,
            r.available_isolates@.len() == 0,
            !r.show_isolate_selection,
            r.selected_isolate_index == 0,
            r.selected_index == 0,
            r.exp() =~= Set::<Seq<char>>::empty(),
            r.tree_scroll_offset == 0,
            r.tree_horizontal_scroll == 0,
            r.logs@.len() == 0,
            r.log_scroll_state == 0,
            r.log_auto_scroll,
            r.search_query@.len() == 0,
            r.search_results@.len() == 0,
            r.current_match_index == 0,
            r.focus == Focus::Tree,
            r.current_tab == Tab::Inspector,
            r.show_logs,
            !r.auto_reload,
            r.debug_state is Running,
            r.stack_trace is None,
            r.file_tree is None,
            r.debugger_selected_index == 0,
            r.breakpoints@ =~= Set::<Seq<char>>::empty(),
    {
        AppState {
            root_node: None,
            selected_node_details: None,
            connection_status: String::from_str("Connecting..."),
            available_isolates: Vec::new(),
            show_isolate_selection: false,
            selected_isolate_index: 0,
            selected_index: 0,
            expanded_ids: IdSet::new(),
            tree_scroll_offset: 0,
            tree_horizontal_scroll: 0,
            logs: Vec::new(),
            log_scroll_state: 0,
            log_auto_scroll: true,
            search_query: String::new(),
            search_results: Vec::new(),
            current_match_index: 0,
            focus: Focus::Tree,
            current_tab: Tab::Inspector,
            show_logs: true,
            auto_reload: false,
            debug_state: DebugState::Running,
            stack_trace: None,
            project_root: String::new(),
            file_tree: None,
            debugger_selected_index: 0,
            debugger_expanded_ids: IdSet::new(),
            debugger_tree_scroll_offset: 0,
            debugger_search_query: String::new(),
            debugger_search_results: Vec::new(),
            debugger_current_match_index: 0,
            open_file_path: None,
            open_file_content: None,
            source_selected_line: None,
            source_scroll_offset: 0,
            breakpoints: IdSet::new(),
        }
    }

    /// The navigation identity of a node, as an owned string.
    pub fn get_node_id(node: &RemoteDiagnosticsNode) -> (r: Option<String>)
        ensures
            match r {
                Some(id) => node.spec_id() == Some(id@),
                None => node.spec_id() is None,
            },
    {
        match crate::tree_nav::node_id_ref(node) {
            Some(id) => Some(id.clone()),
            None => None,
        }
    }

    /// How many rows the widget tree currently shows.
    pub fn visible_count(&self) -> (r: usize)
        requires
            self.wf(),
        ensures
            r == self.vis(),
    {
        match &self.root_node {
            Some(root) => {
                proof {
                    lemma_vis_le_size(*root, self.exp());
                }
                count_visible_nodes(root, &self.expanded_ids)
            },
            None => 0,
        }
    }

    /// The node the selection rests on, or nothing while no tree is loaded.
    pub fn get_selected_node(&self) -> (r: Option<&RemoteDiagnosticsNode>)
        requires
            self.wf(),
        ensures
            match r {
                Some(n) => self.sel_node() == Some(*n),
                None => self.root_node is None && self.sel_node() is None,
            },
    {
        match &self.root_node {
            Some(root) => {
                proof {
                    lemma_vis_le_size(*root, self.exp());
                    lemma_flatten_count(*root, self.exp());
                }
                let mut current_index: usize = 0;
                let r = get_node_at_index(
                    root,
                    &self.expanded_ids,
                    self.selected_index,
                    &mut current_index,
                );
                proof {
                    assert(r is Some);
                }
                r
            },
            None => None,
        }
    }

    /// Flips the selected node's identity in or out of the expansion set;
    /// the selection is clamped back into the visible rows if collapsing
    /// shrank them.
    pub fn toggle_expand(&mut self)
        requires
            old(self).wf(),
        ensures
            final(self).wf(),
            match old(self).sel_id() {
                Some(id) => {
                    &&& final(self).exp() =~= toggle_spec(old(self).exp(), id)
                    &&& final(self).selected_index == (if old(self).selected_index < final(self).vis() {
                        old(self).selected_index as int
                    } else {
                        final(self).vis() - 1
                    })
                    &&& *final(self) == (AppState {
                        expanded_ids: final(self).expanded_ids,
                        selected_index: final(self).selected_index,
                        ..*old(self)
                    })
                },
                None => *final(self) == *old(self),
            },
    {
        let id_opt = match self.get_selected_node() {
            Some(node) => Self::get_node_id(node),
            None => None,
        };
        if let Some(id) = id_opt {
            if self.expanded_ids.contains(id.as_str()) {
                self.expanded_ids.remove(id.as_str());
            } else {
                self.expanded_ids.insert(id);
            }
            self.clamp_selection();
        }
    }

    /// Pulls the selection back into the visible rows after the expansion
    /// set shrank.
    fn clamp_selection(&mut self)
        requires
            old(self).wf_rest(),
            old(self).debugger_sel_ok(),
        ensures
            final(self).wf(),
            final(self).selected_index == (if old(self).root_node is None {
                old(self).selected_index as int
            } else if old(self).selected_index < old(self).vis() {
                old(self).selected_index as int
            } else {
                old(self).vis() - 1
            }),
            *final(self) == (AppState { selected_index: final(self).selected_index, ..*old(self) }),
    {
        match &self.root_node {
            Some(root) => {
                proof {
                    lemma_vis_le_size(*root, self.exp());
                }
                let count = count_visible_nodes(root, &self.expanded_ids);
                if self.selected_index >= count {
                    self.selected_index = count - 1;
                }
            },
            None => {},
        }
    }

    /// Expands the selected node, then follows any single-child spine below
    /// it, expanding up to five levels in one step.
    pub fn expand_selected(&mut self)
        requires
            old(self).wf(),
        ensures
            final(self).wf(),
            match old(self).sel_node() {
                Some(node) => {
                    &&& final(self).exp() =~= old(self).exp().union(
                        chain_ids(node, 5).to_set(),
                    )
                    &&& *final(self) == (AppState {
                        expanded_ids: final(self).expanded_ids,
                        ..*old(self)
                    })
                },
                None => *final(self) == *old(self),
            },
    {
        let mut ids: Vec<String> = Vec::new();
        let ghost chain: Seq<Seq<char>> = match self.sel_node() {
            Some(node) => chain_ids(node, 5),
            None => Seq::empty(),
        };
        match self.get_selected_node() {
            Some(node) => {
                collect_smart_expand_ids(node, &mut ids, 5);
            },
            None => {},
        }
        proof {
            assert(views_of(ids@) =~= chain);
        }
        if ids.len() == 0 {
            proof {
                assert(chain.to_set() =~= Set::<Seq<char>>::empty()) by {
                    assert(forall|q: Seq<char>| !chain.contains(q));
                }
                assert(self.expanded_ids@ =~= self.expanded_ids@.union(chain.to_set()));
            }
            return;
        }
        let n = ids.len();
        let mut i: usize = 0;
        while i < n
            invariant
                n == ids@.len(),
                i <= n,
                views_of(ids@) == chain,
                old(self).expanded_ids.wf(),
                self.expanded_ids.wf(),
                self.expanded_ids@ =~= old(self).expanded_ids@.union(
                    views_of(ids@).take(i as int).to_set(),
                ),
                *self == (AppState { expanded_ids: self.expanded_ids, ..*old(self) }),
            decreases n - i,
        {
            let ghost before = self.expanded_ids@;
            let id = ids[i].clone();
            self.expanded_ids.insert(id);
            i += 1;
            proof {
                assert(self.expanded_ids@ =~= old(self).expanded_ids@.union(
                    views_of(ids@).take(i as int).to_set(),
                )) by {
                    assert(self.expanded_ids@ =~= before.insert(ids@[i - 1]@));
                    assert forall|q: Seq<char>|
                        views_of(ids@).take(i as int).to_set().contains(q) implies before.union(
                        Set::empty().insert(ids@[i - 1]@),
                    ).contains(q) || old(self).expanded_ids@.union(
                        views_of(ids@).take(i - 1).to_set(),
                    ).contains(q) by {
                        let m = choose|m: int|
                            0 <= m < i && #[trigger] views_of(ids@).take(i as int)[m] == q;
                        if m < i - 1 {
                            assert(views_of(ids@).take(i - 1)[m] == q);
                            assert(views_of(ids@).take(i - 1).contains(q));
                        } else {
                            assert(views_of(ids@)[i - 1] == q);
                        }
                    }
                    assert forall|q: Seq<char>|
                        views_of(ids@).take(i - 1).to_set().contains(q) implies views_of(
                        ids@,
                    ).take(i as int).to_set().contains(q) by {
                        let m = choose|m: int|
                            0 <= m < i - 1 && #[trigger] views_of(ids@).take(i - 1)[m] == q;
                        assert(views_of(ids@).take(i as int)[m] == q);
                    }
                    assert(views_of(ids@).take(i as int).contains(ids@[i - 1]@)) by {
                        assert(views_of(ids@).take(i as int)[i - 1] == ids@[i - 1]@);
                    }
                }
            }
        }
        proof {
            assert(views_of(ids@).take(n as int) =~= views_of(ids@));
            if old(self).sel_node() is Some && old(self).root_node is Some {
                let root = old(self).root_node.unwrap();
                lemma_vis_monotone(root, old(self).exp(), self.exp());
            }
        }
    }

    /// Removes the selected node's identity from the expansion set; reports
    /// whether anything was collapsed.
    pub fn collapse_selected(&mut self) -> (r: bool)
        requires
            old(self).wf(),
        ensures
            final(self).wf(),
            r == (old(self).sel_id() is Some && old(self).exp().contains(
                old(self).sel_id().unwrap(),
            )),
            if r {
                &&& final(self).exp() =~= old(self).exp().remove(old(self).sel_id().unwrap())
                &&& final(self).selected_index == (if old(self).selected_index < final(self).vis() {
                    old(self).selected_index as int
                } else {
                    final(self).vis() - 1
                })
                &&& *final(self) == (AppState {
                    expanded_ids: final(self).expanded_ids,
                    selected_index: final(self).selected_index,
                    ..*old(self)
                })
            } else {
                *final(self) == *old(self)
            },
    {
        let id_opt = match self.get_selected_node() {
            Some(node) => Self::get_node_id(node),
            None => None,
        };
        if let Some(id) = id_opt {
            if self.expanded_ids.contains(id.as_str()) {
                self.expanded_ids.remove(id.as_str());
                self.clamp_selection();
                return true;
            }
        }
        false
    }

    /// Moves the selection by `delta`, clamped into the visible rows; a
    /// missing tree is a no-op. The cached details are cleared so they are
    /// re-requested for the new node.
    pub fn move_selection(&mut self, delta: isize)
        requires
            old(self).wf(),
        ensures
            final(self).wf(),
            old(self).vis() == 0 ==> *final(self) == *old(self),
            old(self).vis() > 0 ==> {
                &&& final(self).selected_index == moved_index(
                    old(self).selected_index as int,
                    delta as int,
                    old(self).vis() as int,
                )
                &&& *final(self) == (AppState {
                    selected_index: final(self).selected_index,
                    selected_node_details: None,
                    ..*old(self)
                })
            },
    {
        let count = self.visible_count();
        if count == 0 {
            return;
        }
        let sel = self.selected_index;
        let new_index: usize = if delta >= 0 {
            let d = delta as usize;
            if count - 1 - sel <= d {
                count - 1
            } else {
                sel + d
            }
        } else {
            let d: usize = if delta == isize::MIN {
                (isize::MAX as usize) + 1
            } else {
                (-delta) as usize
            };
            if d >= sel {
                0
            } else {
                sel - d
            }
        };
        self.selected_index = new_index;
        self.ensure_selection_visible();
        self.selected_node_details = None;
    }

    /// Scrolling into view happens when the renderer reports its viewport,
    /// through `update_tree_scroll`; this hook changes nothing.
    pub fn ensure_selection_visible(&mut self)
        ensures
            *final(self) == *old(self),
    {
    }

    /// Scrolls the viewport of `height` rows the least amount that brings
    /// the selection inside it.
    pub fn update_tree_scroll(&mut self, height: usize)
        requires
            old(self).wf(),
        ensures
            final(self).wf(),
            final(self).tree_scroll_offset == (if old(self).selected_index < old(self).tree_scroll_offset {
                old(self).selected_index as int
            } else if old(self).selected_index - old(self).tree_scroll_offset >= height {
                old(self).selected_index - height + 1
            } else {
                old(self).tree_scroll_offset as int
            }),
            *final(self) == (AppState {
                tree_scroll_offset: final(self).tree_scroll_offset,
                ..*old(self)
            }),
    {
        proof {
            if old(self).root_node is Some {
                lemma_vis_le_size(old(self).root_node.unwrap(), old(self).exp());
            }
        }
        if self.selected_index < self.tree_scroll_offset {
            self.tree_scroll_offset = self.selected_index;
        } else if self.selected_index - self.tree_scroll_offset >= height {
            self.tree_scroll_offset = self.selected_index - height + 1;
        }
    }

    /// Scrolls the tree viewport by `delta` rows, clamped at the top;
    /// rendering tolerates an offset past the end.
    pub fn scroll_tree(&mut self, delta: isize)
        ensures
            final(self).tree_scroll_offset == cap_usize(
                old(self).tree_scroll_offset + delta as int,
            ),
            *final(self) == (AppState {
                tree_scroll_offset: final(self).tree_scroll_offset,
                ..*old(self)
            }),
    {
        self.tree_scroll_offset = add_delta_capped(self.tree_scroll_offset, delta);
    }

    /// Scrolls the tree viewport horizontally by `delta` columns, clamped at
    /// the left edge.
    pub fn scroll_tree_horizontal(&mut self, delta: isize)
        ensures
            final(self).tree_horizontal_scroll == cap_usize(
                old(self).tree_horizontal_scroll + delta as int,
            ),
            *final(self) == (AppState {
                tree_horizontal_scroll: final(self).tree_horizontal_scroll,
                ..*old(self)
            }),
    {
        self.tree_horizontal_scroll = add_delta_capped(self.tree_horizontal_scroll, delta);
    }

    /// Appends one line to the log pane.
    pub fn add_log(&mut self, message: String)
        ensures
            final(self).logs@ == old(self).logs@.push(message),
            *final(self) == (AppState { logs: final(self).logs, ..*old(self) }),
    {
        self.logs.push(message);
    }

    /// Scrolls the log pane; scrolling up leaves the tail, scrolling back to
    /// the last line re-arms auto-scroll.
    pub fn scroll_logs(&mut self, delta: isize)
        ensures
            delta < 0 ==> {
                &&& final(self).log_scroll_state == cap_usize(
                    old(self).log_scroll_state + delta as int,
                )
                &&& !final(self).log_auto_scroll
                &&& *final(self) == (AppState {
                    log_scroll_state: final(self).log_scroll_state,
                    log_auto_scroll: false,
                    ..*old(self)
                })
            },
            delta >= 0 ==> {
                let lim = if old(self).logs@.len() == 0 {
                    0int
                } else {
                    old(self).logs@.len() - 1
                };
                &&& final(self).log_scroll_state == (if old(self).log_scroll_state + delta as int
                    > lim {
                    lim
                } else {
                    old(self).log_scroll_state + delta as int
                })
                &&& final(self).log_auto_scroll == (final(self).log_scroll_state >= lim
                    || old(self).log_auto_scroll)
                &&& *final(self) == (AppState {
                    log_scroll_state: final(self).log_scroll_state,
                    log_auto_scroll: final(self).log_auto_scroll,
                    ..*old(self)
                })
            },
    {
        if delta < 0 {
            self.log_auto_scroll = false;
            self.log_scroll_state = add_delta_capped(self.log_scroll_state, delta);
        } else {
            let d = delta as usize;
            let lim = if self.logs.len() == 0 {
                0
            } else {
                self.logs.len() - 1
            };
            let sum: usize = if d <= usize::MAX - self.log_scroll_state {
                self.log_scroll_state + d
            } else {
                usize::MAX
            };
            self.log_scroll_state = if sum > lim {
                lim
            } else {
                sum
            };
            if self.log_scroll_state >= lim {
                self.log_auto_scroll = true;
            }
        }
    }

    /// The depth of the selected row in the flattened view.
    pub fn get_selected_depth(&self) -> (r: usize)
        requires
            self.wf(),
        ensures
            match self.root_node {
                Some(root) => r == flat_depths(root, self.exp(), 0)[self.selected_index as int],
                None => r == 0,
            },
    {
        match &self.root_node {
            Some(root) => {
                proof {
                    lemma_vis_le_size(*root, self.exp());
                }
                let mut current_index: usize = 0;
                match find_depth_at_index(
                    root,
                    &self.expanded_ids,
                    self.selected_index,
                    &mut current_index,
                    0,
                ) {
                    Some(depth) => depth,
                    None => {
                        proof {
                            assert(false);
                        }
                        0
                    },
                }
            },
            None => 0,
        }
    }

    /// Cycles the focused pane; locked while the isolate picker is open.
    pub fn cycle_focus(&mut self)
        ensures
            final(self).focus == (if old(self).show_isolate_selection {
                old(self).focus
            } else {
                match old(self).focus {
                    Focus::Tree => Focus::Details,
                    Focus::Details => Focus::Logs,
                    Focus::Logs => Focus::Tree,
                    Focus::Search => Focus::Tree,
                    _ => old(self).focus,
                }
            }),
            *final(self) == (AppState { focus: final(self).focus, ..*old(self) }),
    {
        if self.show_isolate_selection {
            return;
        }
        self.focus = match self.focus {
            Focus::Tree => Focus::Details,
            Focus::Details => Focus::Logs,
            Focus::Logs => Focus::Tree,
            Focus::Search => Focus::Tree,
            Focus::IsolateSelection => Focus::IsolateSelection,
            Focus::DebuggerFiles => Focus::DebuggerFiles,
            Focus::DebuggerSource => Focus::DebuggerSource,
            Focus::DebuggerSearch => Focus::DebuggerSearch,
        };
    }

    /// Moves the highlighted entry of the isolate picker, clamped into the
    /// list.
    pub fn move_isolate_selection(&mut self, delta: isize)
        requires
            old(self).wf(),
        ensures
            final(self).wf(),
            old(self).available_isolates@.len() == 0 ==> *final(self) == *old(self),
            old(self).available_isolates@.len() > 0 ==> {
                &&& final(self).selected_isolate_index == moved_index(
                    old(self).selected_isolate_index as int,
                    delta as int,
                    old(self).available_isolates@.len() as int,
                )
                &&& *final(self) == (AppState {
                    selected_isolate_index: final(self).selected_isolate_index,
                    ..*old(self)
                })
            },
    {
        let count = self.available_isolates.len();
        if count == 0 {
            return;
        }
        let sel = self.selected_isolate_index;
        let new_index: usize = if delta >= 0 {
            let d = delta as usize;
            if count - 1 - sel <= d {
                count - 1
            } else {
                sel + d
            }
        } else {
            let d: usize = if delta == isize::MIN {
                (isize::MAX as usize) + 1
            } else {
                (-delta) as usize
            };
            if d >= sel {
                0
            } else {
                sel - d
            }
        };
        self.selected_isolate_index = new_index;
    }

    /// Replaces the isolate list; the highlighted entry is clamped into the
    /// new list.
    pub fn set_available_isolates(&mut self, isolates: Vec<IsolateRef>)
        requires
            old(self).wf(),
        ensures
            final(self).wf(),
            final(self).available_isolates == isolates,
            final(self).selected_isolate_index == (if isolates@.len() == 0 {
                0int
            } else if old(self).selected_isolate_index < isolates@.len() {
                old(self).selected_isolate_index as int
            } else {
                isolates@.len() - 1
            }),
            *final(self) == (AppState {
                available_isolates: final(self).available_isolates,
                selected_isolate_index: final(self).selected_isolate_index,
                ..*old(self)
            }),
    {
        let len = isolates.len();
        self.available_isolates = isolates;
        if len == 0 {
            self.selected_isolate_index = 0;
        } else if self.selected_isolate_index >= len {
            self.selected_isolate_index = len - 1;
        }
    }

    /// Positions the selected row at the top-left corner of the viewport.
    pub fn focus_selected_node(&mut self)
        requires
            old(self).wf(),
        ensures
            final(self).wf(),
            final(self).tree_scroll_offset == old(self).selected_index,
            final(self).tree_horizontal_scroll == cap_usize(
                2 * (match old(self).root_node {
                    Some(root) => flat_depths(root, old(self).exp(), 0)[old(self).selected_index as int] as int,
                    None => 0int,
                }),
            ),
            *final(self) == (AppState {
                tree_scroll_offset: final(self).tree_scroll_offset,
                tree_horizontal_scroll: final(self).tree_horizontal_scroll,
                ..*old(self)
            }),
    {
        self.tree_scroll_offset = self.selected_index;
        let depth = self.get_selected_depth();
        self.tree_horizontal_scroll = if depth <= usize::MAX / 2 {
            depth * 2
        } else {
            usize::MAX
        };
    }

    /// Scrolls horizontally so the selected row's indentation is in view:
    /// back left with two columns of padding, or right just far enough,
    /// clamped at the left edge.
    pub fn ensure_horizontal_visibility(&mut self, viewport_width: usize)
        requires
            old(self).wf(),
        ensures
            final(self).wf(),
            ({
                let start = cap_usize(
                    2 * (match old(self).root_node {
                        Some(root) => flat_depths(root, old(self).exp(), 0)[old(self).selected_index as int] as int,
                        None => 0int,
                    }),
                );
                let inner = cap_usize(viewport_width - 2);
                final(self).tree_horizontal_scroll == (if start < old(self).tree_horizontal_scroll + 2 {
                    cap_usize(start - 2)
                } else if start > old(self).tree_horizontal_scroll + inner {
                    cap_usize(cap_usize(start + 12) - viewport_width)
                } else {
                    old(self).tree_horizontal_scroll as int
                })
            }),
            *final(self) == (AppState {
                tree_horizontal_scroll: final(self).tree_horizontal_scroll,
                ..*old(self)
            }),
    {
        let depth = self.get_selected_depth();
        let start: usize = if depth <= usize::MAX / 2 {
            depth * 2
        } else {
            usize::MAX
        };
        let cond_left = start < 2 || start - 2 < self.tree_horizontal_scroll;
        if cond_left {
            self.tree_horizontal_scroll = if start >= 2 {
                start - 2
            } else {
                0
            };
        } else {
            let inner = if viewport_width >= 2 {
                viewport_width - 2
            } else {
                0
            };
            let cond_right = start > inner && start - inner > self.tree_horizontal_scroll;
            if cond_right {
                let bumped: usize = if start <= usize::MAX - 12 {
                    start + 12
                } else {
                    usize::MAX
                };
                self.tree_horizontal_scroll = if bumped >= viewport_width {
                    bumped - viewport_width
                } else {
                    0
                };
            }
        }
    }
}

/// Adds a signed delta to an unsigned value, clamping into the usize range.
fn add_delta_capped(value: usize, delta: isize) -> (r: usize)
    ensures
        r == cap_usize(value + delta as int),
{
    if delta >= 0 {
        let d = delta as usize;
        if d <= usize::MAX - value {
            value + d
        } else {
            usize::MAX
        }
    } else {
        let d: usize = if delta == isize::MIN {
            (isize::MAX as usize) + 1
        } else {
            (-delta) as usize
        };
        if d >= value {
            0
        } else {
            value - d
        }
    }
}

/// One flip of an identity's membership in an expansion set, as
/// `toggle_expand` performs it.
pub open spec fn toggle_spec(s: Set<Seq<char>>, id: Seq<char>) -> Set<Seq<char>> {
    if s.contains(id) {
        s.remove(id)
    } else {
        s.insert(id)
    }
}

/// Expansion idempotence: toggling the same identity twice restores the
/// expansion set, for every set and identity.
pub proof fn lemma_toggle_idempotent(s: Set<Seq<char>>, id: Seq<char>)
    ensures
        toggle_spec(toggle_spec(s, id), id) =~= s,
{
}

/// The views of a sequence of strings.
pub open spec fn views_of(ss: Seq<String>) -> Seq<Seq<char>> {
    ss.map_values(|s: String| s@)
}

/// The identities on the single-child spine below a node: the node's own
/// identity, then its only child's, and so on, at most `limit` nodes in
/// all; an identity-less node ends the spine.
pub open spec fn chain_ids(node: RemoteDiagnosticsNode, limit: nat) -> Seq<Seq<char>>
    decreases limit,
{
    if limit == 0 {
        Seq::empty()
    } else {
        match node.spec_id() {
            None => Seq::empty(),
            Some(id) => seq![id] + if node.spec_children().len() == 1 {
                chain_ids(node.spec_children()[0], (limit - 1) as nat)
            } else {
                Seq::empty()
            },
        }
    }
}

/// Collects the identities of the single-child spine below `node` onto
/// `ids`.
pub fn collect_smart_expand_ids(
    node: &RemoteDiagnosticsNode,
    ids: &mut Vec<String>,
    depth_limit: usize,
)
    ensures
        views_of(final(ids)@) == views_of(old(ids)@) + chain_ids(*node, depth_limit as nat),
    decreases depth_limit,
{
    if depth_limit == 0 {
        proof {
            assert(views_of(ids@) =~= views_of(ids@) + chain_ids(*node, 0));
        }
        return;
    }
    let id = match crate::tree_nav::node_id_ref(node) {
        Some(id) => id.clone(),
        None => {
            proof {
                assert(views_of(ids@) =~= views_of(ids@) + chain_ids(*node, depth_limit as nat));
            }
            return;
        },
    };
    ids.push(id);
    proof {
        assert(views_of(ids@) =~= views_of(old(ids)@) + seq![node.spec_id().unwrap()]);
    }
    if let Some(children) = &node.children {
        if children.len() == 1 {
            let ghost mid = ids@;
            collect_smart_expand_ids(&children[0], ids, depth_limit - 1);
            proof {
                assert(views_of(ids@) =~= views_of(old(ids)@) + chain_ids(
                    *node,
                    depth_limit as nat,
                ));
            }
            return;
        }
    }
    proof {
        assert(views_of(ids@) =~= views_of(old(ids)@) + chain_ids(*node, depth_limit as nat));
    }
}

} // verus!
