use inspector_tui::app_state::AppState;
use inspector_tui::idset::IdSet;
use inspector_tui::node::RemoteDiagnosticsNode;
use inspector_tui::render::{flatten_tree, render_node};
use inspector_tui::tree_nav::count_visible_nodes;
use inspector_tui::app_state::Focus;
use inspector_tui::app_state::IsolateRef;

fn node(
    id: Option<&str>,
    desc: &str,
    wtype: &str,
    children: Option<Vec<RemoteDiagnosticsNode>>,
) -> RemoteDiagnosticsNode {
    RemoteDiagnosticsNode {
        description: Some(desc.to_string()),
        node_type: None,
        name: None,
        style: None,
        has_children: children.as_ref().map(|c| !c.is_empty()),
        children,
        widget_runtime_type: Some(wtype.to_string()),
        object_id: None,
        value_id: id.map(|s| s.to_string()),
        properties: None,
    }
}

/// root(r) -> a(2 leaves), b(1 leaf): 6 nodes in all.
fn sample_tree() -> RemoteDiagnosticsNode {
    let a = node(
        Some("a"),
        "left",
        "Row",
        Some(vec![
            node(Some("a1"), "one", "Text", None),
            node(Some("a2"), "two", "Text", None),
        ]),
    );
    let b = node(Some("b"), "right", "Column", Some(vec![node(Some("b1"), "three", "Text", None)]));
    node(Some("r"), "app", "App", Some(vec![a, b]))
}

#[test]
fn expand_every_node_collapse_every_node_visible_count_returns_to_root() {
    let mut state = AppState::new();
    state.set_root_node(sample_tree());
    // Only the root is expanded after installation.
    assert_eq!(state.visible_count(), 3);
    for id in ["r", "a", "b", "a1", "a2", "b1"] {
        state.expanded_ids.insert(id.to_string());
    }
    assert_eq!(state.visible_count(), 6);
    for id in ["r", "a", "b", "a1", "a2", "b1"] {
        state.expanded_ids.remove(id);
    }
    assert_eq!(state.visible_count(), 1);
}

#[test]
fn navigation_clamps_at_both_ends_without_panic() {
    let mut state = AppState::new();
    // Empty tree: moving is a no-op.
    state.move_selection(5);
    assert_eq!(state.selected_index, 0);
    state.set_root_node(sample_tree());
    state.move_selection(1000);
    assert_eq!(state.selected_index, state.visible_count() - 1);
    state.move_selection(-1000);
    assert_eq!(state.selected_index, 0);
    state.move_selection(isize::MAX);
    state.move_selection(isize::MIN);
    assert_eq!(state.selected_index, 0);
}

#[test]
fn toggle_expand_twice_restores_the_expansion_set() {
    let mut state = AppState::new();
    state.set_root_node(sample_tree());
    state.move_selection(1); // onto node "a"
    let before = state.visible_count();
    assert!(!state.expanded_ids.contains("a"));
    state.toggle_expand();
    assert!(state.expanded_ids.contains("a"));
    assert_eq!(state.visible_count(), before + 2);
    state.toggle_expand();
    assert!(!state.expanded_ids.contains("a"));
    assert_eq!(state.visible_count(), before);
}

#[test]
fn collapse_selected_reports_whether_anything_collapsed() {
    let mut state = AppState::new();
    state.set_root_node(sample_tree());
    // Root is expanded by set_root_node.
    assert!(state.collapse_selected());
    assert_eq!(state.visible_count(), 1);
    assert!(!state.collapse_selected());
}

#[test]
fn smart_expand_follows_a_single_child_spine_five_nodes_deep() {
    let f = node(Some("F"), "f", "W", None);
    let e = node(Some("E"), "e", "W", Some(vec![f]));
    let d = node(Some("D"), "d", "W", Some(vec![e]));
    let c = node(Some("C"), "c", "W", Some(vec![d]));
    let b = node(Some("B"), "b", "W", Some(vec![c]));
    let a = node(Some("A"), "a", "W", Some(vec![b]));
    let mut state = AppState::new();
    state.root_node = Some(a);
    state.expand_selected();
    for id in ["A", "B", "C", "D", "E"] {
        assert!(state.expanded_ids.contains(id), "{id} should be expanded");
    }
    assert!(!state.expanded_ids.contains("F"));
    assert_eq!(state.visible_count(), 6);
}

#[test]
fn selection_survives_a_tree_refresh_and_scrolls_with_context() {
    // First tree: v42 sits at visible index 7 once everything is expanded.
    let deep = node(
        Some("x1"),
        "x1",
        "W",
        Some(vec![
            node(Some("x2"), "x2", "W", None),
            node(Some("x3"), "x3", "W", None),
            node(Some("x4"), "x4", "W", None),
            node(Some("x5"), "x5", "W", None),
            node(Some("x6"), "x6", "W", None),
            node(Some("v42"), "target", "W", None),
        ]),
    );
    let root = node(Some("r"), "root", "W", Some(vec![deep]));
    let mut state = AppState::new();
    state.set_root_node(root);
    state.expanded_ids.insert("x1".to_string());
    assert_eq!(state.visible_count(), 8);
    state.selected_index = 7;
    assert_eq!(
        AppState::get_node_id(state.get_selected_node().unwrap()),
        Some("v42".to_string())
    );

    // New tree: v42 reachable at visible index 3 after expanding ancestors.
    let new_root = node(
        Some("r2"),
        "root2",
        "W",
        Some(vec![
            node(Some("y1"), "y1", "W", None),
            node(
                Some("y2"),
                "y2",
                "W",
                Some(vec![node(Some("v42"), "target", "W", None)]),
            ),
        ]),
    );
    state.set_root_node(new_root);
    assert_eq!(state.selected_index, 3);
    assert_eq!(state.tree_scroll_offset, 0);
    assert!(state.expanded_ids.contains("r2"));
    assert!(state.expanded_ids.contains("y2"));
    assert_eq!(
        AppState::get_node_id(state.get_selected_node().unwrap()),
        Some("v42".to_string())
    );
}

#[test]
fn refresh_without_the_old_identity_resets_to_the_top() {
    let mut state = AppState::new();
    state.set_root_node(sample_tree());
    state.expanded_ids.insert("a".to_string());
    state.selected_index = 2;
    state.tree_scroll_offset = 2;
    state.set_root_node(node(Some("other"), "fresh", "App", None));
    assert_eq!(state.selected_index, 0);
    assert_eq!(state.tree_scroll_offset, 0);
    assert!(state.selected_node_details.is_none());
}

#[test]
fn select_parent_steps_to_the_row_one_level_shallower() {
    let mut state = AppState::new();
    state.set_root_node(sample_tree());
    state.expanded_ids.insert("a".to_string());
    // Rows: r, a, a1, a2, b.
    state.selected_index = 2;
    state.select_parent();
    assert_eq!(state.selected_index, 1);
    state.select_parent();
    assert_eq!(state.selected_index, 0);
    state.select_parent();
    assert_eq!(state.selected_index, 0);
}

#[test]
fn select_first_child_steps_onto_the_next_row_of_an_expanded_node() {
    let mut state = AppState::new();
    state.set_root_node(sample_tree());
    state.select_first_child();
    assert_eq!(state.selected_index, 1);
    // "a" is collapsed: no step.
    state.select_first_child();
    assert_eq!(state.selected_index, 1);
}

#[test]
fn flattened_rows_agree_with_the_visible_count() {
    let tree = sample_tree();
    let mut ids = IdSet::new();
    ids.insert("r".to_string());
    ids.insert("b".to_string());
    let mut lines: Vec<String> = Vec::new();
    flatten_tree(&tree, 0, &mut lines, &ids);
    assert_eq!(lines.len(), count_visible_nodes(&tree, &ids));
    assert_eq!(lines.len(), 4);
}

#[test]
fn rendering_shows_indent_marker_type_and_description() {
    let tree = sample_tree();
    assert_eq!(render_node(&tree, 0, true), "▼ App (app)");
    assert_eq!(render_node(&tree, 1, false), "  ▶ App (app)");
    let leaf = node(Some("x"), "hello", "Text", None);
    assert_eq!(render_node(&leaf, 0, false), "  Text (hello)");
}

#[test]
fn tree_scrolling_keeps_the_selection_inside_the_viewport() {
    let mut state = AppState::new();
    state.set_root_node(sample_tree());
    state.expanded_ids.insert("a".to_string());
    state.expanded_ids.insert("b".to_string());
    state.selected_index = 5;
    state.update_tree_scroll(2);
    assert_eq!(state.tree_scroll_offset, 4);
    state.selected_index = 1;
    state.update_tree_scroll(2);
    assert_eq!(state.tree_scroll_offset, 1);
    state.scroll_tree(-5);
    assert_eq!(state.tree_scroll_offset, 0);
    state.scroll_tree(3);
    assert_eq!(state.tree_scroll_offset, 3);
}

#[test]
fn horizontal_visibility_clamps_at_zero_instead_of_underflowing() {
    let mut state = AppState::new();
    state.set_root_node(sample_tree());
    state.move_selection(1);
    // Depth 1, start column 2; a wide viewport must not scroll (and must
    // not underflow as `start + 12 - width` would).
    state.ensure_horizontal_visibility(80);
    assert_eq!(state.tree_horizontal_scroll, 0);
}

#[test]
fn focus_cycles_tree_details_logs_and_locks_during_isolate_selection() {
    let mut state = AppState::new();
    assert_eq!(state.focus, Focus::Tree);
    state.cycle_focus();
    assert_eq!(state.focus, Focus::Details);
    state.cycle_focus();
    assert_eq!(state.focus, Focus::Logs);
    state.cycle_focus();
    assert_eq!(state.focus, Focus::Tree);
    state.show_isolate_selection = true;
    state.cycle_focus();
    assert_eq!(state.focus, Focus::Tree);
}

#[test]
fn log_scrolling_disarms_and_rearms_auto_scroll() {
    let mut state = AppState::new();
    for i in 0..10 {
        state.add_log(format!("line {i}"));
    }
    assert!(state.log_auto_scroll);
    state.scroll_logs(-3);
    assert!(!state.log_auto_scroll);
    state.scroll_logs(100);
    assert_eq!(state.log_scroll_state, 9);
    assert!(state.log_auto_scroll);
}

#[test]
fn isolate_selection_moves_and_clamps() {
    let mut state = AppState::new();
    state.move_isolate_selection(1);
    assert_eq!(state.selected_isolate_index, 0);
    state.set_available_isolates(vec![
        IsolateRef { id: "isolates/1".to_string(), name: "main".to_string() },
        IsolateRef { id: "isolates/2".to_string(), name: "worker".to_string() },
    ]);
    state.move_isolate_selection(5);
    assert_eq!(state.selected_isolate_index, 1);
    state.move_isolate_selection(-5);
    assert_eq!(state.selected_isolate_index, 0);
}

#[test]
fn horizontal_scroll_moves_right_just_far_enough() {
    // A chain deep enough that the selected row starts at column 20.
    let mut current = node(Some("c10"), "tip", "W", None);
    for i in (0..10).rev() {
        current = node(Some(&format!("c{i}")), "link", "W", Some(vec![current]));
    }
    let mut state = AppState::new();
    state.set_root_node(current);
    for i in 0..10 {
        state.expanded_ids.insert(format!("c{i}"));
    }
    state.selected_index = 10;
    assert_eq!(state.get_selected_depth(), 10);
    // start = 20, viewport 10: scroll right to start + 2 + 10 - width = 22.
    state.ensure_horizontal_visibility(10);
    assert_eq!(state.tree_horizontal_scroll, 22);
    // Moving back to a shallow row scrolls left with two columns of padding.
    state.selected_index = 1;
    state.ensure_horizontal_visibility(10);
    assert_eq!(state.tree_horizontal_scroll, 0);
}

#[test]
fn jumping_to_a_match_scrolls_three_rows_of_context_above() {
    let kids: Vec<RemoteDiagnosticsNode> = (0..8)
        .map(|i| {
            if i == 6 {
                node(Some("target"), "NeedleWidget", "W", None)
            } else {
                node(Some(&format!("k{i}")), "plain", "W", None)
            }
        })
        .collect();
    let root = node(Some("r"), "root", "W", Some(kids));
    let mut state = AppState::new();
    state.set_root_node(root);
    state.search_query = "Needle".to_string();
    state.perform_search();
    assert_eq!(state.selected_index, 7);
    assert_eq!(state.tree_scroll_offset, 4);
}
