use inspector_tui::app_state::AppState;
use inspector_tui::node::RemoteDiagnosticsNode;
use inspector_tui::session::{
    find_isolate, is_reload_line, phase_after, should_trigger_reload, Debouncer, SessionEvent,
    SessionPhase,
};
use inspector_tui::text::usize_to_string;
use inspector_tui::app_state::IsolateRef;

fn leaf(id: &str, desc: &str) -> RemoteDiagnosticsNode {
    RemoteDiagnosticsNode {
        description: Some(desc.to_string()),
        node_type: None,
        name: None,
        style: None,
        has_children: Some(false),
        children: None,
        widget_runtime_type: Some("Widget".to_string()),
        object_id: None,
        value_id: Some(id.to_string()),
        properties: None,
    }
}

#[test]
fn reload_detection_fires_on_reload_lines_only() {
    assert!(is_reload_line("Reloaded 3 libraries in 127ms"));
    assert!(is_reload_line("Restarted application in 1,2s"));
    assert!(!is_reload_line("Syncing files to device..."));
}

#[test]
fn a_burst_of_file_events_produces_exactly_one_reload_command() {
    let mut pump = Debouncer::new();
    pump.on_file_event(0);
    assert!(!pump.on_tick(400, true));
    pump.on_file_event(100);
    pump.on_file_event(200);
    assert!(!pump.on_tick(600, true));
    // The deadline of the last event is 700.
    assert!(pump.on_tick(700, true));
    // The pump disarmed: nothing more fires until the next event.
    assert!(!pump.on_tick(800, true));
    // With auto-reload off a passed deadline disarms silently.
    pump.on_file_event(1000);
    assert!(!pump.on_tick(1500, false));
    assert!(!pump.on_tick(1600, true));
}

#[test]
fn the_file_filter_takes_unignored_source_files_only() {
    assert!(should_trigger_reload(false, "lib/main.dart"));
    assert!(!should_trigger_reload(true, "lib/main.dart"));
    assert!(!should_trigger_reload(false, "build/out.js"));
    assert!(!should_trigger_reload(false, "dart"));
}

#[test]
fn the_session_walks_from_discovery_to_steady_and_back_on_reload() {
    let mut p = SessionPhase::Discovering;
    p = phase_after(p, SessionEvent::UriDiscovered);
    assert_eq!(p, SessionPhase::Connecting);
    p = phase_after(p, SessionEvent::Connected);
    assert_eq!(p, SessionPhase::ListingIsolates);
    p = phase_after(p, SessionEvent::ManyIsolates);
    assert_eq!(p, SessionPhase::AwaitingUserSelection);
    p = phase_after(p, SessionEvent::IsolateSelected);
    assert_eq!(p, SessionPhase::WaitingForInspector);
    p = phase_after(p, SessionEvent::InspectorAdvertised);
    assert_eq!(p, SessionPhase::TreeFetch);
    p = phase_after(p, SessionEvent::TreeFetchFailed);
    assert_eq!(p, SessionPhase::AwaitingUserSelection);
    p = phase_after(p, SessionEvent::IsolateSelected);
    p = phase_after(p, SessionEvent::InspectorAdvertised);
    p = phase_after(p, SessionEvent::TreeFetched);
    assert_eq!(p, SessionPhase::Steady);
    p = phase_after(p, SessionEvent::ReloadSignal);
    assert_eq!(p, SessionPhase::TreeFetch);
    // An event a phase does not consume leaves it unchanged.
    assert_eq!(phase_after(p, SessionEvent::Connected), SessionPhase::TreeFetch);
}

#[test]
fn isolates_are_found_by_id() {
    let isolates = vec![
        IsolateRef { id: "isolates/1".to_string(), name: "main".to_string() },
        IsolateRef { id: "isolates/2".to_string(), name: "worker".to_string() },
    ];
    assert_eq!(find_isolate(&isolates, "isolates/2"), Some(1));
    assert_eq!(find_isolate(&isolates, "isolates/9"), None);
}

#[test]
fn empty_search_query_yields_no_results_and_moves_nothing() {
    let mut state = AppState::new();
    state.set_root_node(leaf("r", "app"));
    state.selected_index = 0;
    state.search_query = String::new();
    state.perform_search();
    assert!(state.search_results.is_empty());
    assert_eq!(state.current_match_index, 0);
    assert_eq!(state.selected_index, 0);
}

#[test]
fn fuzzy_search_finds_matching_descriptions_and_jumps() {
    let child_hit = leaf("hit", "SpecialButton");
    let child_miss = leaf("miss", "Container");
    let root = RemoteDiagnosticsNode {
        children: Some(vec![child_miss, child_hit]),
        ..leaf("r", "app")
    };
    let mut state = AppState::new();
    state.set_root_node(root);
    state.search_query = "SpecBut".to_string();
    state.perform_search();
    assert_eq!(state.search_results, vec!["hit".to_string()]);
    assert_eq!(
        AppState::get_node_id(state.get_selected_node().unwrap()),
        Some("hit".to_string())
    );
    // A query that matches nothing leaves no results.
    state.search_query = "zzzqqq".to_string();
    state.perform_search();
    assert!(state.search_results.is_empty());
}

#[test]
fn next_and_previous_match_wrap_around() {
    let a = leaf("m1", "Button one");
    let b = leaf("m2", "Button two");
    let root = RemoteDiagnosticsNode { children: Some(vec![a, b]), ..leaf("r", "app") };
    let mut state = AppState::new();
    state.set_root_node(root);
    state.search_query = "Button".to_string();
    state.perform_search();
    assert_eq!(state.search_results.len(), 2);
    assert_eq!(state.current_match_index, 0);
    state.next_match();
    assert_eq!(state.current_match_index, 1);
    state.next_match();
    assert_eq!(state.current_match_index, 0);
    state.prev_match();
    assert_eq!(state.current_match_index, 1);
}

#[test]
fn numbers_render_in_decimal() {
    assert_eq!(usize_to_string(0), "0");
    assert_eq!(usize_to_string(7), "7");
    assert_eq!(usize_to_string(127), "127");
    assert_eq!(usize_to_string(100230), "100230");
}

#[test]
fn breakpoints_toggle_by_path_and_line() {
    let mut state = AppState::new();
    state.open_file(
        "lib/main.dart".to_string(),
        vec!["void main() {".to_string(), "}".to_string()],
    );
    // The first line is selected after opening.
    let added = state.toggle_breakpoint();
    assert_eq!(added, Some(("lib/main.dart".to_string(), 1)));
    assert!(state.breakpoints.contains("lib/main.dart:1"));
    // Toggling again clears it without a peer call.
    assert_eq!(state.toggle_breakpoint(), None);
    assert!(!state.breakpoints.contains("lib/main.dart:1"));
}

#[test]
fn the_file_tree_opens_leaves_and_toggles_directories() {
    let file = leaf("lib/main.dart", "main.dart");
    let dir = RemoteDiagnosticsNode { children: Some(vec![file]), ..leaf("lib", "lib") };
    let mut state = AppState::new();
    state.set_file_tree(dir);
    // The root directory is expanded on installation; its child is row 1.
    state.move_debugger_selection(1);
    let opened = state.activate_selected_debugger_node();
    assert_eq!(opened, Some("lib/main.dart".to_string()));
    state.open_file("lib/main.dart".to_string(), vec!["x".to_string(); 30]);
    state.move_source_selection(10, 5);
    assert_eq!(state.source_selected_line, Some(10));
    assert_eq!(state.source_scroll_offset, 6);
}

#[test]
fn debugger_search_selects_the_matching_file() {
    let f1 = RemoteDiagnosticsNode { widget_runtime_type: None, ..leaf("lib/a.dart", "a.dart") };
    let f2 = RemoteDiagnosticsNode {
        widget_runtime_type: None,
        ..leaf("lib/widgets.dart", "widgets.dart")
    };
    let dir = RemoteDiagnosticsNode {
        children: Some(vec![f1, f2]),
        widget_runtime_type: None,
        ..leaf("lib", "lib")
    };
    let mut state = AppState::new();
    state.set_file_tree(dir);
    state.debugger_search_query = "widg".to_string();
    state.perform_debugger_search();
    assert_eq!(state.debugger_search_results, vec!["lib/widgets.dart".to_string()]);
    assert_eq!(state.debugger_selected_index, 2);
}
