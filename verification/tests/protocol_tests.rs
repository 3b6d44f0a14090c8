use inspector_tui::json::{json_parse, JsonValue};
use inspector_tui::protocol::{
    decode_isolate, decode_node, decode_stack_frames, decode_vm, unwrap_extension,
};
use inspector_tui::rpc::{
    build_request, classify_frame, decode_rpc_error, params_details_subtree, params_isolate,
    params_root_widget_tree, params_stream_listen, FrameClass, PendingTable, ResponsePayload,
    RpcError,
};
use inspector_tui::uri::extract_ws_uri;
use inspector_tui::session::{debug_event_action, DebugAction};

#[test]
fn request_ids_increase_and_each_response_completes_one_caller() {
    let mut table: PendingTable<&str> = PendingTable::new();
    let id1 = table.allocate("first");
    let id2 = table.allocate("second");
    let id3 = table.allocate("third");
    assert!(id1 < id2 && id2 < id3);
    assert_eq!(table.take(id2), Some("second"));
    // Delivering the same id twice finds nothing the second time.
    assert_eq!(table.take(id2), None);
    assert_eq!(table.take(999), None);
    let rest = table.drain();
    assert_eq!(rest, vec!["first", "third"]);
    assert_eq!(table.len(), 0);
}

#[test]
fn extension_wrapped_and_bare_replies_decode_identically() {
    let wrapped = json_parse(
        "{\"type\":\"_extensionType\",\"result\":{\"description\":\"App\",\"children\":[]}}",
    )
    .unwrap();
    let bare = json_parse("{\"description\":\"App\",\"children\":[]}").unwrap();
    let from_wrapped = decode_node(unwrap_extension(&wrapped)).unwrap();
    let from_bare = decode_node(unwrap_extension(&bare)).unwrap();
    assert_eq!(from_wrapped.description.as_deref(), Some("App"));
    assert_eq!(from_bare.description.as_deref(), Some("App"));
    assert_eq!(from_wrapped.children.as_ref().map(|c| c.len()), Some(0));
    assert_eq!(from_bare.children.as_ref().map(|c| c.len()), Some(0));
}

#[test]
fn a_node_with_a_wrongly_typed_field_refuses_to_decode() {
    let bad = json_parse("{\"description\":5}").unwrap();
    assert!(decode_node(&bad).is_none());
    let bad_children = json_parse("{\"children\":{}}").unwrap();
    assert!(decode_node(&bad_children).is_none());
}

#[test]
fn nested_children_and_identity_fields_decode() {
    let v = json_parse(
        "{\"description\":\"root\",\"widgetRuntimeType\":\"App\",\"valueId\":\"v1\",\
         \"children\":[{\"description\":\"kid\",\"objectId\":\"o2\",\"hasChildren\":false}]}",
    )
    .unwrap();
    let node = decode_node(&v).unwrap();
    assert_eq!(node.widget_runtime_type.as_deref(), Some("App"));
    assert_eq!(node.value_id.as_deref(), Some("v1"));
    let kids = node.children.unwrap();
    assert_eq!(kids.len(), 1);
    assert_eq!(kids[0].object_id.as_deref(), Some("o2"));
    assert_eq!(kids[0].has_children, Some(false));
}

#[test]
fn a_numeric_id_makes_a_frame_a_response() {
    let v = json_parse("{\"jsonrpc\":\"2.0\",\"id\":7,\"result\":{\"ok\":true}}").unwrap();
    match classify_frame(v) {
        FrameClass::Response { id, payload } => {
            assert_eq!(id, 7);
            match payload {
                ResponsePayload::Okay(JsonValue::Obj(entries)) => {
                    assert_eq!(entries.len(), 1);
                    assert_eq!(entries[0].0, "ok");
                },
                _ => panic!("expected the result object"),
            }
        },
        _ => panic!("expected a response"),
    }
}

#[test]
fn an_error_reply_routes_its_error_object() {
    let v = json_parse(
        "{\"id\":3,\"error\":{\"code\":-32601,\"message\":\"Method not found\"}}",
    )
    .unwrap();
    match classify_frame(v) {
        FrameClass::Response { id, payload } => {
            assert_eq!(id, 3);
            match payload {
                ResponsePayload::Error(e) => match decode_rpc_error(e) {
                    RpcError::Remote { code, message, .. } => {
                        assert_eq!(code, -32601);
                        assert_eq!(message, "Method not found");
                    },
                    _ => panic!("remote error expected"),
                },
                _ => panic!("expected the error payload"),
            }
        },
        _ => panic!("expected a response"),
    }
}

#[test]
fn a_stream_notify_frame_becomes_an_event() {
    let v = json_parse(
        "{\"jsonrpc\":\"2.0\",\"method\":\"streamNotify\",\"params\":{\"streamId\":\"Debug\",\
         \"event\":{\"kind\":\"PauseBreakpoint\",\"isolate\":{\"id\":\"isolates/1\"},\
         \"timestamp\":12345}}}",
    )
    .unwrap();
    match classify_frame(v) {
        FrameClass::Event(ev) => {
            assert_eq!(ev.stream_id, "Debug");
            assert_eq!(ev.event_kind, "PauseBreakpoint");
            assert_eq!(ev.isolate_id.as_deref(), Some("isolates/1"));
            assert_eq!(ev.timestamp, 12345);
        },
        _ => panic!("expected an event"),
    }
}

#[test]
fn frames_with_neither_id_nor_stream_notify_are_ignored() {
    let v = json_parse("{\"method\":\"somethingElse\",\"params\":{}}").unwrap();
    assert!(matches!(classify_frame(v), FrameClass::Other));
}

#[test]
fn pause_events_fetch_the_stack_and_the_frame_names_decode() {
    let iso = "isolates/1".to_string();
    match debug_event_action("PauseBreakpoint", Some(&iso)) {
        DebugAction::PauseAndFetchStack { isolate_id, reason } => {
            assert_eq!(isolate_id, "isolates/1");
            assert_eq!(reason, "PauseBreakpoint");
        },
        _ => panic!("expected a pause"),
    }
    assert!(matches!(debug_event_action("Resume", None), DebugAction::Resume));
    assert!(matches!(debug_event_action("GC", Some(&iso)), DebugAction::Ignore));

    let stack = json_parse("{\"frames\":[{\"function\":{\"name\":\"main\"}}]}").unwrap();
    let names = decode_stack_frames(&stack);
    assert_eq!(names, vec!["main".to_string()]);
}

#[test]
fn vm_and_isolate_replies_decode() {
    let vm = json_parse(
        "{\"isolates\":[{\"id\":\"isolates/1\",\"name\":\"main\"},\
         {\"id\":\"isolates/2\",\"name\":\"worker\"}]}",
    )
    .unwrap();
    let vm = decode_vm(&vm).unwrap();
    assert_eq!(vm.isolates.len(), 2);
    assert_eq!(vm.isolates[1].name, "worker");

    let iso = json_parse(
        "{\"id\":\"isolates/1\",\"name\":\"main\",\
         \"extensionRPCs\":[\"ext.flutter.inspector.getRootWidgetSummaryTree\"]}",
    )
    .unwrap();
    let iso = decode_isolate(&iso).unwrap();
    assert_eq!(iso.id, "isolates/1");
    let rpcs = iso.extension_rpcs.unwrap();
    assert!(inspector_tui::session::inspector_ready(&rpcs));
    let no_ext = vec!["ext.other".to_string()];
    assert!(!inspector_tui::session::inspector_ready(&no_ext));
}

#[test]
fn outgoing_requests_carry_the_protocol_shape() {
    let req = build_request(9, "getVM", params_isolate("isolates/1"));
    match req {
        JsonValue::Obj(entries) => {
            assert_eq!(entries.len(), 4);
            assert_eq!(entries[0].0, "jsonrpc");
            assert!(matches!(&entries[0].1, JsonValue::Str(s) if s == "2.0"));
            assert_eq!(entries[1].0, "method");
            assert!(matches!(&entries[1].1, JsonValue::Str(s) if s == "getVM"));
            assert_eq!(entries[2].0, "params");
            assert_eq!(entries[3].0, "id");
            assert!(matches!(entries[3].1, JsonValue::Int(9)));
        },
        _ => panic!("expected an object"),
    }
    match params_stream_listen("Debug") {
        JsonValue::Obj(entries) => {
            assert_eq!(entries.len(), 1);
            assert_eq!(entries[0].0, "streamId");
        },
        _ => panic!("expected an object"),
    }
    match params_root_widget_tree("isolates/1", "tui_inspector") {
        JsonValue::Obj(entries) => {
            assert_eq!(entries.len(), 2);
            assert_eq!(entries[1].0, "objectGroup");
            assert!(matches!(&entries[1].1, JsonValue::Str(s) if s == "tui_inspector"));
        },
        _ => panic!("expected an object"),
    }
    match params_details_subtree("isolates/1", "tui_inspector", "objects/5", 2) {
        JsonValue::Obj(entries) => {
            assert_eq!(entries.len(), 4);
            assert_eq!(entries[2].0, "arg");
            assert_eq!(entries[3].0, "subtreeDepth");
            assert!(matches!(entries[3].1, JsonValue::Int(2)));
        },
        _ => panic!("expected an object"),
    }
}

#[test]
fn the_endpoint_uri_is_discovered_and_rescheme_d() {
    let line = "Observatory listening on 127.0.0.1:1234, available at: http://127.0.0.1:1234/abcDEF=/";
    assert_eq!(
        extract_ws_uri(line).as_deref(),
        Some("ws://127.0.0.1:1234/abcDEF=/")
    );
    assert_eq!(extract_ws_uri("A VM Service is listening elsewhere"), None);
    // Without the closing slash the capture ends at the token.
    assert_eq!(
        extract_ws_uri("available at: http://1.2.3.4:80/tok").as_deref(),
        Some("ws://1.2.3.4:80/tok")
    );
    // A malformed candidate is skipped in favour of a later complete one.
    assert_eq!(
        extract_ws_uri("available at: gopher, then available at: http://9.9.9.9:1/t/").as_deref(),
        Some("ws://9.9.9.9:1/t/")
    );
}
