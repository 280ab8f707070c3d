use mybox::capture::{check_access, hotkey_from_config, real_access_checker, request_access, Tool, ToolAction};
use mybox::config::{ConfigCenter, ConfigValue};
use mybox::capture::{gate_step, start_capture_gate, CaptureStart, GateAction, GatePhase, Handle, MonitorGeom, MouseMove, Phase};
use std::cell::Cell;

#[test]
fn check_access_delegates_to_the_injected_checker() {
    assert!(check_access(|| true));
    assert!(!check_access(|| false));
}

#[test]
fn hosts_without_a_gate_grant_access() {
    assert!(check_access(real_access_checker));
    assert!(request_access());
}

#[test]
fn hotkey_from_config_reads_capture_section_or_defaults() {
    let mut config = ConfigCenter::default();
    assert_eq!(hotkey_from_config(&config), "Cmd+Shift+S");
    config.set("capture", "hotkey", ConfigValue::String("Ctrl+Alt+S".to_string()));
    assert_eq!(hotkey_from_config(&config), "Ctrl+Alt+S");
}

#[test]
fn tool_actions_compare_by_tool() {
    assert_eq!(ToolAction::Tool(Tool::Pen), ToolAction::Tool(Tool::Pen));
    assert_ne!(ToolAction::Tool(Tool::Pen), ToolAction::Tool(Tool::Rect));
    assert_ne!(ToolAction::Confirm, ToolAction::Cancel);
}

#[test]
fn annotation_undo_pops_the_most_recent() {
    let mut list = mybox::capture::AnnotationList::new();
    assert!(list.is_empty());
    list.push("rect");
    list.push("arrow");
    assert_eq!(list.as_slice(), &["rect", "arrow"]);
    assert_eq!(list.undo(), Some("arrow"));
    assert_eq!(list.undo(), Some("rect"));
    assert_eq!(list.undo(), None);
    assert!(list.is_empty());
}

/// An annotation with logical-point corners, as the overlay records them.
#[derive(Debug, PartialEq)]
enum Annotation {
    Rect { a: (f32, f32), b: (f32, f32) },
}

#[test]
fn undo_pops_last_and_reaches_empty() {
    let mut list = mybox::capture::AnnotationList::default();
    assert!(list.is_empty());
    list.push(Annotation::Rect { a: (0.0, 0.0), b: (1.0, 1.0) });
    list.push(Annotation::Rect { a: (2.0, 2.0), b: (3.0, 3.0) });
    list.push(Annotation::Rect { a: (4.0, 4.0), b: (5.0, 5.0) });
    assert_eq!(list.items.len(), 3);
    assert_eq!(list.undo(), Some(Annotation::Rect { a: (4.0, 4.0), b: (5.0, 5.0) }));
    assert_eq!(list.items.len(), 2);
    assert!(!list.is_empty());
    list.undo();
    list.undo();
    assert!(list.is_empty(), "undo to empty == original image");
    assert_eq!(list.undo(), None, "undo on empty returns None");
}

type Capture = mybox::capture::SessionState<Vec<u8>, (f32, f32), (f32, f32, f32, f32), Annotation>;

#[test]
fn window_created_tracks_overlay_ids_until_pending_drained() {
    let mut state = Capture::new();
    state.pending_overlays = 2;
    state.window_created(10);
    state.window_created(20);
    state.window_created(30); // extra — pending already drained, ignored
    assert_eq!(state.overlay_ids, vec![10, 20]);
    assert_eq!(state.pending_overlays, 0);
}

#[test]
fn late_overlay_after_the_capture_ended_is_destroyed() {
    let mut state = Capture::new();
    assert!(state.begin_capture());
    state.expect_overlays(2);
    assert!(!state.window_created(1), "live capture keeps its overlay");
    state.active = false;
    assert!(state.window_created(2), "an ended capture destroys a late overlay");
}

#[test]
fn store_shots_records_geometry_and_count() {
    let mut state = Capture::new();
    state.store_shots(vec![(MonitorGeom { x: 0, y: 0, width: 2, height: 2 }, vec![0u8; 16])]);
    assert_eq!(state.shots.len(), 1);
    assert_eq!(state.shots[0].0, MonitorGeom { x: 0, y: 0, width: 2, height: 2 });
    assert_eq!(state.shots[0].1.len(), 16);
}

#[test]
fn drag_select_phases_and_move_requests() {
    let mut state = Capture::new();
    assert_eq!(state.phase(), Phase::Idle);
    assert_eq!(state.on_mouse_move(0, (5.0, 5.0)), MouseMove::Nothing, "no drag while idle");
    state.on_mouse_down(1, (10.0, 10.0), (10.0, 10.0, 10.0, 10.0));
    assert_eq!(state.phase(), Phase::Selecting);
    assert_eq!(
        state.on_mouse_move(0, (50.0, 60.0)),
        MouseMove::Drag { monitor: 1, anchor: (10.0, 10.0) },
        "the drag stays on the monitor it started on"
    );
    assert_eq!(state.last_cursor, Some((50.0, 60.0)));
    state.set_selection(1, (10.0, 10.0, 50.0, 60.0));
    state.on_mouse_up();
    assert_eq!(state.phase(), Phase::Selected);
    assert_eq!(state.drag_anchor, None);
    assert_eq!(state.on_mouse_move(1, (70.0, 70.0)), MouseMove::Nothing, "no handle held");
    state.set_active_handle(Some(Handle::SE));
    assert_eq!(
        state.on_mouse_move(1, (80.0, 80.0)),
        MouseMove::Resize { monitor: 1, handle: Handle::SE, selection: (10.0, 10.0, 50.0, 60.0) }
    );
    assert_eq!(state.on_mouse_move(0, (80.0, 80.0)), MouseMove::Nothing, "other monitors never resize");
}

#[test]
fn capture_gate_ignores_duplicate_trigger_while_active() {
    let mut state = Capture::new();
    assert_eq!(start_capture_gate(&mut state, || true, || true, || ()), CaptureStart::Granted);
    assert!(state.active);
    state.expect_overlays(1);
    assert_eq!(start_capture_gate(&mut state, || true, || true, || ()), CaptureStart::AlreadyActive);
    assert_eq!(state.pending_overlays, 1, "the live session is untouched");
}

#[test]
fn capture_gate_denied_requests_then_opens_settings_and_aborts() {
    let requested = Cell::new(0);
    let opened = Cell::new(0);
    let mut state = Capture::new();
    let r = start_capture_gate(
        &mut state,
        || false,
        || {
            requested.set(requested.get() + 1);
            false
        },
        || opened.set(opened.get() + 1),
    );
    assert_eq!(r, CaptureStart::Denied);
    assert_eq!((requested.get(), opened.get()), (1, 1));
    assert!(!state.active, "the capture ended");
}

#[test]
fn capture_gate_grants_after_the_request_succeeds() {
    let calls = Cell::new(0);
    let mut state = Capture::new();
    let r = start_capture_gate(
        &mut state,
        || {
            calls.set(calls.get() + 1);
            calls.get() > 1
        },
        || true,
        || panic!("settings must not open"),
    );
    assert_eq!(r, CaptureStart::Granted);
    assert_eq!(calls.get(), 2);
    assert!(state.active);
}

#[test]
fn gate_step_follows_check_request_recheck() {
    let mut state = Capture::new();
    assert!(state.begin_capture());
    assert_eq!(gate_step(&mut state, GatePhase::FirstCheck, true), (GatePhase::Done, GateAction::Start));
    assert!(state.active);
    assert_eq!(gate_step(&mut state, GatePhase::FirstCheck, false), (GatePhase::Recheck, GateAction::Request));
    assert!(state.active, "asking keeps the capture");
    assert_eq!(gate_step(&mut state, GatePhase::Recheck, true), (GatePhase::Done, GateAction::Start));
    assert!(state.active);
    assert_eq!(
        gate_step(&mut state, GatePhase::Recheck, false),
        (GatePhase::Done, GateAction::OpenSettingsAndAbort)
    );
    assert!(!state.active, "giving up ends the capture");
}

#[test]
fn toolbar_lists_seven_actions_in_order() {
    let actions = mybox::capture::toolbar_actions();
    assert_eq!(actions.len(), 7);
    assert_eq!(actions[0], ToolAction::Confirm);
    assert_eq!(actions[1], ToolAction::Cancel);
    assert_eq!(actions[2], ToolAction::Undo);
    assert_eq!(actions[3], ToolAction::Tool(Tool::Rect));
    assert_eq!(actions[4], ToolAction::Tool(Tool::Arrow));
    assert_eq!(actions[5], ToolAction::Tool(Tool::Pen));
    assert_eq!(actions[6], ToolAction::Tool(Tool::Text));
}
