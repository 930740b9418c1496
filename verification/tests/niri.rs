use niri_ipc::state::{EventStreamStatePart, KeyboardLayoutsState};
use niri_ipc::{Event, KeyboardLayouts};
use obsidian_bar::niri::{
    compact_from_lower, compact_layout_name, current_compact_layout, fullscreen_candidate,
    reply_result, stream_granted, EventStream, ReplyFacts, StreamError, Update, Window, Workspace,
};

#[test]
fn layout_names_are_compact_and_specific() {
    assert_eq!(compact_layout_name("English (US)"), "US");
    assert_eq!(compact_layout_name("English (UK)"), "GB");
    assert_eq!(compact_layout_name("English"), "EN");
    assert_eq!(compact_layout_name("Russian"), "RU");
    assert_eq!(compact_layout_name("ua"), "UA");
    assert_eq!(compact_layout_name(""), "--");
}

#[test]
fn niri_keyboard_state_tracks_layout_switches() {
    let mut state = KeyboardLayoutsState::default();
    let initial = Event::KeyboardLayoutsChanged {
        keyboard_layouts: KeyboardLayouts {
            names: vec!["English (US)".into(), "Russian".into()],
            current_idx: 0,
        },
    };
    let switched = Event::KeyboardLayoutSwitched { idx: 1 };

    assert!(state.apply(initial).is_none());
    assert_eq!(current_compact_layout(&state).as_deref(), Some("US"));

    assert!(state.apply(switched).is_none());
    assert_eq!(current_compact_layout(&state).as_deref(), Some("RU"));
}

#[test]
fn unknown_layouts_fall_back_to_their_letters() {
    assert_eq!(compact_layout_name("  xk "), "XK");
    assert_eq!(compact_layout_name("эсперанто"), "ЭС");
    assert_eq!(compact_layout_name("12 (q) w"), "QW");
    assert_eq!(compact_layout_name("x"), "X");
    assert_eq!(compact_layout_name("42"), "--");
    assert_eq!(compact_layout_name("ESPAÑOL (latam)"), "ES");
    assert_eq!(compact_layout_name("Englishman"), "EN");
    assert_eq!(compact_layout_name("Usbek"), "US");
    assert_eq!(compact_from_lower("Polski", "polski"), "PL");
    assert_eq!(compact_from_lower("usual", "usual"), "US");
    assert_eq!(compact_from_lower("germanic", "germanic"), "GE");
}

#[test]
fn short_layout_names_ignore_case_and_blanks() {
    for name in ["English (US)", "xy", "Klingon 2", "42", "Norwegian"] {
        let short = compact_layout_name(name);
        assert_eq!(compact_layout_name(&name.to_ascii_uppercase()), short);
        assert_eq!(compact_layout_name(&name.to_ascii_lowercase()), short);
        assert_eq!(compact_layout_name(&format!("  {name} ")), short);
    }
    assert_eq!(compact_layout_name("Klingon 2"), "KL");
    assert_eq!(compact_layout_name("42"), "--");
}

#[test]
fn current_layout_falls_back_to_the_first() {
    let mut state = KeyboardLayoutsState::default();
    assert_eq!(current_compact_layout(&state), None);
    let _ = state.apply(Event::KeyboardLayoutsChanged {
        keyboard_layouts: KeyboardLayouts {
            names: vec!["Turkish".into()],
            current_idx: 7,
        },
    });
    assert_eq!(current_compact_layout(&state).as_deref(), Some("TR"));
    let _ = state.apply(Event::KeyboardLayoutsChanged {
        keyboard_layouts: KeyboardLayouts {
            names: Vec::new(),
            current_idx: 0,
        },
    });
    assert_eq!(current_compact_layout(&state), None);
}

fn workspace_json(id: u64, idx: u8, output: &str, active: bool) -> String {
    format!(
        "{{\"id\":{id},\"idx\":{idx},\"name\":null,\"output\":{output},\"is_urgent\":false,\
         \"is_active\":{active},\"is_focused\":false,\"active_window_id\":null}}"
    )
}

fn window_json(id: u64, workspace: u64) -> String {
    format!(
        "{{\"id\":{id},\"title\":\"w{id}\",\"app_id\":null,\"pid\":null,\"workspace_id\":{workspace},\
         \"is_focused\":false,\"is_floating\":false,\"is_urgent\":false,\"layout\":{{\
         \"pos_in_scrolling_layout\":null,\"tile_size\":[800.0,600.5],\"window_size\":[800,600],\
         \"tile_pos_in_workspace_view\":null,\"window_offset_in_tile\":[0.0,0.0]}},\
         \"focus_timestamp\":null}}"
    )
}

fn feed(stream: &mut EventStream, line: &str) -> Vec<Update> {
    match stream.feed_line(line) {
        Ok(updates) => updates,
        Err(StreamError::Malformed(message)) => panic!("malformed: {message}"),
        Err(StreamError::UnknownTarget) => panic!("unknown target"),
    }
}

fn only_workspaces(mut updates: Vec<Update>) -> Vec<Workspace> {
    assert_eq!(updates.len(), 1);
    match updates.remove(0) {
        Update::Workspaces(list) => list,
        _ => panic!("expected workspaces"),
    }
}

fn only_windows(mut updates: Vec<Update>) -> Vec<Window> {
    assert_eq!(updates.len(), 1);
    match updates.remove(0) {
        Update::Windows(list) => list,
        _ => panic!("expected windows"),
    }
}

#[test]
fn workspaces_are_listed_by_output_place_and_id() {
    let mut stream = EventStream::new();
    let line = format!(
        "{{\"WorkspacesChanged\":{{\"workspaces\":[{},{},{},{}]}}}}",
        workspace_json(9, 1, "\"DP-2\"", false),
        workspace_json(4, 2, "\"DP-1\"", false),
        workspace_json(7, 1, "\"DP-1\"", true),
        workspace_json(2, 5, "null", false),
    );
    let list = only_workspaces(feed(&mut stream, &line));
    let ids: Vec<u64> = list.iter().map(|workspace| workspace.id).collect();
    assert_eq!(ids, vec![2, 7, 4, 9]);

    let list = only_workspaces(feed(
        &mut stream,
        "{\"WorkspaceActivated\":{\"id\":4,\"focused\":true}}",
    ));
    for workspace in &list {
        assert_eq!(workspace.is_focused, workspace.id == 4);
        if workspace.output.as_deref() == Some("DP-1") {
            assert_eq!(workspace.is_active, workspace.id == 4);
        }
    }

    let list = only_workspaces(feed(
        &mut stream,
        "{\"WorkspaceActiveWindowChanged\":{\"workspace_id\":4,\"active_window_id\":31}}",
    ));
    let changed = list.iter().find(|workspace| workspace.id == 4).unwrap();
    assert_eq!(changed.active_window_id, Some(31));
}

#[test]
fn windows_are_listed_by_id() {
    let mut stream = EventStream::new();
    let line = format!(
        "{{\"WindowsChanged\":{{\"windows\":[{},{}]}}}}",
        window_json(31, 4),
        window_json(12, 4),
    );
    let list = only_windows(feed(&mut stream, &line));
    assert_eq!(list[0].id, 12);
    assert_eq!(list[1].id, 31);
    assert_eq!(list[1].title.as_deref(), Some("w31"));
    assert_eq!(f64::from_bits(list[1].tile_width_bits), 800.0);
    assert_eq!(f64::from_bits(list[1].tile_height_bits), 600.5);

    let list = only_windows(feed(&mut stream, "{\"WindowFocusChanged\":{\"id\":12}}"));
    assert!(list[0].is_focused);
    assert!(!list[1].is_focused);

    let list = only_windows(feed(&mut stream, "{\"WindowClosed\":{\"id\":31}}"));
    assert_eq!(list.len(), 1);
}

#[test]
fn layout_events_are_told_in_short() {
    let mut stream = EventStream::new();
    assert!(feed(&mut stream, "{\"KeyboardLayoutSwitched\":{\"idx\":1}}").is_empty());
    let mut updates = feed(
        &mut stream,
        "{\"KeyboardLayoutsChanged\":{\"keyboard_layouts\":{\"names\":[\"German\",\"French\"],\"current_idx\":1}}}",
    );
    assert!(matches!(updates.remove(0), Update::KeyboardLayout(name) if name == "FR"));
    let mut updates = feed(&mut stream, "{\"KeyboardLayoutSwitched\":{\"idx\":0}}");
    assert!(matches!(updates.remove(0), Update::KeyboardLayout(name) if name == "DE"));
    assert!(feed(&mut stream, "{\"OverviewOpenedOrClosed\":{\"is_open\":true}}").is_empty());
}

#[test]
fn bad_lines_are_refused() {
    let mut stream = EventStream::new();
    assert!(matches!(
        stream.feed_line("nonsense"),
        Err(StreamError::Malformed(_))
    ));
    assert!(matches!(
        stream.feed_line("{\"WindowClosed\":{\"id\":31}}"),
        Err(StreamError::UnknownTarget)
    ));
    assert!(matches!(
        stream.feed_line("{\"WorkspaceActivated\":{\"id\":4,\"focused\":true}}"),
        Err(StreamError::UnknownTarget)
    ));
    assert!(matches!(
        stream.feed_line(
            "{\"WindowLayoutsChanged\":{\"changes\":[[5,{\"pos_in_scrolling_layout\":null,\
             \"tile_size\":[1.0,1.0],\"window_size\":[1,1],\"tile_pos_in_workspace_view\":null,\
             \"window_offset_in_tile\":[0.0,0.0]}]]}}"
        ),
        Err(StreamError::UnknownTarget)
    ));
}

#[test]
fn replies_are_told_apart() {
    assert!(stream_granted("{\"Ok\":\"Handled\"}").is_ok());
    assert_eq!(
        stream_granted("{\"Err\":\"no\"}"),
        Err("niri IPC error: no".to_owned())
    );
    assert_eq!(
        stream_granted("{\"Ok\":{\"Version\":\"25\"}}"),
        Err("unexpected niri EventStream response: Version(\"25\")".to_owned())
    );
    assert!(stream_granted("{\"Ok\":{\"Outputs\":{}}}")
        .unwrap_err()
        .starts_with("unexpected niri EventStream response: "));
    assert!(stream_granted("").is_err());
    assert_eq!(
        reply_result(ReplyFacts::Unexpected("Outputs".to_owned()), "action"),
        Err("unexpected niri action response: Outputs".to_owned())
    );
    assert!(reply_result(ReplyFacts::Handled, "action").is_ok());
}

fn window(id: u64, workspace_id: u64) -> Window {
    Window {
        id,
        title: None,
        app_id: None,
        workspace_id: Some(workspace_id),
        is_focused: false,
        is_urgent: false,
        tile_width_bits: 0,
        tile_height_bits: 0,
    }
}

fn workspace(id: u64, output: &str, is_active: bool, active_window_id: Option<u64>) -> Workspace {
    Workspace {
        id,
        idx: 1,
        name: None,
        output: Some(output.to_owned()),
        is_urgent: false,
        is_active,
        is_focused: false,
        active_window_id,
    }
}

#[test]
fn only_the_front_window_can_cover_an_output() {
    let windows = vec![window(1, 10), window(2, 10), window(2, 11)];
    let workspaces = vec![
        workspace(12, "DP-1", false, Some(1)),
        workspace(11, "DP-1", true, Some(2)),
        workspace(10, "DP-2", true, None),
    ];
    assert_eq!(fullscreen_candidate("DP-1", &windows, &workspaces), Some(2));
    assert_eq!(fullscreen_candidate("DP-2", &windows, &workspaces), None);
    assert_eq!(fullscreen_candidate("HDMI-1", &windows, &workspaces), None);
}
