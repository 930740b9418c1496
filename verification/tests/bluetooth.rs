use std::rc::Rc;

use obsidian_bar::bluetooth::{
    device_glyph, device_meta, glyph_for, trigger_glyph, BluetoothController, ListView, PairingPromptMode,
    PendingDeviceAction, PromptOutcome, Submission, ICON_BLUETOOTH_CONNECTED, ICON_BLUETOOTH_OFF,
    ICON_BLUETOOTH_ON,
};
use obsidian_bar::bluetooth_agent::{
    AgentAction, AgentArguments, AgentEvent, AgentInput, AgentPromptKind, BluetoothAgent,
    ERROR_CANCELED, ERROR_REJECTED, ERROR_UNKNOWN_METHOD, MISMATCH,
};
use obsidian_bar::bluetooth_backend::{
    bluez_signal_affects_snapshot, is_bluez_unavailable, is_remote_error, read_snapshot,
    select_adapter, snapshot_from_objects, AdapterProperties, BluetoothAdapter, BluetoothBackend,
    BluetoothDevice, BluetoothSnapshot, BluezObject, ConnectPlan, ConnectStep, DbusCallError,
    DeviceProperties, ObjectsReply, ReadStep, SignalParameters, SnapshotStep,
    BLUETOOTH_BUSY, BLUEZ_DEVICE_INTERFACE, BLUEZ_OBJECT_MANAGER_INTERFACE,
    DBUS_PROPERTIES_INTERFACE,
};

fn error(name: &str, message: &str) -> DbusCallError {
    DbusCallError {
        message: message.to_owned(),
        remote_name: Some(name.to_owned()),
    }
}

#[test]
fn agent_session_is_scoped_to_the_requested_device() {
    let mut agent = BluetoothAgent::new();
    let handler: Rc<dyn Fn(AgentEvent)> = Rc::new(|_| {});
    let _session = agent
        .begin_session("/org/bluez/hci0/dev_00", handler)
        .expect("the session should start");

    assert!(agent.session_matches("/org/bluez/hci0/dev_00"));
    assert!(!agent.session_matches("/org/bluez/hci0/dev_11"));
}

#[test]
fn agent_session_guard_releases_handler_and_exclusivity() {
    let mut agent = BluetoothAgent::new();
    let handler: Rc<dyn Fn(AgentEvent)> = Rc::new(|_| {});

    let (first, _) = agent
        .begin_session("/org/bluez/hci0/dev_00", Rc::clone(&handler))
        .expect("the first session should start");
    assert_eq!(Rc::strong_count(&handler), 2);
    assert!(agent
        .begin_session("/org/bluez/hci0/dev_00", Rc::new(|_| {}))
        .is_none());

    agent.end_session(first);
    assert_eq!(Rc::strong_count(&handler), 1);
    assert!(agent
        .begin_session("/org/bluez/hci0/dev_00", Rc::new(|_| {}))
        .is_some());
}

#[test]
fn remote_bluez_error_matching_is_exact() {
    let error = error("org.bluez.Error.InProgress", "Operation already in progress");

    assert!(is_remote_error(&error, "org.bluez.Error.InProgress"));
    assert!(!is_remote_error(&error, "org.bluez.Error.Failed"));
}

#[test]
fn bluez_unavailable_errors_are_distinguished_from_action_errors() {
    let unavailable = error(
        "org.freedesktop.DBus.Error.ServiceUnknown",
        "BlueZ is not running",
    );
    let failed = error("org.bluez.Error.Failed", "Operation failed");

    assert!(is_bluez_unavailable(&unavailable));
    assert!(!is_bluez_unavailable(&failed));
}

#[test]
fn signal_filter_ignores_noisy_device_properties() {
    let rssi_change = SignalParameters::Properties {
        interface: BLUEZ_DEVICE_INTERFACE.to_owned(),
        changed: vec!["RSSI".to_owned()],
        invalidated: Vec::new(),
    };
    assert!(!bluez_signal_affects_snapshot(
        DBUS_PROPERTIES_INTERFACE,
        "PropertiesChanged",
        &rssi_change,
    ));

    let connected_change = SignalParameters::Properties {
        interface: BLUEZ_DEVICE_INTERFACE.to_owned(),
        changed: vec!["Connected".to_owned()],
        invalidated: Vec::new(),
    };
    assert!(bluez_signal_affects_snapshot(
        DBUS_PROPERTIES_INTERFACE,
        "PropertiesChanged",
        &connected_change,
    ));
}

#[test]
fn signal_filter_tracks_relevant_interface_lifecycle() {
    let irrelevant_added =
        SignalParameters::Interfaces(vec!["org.bluez.MediaControl1".to_owned()]);
    assert!(!bluez_signal_affects_snapshot(
        BLUEZ_OBJECT_MANAGER_INTERFACE,
        "InterfacesAdded",
        &irrelevant_added,
    ));

    let relevant_added = SignalParameters::Interfaces(vec![BLUEZ_DEVICE_INTERFACE.to_owned()]);
    assert!(bluez_signal_affects_snapshot(
        BLUEZ_OBJECT_MANAGER_INTERFACE,
        "InterfacesAdded",
        &relevant_added,
    ));
}

#[test]
fn adapter_selection_keeps_previous_adapter_when_all_are_off() {
    let adapters = vec![
        BluetoothAdapter {
            path: "/org/bluez/hci0".to_owned(),
            alias: "hci0".to_owned(),
            powered: false,
            discovering: false,
        },
        BluetoothAdapter {
            path: "/org/bluez/hci1".to_owned(),
            alias: "hci1".to_owned(),
            powered: false,
            discovering: false,
        },
    ];

    let selected = select_adapter(adapters, Some("/org/bluez/hci1"))
        .expect("an adapter should be selected");
    assert_eq!(selected.path, "/org/bluez/hci1");
}

#[test]
fn adapter_selection_prefers_powered_adapter_over_inactive_previous_one() {
    let adapters = vec![
        BluetoothAdapter {
            path: "/org/bluez/hci0".to_owned(),
            alias: "hci0".to_owned(),
            powered: true,
            discovering: false,
        },
        BluetoothAdapter {
            path: "/org/bluez/hci1".to_owned(),
            alias: "hci1".to_owned(),
            powered: false,
            discovering: false,
        },
    ];

    let selected = select_adapter(adapters, Some("/org/bluez/hci1"))
        .expect("an adapter should be selected");
    assert_eq!(selected.path, "/org/bluez/hci0");
}

#[test]
fn bluetooth_trigger_state_icons_are_stable() {
    assert_eq!(trigger_glyph(false, false), ICON_BLUETOOTH_OFF);
    assert_eq!(trigger_glyph(true, true), ICON_BLUETOOTH_CONNECTED);
}

#[test]
fn device_icon_heuristics_prefer_device_kind() {
    assert_eq!(device_glyph("audio-headset", "Headphones"), "󰋋");
    assert_eq!(device_glyph("input-mouse", "Mouse"), "󰍽");
}

#[test]
fn glyphs_follow_lowered_words() {
    assert_eq!(glyph_for("audio-headset x"), device_glyph("audio-headset", "X"));
    assert_eq!(glyph_for(" my keyboard"), device_glyph("", "My KEYBOARD"));
    assert_ne!(glyph_for("Keyboard"), glyph_for("keyboard"));
}

#[test]
fn malformed_and_foreign_signals() {
    assert!(bluez_signal_affects_snapshot(
        BLUEZ_OBJECT_MANAGER_INTERFACE,
        "InterfacesRemoved",
        &SignalParameters::Malformed
    ));
    assert!(!bluez_signal_affects_snapshot(
        "org.other",
        "InterfacesRemoved",
        &SignalParameters::Malformed
    ));
}

fn object(path: &str) -> BluezObject {
    BluezObject {
        path: path.to_owned(),
        adapter: None,
        device: None,
        battery: None,
    }
}

fn device_object(path: &str, alias: &str, connected: bool, paired: bool) -> BluezObject {
    let mut object = object(path);
    object.device = Some(DeviceProperties {
        adapter: Some("/hci0".to_owned()),
        address: Some("00:11".to_owned()),
        alias: Some(alias.to_owned()),
        name: None,
        icon: None,
        paired: Some(paired),
        trusted: None,
        connected: Some(connected),
    });
    object
}

fn adapter_object(path: &str, powered: bool) -> BluezObject {
    let mut object = object(path);
    object.adapter = Some(AdapterProperties {
        alias: Some("  ".to_owned()),
        powered: Some(powered),
        discovering: None,
    });
    object
}

fn objects() -> Vec<BluezObject> {
    let mut other = device_object("/hci1/dev_9", "Elsewhere", true, true);
    if let Some(device) = other.device.as_mut() {
        device.adapter = Some("/hci1".to_owned());
    }
    let mut charged = device_object("/hci0/dev_3", "zeta", true, true);
    charged.battery = Some(80);
    vec![
        device_object("/hci0/dev_1", "beta", false, false),
        other,
        adapter_object("/hci0", true),
        device_object("/hci0/dev_2", " ", false, true),
        charged,
        device_object("/hci0/dev_4", "Alpha", false, false),
    ]
}

#[test]
fn snapshots_list_devices_in_order() {
    let snapshot = snapshot_from_objects(&objects(), None);
    assert!(snapshot.available());
    assert!(snapshot.powered());
    assert!(!snapshot.discovering());
    assert!(snapshot.connected());
    assert_eq!(snapshot.adapter.as_ref().unwrap().alias, "Bluetooth");
    let names: Vec<&str> = snapshot
        .devices
        .iter()
        .map(|device| device.name.as_str())
        .collect();
    assert_eq!(names, vec!["zeta", "00:11", "Alpha", "beta"]);
    assert!(snapshot.devices[1].known());
    assert!(!snapshot.devices[2].known());
    assert!(!snapshot_from_objects(&Vec::new(), None).available());
}

#[test]
fn object_replies_are_told_apart() {
    let failed = ObjectsReply::Failed(error("org.bluez.Error.Failed", "boom"));
    assert_eq!(
        read_snapshot(&failed, None).err().unwrap(),
        "failed to read BlueZ objects: boom"
    );
    let gone = ObjectsReply::Failed(error("org.freedesktop.DBus.Error.NameHasNoOwner", "x"));
    assert!(!read_snapshot(&gone, None).ok().unwrap().available());
    assert_eq!(
        read_snapshot(&ObjectsReply::Malformed, None).err().unwrap(),
        "BlueZ returned an invalid object tree"
    );
    assert!(read_snapshot(&ObjectsReply::Objects(objects()), None).is_ok());
}

#[test]
fn changes_make_snapshots_stale() {
    let mut backend = BluetoothBackend::new();
    let revision = match backend.snapshot(100) {
        SnapshotStep::Read { revision, preferred } => {
            assert_eq!(preferred, None);
            revision
        }
        SnapshotStep::Cached(_) => panic!("nothing is cached"),
    };
    assert_eq!(backend.judge_read(revision, false), ReadStep::Store);
    backend.store(100, snapshot_from_objects(&objects(), None));
    assert!(matches!(backend.snapshot(5_099), SnapshotStep::Cached(_)));
    assert!(matches!(backend.snapshot(5_100), SnapshotStep::Read { .. }));
    backend.invalidate();
    match backend.snapshot(101) {
        SnapshotStep::Read { preferred, .. } => assert_eq!(preferred.as_deref(), Some("/hci0")),
        SnapshotStep::Cached(_) => panic!("the snapshot is stale"),
    }
    assert_eq!(backend.judge_read(revision, false), ReadStep::Again);
    assert_eq!(backend.judge_read(revision, true), ReadStep::UseOnce);
}

#[test]
fn actions_exclude_each_other_and_map_errors() {
    let mut backend = BluetoothBackend::new();
    assert!(backend.begin_action().is_ok());
    assert_eq!(backend.begin_action(), Err(BLUETOOTH_BUSY.to_owned()));
    assert_eq!(
        backend.set_powered(true, Err(error("x", "no"))),
        Err("failed to enable Bluetooth: no".to_owned())
    );
    assert!(backend.begin_action().is_ok());
    assert!(backend
        .start_discovery(Err(error("org.bluez.Error.InProgress", "busy")))
        .is_ok());
    assert!(backend.begin_action().is_ok());
    assert_eq!(
        backend.stop_discovery(Err(error("org.bluez.Error.Failed", "bad"))),
        Err("failed to stop Bluetooth scan: bad".to_owned())
    );
    assert!(backend.begin_action().is_ok());
    assert_eq!(
        backend.remove_device(Err(error("y", "gone"))),
        Err("failed to remove Bluetooth device: gone".to_owned())
    );
    assert!(backend
        .cancel_pairing(Err(error("org.bluez.Error.DoesNotExist", "over")))
        .is_ok());
    assert_eq!(
        backend.cancel_pairing(Err(error("z", "bad"))),
        Err("failed to cancel Bluetooth pairing: bad".to_owned())
    );
    assert_eq!(backend.revision, 10);
    assert!(backend.begin_action().is_ok());
    assert_eq!(
        backend.set_connected(Err("no route".to_owned())),
        Err("no route".to_owned())
    );
    assert!(!backend.writing.held);
}

fn plan(paired: bool, trusted: bool, connect: bool) -> ConnectPlan {
    ConnectPlan {
        device_name: "Buds".to_owned(),
        paired,
        trusted,
        connect,
    }
}

#[test]
fn connections_pair_trust_and_retry() {
    let new = plan(false, false, true);
    let step = new.start();
    assert!(matches!(step, ConnectStep::RegisterAgent));
    let step = new.advance(step, Err(error("org.bluez.Error.AlreadyExists", "")));
    assert!(matches!(step, ConnectStep::Pair));
    let step = new.advance(step, Ok(()));
    assert!(matches!(step, ConnectStep::Trust));
    let step = new.advance(step, Ok(()));
    assert!(matches!(step, ConnectStep::Connect(0)));
    let step = new.advance(step, Err(error("org.bluez.Error.NotReady", "")));
    assert!(matches!(step, ConnectStep::Pause(0)));
    let step = new.advance(step, Ok(()));
    let step = new.advance(step, Err(error("org.bluez.Error.Failed", "")));
    let step = new.advance(step, Ok(()));
    assert!(matches!(step, ConnectStep::Connect(2)));
    let step = new.advance(step, Err(error("org.bluez.Error.Failed", "tired")));
    assert!(
        matches!(step, ConnectStep::Failed(message) if message == "failed to connect Buds: tired")
    );
    let step = new.advance(
        ConnectStep::Connect(0),
        Err(error("org.bluez.Error.AlreadyConnected", "")),
    );
    assert!(matches!(step, ConnectStep::Succeeded));
    let step = new.advance(ConnectStep::Pair, Err(error("q", "shy")));
    assert!(
        matches!(step, ConnectStep::Failed(message) if message == "failed to pair Buds: shy")
    );
    let step = new.advance(ConnectStep::Trust, Err(error("q", "no")));
    assert!(
        matches!(step, ConnectStep::Failed(message) if message == "failed to trust Buds: no")
    );

    let known = plan(true, true, true);
    assert!(matches!(known.start(), ConnectStep::Connect(0)));
    let off = plan(true, true, false);
    let step = off.advance(off.start(), Err(error("org.bluez.Error.NotConnected", "")));
    assert!(matches!(step, ConnectStep::Succeeded));
    let step = off.advance(ConnectStep::Disconnect, Err(error("q", "stuck")));
    assert!(
        matches!(step, ConnectStep::Failed(message) if message == "failed to disconnect Buds: stuck")
    );
}

fn arguments(device: &str) -> Option<AgentArguments> {
    Some(AgentArguments {
        device: device.to_owned(),
        pincode: "1234".to_owned(),
        passkey: 7,
        entered: 3,
    })
}

fn failure(action: &AgentAction) -> (u64, &'static str, &'static str) {
    match action {
        AgentAction::Fail {
            invocation,
            name,
            message,
        } => (*invocation, *name, *message),
        _ => panic!("expected a failure"),
    }
}

#[test]
fn agent_calls_are_answered_once() {
    let mut agent: BluetoothAgent<u8> = BluetoothAgent::new();
    let actions = agent.handle_agent_method_call("RequestPinCode", arguments("/d"), 1);
    assert_eq!(failure(&actions[0]), (1, ERROR_REJECTED, MISMATCH));

    let (session, stale) = agent.begin_session("/d", 0).unwrap();
    assert_eq!(session, 1);
    assert!(stale.is_empty());
    assert_eq!(agent.handler(), Some(&0));

    let actions = agent.handle_agent_method_call("RequestPinCode", None, 2);
    assert_eq!(
        failure(&actions[0]),
        (2, ERROR_REJECTED, "BlueZ sent an invalid PIN request")
    );

    let actions = agent.handle_agent_method_call("RequestPinCode", arguments("/d"), 3);
    assert_eq!(actions.len(), 1);
    assert!(matches!(
        &actions[0],
        AgentAction::Emit(AgentEvent::Prompt {
            kind: AgentPromptKind::PinCode,
            ..
        })
    ));
    let actions = agent.handle_agent_method_call("RequestConfirmation", arguments("/d"), 4);
    assert_eq!(
        failure(&actions[0]),
        (
            3,
            ERROR_CANCELED,
            "Superseded by another Bluetooth pairing request"
        )
    );
    assert_eq!(agent.confirm_request(), Ok(4));
    assert_eq!(
        agent.confirm_request(),
        Err("Bluetooth is not waiting for confirmation".to_owned())
    );

    let actions = agent.handle_agent_method_call("DisplayPinCode", arguments("/d"), 5);
    assert!(matches!(
        &actions[0],
        AgentAction::Emit(AgentEvent::DisplayPinCode { .. })
    ));
    assert!(matches!(&actions[1], AgentAction::Return(5)));

    agent.handle_agent_method_call("AuthorizeService", arguments("/d"), 6);
    let actions = agent.handle_agent_method_call("Cancel", None, 7);
    assert_eq!(
        failure(&actions[0]),
        (6, ERROR_CANCELED, "Bluetooth pairing canceled by BlueZ")
    );
    assert!(matches!(&actions[1], AgentAction::Emit(AgentEvent::Cancel)));
    assert!(matches!(&actions[2], AgentAction::Return(7)));

    let actions = agent.handle_agent_method_call("Whatever", None, 8);
    assert_eq!(
        failure(&actions[0]),
        (8, ERROR_UNKNOWN_METHOD, "Unknown Bluetooth agent method")
    );

    agent.handle_agent_method_call("RequestPasskey", arguments("/d"), 9);
    let actions = agent.end_session(session);
    assert_eq!(
        failure(&actions[0]),
        (9, ERROR_CANCELED, "Bluetooth pairing session ended")
    );
    assert!(agent.end_session(session).is_empty());
    let actions = agent.handle_agent_method_call("Release", None, 10);
    assert_eq!(actions.len(), 1);
}

#[test]
fn typed_codes_are_checked() {
    let mut agent: BluetoothAgent<u8> = BluetoothAgent::new();
    assert_eq!(
        agent.submit_input("  "),
        Err("PIN or passkey is required".to_owned())
    );
    assert_eq!(
        agent.submit_input("1"),
        Err("Bluetooth is not waiting for a PIN or passkey".to_owned())
    );
    agent.begin_session("/d", 0);
    agent.handle_agent_method_call("RequestPinCode", arguments("/d"), 1);
    assert_eq!(
        agent.submit_input("12345678901234567"),
        Err("PIN must be between 1 and 16 characters".to_owned())
    );
    assert_eq!(
        agent.submit_input(" ä234 "),
        Ok((1, AgentInput::PinCode("ä234".to_owned())))
    );
    agent.handle_agent_method_call("RequestPasskey", arguments("/d"), 2);
    let refused = Err("Passkey must be a number from 000000 to 999999".to_owned());
    assert_eq!(agent.submit_input("1234567"), refused);
    assert_eq!(agent.submit_input("12a"), refused);
    assert_eq!(agent.submit_input("000042"), Ok((2, AgentInput::Passkey(42))));
    agent.handle_agent_method_call("RequestAuthorization", arguments("/d"), 3);
    assert_eq!(
        agent.submit_input("1"),
        Err("Bluetooth is not waiting for text input".to_owned())
    );
    let actions = agent.reject_request();
    assert_eq!(
        failure(&actions[0]),
        (3, ERROR_REJECTED, "Bluetooth pairing rejected")
    );
    assert!(agent.shut_down().is_empty());
}

fn device(path: &str, paired: bool, connected: bool) -> BluetoothDevice {
    BluetoothDevice {
        path: path.to_owned(),
        name: format!("name of {path}"),
        icon: "phone".to_owned(),
        paired,
        trusted: false,
        connected,
        battery: None,
    }
}

fn panel() -> BluetoothController {
    let mut panel = BluetoothController::new();
    let outcome = panel.apply_snapshot(
        BluetoothSnapshot {
            adapter: Some(BluetoothAdapter {
                path: "/hci0".to_owned(),
                alias: "Laptop".to_owned(),
                powered: true,
                discovering: true,
            }),
            devices: vec![device("/a", true, true), device("/b", false, false)],
        },
        false,
    );
    assert!(outcome.refresh_list);
    assert!(!outcome.close_popup);
    panel
}

#[test]
fn bluetooth_header_follows_the_wishes() {
    let mut panel = panel();
    let header = panel.header_view();
    assert_eq!(header.title, "Laptop");
    assert_eq!(header.status, "Scanning…");
    assert_eq!(header.tooltip, "Bluetooth scanning\nname of /a");
    assert_eq!(header.glyph, ICON_BLUETOOTH_CONNECTED);
    assert!(header.scan_animating);

    let job = panel.set_powered(false).unwrap();
    assert_eq!(job.adapter_path, "/hci0");
    assert!(job.stop_discovery);
    assert!(panel.set_powered(true).is_none());
    assert!(panel.set_scanning(true).is_none());
    let header = panel.header_view();
    assert_eq!(header.status, "Turning off…");
    assert_eq!(header.tooltip, "Bluetooth off");
    assert!(!header.switch_sensitive);
    assert_eq!(panel.list_view(), ListView::Off);
    panel.finish_power(false);
    assert_eq!(panel.header_view().status, "Scanning…");
    assert_eq!(panel.list_view(), ListView::Devices);
    assert!(panel.switch_asks(false));
    assert!(!panel.switch_asks(true));
    assert_eq!(BluetoothController::new().header_view().status, "Unavailable");
}

#[test]
fn bluetooth_actions_run_one_at_a_time() {
    let mut panel = panel();
    assert!(panel.plan_connection("/a", true).is_none());
    assert!(panel.plan_connection("/zzz", true).is_none());
    let job = panel.plan_connection("/b", true).unwrap();
    assert_eq!(job.device_name, "name of /b");
    assert_eq!(job.stop_discovery_on.as_deref(), Some("/hci0"));
    panel.set_device_connected(&job);
    assert!(panel.plan_connection("/a", false).is_none());
    assert!(panel.remove_device("/a").is_none());
    let row = panel.device_row_view(&device("/b", false, false));
    assert_eq!(row.meta, "Pairing…");
    assert_eq!(row.pair_label, Some("Pairing…"));
    assert!(row.switch_active);
    assert!(panel.closing_cancels_pairing());

    assert_eq!(
        panel.handle_agent_event(AgentEvent::Prompt {
            device_path: "/b".to_owned(),
            kind: AgentPromptKind::Confirmation { passkey: 42 },
        }),
        PromptOutcome::Show { focus_entry: false }
    );
    assert_eq!(panel.prompt.title, "Pair with name of /b");
    assert_eq!(panel.prompt.code.as_deref(), Some("000042"));
    assert_eq!(panel.prompt.confirm_label, Some("Confirm"));
    assert_eq!(panel.submit_pairing_prompt(), Some(Submission::Confirm));

    assert_eq!(panel.cancel_pairing_prompt().as_deref(), Some("/b"));
    assert!(panel.pairing_cancelled);
    assert_eq!(panel.submit_pairing_prompt(), None);
    assert_eq!(
        panel.handle_agent_event(AgentEvent::Prompt {
            device_path: "/b".to_owned(),
            kind: AgentPromptKind::PinCode,
        }),
        PromptOutcome::Reject
    );
    assert_eq!(
        panel.handle_agent_event(AgentEvent::Cancel),
        PromptOutcome::Ignore
    );
    assert_eq!(panel.finish_connection(Err("late".to_owned())), None);
    assert!(!panel.action_busy);

    let job = panel.remove_device("/a").unwrap();
    assert_eq!(job.device_path, "/a");
    assert_eq!(job.adapter_path, "/hci0");
    panel.finish_removal();
    let job = panel.plan_connection("/a", false).unwrap();
    panel.set_device_connected(&job);
    assert_eq!(
        panel.finish_connection(Err("stuck".to_owned())).as_deref(),
        Some("stuck")
    );
}

#[test]
fn pairing_prompts_show_what_is_asked() {
    let mut panel = panel();
    panel.handle_agent_event(AgentEvent::DisplayPasskey {
        device_path: "/x".to_owned(),
        passkey: 1_234_567,
        entered: 9,
    });
    assert_eq!(panel.prompt.mode, PairingPromptMode::Display);
    assert_eq!(panel.prompt.title, "Pair with Bluetooth device");
    assert_eq!(panel.prompt.code.as_deref(), Some("1234567"));
    assert_eq!(
        panel.prompt.message,
        "Type this code on the Bluetooth device, then press Enter. 6/6 digits entered."
    );
    assert_eq!(
        panel.handle_agent_event(AgentEvent::Prompt {
            device_path: "/a".to_owned(),
            kind: AgentPromptKind::Passkey,
        }),
        PromptOutcome::Show { focus_entry: true }
    );
    assert_eq!(panel.prompt.placeholder, "6-digit passkey");
    assert_eq!(panel.submit_pairing_prompt(), Some(Submission::Input));
    assert!(!panel.refresh_device_list(false));
    assert!(panel.list_dirty);
    assert!(panel.refresh_device_list(true));
    assert!(panel.list_initialized && !panel.list_dirty);
    panel.hide_pairing_prompt();
    assert_eq!(panel.prompt.mode, PairingPromptMode::Hidden);
    assert_eq!(
        panel.handle_agent_event(AgentEvent::Release),
        PromptOutcome::Hide
    );
    assert_eq!(panel.prompt.mode, PairingPromptMode::Hidden);
    assert_eq!(panel.cancel_pairing_prompt(), None);
}

#[test]
fn bluetooth_search_has_its_time() {
    let mut panel = panel();
    let token = panel.start_discovery_timeout();
    assert!(panel.discovery_expired(token));
    assert!(panel.set_scanning(false).is_some());
    assert!(!panel.discovery_expired(token));
    panel.finish_scan(true);
    assert!(!panel.display_scanning());
    let first = panel.set_notice(Some("hello")).unwrap();
    assert_eq!(panel.set_notice(Some("  ")), None);
    assert_ne!(panel.notice.value, first);
}

#[test]
fn device_lines_tell_state_and_charge() {
    let mut plain = device("/a", true, false);
    assert_eq!(device_meta(&plain, None), "Disconnected");
    plain.battery = Some(5);
    plain.connected = true;
    assert_eq!(device_meta(&plain, None), "Connected • 5%");
    assert_eq!(
        device_meta(&plain, Some(PendingDeviceAction::Removing)),
        "Removing…"
    );
    assert_eq!(
        device_meta(&device("/n", false, false), None),
        "Available"
    );
    assert_eq!(device_glyph("", "My PRINTER"), "󰐪");
    assert_eq!(device_glyph("", "thing"), ICON_BLUETOOTH_ON);
    assert!(PendingDeviceAction::Connecting.target_connected(false));
    assert!(!PendingDeviceAction::Disconnecting.target_connected(true));
}
