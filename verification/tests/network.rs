use obsidian_bar::network::{
    connecting_notice, forgetting_notice, network_meta, network_status_icon, radio_notice,
    row_changes, row_click, vless_notice, wifi_header_changed, wifi_signal_icon, AfterAction,
    ListView, NetworkController, PasswordOutcome, RefreshTarget, RowClick, ICON_CHECK, ICON_LOCK,
    ICON_WIFI_GOOD, ICON_WIFI_HIGH, ICON_WIFI_LOW, ICON_WIFI_MID, ICON_WIFI_NONE, ICON_WIFI_OFF,
};
use obsidian_bar::network_backend::{
    build_networks, collect_access_points, connect_request, find_wifi_device, merge_access_point,
    named_ssid, required_password, snapshot_with_networks, snapshot_without_networks,
    ssid_from_bytes, vless_state, wep_key_type, wifi_security, AccessPointCandidate,
    AccessPointFacts, ConnectRequest, DeviceFacts, NetworkBackend, ProfileFacts, SavedWifi, ScanReply, SettingValue, VlessState,
    WifiNetwork, WifiSecurity, WifiSnapshot, WirelessFacts, NETWORK_BUSY,
};

fn access_point(signal: u8, active: bool) -> AccessPointCandidate {
    AccessPointCandidate {
        signal,
        security: WifiSecurity::Personal,
        active,
        ap_path: format!("/ap/{signal}"),
    }
}

#[test]
fn active_access_point_wins_over_stronger_duplicate() {
    let mut existing = access_point(90, false);
    merge_access_point(&mut existing, access_point(45, true));
    assert!(existing.active);
    assert_eq!(existing.signal, 45);
}

#[test]
fn stronger_access_point_wins_when_activity_matches() {
    let mut existing = access_point(30, false);
    merge_access_point(&mut existing, access_point(75, false));
    assert_eq!(existing.signal, 75);
}

#[test]
fn security_flags_prefer_personal_transition_mode() {
    assert_eq!(wifi_security(1, 0, 0x100 | 0x400), WifiSecurity::Personal);
    assert_eq!(wifi_security(1, 0, 0x400), WifiSecurity::Sae);
    assert_eq!(wifi_security(1, 0, 0x800), WifiSecurity::Owe);
    assert_eq!(wifi_security(1, 0, 0x200), WifiSecurity::Enterprise);
    assert_eq!(wifi_security(1, 0, 0), WifiSecurity::Wep);
    assert_eq!(wifi_security(0, 0, 0), WifiSecurity::Open);
}

#[test]
fn ssid_decoding_preserves_significant_spaces() {
    assert_eq!(
        ssid_from_bytes(&b"  spaced network  ".to_vec()).as_deref(),
        Some("  spaced network  ")
    );
    assert_eq!(ssid_from_bytes(&b"".to_vec()), None);
}

#[test]
fn names_are_what_their_bytes_encode() {
    let name = " Café 東京 ";
    assert_eq!(ssid_from_bytes(&name.as_bytes().to_vec()).as_deref(), Some(name));
}

#[test]
fn password_validation_preserves_significant_spaces() {
    assert_eq!(required_password(Some("  secret  ")).unwrap(), "  secret  ");
    assert!(required_password(Some("")).is_err());
    assert!(required_password(None).is_err());
}

#[test]
fn wep_key_shape_selects_raw_key_or_passphrase() {
    assert_eq!(wep_key_type("abcde"), 1);
    assert_eq!(wep_key_type("0011223344"), 1);
    assert_eq!(wep_key_type("ordinary passphrase"), 2);
}

#[test]
fn signal_icon_thresholds_are_stable() {
    assert_eq!(wifi_signal_icon(80), ICON_WIFI_HIGH);
    assert_eq!(wifi_signal_icon(60), ICON_WIFI_GOOD);
    assert_eq!(wifi_signal_icon(40), ICON_WIFI_MID);
    assert_eq!(wifi_signal_icon(20), ICON_WIFI_LOW);
}

#[test]
fn network_names_are_decoded() {
    assert_eq!(
        ssid_from_bytes(&vec![0x63, 0x61, 0x66, 0xc3, 0xa9, 0xff]).as_deref(),
        Some("café\u{fffd}")
    );
    assert_eq!(named_ssid(String::new()), None);
    assert_eq!(wep_key_type("абв12"), 2);
    assert_eq!(wep_key_type("00112233zz"), 2);
    assert_eq!(wifi_signal_icon(19), ICON_WIFI_NONE);
    assert_eq!(wifi_signal_icon(255), ICON_WIFI_HIGH);
    assert_eq!(wifi_security(0, 0x2000, 0), WifiSecurity::Enterprise);
    assert_eq!(wifi_security(0, 0x1000, 0), WifiSecurity::Owe);
}

fn point(path: &str, ssid: &str, strength: u8) -> AccessPointFacts {
    AccessPointFacts {
        path: path.to_owned(),
        ssid: Some(ssid.as_bytes().to_vec()),
        strength: Some(strength),
        flags: None,
        wpa_flags: None,
        rsn_flags: Some(0x100),
    }
}

#[test]
fn networks_are_merged_and_ordered() {
    let mut hidden = point("/ap/5", "", 99);
    hidden.ssid = None;
    let points = vec![
        point("/ap/1", "beta", 50),
        point("/ap/2", "Alpha", 50),
        point("/ap/3", "beta", 70),
        point("/ap/4", "home", 10),
        hidden,
        point("/ap/6", "home", 90),
    ];
    let found = collect_access_points(&points, "/ap/4");
    assert_eq!(found.len(), 3);
    let saved = SavedWifi::from_profiles(&vec![
        ProfileFacts {
            path: "/p/1".to_owned(),
            connection_type: Some("802-11-wireless".to_owned()),
            ssid: Some(b"home".to_vec()),
        },
        ProfileFacts {
            path: "/p/2".to_owned(),
            connection_type: Some("802-3-ethernet".to_owned()),
            ssid: Some(b"beta".to_vec()),
        },
        ProfileFacts {
            path: "/p/3".to_owned(),
            connection_type: Some("802-11-wireless".to_owned()),
            ssid: Some(b"home".to_vec()),
        },
    ]);
    assert_eq!(saved.get("home"), vec!["/p/1".to_owned(), "/p/3".to_owned()]);
    assert!(saved.get("beta").is_empty());
    let networks = build_networks(&found, &saved, "/dev/1");
    let names: Vec<&str> = networks.iter().map(|network| network.ssid.as_str()).collect();
    assert_eq!(names, vec!["home", "beta", "Alpha"]);
    assert!(networks[0].active);
    assert_eq!(networks[0].signal, 10);
    assert!(networks[0].saved());
    assert_eq!(networks[1].ap_path, "/ap/3");
    assert_eq!(networks[2].device_path, "/dev/1");
    assert_eq!(saved.copy().get("home").len(), 2);
}

#[test]
fn wifi_device_in_use_is_chosen() {
    let device = |path: &str, kind: u32, active: Option<&str>| DeviceFacts {
        path: path.to_owned(),
        device_type: Some(kind),
        active_connection: active.map(str::to_owned),
    };
    let devices = vec![
        device("/eth", 1, Some("/c/1")),
        device("/w1", 2, Some("/")),
        device("/w2", 2, Some("/c/2")),
    ];
    assert_eq!(find_wifi_device(&devices), Some(2));
    assert_eq!(find_wifi_device(&vec![device("/w1", 2, None)]), Some(0));
    assert_eq!(find_wifi_device(&vec![device("/eth", 1, None)]), None);
}

#[test]
fn snapshots_without_networks() {
    let none = snapshot_without_networks(false, true).unwrap();
    assert!(!none.available);
    assert!(none.enabled);
    assert_eq!(none.last_scan, -1);
    let off = snapshot_without_networks(true, false).unwrap();
    assert!(off.available);
    assert!(!off.enabled);
    assert!(snapshot_without_networks(true, true).is_none());
    let state = vless_state("loaded", "active");
    assert_eq!(
        state,
        VlessState {
            available: true,
            active: true
        }
    );
    assert_eq!(vless_state("masked", "active"), VlessState::default());
    assert_eq!(vless_state("", "active"), VlessState::default());
}

#[test]
fn snapshots_list_the_network_in_use_first() {
    let mut facts = WirelessFacts {
        device_path: "/dev/1".to_owned(),
        active_access_point: Some("/ap/2".to_owned()),
        last_scan: Some(7),
        access_points: vec![point("/ap/1", "cafe", 90), point("/ap/2", "home", 20)],
    };
    assert!(facts.needs_profiles());
    let saved = SavedWifi::new();
    let snapshot = snapshot_with_networks(&facts, &saved);
    assert!(snapshot.available && snapshot.enabled);
    assert_eq!(snapshot.last_scan, 7);
    assert_eq!(snapshot.networks[0].ssid, "home");
    assert!(snapshot.networks[0].active);
    assert!(!snapshot.networks[0].saved());
    facts.active_access_point = None;
    facts.last_scan = None;
    let snapshot = snapshot_with_networks(&facts, &saved);
    assert_eq!(snapshot.last_scan, -1);
    assert_eq!(snapshot.networks[0].ssid, "cafe");
    assert!(!snapshot.networks[1].active);
    facts.access_points = vec![point("/ap/3", "", 90)];
    assert!(!facts.needs_profiles());
}

fn network(ssid: &str, security: WifiSecurity, saved: bool, active: bool) -> WifiNetwork {
    WifiNetwork {
        ssid: ssid.to_owned(),
        signal: 64,
        security,
        saved_paths: if saved {
            vec!["/p".to_owned()]
        } else {
            Vec::new()
        },
        active,
        ap_path: "/ap".to_owned(),
        device_path: "/dev".to_owned(),
    }
}

fn texts(request: ConnectRequest) -> Vec<String> {
    match request {
        ConnectRequest::Activate => vec!["activate".to_owned()],
        ConnectRequest::AddAndActivate(settings) => settings
            .iter()
            .map(|setting| {
                let value = match &setting.value {
                    SettingValue::Text(text) => text.clone(),
                    SettingValue::Bytes(text) => format!("bytes {text}"),
                    SettingValue::Number(number) => format!("{number}"),
                };
                format!("{}.{}={}", setting.section, setting.key, value)
            })
            .collect(),
    }
}

#[test]
fn connection_settings_fit_the_security() {
    let open = network("cafe", WifiSecurity::Open, false, false);
    assert_eq!(
        texts(connect_request(&open, None).ok().unwrap()),
        vec![
            "connection.id=cafe",
            "connection.type=802-11-wireless",
            "802-11-wireless.ssid=bytes cafe",
        ]
    );
    let wep = network("old", WifiSecurity::Wep, false, false);
    assert_eq!(
        texts(connect_request(&wep, Some("abcde")).ok().unwrap())[3..],
        [
            "802-11-wireless.security=802-11-wireless-security",
            "802-11-wireless-security.key-mgmt=none",
            "802-11-wireless-security.wep-key0=abcde",
            "802-11-wireless-security.wep-key-type=1",
        ]
    );
    let sae = network("new", WifiSecurity::Sae, false, false);
    assert_eq!(
        texts(connect_request(&sae, Some("pw")).ok().unwrap())[4..],
        [
            "802-11-wireless-security.key-mgmt=sae",
            "802-11-wireless-security.psk=pw",
        ]
    );
    assert_eq!(
        connect_request(&sae, Some("")).err().unwrap(),
        "a password is required for this network"
    );
    let work = network("work", WifiSecurity::Enterprise, false, false);
    assert_eq!(
        connect_request(&work, Some("x")).err().unwrap(),
        "enterprise Wi-Fi needs a saved NetworkManager profile with 802.1X credentials"
    );
    let known = network("work", WifiSecurity::Enterprise, true, false);
    assert_eq!(
        texts(connect_request(&known, None).ok().unwrap()),
        vec!["activate"]
    );
    let owe = network("o", WifiSecurity::Owe, false, false);
    assert_eq!(texts(connect_request(&owe, None).ok().unwrap()).len(), 5);
}

#[test]
fn network_actions_exclude_each_other_and_map_errors() {
    let mut backend = NetworkBackend::new();
    backend.snapshots.store(10, WifiSnapshot::default());
    assert!(backend.snapshot(509).is_some());
    assert!(backend.snapshot(510).is_none());
    assert!(backend.begin_write().is_ok());
    assert_eq!(backend.begin_write(), Err(NETWORK_BUSY.to_owned()));
    assert_eq!(
        backend.set_enabled(Err("no".to_owned())),
        Err("failed to set Wi-Fi radio state: no".to_owned())
    );
    assert!(backend.snapshot(20).is_some());
    assert!(backend.begin_write().is_ok());
    assert!(backend.set_enabled(Ok(())).is_ok());
    assert!(backend.snapshot(20).is_none());

    assert!(backend.begin_write().is_ok());
    assert_eq!(
        backend.request_scan(ScanReply::NoDevice),
        Err("no Wi-Fi device is managed by NetworkManager".to_owned())
    );
    assert!(backend.begin_write().is_ok());
    assert_eq!(
        backend.request_scan(ScanReply::Failed("x".to_owned())),
        Err("failed to request Wi-Fi scan: x".to_owned())
    );
    assert!(backend.begin_write().is_ok());
    assert_eq!(backend.request_scan(ScanReply::Requested(None)), Ok(-1));

    let open = network("cafe", WifiSecurity::Open, false, false);
    let known = network("home", WifiSecurity::Personal, true, false);
    backend.keep_profiles(Some(3), SavedWifi::new());
    assert!(backend.saved_profiles(Some(3)).is_some());
    assert!(backend.saved_profiles(Some(4)).is_none());
    assert!(backend.saved_profiles(None).is_none());
    assert!(backend.begin_write().is_ok());
    assert_eq!(
        backend.connect(&known, Err("far".to_owned())),
        Err("failed to activate home: far".to_owned())
    );
    assert!(backend.begin_write().is_ok());
    assert_eq!(
        backend.connect(&open, Err("far".to_owned())),
        Err("failed to connect to cafe: far".to_owned())
    );
    assert!(backend.begin_write().is_ok());
    assert!(backend.connect(&open, Ok(())).is_ok());
    assert!(backend.saved_profiles(Some(3)).is_none());

    assert!(backend.begin_write().is_ok());
    assert_eq!(
        backend.set_vless_active(true, None),
        Err("sing-box.service is not installed".to_owned())
    );
    assert!(backend.begin_write().is_ok());
    assert_eq!(
        backend.set_vless_active(false, Some(Err("x".to_owned()))),
        Err("failed to stop sing-box.service: x".to_owned())
    );
    assert!(backend.begin_write().is_ok());
    assert_eq!(
        backend.forget(&known, &vec!["a".to_owned(), "b".to_owned()]),
        Err("failed to forget home: a; b".to_owned())
    );
    assert!(backend.begin_write().is_ok());
    assert!(backend.forget(&known, &Vec::new()).is_ok());
}

fn snapshot(networks: Vec<WifiNetwork>, last_scan: i64) -> WifiSnapshot {
    WifiSnapshot {
        available: true,
        enabled: true,
        last_scan,
        networks,
    }
}

#[test]
fn wifi_header_tells_the_state() {
    let mut panel = NetworkController::new();
    let header = panel.header_view();
    assert_eq!(header.icon, ICON_WIFI_OFF);
    assert_eq!(header.status, "No Wi-Fi device");
    assert_eq!(panel.list_view(), ListView::NoDevice);
    let outcome = panel.apply_snapshot(
        snapshot(vec![network("home", WifiSecurity::Personal, true, true)], 5),
        false,
    );
    assert!(outcome.update_header);
    assert!(!outcome.sync_list);
    assert!(panel.list_dirty);
    assert!(panel.apply_vless_state(VlessState {
        available: true,
        active: true
    }));
    let header = panel.header_view();
    assert_eq!(header.title, "home");
    assert_eq!(header.status, "64% • secured • VLESS");
    assert_eq!(header.tooltip, "home • 64% • secured • VLESS");
    assert_eq!(header.icon, ICON_WIFI_GOOD);
    panel.apply_snapshot(
        snapshot(
            vec![
                network("a", WifiSecurity::Open, false, false),
                network("b", WifiSecurity::Open, false, false),
            ],
            5,
        ),
        true,
    );
    let header = panel.header_view();
    assert_eq!(header.status, "2 networks • VLESS");
    assert_eq!(header.icon, ICON_WIFI_NONE);
    assert_eq!(panel.list_view(), ListView::Networks);
    assert!(wifi_header_changed(
        &snapshot(Vec::new(), 1),
        &snapshot(vec![network("a", WifiSecurity::Open, false, false)], 1)
    ));
    assert!(!wifi_header_changed(
        &snapshot(Vec::new(), 1),
        &snapshot(Vec::new(), 2)
    ));
}

#[test]
fn scans_end_with_a_newer_snapshot() {
    let mut panel = NetworkController::new();
    panel.apply_snapshot(snapshot(Vec::new(), 5), true);
    assert!(panel.scans_on_open());
    let token = panel.rescan().unwrap();
    assert!(panel.rescan().is_none());
    assert!(panel.rescan_requested(token, Some(5)));
    let outcome = panel.apply_snapshot(snapshot(Vec::new(), 5), true);
    assert!(!outcome.stop_animation);
    let outcome = panel.apply_snapshot(snapshot(Vec::new(), 6), true);
    assert!(outcome.stop_animation);
    assert!(!panel.rescan_busy);
    assert!(!panel.rescan_timed_out(token, 5));

    let token = panel.rescan().unwrap();
    panel.rescan_requested(token, Some(6));
    assert!(panel.rescan_timed_out(token, 6));
    let token = panel.rescan().unwrap();
    assert!(panel.rescan_requested(token, None));
    assert!(!panel.rescan_busy);
    let token = panel.rescan().unwrap();
    assert!(panel.begin_action(RefreshTarget::Wifi));
    assert!(!panel.rescan_requested(token, Some(1)));
    assert!(!panel.begin_action(RefreshTarget::Vless));
    assert_eq!(
        panel.finish_action(RefreshTarget::Wifi, true),
        AfterAction::Now(RefreshTarget::Wifi)
    );
    assert!(panel.begin_action(RefreshTarget::Vless));
    assert_eq!(
        panel.finish_action(RefreshTarget::Vless, true),
        AfterAction::VlessLater
    );
}

#[test]
fn password_prompt_lives_with_its_network() {
    let mut panel = NetworkController::new();
    let target = network("new", WifiSecurity::Personal, false, false);
    assert_eq!(
        panel.show_password_prompt(target.copy()),
        "Connect to new"
    );
    assert!(matches!(
        panel.connect_password_target(""),
        PasswordOutcome::Missing
    ));
    panel.apply_snapshot(
        snapshot(vec![network("new", WifiSecurity::Personal, false, false)], 1),
        true,
    );
    assert!(panel.password_target.is_some());
    let outcome = panel.apply_snapshot(
        snapshot(vec![network("new", WifiSecurity::Personal, true, false)], 1),
        true,
    );
    assert!(outcome.hide_prompt);
    assert!(matches!(
        panel.connect_password_target("pw"),
        PasswordOutcome::Nothing
    ));
    panel.show_password_prompt(target.copy());
    panel.hide_password_prompt();
    assert!(panel.password_target.is_none());
    panel.show_password_prompt(target);
    assert!(matches!(
        panel.connect_password_target("pw"),
        PasswordOutcome::Connect(network) if network.ssid == "new"
    ));
    panel.apply_snapshot(
        snapshot(vec![network("new", WifiSecurity::Personal, true, true)], 1),
        true,
    );
    panel.set_wifi_enabled(false);
    assert!(!panel.wifi.networks[0].active);
    assert_eq!(panel.list_view(), ListView::Disabled);
}

#[test]
fn rows_show_and_do_what_fits() {
    let open = network("a", WifiSecurity::Open, false, false);
    let locked = network("b", WifiSecurity::Personal, false, false);
    let known = network("b", WifiSecurity::Personal, true, false);
    let active = network("b", WifiSecurity::Personal, true, true);
    let work = network("c", WifiSecurity::Enterprise, false, false);
    assert_eq!(row_click(&open), RowClick::Connect);
    assert_eq!(row_click(&locked), RowClick::AskPassword);
    assert_eq!(row_click(&known), RowClick::Connect);
    assert_eq!(row_click(&active), RowClick::Nothing);
    assert_eq!(row_click(&work), RowClick::NeedsProfile);
    assert_eq!(network_meta(&known), "64% • secured • saved");
    assert_eq!(network_meta(&work), "64% • enterprise");
    assert_eq!(network_status_icon(&active), ICON_CHECK);
    assert_eq!(network_status_icon(&locked), ICON_LOCK);
    assert_eq!(network_status_icon(&open), "");
    let changes = row_changes(&locked, &known);
    assert!(!changes.icon);
    assert!(changes.meta);
    assert!(changes.status);
    assert!(changes.forget_button);
    assert_eq!(radio_notice(true), "Enabling Wi-Fi…");
    assert_eq!(vless_notice(false), "Stopping VLESS…");
    assert_eq!(connecting_notice("x"), "Connecting to x…");
    assert_eq!(forgetting_notice("x"), "Forgetting x…");
}
