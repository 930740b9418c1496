use obsidian_bar::brightness::{
    backlight_arguments, brightness_tooltip, ddc_arguments, ddc_readings, find_backlight_device,
    first_write, next_write, select_backlight_device, write_debounce, write_percent,
    BacklightDevice, BacklightKind, BrightnessBackend, WriteStep,
};
use obsidian_bar::osd::{
    is_audio_sink_class, is_default_metadata, is_default_sink_key, osd_title, percent_text,
    OsdState, VolumeKey, VolumeStep,
};
use obsidian_bar::player::{
    became_playing, playback_status, truncate_text, PlaybackStatus, PlayerAction, PlayerFacts,
    PlayerSourceState, PlayerState,
};
use obsidian_bar::power::PowerAction;

fn backlight(name: &str, kind: BacklightKind) -> BacklightDevice {
    BacklightDevice {
        name: name.to_owned(),
        kind,
        brightness: 40,
        maximum: 100,
    }
}

#[test]
fn selects_backlight_using_kernel_interface_priority() {
    let selected = select_backlight_device(vec![
        backlight("intel_backlight", BacklightKind::Raw),
        backlight("acpi_video0", BacklightKind::Firmware),
        backlight("vendor", BacklightKind::Platform),
    ])
    .expect("a backlight should be selected");
    assert_eq!(selected.name, "acpi_video0");
}

#[test]
fn selects_backlight_deterministically_within_same_kind() {
    let selected = select_backlight_device(vec![
        backlight("backlight_b", BacklightKind::Raw),
        backlight("backlight_a", BacklightKind::Raw),
    ])
    .expect("a backlight should be selected");
    assert_eq!(selected.name, "backlight_a");
}

#[test]
fn filters_audio_sink_media_classes() {
    assert!(is_audio_sink_class(Some("Audio/Sink")));
    assert!(is_audio_sink_class(Some("Audio/Sink/Virtual")));
    assert!(!is_audio_sink_class(Some("Audio/Source")));
    assert!(!is_audio_sink_class(Some("Stream/Output/Audio")));
    assert!(!is_audio_sink_class(None));
}

#[test]
fn filters_default_metadata() {
    assert!(is_default_metadata(Some("default")));
    assert!(is_default_metadata(None));
    assert!(!is_default_metadata(Some("settings")));
}

#[test]
fn filters_default_sink_metadata_keys() {
    assert!(is_default_sink_key(Some("default.audio.sink")));
    assert!(is_default_sink_key(Some("default.configured.audio.sink")));
    assert!(is_default_sink_key(None));
    assert!(!is_default_sink_key(Some("default.audio.source")));
}

fn source(status: PlaybackStatus, selectable: bool) -> PlayerSourceState {
    PlayerSourceState { status, selectable }
}

#[test]
fn activates_only_when_a_selectable_source_starts_playing() {
    assert!(became_playing(
        Some(source(PlaybackStatus::Paused, true)),
        source(PlaybackStatus::Playing, true),
    ));
    assert!(became_playing(
        Some(source(PlaybackStatus::Playing, false)),
        source(PlaybackStatus::Playing, true),
    ));

    assert!(!became_playing(
        Some(source(PlaybackStatus::Playing, true)),
        source(PlaybackStatus::Playing, true),
    ));
    assert!(!became_playing(
        Some(source(PlaybackStatus::Paused, true)),
        source(PlaybackStatus::Playing, false),
    ));
}

#[test]
fn newly_discovered_playing_source_is_an_activation_candidate() {
    assert!(became_playing(None, source(PlaybackStatus::Playing, true),));
    assert!(!became_playing(None, source(PlaybackStatus::Paused, true),));
}

#[test]
fn metadata_truncation_is_character_safe() {
    assert_eq!(truncate_text("абвг", 3), "аб…");
    assert_eq!(truncate_text("abc", 3), "abc");
    assert_eq!(truncate_text("abc", 1), "…");
    assert_eq!(truncate_text("abc", 0), "");
}

#[test]
fn backlights_are_read_and_missed() {
    assert_eq!(BacklightKind::parse(" raw\n"), BacklightKind::Raw);
    assert_eq!(BacklightKind::parse("other"), BacklightKind::Unknown);
    let device = BacklightDevice::read("x".to_owned(), 150, 100, Some("platform")).ok().unwrap();
    assert_eq!(device.kind, BacklightKind::Platform);
    assert_eq!(device.level(), (100, 100));
    assert_eq!(
        BacklightDevice::read("x".to_owned(), 1, 0, None).err().unwrap(),
        "backlight device x reports max_brightness=0"
    );
    assert_eq!(
        find_backlight_device("/sys", Vec::new(), &Vec::new()).err().unwrap(),
        "no backlight devices found in /sys"
    );
    assert_eq!(
        find_backlight_device("/sys", Vec::new(), &vec!["a".to_owned(), "b".to_owned()])
            .err()
            .unwrap(),
        "no usable backlight devices found in /sys: a; b"
    );
}

#[test]
fn brightness_is_written_where_it_works() {
    let unknown = BrightnessBackend::Unknown;
    let step = next_write(unknown, first_write(unknown), Err("e1".to_owned()));
    assert!(matches!(&step, WriteStep::Ddc(Some(error)) if error == "e1"));
    let step = next_write(unknown, step, Err("e2".to_owned()));
    assert!(matches!(
        step,
        WriteStep::Failed(message) if message == "backlight failed (e1); DDC/CI failed (e2)"
    ));
    let known = BrightnessBackend::Backlight;
    assert!(matches!(
        next_write(known, first_write(known), Err("e".to_owned())),
        WriteStep::Failed(message) if message == "e"
    ));
    let ddc = BrightnessBackend::Ddc;
    assert!(matches!(
        next_write(ddc, first_write(ddc), Ok(())),
        WriteStep::Done(BrightnessBackend::Ddc)
    ));
    assert_eq!(write_percent(1), 5);
    assert_eq!(write_percent(57), 57);
    assert_eq!(write_percent(150), 100);
    assert_eq!(
        backlight_arguments("intel", 57),
        vec!["--device=intel", "--class=backlight", "set", "57%"]
    );
    assert_eq!(ddc_arguments(100), vec!["setvcp", "10", "100"]);
    assert_eq!(write_debounce(ddc), 250);
    assert_eq!(brightness_tooltip(ddc, 40), "Brightness 40% • DDC/CI");
    assert_eq!(
        brightness_tooltip(BrightnessBackend::Unavailable, 40),
        "Brightness unavailable"
    );
}

#[test]
fn parses_ddcutil_brief_continuous_value() {
    let level = |output: &str| {
        ddc_readings(output).iter().find_map(|(current, maximum)| {
            let current = current.parse::<f64>().ok()?;
            let maximum = maximum.parse::<f64>().ok()?;
            let sound = current.is_finite() && maximum.is_finite();
            (sound && current >= 0.0 && maximum > 0.0).then_some(current / maximum)
        })
    };
    assert_eq!(level("VCP 10 C 57 100"), Some(0.57));
    assert_eq!(level("Display 1\nVCP 10 C 80 100"), Some(0.8));
    assert_eq!(
        level("VCP 10 C invalid 100\nVCP 10 C 65 100"),
        Some(0.65)
    );
    assert_eq!(level("VCP 10 C NaN 100"), None);
    assert_eq!(level("VCP 10 C 20 NaN"), None);
    assert_eq!(level("VCP 10 C -1 100"), None);
}

#[test]
fn display_readings_are_found_line_by_line() {
    let pair = |a: &str, b: &str| (a.to_owned(), b.to_owned());
    assert_eq!(ddc_readings("VCP 10 C 57 100"), vec![pair("57", "100")]);
    assert_eq!(
        ddc_readings("Display 1\r\nvcp 10 c 80 100 x\nVCP 12 C 1 2\nVCP 10 C invalid 100"),
        vec![pair("80", "100"), pair("invalid", "100")]
    );
    assert!(ddc_readings("VCP 10 C 57").is_empty());
}

#[test]
fn volume_display_appears_for_foreign_changes() {
    let key = |percent: i32| VolumeKey {
        percent,
        muted: false,
    };
    let mut osd = OsdState::new();
    assert_eq!(osd.apply_volume(key(10), true, 0), VolumeStep::Keep);
    assert_eq!(osd.apply_volume(key(10), true, 0), VolumeStep::Keep);
    assert_eq!(osd.apply_volume(key(20), true, 0), VolumeStep::Present);
    assert_eq!(osd.apply_volume(key(30), false, 0), VolumeStep::Keep);
    osd.suppress_local_audio_change(100);
    assert_eq!(osd.apply_volume(key(40), true, 999), VolumeStep::Keep);
    assert_eq!(osd.apply_volume(key(50), true, 1_000), VolumeStep::Present);
    let token = osd.present();
    assert!(osd.hides(token));
    let later = osd.present();
    assert!(!osd.hides(token));
    assert!(osd.schedule_event_refresh());
    assert!(!osd.schedule_event_refresh());
    assert!(osd.begin_event_refresh());
    assert!(osd.shutdown());
    assert!(!osd.shutdown());
    assert!(!osd.hides(later));
    assert_eq!(osd_title(true), "Sound muted");
    assert_eq!(percent_text(42), "42%");
}

fn facts(status: PlaybackStatus) -> PlayerFacts {
    PlayerFacts {
        has_owner: true,
        status,
        can_control: true,
        can_play: true,
        can_pause: true,
        can_go_previous: false,
        can_go_next: true,
        can_raise: false,
        identity: Some(" Band ".to_owned()),
        title: Some(" Song ".to_owned()),
        artists: Some(vec!["A".to_owned(), " ".to_owned(), "B".to_owned()]),
    }
}

fn bus(name: &str) -> String {
    format!("org.mpris.MediaPlayer2.{name}")
}

fn add(state: &mut PlayerState, name: &str, facts: PlayerFacts) {
    let id = state.connect_player(&bus(name)).unwrap();
    assert!(state.finish_player_connection(bus(name), id, Some(facts)));
    state.refresh();
}

#[test]
fn players_are_chosen_and_cycled() {
    let mut state = PlayerState::new();
    assert!(state.current_view().is_none());
    add(&mut state, "b", facts(PlaybackStatus::Paused));
    assert_eq!(state.active_bus, Some(bus("b")));
    add(&mut state, "a", facts(PlaybackStatus::Paused));
    assert_eq!(state.players[0].bus_name, bus("a"));
    assert_eq!(state.active_bus, Some(bus("b")));
    add(&mut state, "c", facts(PlaybackStatus::Playing));
    assert_eq!(state.active_bus, Some(bus("c")));
    state.cycle_active(1);
    assert_eq!(state.active_bus, Some(bus("a")));
    state.cycle_active(-1);
    assert_eq!(state.active_bus, Some(bus("c")));
    state.cycle_active(-4);
    assert_eq!(state.active_bus, Some(bus("b")));
    assert!(state.player_properties_changed(&bus("a"), facts(PlaybackStatus::Playing)));
    assert_eq!(state.active_bus, Some(bus("a")));
    assert!(!state.player_properties_changed("other", facts(PlaybackStatus::Playing)));
    assert!(state.root_properties_changed(&bus("a")));
    assert_eq!(state.owner_changed(&bus("a"), false), None);
    state.refresh();
    assert_eq!(state.active_bus, Some(bus("c")));
    let mut gone = facts(PlaybackStatus::Playing);
    gone.has_owner = false;
    state.player_properties_changed(&bus("c"), gone);
    state.refresh();
    assert_eq!(state.players.len(), 1);
    assert_eq!(state.active_bus, Some(bus("b")));
}

#[test]
fn player_views_tell_the_track() {
    let mut state = PlayerState::new();
    add(&mut state, "x", facts(PlaybackStatus::Playing));
    let view = state.current_view().unwrap();
    assert_eq!(view.metadata, "A, B — Song");
    assert_eq!(view.source_identity, "Band");
    assert_eq!(view.source_count, 1);
    assert!(view.capabilities.play_pause);
    assert!(!view.capabilities.previous);
    let call = state.call_active(PlayerAction::PlayPause).unwrap();
    assert_eq!(call.method, "PlayPause");
    assert!(!call.on_root);
    assert!(state.call_active(PlayerAction::Raise).is_none());
    let mut nameless = facts(PlaybackStatus::Stopped);
    nameless.identity = None;
    nameless.title = None;
    nameless.artists = None;
    state.player_properties_changed(&bus("x"), nameless);
    let view = state.current_view().unwrap();
    assert_eq!(view.metadata, "Now playing");
    assert_eq!(view.source_identity, "x");
    let mut stuck = facts(PlaybackStatus::Playing);
    stuck.can_control = false;
    state.player_properties_changed(&bus("x"), stuck);
    assert!(state.current_view().is_none());
    assert_eq!(playback_status(Some("Paused")), PlaybackStatus::Paused);
    assert_eq!(playback_status(None), PlaybackStatus::Unknown);
}

#[test]
fn discovered_players_are_connected_once() {
    let mut state = PlayerState::new();
    let requests = state.add_discovered_players(&vec![
        bus("z"),
        "org.other".to_owned(),
        bus("a"),
        bus("z"),
    ]);
    assert_eq!(requests.len(), 2);
    assert_eq!(requests[0].bus_name, bus("a"));
    assert_eq!(requests[1].request_id, 2);
    assert!(state.add_discovered_players(&vec![bus("a")]).is_empty());
    assert!(!state.finish_player_connection(bus("a"), 7, Some(facts(PlaybackStatus::Paused))));
    assert!(!state.finish_player_connection(bus("a"), 1, None));
    assert_eq!(state.owner_changed(&bus("z"), true), None);
    assert_eq!(state.owner_changed(&bus("a"), true), Some(3));
}

#[test]
fn power_actions_call_programs() {
    assert_eq!(PowerAction::Lock.program(), "hyprlock");
    assert!(PowerAction::Lock.arguments().is_empty());
    assert_eq!(
        PowerAction::Logout.arguments(),
        vec!["msg", "action", "quit", "--skip-confirmation"]
    );
    assert_eq!(PowerAction::Reboot.program(), "systemctl");
    assert_eq!(PowerAction::PowerOff.arguments(), vec!["poweroff"]);
    assert_eq!(PowerAction::PowerOff.label(), "Shut Down");
    assert_eq!(PowerAction::Logout.tooltip(), "Log out of Niri");
    assert_eq!(PowerAction::Reboot.icon(), "\u{f0709}");
}
