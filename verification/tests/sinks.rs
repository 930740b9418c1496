use obsidian_bar::audio::{
    hidden_keys_from_json, hidden_keys_to_json, hide_sink, normalize_hidden_keys, read_hidden_keys,
    restore_sink, sink_hidden, sink_icon, sink_list_view, sink_row_view, sync_hidden_keys,
    volume_tooltip, KeySource, ICON_BACK, ICON_CHECK, ICON_HDMI, ICON_HEADSET, ICON_HIDE,
    ICON_RESTORE, ICON_SPEAKER,
};
use obsidian_bar::audio_backend::{
    cleanup_sink_name, decoded_node_name, default_sink_name, has_token, normalized_property_key,
    parse_sinks, sink_kind, sink_type_text, stable_sink_key_base, strip_volume_suffix,
    volume_fields, AudioCommand, SinkInfo, SinkKind,
};
use obsidian_bar::text_set::TextSet;
use serde_json::Value;

const SNAPSHOT: &str = r#"[
          {
            "id": 7,
            "type": "PipeWire:Interface:Metadata",
            "props": { "metadata.name": "default" },
            "metadata": [
              {
                "subject": 0,
                "key": "default.audio.sink",
                "type": "Spa:String:JSON",
                "value": { "name": "alsa_output.usb-Kingston_HyperX_Cloud_III.analog-stereo" }
              }
            ]
          },
          {
            "id": 51,
            "type": "PipeWire:Interface:Node",
            "info": {
              "props": {
                "media.class": "Audio/Sink",
                "node.name": "alsa_output.pci-0000_03_00.1.hdmi-stereo",
                "node.description": "Navi HDMI Output"
              }
            }
          },
          {
            "id": 42,
            "type": "PipeWire:Interface:Node",
            "info": {
              "props": {
                "media.class": "Audio/Sink",
                "node.name": "alsa_output.usb-Kingston_HyperX_Cloud_III.analog-stereo",
                "node.description": "HyperX Cloud III"
              }
            }
          },
          {
            "id": 61,
            "type": "PipeWire:Interface:Node",
            "info": {
              "props": {
                "media.class": "Audio/Source",
                "node.name": "alsa_input.test",
                "node.description": "Microphone"
              }
            }
          }
        ]"#;

#[test]
fn parses_sinks_from_pipewire_json() {
    let sinks = parse_sinks(SNAPSHOT).unwrap();
    assert_eq!(sinks.len(), 2);
    assert_eq!(sinks[0].id, "42");
    assert!(sinks[0].current);
    assert_eq!(sinks[0].name, "HyperX Cloud III");
    assert_eq!(sinks[0].kind, SinkKind::Headset);
    assert!(sinks[0].keys.iter().any(|key| key.starts_with("node:")));
    assert_eq!(sinks[1].id, "51");
    assert!(!sinks[1].current);
    assert_eq!(sinks[1].kind, SinkKind::Display);
}

#[test]
fn parses_legacy_encoded_metadata_value() {
    let snapshot = r#"[
          {
            "id": 7,
            "type": "PipeWire:Interface:Metadata",
            "props": { "metadata.name": "default" },
            "metadata": [
              {
                "key": "default.audio.sink",
                "value": "{ \"name\": \"bluez_output.test\" }"
              }
            ]
          }
        ]"#;

    let root: Value = serde_json::from_str(snapshot).unwrap();
    assert_eq!(
        default_sink_name(root.as_array().unwrap()).as_deref(),
        Some("bluez_output.test")
    );
}

#[test]
fn rejects_non_array_pw_dump_output() {
    assert!(parse_sinks(r#"{ "id": 42 }"#).is_err());
}

#[test]
fn displayport_detection_uses_dp_as_a_token() {
    assert_eq!(sink_kind("DisplayPort DP-1"), SinkKind::Display);
    assert_eq!(sink_kind("HDMI-A-1"), SinkKind::Display);
    assert_ne!(sink_kind("SoundPort Analog"), SinkKind::Display);
}

#[test]
fn normalizes_legacy_hidden_keys() {
    let keys = normalize_hidden_keys(&vec![
        "42:usb headset".to_owned(),
        "usb headset".to_owned(),
        "  node:alsa_output.card  ".to_owned(),
    ]);
    assert_eq!(
        keys.items,
        vec!["node:alsa_output.card".to_owned(), "usb headset".to_owned()]
    );
}

#[test]
fn listed_sinks_have_keys_and_meta() {
    let sinks = parse_sinks(SNAPSHOT).unwrap();
    assert_eq!(
        sinks[1].keys,
        vec![
            "node:alsa_output.pci-0000_03_00.1.hdmi-stereo".to_owned(),
            "navi hdmi".to_owned()
        ]
    );
    assert_eq!(
        sinks[1].persist_keys,
        vec!["node:alsa_output.pci-0000_03_00.1.hdmi-stereo".to_owned()]
    );
    assert_eq!(sinks[1].name, "Navi HDMI");
    assert_eq!(sinks[1].meta, "HDMI / DisplayPort");
}

#[test]
fn equal_names_are_told_apart() {
    let dump = r#"[
      {"id":1,"type":"PipeWire:Interface:Node","info":{"props":{"media.class":"Audio/Sink","node.name":"a","node.nick":"Speaker"}}},
      {"id":" x ","type":"PipeWire:Interface:Node","info":{"props":{"media.class":"Audio/Sink","device.description":"Speaker"}}},
      {"id":true,"type":"PipeWire:Interface:Node","info":{"props":{"media.class":"Audio/Sink","node.name":"b"}}},
      {"id":3,"type":"PipeWire:Interface:Node","info":{"props":{"media.class":"Audio/Sink","node.name":" "}}}
    ]"#;
    let sinks = parse_sinks(dump).unwrap();
    assert_eq!(sinks.len(), 2);
    assert_eq!(sinks[0].meta, "Analog output · a");
    assert_eq!(sinks[1].id, "x");
    assert_eq!(sinks[1].meta, "Analog output · x");
    assert_eq!(sinks[1].keys, vec!["speaker".to_owned()]);
    assert_eq!(sinks[1].persist_keys, vec!["speaker".to_owned()]);
}

#[test]
fn dump_errors_say_what_is_wrong() {
    assert_eq!(
        parse_sinks("{}").err().unwrap(),
        "invalid pw-dump JSON: expected a top-level array"
    );
    let message = parse_sinks("[").err().unwrap();
    assert!(message.starts_with("invalid pw-dump JSON: "));
    assert!(message.len() > "invalid pw-dump JSON: ".len());
}

#[test]
fn default_sink_of_other_metadata_is_ignored() {
    let dump = r#"[
      {"type":"PipeWire:Interface:Metadata","props":{"metadata.name":"settings"},
       "metadata":[{"key":"default.audio.sink","value":{"name":"wrong"}}]},
      {"type":"PipeWire:Interface:Metadata",
       "metadata":[{"key":"other"},{"key":"default.audio.sink","value":" plain.name "}]},
      {"type":"PipeWire:Interface:Metadata",
       "metadata":[{"key":"default.audio.sink","value":{"name":"late"}}]}
    ]"#;
    let root: Value = serde_json::from_str(dump).unwrap();
    assert_eq!(
        default_sink_name(root.as_array().unwrap()).as_deref(),
        Some("plain.name")
    );
    assert_eq!(decoded_node_name("{ broken", None), None);
    assert_eq!(decoded_node_name("plain", None).as_deref(), Some("plain"));
}

#[test]
fn technical_names_are_cleaned() {
    assert_eq!(strip_volume_suffix("Speakers [VOL: 0.4]"), "Speakers");
    assert_eq!(strip_volume_suffix("  Speakers "), "Speakers");
    assert_eq!(cleanup_sink_name("alsa_output.Built-in Pro Audio"), "Built in");
    assert_eq!(cleanup_sink_name("ALSA sink"), "ALSA sink");
    assert_eq!(stable_sink_key_base("My  Sink\tBox"), "my box");
    assert_eq!(
        normalized_property_key("node", "  A  B "),
        Some("node:a b".to_owned())
    );
    assert_eq!(normalized_property_key("node", "  "), None);
    assert!(has_token("card dp-1", "dp"));
    assert!(!has_token("card adp1", "dp"));
    assert_eq!(sink_kind("Optical S/PDIF"), SinkKind::Digital);
    assert_eq!(sink_type_text(SinkKind::Digital), "SPDIF / optical");
    assert_eq!(sink_kind("Thing"), SinkKind::Other);
}

#[test]
fn parses_wpctl_volume() {
    let (volume, muted) = volume_fields("Volume: 0.42").unwrap();
    assert_eq!(volume.parse::<f64>(), Ok(0.42));
    assert!(!muted);

    let (volume, muted) = volume_fields("Volume: 0.75 [MUTED]").unwrap();
    assert_eq!(volume.parse::<f64>(), Ok(0.75));
    assert!(muted);

    let is_err = |output: &str| match volume_fields(output) {
        Ok((volume, _)) => !volume.parse::<f64>().is_ok_and(f64::is_finite),
        Err(_) => true,
    };
    assert!(is_err("garbage 0.42"));
    assert!(is_err("Volume: NaN"));
    assert!(is_err("Volume: inf"));
}

#[test]
fn kinds_and_keys_go_by_words() {
    assert_eq!(sink_kind("Speaker HDMI"), SinkKind::Display);
    assert_eq!(sink_kind("HDMI Speaker"), SinkKind::Display);
    assert_eq!(sink_kind("head set"), SinkKind::Other);
    assert_eq!(sink_kind("HEADSET"), sink_kind("headset"));
    let key = |value: &str| normalized_property_key("node", value);
    assert_eq!(key(" Alsa  OUT\t1"), Some("node:alsa out 1".to_owned()));
    assert_eq!(key("ALSA out 1 "), key("alsa  Out 1"));
    assert_ne!(key("alsaout 1"), key("alsa out 1"));
    assert_eq!(key(" \n"), None);
}

#[test]
fn volume_output_is_taken_apart() {
    assert_eq!(volume_fields("Volume: 0.42"), Ok(("0.42".to_owned(), false)));
    assert_eq!(
        volume_fields("Volume: 0.75 [MUTED]"),
        Ok(("0.75".to_owned(), true))
    );
    assert_eq!(
        volume_fields("garbage 0.42"),
        Err("unexpected wpctl volume output: garbage 0.42".to_owned())
    );
    assert_eq!(
        volume_fields("Volume:"),
        Err("missing wpctl volume value: Volume:".to_owned())
    );
    assert_eq!(
        AudioCommand::SetMute(true).arguments(),
        vec!["set-mute", "@DEFAULT_AUDIO_SINK@", "1"]
    );
    assert_eq!(
        AudioCommand::SetVolume("0.50".to_owned()).arguments(),
        vec!["set-volume", "@DEFAULT_AUDIO_SINK@", "0.50", "-l", "1"]
    );
    assert_eq!(
        AudioCommand::SetDefault("42".to_owned()).arguments(),
        vec!["set-default", "42"]
    );
    assert_eq!(
        AudioCommand::ReadVolume.arguments(),
        vec!["get-volume", "@DEFAULT_AUDIO_SINK@"]
    );
}

fn sink(name: &str, keys: &[&str], persist: &[&str], current: bool) -> SinkInfo {
    SinkInfo {
        id: name.to_owned(),
        keys: keys.iter().map(|key| key.to_string()).collect(),
        persist_keys: persist.iter().map(|key| key.to_string()).collect(),
        name: name.to_owned(),
        meta: "meta".to_owned(),
        current,
        kind: SinkKind::Headset,
    }
}

#[test]
fn hidden_sinks_can_be_restored() {
    let mut hidden = TextSet::new();
    let a = sink("a", &["node:a", "a"], &["node:a"], false);
    assert!(hide_sink(&mut hidden, &a));
    assert!(sink_hidden(&a, &hidden));
    restore_sink(&mut hidden, &a);
    assert!(!sink_hidden(&a, &hidden));
    assert!(hidden.is_empty());

    let current = sink("c", &["node:c"], &["node:c"], true);
    assert!(!hide_sink(&mut hidden, &current));
    hidden.insert("node:c".to_owned());
    assert!(!sink_hidden(&current, &hidden));
}

#[test]
fn hidden_keys_move_to_the_node_key() {
    let mut hidden = TextSet::new();
    hidden.insert("a".to_owned());
    hidden.insert("elsewhere".to_owned());
    let sinks = vec![sink("a", &["node:a", "a"], &["node:a"], false)];
    let changed = sync_hidden_keys(&mut hidden, &sinks).unwrap();
    assert_eq!(
        changed.items,
        vec!["elsewhere".to_owned(), "node:a".to_owned()]
    );
    assert!(sink_hidden(&sinks[0], &hidden));
    assert!(sync_hidden_keys(&mut hidden, &sinks).is_none());
}

#[test]
fn hidden_keys_are_stored_and_read_back() {
    let mut hidden = TextSet::new();
    hidden.insert("node:b \"quoted\"".to_owned());
    hidden.insert("a".to_owned());
    let text = hidden_keys_to_json(&hidden).unwrap();
    assert_eq!(text, "[\"a\",\"node:b \\\"quoted\\\"\"]");
    assert_eq!(hidden_keys_from_json(&text).items, hidden.items);
    assert!(hidden_keys_from_json("[1]").is_empty());
    assert!(hidden_keys_from_json("oops").is_empty());
}

#[test]
fn hidden_keys_come_from_the_newer_file() {
    let (keys, source) = read_hidden_keys(Some("[\"a\"]"), Some("[\"b\"]"));
    assert_eq!(keys.items, vec!["a".to_owned()]);
    assert_eq!(source, KeySource::Current);
    let (keys, source) = read_hidden_keys(None, Some("[\"7: b \"]"));
    assert_eq!(keys.items, vec!["b".to_owned()]);
    assert_eq!(source, KeySource::Earlier);
    let (keys, source) = read_hidden_keys(None, Some("[]"));
    assert!(keys.is_empty());
    assert_eq!(source, KeySource::Nowhere);
    assert_eq!(read_hidden_keys(None, None).1, KeySource::Nowhere);
}

#[test]
fn sink_list_shows_one_of_two_lists() {
    let sinks = vec![
        sink("a", &["a"], &["a"], false),
        sink("b", &["b"], &["b"], true),
        sink("c", &["c"], &["c"], false),
    ];
    let mut hidden = TextSet::new();
    hidden.insert("c".to_owned());
    let view = sink_list_view(&sinks, &hidden, false);
    assert_eq!(view.title, "Audio outputs");
    assert_eq!(view.status, "3 outputs");
    assert_eq!(view.section, "Outputs");
    assert_eq!(view.rows, vec![0, 1]);
    assert!(view.toggle_visible);
    assert_eq!(view.toggle_icon, ICON_HIDE);
    assert_eq!(view.empty_text, None);
    let view = sink_list_view(&sinks, &hidden, true);
    assert_eq!(view.title, "Hidden outputs 1");
    assert_eq!(view.rows, vec![2]);
    assert_eq!(view.toggle_icon, ICON_BACK);
    let view = sink_list_view(&Vec::new(), &hidden, true);
    assert_eq!(view.status, "No sinks found");
    assert_eq!(view.empty_text, Some("No hidden outputs"));
}

#[test]
fn sink_rows_offer_what_fits() {
    let current = sink("b", &["b"], &["b"], true);
    let row = sink_row_view(&current, false);
    assert_eq!(row.status, ICON_CHECK);
    assert_eq!(row.side_icon, None);
    assert_eq!(row.meta, "meta");
    let other = sink("c", &["c"], &["c"], false);
    assert_eq!(sink_row_view(&other, false).side_icon, Some(ICON_HIDE));
    let row = sink_row_view(&other, true);
    assert_eq!(row.side_icon, Some(ICON_RESTORE));
    assert_eq!(row.meta, "Hidden output");
    assert_eq!(sink_icon(SinkKind::Headset), ICON_HEADSET);
    assert_eq!(sink_icon(SinkKind::Display), ICON_HDMI);
    assert_eq!(sink_icon(SinkKind::Analog), ICON_SPEAKER);
    assert_eq!(
        volume_tooltip(&vec![other, current], 40, true),
        "Muted 40% • LMB volume • MMB mute • RMB devices • b"
    );
    assert_eq!(
        volume_tooltip(&Vec::new(), 7, false),
        "Sound 7% • LMB volume • MMB mute • RMB devices • Audio output"
    );
}
