use obsidian_bar::bluetooth_agent::AGENT_XML;
use obsidian_bar::pending::PendingRequests;
use obsidian_bar::tray::{
    normalize_item_id, split_item_id, ItemOutcome, TrayState, WatcherMirror, WatcherStep,
    WATCHER_SERVICE, WATCHER_XML,
};
use obsidian_bar::tray_items::{
    has_visible_menu_item, icon_from_pixmaps, icon_lookup, menu_indicator, menu_row, name_is_ours,
    normalize_menu_label, parse_menu_layout, signal_asks_refresh, tooltip_text, watcher_call,
    EntryStep, IconLookup, IconMemory, IconScan, ItemFacts, MenuRow, Pixmap, PixmapSource, RawMenu,
    WatcherReply,
};

#[test]
fn normalizes_status_notifier_item_ids() {
    assert_eq!(
        normalize_item_id("/StatusNotifierItem", Some(":1.42")),
        Some(":1.42/StatusNotifierItem".to_owned())
    );
    assert_eq!(
        normalize_item_id("org.example.Tray", None),
        Some("org.example.Tray/StatusNotifierItem".to_owned())
    );
    assert_eq!(
        normalize_item_id("org.example.Tray/Custom", None),
        Some("org.example.Tray/Custom".to_owned())
    );
    assert_eq!(normalize_item_id("   ", None), None);
}

#[test]
fn strips_menu_mnemonics_but_preserves_escaped_underscores() {
    assert_eq!(normalize_menu_label("_Open"), "Open");
    assert_eq!(normalize_menu_label("Save __As"), "Save _As");
    assert_eq!(normalize_menu_label("A___B"), "A_B");
}

#[test]
fn item_ids_are_split() {
    assert_eq!(
        split_item_id(":1.4/Menu/x"),
        Some((":1.4".to_owned(), "/Menu/x".to_owned()))
    );
    assert_eq!(split_item_id("/only"), None);
    assert_eq!(split_item_id("none"), None);
    assert_eq!(normalize_item_id("/x", None), None);
    assert_eq!(normalize_item_id(" a ", None), Some("a/StatusNotifierItem".to_owned()));
}

#[test]
fn watcher_keeps_each_item_once() {
    let mut mirror = WatcherMirror::new();
    assert!(mirror.insert("a/x".to_owned()));
    assert!(!mirror.insert("a/x".to_owned()));
    assert!(mirror.insert("b/x".to_owned()));
    assert!(mirror.insert("a/y".to_owned()));
    assert_eq!(
        mirror.remove_service("a"),
        vec!["a/x".to_owned(), "a/y".to_owned()]
    );
    assert!(mirror.remove_item("b/x"));
    assert!(!mirror.remove_item("b/x"));
    assert!(mirror.items.is_empty());
}

#[test]
fn watcher_calls_are_answered() {
    let mut mirror = WatcherMirror::new();
    let outcome = watcher_call(
        &mut mirror,
        "RegisterStatusNotifierItem",
        Some("/Item"),
        Some(":1.7"),
    );
    assert!(matches!(outcome.reply, WatcherReply::Done));
    assert_eq!(outcome.registered.as_deref(), Some(":1.7/Item"));
    let outcome = watcher_call(
        &mut mirror,
        "RegisterStatusNotifierItem",
        Some("/Item"),
        Some(":1.7"),
    );
    assert_eq!(outcome.registered, None);
    let outcome = watcher_call(&mut mirror, "RegisterStatusNotifierItem", None, None);
    assert!(matches!(
        outcome.reply,
        WatcherReply::Refused { name: "org.freedesktop.DBus.Error.InvalidArgs", message }
            if message == "Expected one service or object path"
    ));
    let outcome = watcher_call(&mut mirror, "RegisterStatusNotifierItem", Some(" "), None);
    assert!(matches!(
        outcome.reply,
        WatcherReply::Refused { message: "Invalid StatusNotifierItem identifier", .. }
    ));
    assert!(watcher_call(&mut mirror, "RegisterStatusNotifierHost", None, None).host_registered);
    assert!(!watcher_call(&mut mirror, "RegisterStatusNotifierHost", None, None).host_registered);
    let outcome = watcher_call(&mut mirror, "Other", None, None);
    assert!(matches!(
        outcome.reply,
        WatcherReply::Refused { name: "org.freedesktop.DBus.Error.UnknownMethod", .. }
    ));
    assert!(name_is_ours(Some(1)));
    assert!(name_is_ours(Some(4)));
    assert!(!name_is_ours(Some(3)));
    assert!(!name_is_ours(None));
}

#[test]
fn tray_items_come_and_go() {
    let mut tray = TrayState::new();
    let request = tray.insert_item("a").unwrap();
    assert_eq!(request.request_id, 1);
    assert_eq!(request.canonical, "a/StatusNotifierItem");
    assert_eq!(request.service, "a");
    assert_eq!(request.path, "/StatusNotifierItem");
    assert!(tray.insert_item(" a ").is_none());
    assert_eq!(
        tray.finish_item_registration(9, request.canonical.clone(), "a".to_owned(), true),
        ItemOutcome::Stale
    );
    assert_eq!(
        tray.finish_item_registration(1, request.canonical.clone(), "a".to_owned(), true),
        ItemOutcome::Added
    );
    assert!(tray.insert_item("a").is_none());
    let request = tray.insert_item("b/x").unwrap();
    assert_eq!(request.request_id, 2);
    assert_eq!(
        tray.finish_item_registration(2, "b/x".to_owned(), "b".to_owned(), false),
        ItemOutcome::Failed
    );
    assert!(tray.unregister_item("a"));
    assert!(!tray.unregister_item("a"));
    assert!(tray.items.is_empty());
}

#[test]
fn tray_follows_another_watcher() {
    let mut tray = TrayState::new();
    assert!(tray.has_external_owner(":1.2", Some(":1.2")));
    assert!(!tray.has_external_owner(":1.2", None));
    let (requests, changed) =
        tray.apply_external_snapshot(&vec!["a".to_owned(), "b/x".to_owned(), " a ".to_owned()]);
    assert_eq!(requests.len(), 2);
    assert!(!changed);
    for request in requests {
        tray.finish_item_registration(
            request.request_id,
            request.canonical,
            request.service,
            true,
        );
    }
    let (requests, changed) = tray.apply_external_snapshot(&vec!["b/x".to_owned()]);
    assert!(requests.is_empty());
    assert!(changed);
    assert_eq!(tray.items.len(), 1);
}

#[test]
fn watcher_name_changes_hands() {
    let mut tray = TrayState::new();
    let request = tray.insert_item("a").unwrap();
    tray.finish_item_registration(request.request_id, request.canonical, request.service, true);
    assert_eq!(tray.watcher_name_result(true), WatcherStep::Nothing);
    assert!(tray.mirror.host_registered);
    assert_eq!(tray.mirror.items, vec!["a/StatusNotifierItem".to_owned()]);
    let outcome = tray.name_owner_changed("a", "", Some(":1.1"));
    assert_eq!(outcome.gone, vec!["a/StatusNotifierItem".to_owned()]);
    assert!(outcome.sync_views);
    assert_eq!(outcome.step, WatcherStep::Nothing);
    let outcome = tray.name_owner_changed(WATCHER_SERVICE, ":1.9", Some(":1.1"));
    assert!(!tray.owns_watcher);
    assert!(outcome.drop_external);
    assert_eq!(outcome.step, WatcherStep::AttachExternal);
    let outcome = tray.name_owner_changed(WATCHER_SERVICE, "", Some(":1.1"));
    assert_eq!(outcome.step, WatcherStep::RequestName);
    assert_eq!(tray.watcher_name_result(false), WatcherStep::AttachExternal);
}

#[test]
fn stale_requests_do_not_count() {
    let mut pending = PendingRequests::new();
    let first = pending.start("x");
    let second = pending.start("x");
    assert!(!pending.finish("x", first));
    assert!(pending.finish("x", second));
    assert!(!pending.finish("x", second));
    pending.last_id = u64::MAX;
    assert_eq!(pending.start("y"), 1);
}

fn pixmap(width: i32, height: i32, bytes: usize) -> Pixmap {
    Pixmap {
        width,
        height,
        bytes: (0..bytes).map(|byte| byte as u8).collect(),
    }
}

#[test]
fn best_picture_becomes_the_icon() {
    let image = icon_from_pixmaps(&vec![
        pixmap(16, 16, 1024),
        pixmap(64, 64, 64 * 64 * 4),
        pixmap(20, 20, 1600),
        pixmap(18, 18, 10),
        pixmap(-1, 5, 100),
    ])
    .unwrap();
    assert_eq!(image.width, 20);
    assert_eq!(image.rowstride, 80);
    assert_eq!(image.rgba.len(), 1600);
    assert_eq!(image.rgba[..8], [1, 2, 3, 0, 5, 6, 7, 4]);
    let image = icon_from_pixmaps(&vec![pixmap(8, 4, 128), pixmap(12, 2, 96)]).unwrap();
    assert_eq!(image.width, 12);
    assert!(icon_from_pixmaps(&Vec::new()).is_none());
}

fn item() -> ItemFacts {
    ItemFacts {
        status: None,
        title: Some("".to_owned()),
        id: Some("id".to_owned()),
        service: "svc".to_owned(),
        tooltip: None,
        icon_name: Some("icon".to_owned()),
        icon_pixmaps: None,
        attention_icon_name: None,
        attention_icon_pixmaps: Some(vec![pixmap(1, 1, 4)]),
        icon_theme_path: Some("".to_owned()),
    }
}

#[test]
fn items_show_what_they_have() {
    let snapshot = item().snapshot().unwrap();
    assert_eq!(snapshot.tooltip, "id");
    assert_eq!(snapshot.icon_name.as_deref(), Some("icon"));
    assert_eq!(snapshot.pixmaps, None);
    assert_eq!(snapshot.icon_theme_path, None);
    let mut attention = item();
    attention.status = Some("NeedsAttention".to_owned());
    attention.tooltip = Some(("T".to_owned(), "S".to_owned()));
    let snapshot = attention.snapshot().unwrap();
    assert_eq!(snapshot.tooltip, "T\nS");
    assert_eq!(snapshot.pixmaps, Some(PixmapSource::Attention));
    let mut bare = item();
    bare.icon_name = None;
    assert!(bare.snapshot().is_none());
    assert_eq!(
        tooltip_text(&Some(("".to_owned(), "s".to_owned()))).as_deref(),
        Some("s")
    );
    assert_eq!(tooltip_text(&Some((String::new(), String::new()))), None);
    assert!(signal_asks_refresh("NewIcon"));
    assert!(!signal_asks_refresh("Other"));
}

fn raw(id: i32, children: Vec<RawMenu>) -> RawMenu {
    RawMenu {
        complete: true,
        id: Some(id),
        label: None,
        item_type: None,
        enabled: None,
        visible: None,
        toggle_type: None,
        toggle_state: None,
        icon_name: Some(String::new()),
        children,
    }
}

fn count(node: &obsidian_bar::tray_items::MenuNode) -> usize {
    1 + node.children.iter().map(count).sum::<usize>()
}

#[test]
fn menus_are_read_within_limits() {
    let root = parse_menu_layout(&raw(0, vec![raw(1, Vec::new()), raw(2, Vec::new())])).unwrap();
    assert_eq!(root.children.len(), 2);
    assert_eq!(root.children[1].id, 2);
    assert_eq!(root.item_type, "standard");
    assert!(root.enabled);
    assert_eq!(root.icon_name, None);

    let wide = parse_menu_layout(&raw(0, (0..100).map(|id| raw(id, Vec::new())).collect())).unwrap();
    assert_eq!(wide.children.len(), 64);

    let many = raw(
        0,
        (0..10)
            .map(|_| raw(1, (0..60).map(|id| raw(id, Vec::new())).collect()))
            .collect(),
    );
    assert_eq!(count(&parse_menu_layout(&many).unwrap()), 256);

    let mut deep = raw(99, Vec::new());
    for id in 0..20 {
        deep = raw(id, vec![deep]);
    }
    assert_eq!(count(&parse_menu_layout(&deep).unwrap()), 9);

    let mut broken = raw(5, Vec::new());
    broken.complete = false;
    assert!(parse_menu_layout(&broken).is_none());
    let mut nameless = raw(5, Vec::new());
    nameless.id = None;
    assert!(parse_menu_layout(&nameless).is_none());
}

#[test]
fn menu_entries_are_drawn_by_kind() {
    let mut root = parse_menu_layout(&raw(0, vec![raw(1, Vec::new())])).unwrap();
    assert_eq!(menu_row(&root), MenuRow::Submenu);
    assert_eq!(menu_row(&root.children[0]), MenuRow::Action);
    assert!(has_visible_menu_item(&root.children));
    root.children[0].item_type = "separator".to_owned();
    assert_eq!(menu_row(&root.children[0]), MenuRow::Separator);
    assert!(!has_visible_menu_item(&root.children));
    root.visible = false;
    assert_eq!(menu_row(&root), MenuRow::Hidden);
    assert_eq!(menu_indicator(&root), "");
    root.toggle_state = 1;
    assert_eq!(menu_indicator(&root), "✓");
    root.toggle_type = "radio".to_owned();
    assert_eq!(menu_indicator(&root), "●");
    assert_eq!(normalize_menu_label("plain"), "plain");
    assert_eq!(normalize_menu_label("end_"), "end");
}

#[test]
fn icon_searches_are_bounded() {
    let mut scan = IconScan::new();
    assert!(scan.reads(3));
    assert!(!scan.reads(4));
    for _ in 0..512 {
        assert!(scan.inspect());
    }
    assert!(!scan.inspect());
    assert!(!scan.reads(0));
    assert_eq!(IconScan::entry(2, true, false, Some("app"), "app"), EntryStep::Descend);
    assert_eq!(IconScan::entry(3, true, false, Some("app"), "app"), EntryStep::Skip);
    assert_eq!(IconScan::entry(3, false, true, Some("app"), "app"), EntryStep::Hit);
    assert_eq!(IconScan::entry(3, false, true, Some("apps"), "app"), EntryStep::Skip);
    assert_eq!(IconScan::entry(0, false, true, None, "app"), EntryStep::Skip);
    assert_eq!(
        icon_lookup(IconMemory::Missing { age: 29_999 }),
        IconLookup::GiveUp
    );
    assert_eq!(
        icon_lookup(IconMemory::Missing { age: 30_000 }),
        IconLookup::Search
    );
    assert_eq!(
        icon_lookup(IconMemory::Found { still_there: true }),
        IconLookup::UseFound
    );
    assert_eq!(
        icon_lookup(IconMemory::Found { still_there: false }),
        IconLookup::Search
    );
    assert_eq!(icon_lookup(IconMemory::Unknown), IconLookup::Search);
}

#[test]
fn interfaces_name_their_arguments() {
    assert_eq!(WATCHER_XML.matches("name=\"service\"").count(), 4);
    assert_eq!(AGENT_XML.matches("name=\"device\"").count(), 7);
    assert!(AGENT_XML.contains("<arg type=\"q\" direction=\"in\" name=\"entered\" />"));
}
