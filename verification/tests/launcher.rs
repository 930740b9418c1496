use obsidian_bar::launcher::{
    catalog_app, classify_category, desktop_values, favorites_layout, grid_is_current,
    grid_rows, keys_from_list, normalize_fields, normalize_text, retain_known_keys, row_icons, sort_apps,
    state_keys_from_json, state_keys_to_json, AppFacts, CatalogState, FavoritesLayout,
    LaunchableApp, LauncherCategory, LauncherStateKind, LauncherUserState, LauncherView,
    LauncherViewTransition, LayoutChange,
};
use obsidian_bar::paths::{
    desktop_application_dirs, desktop_watch_matches, desktop_watches, directory_watches,
    distinct_paths,
    follow_link, nearest_missing_component, normalize_path, same_path, DesktopPlaces,
    DirectoryFacts, LinkFacts, PathPart, PathState, PathWalk, WatchPlace,
    MAX_LINK_DEPTH,
};
use obsidian_bar::text_set::TextSet;

#[test]
fn normalizes_search_fields_without_intermediate_separators() {
    assert_eq!(
        normalize_fields(&vec![
            "  Foo\tBAR ".to_owned(),
            "".to_owned(),
            " Baz  qux ".to_owned()
        ]),
        "foo bar baz qux"
    );
}

#[test]
fn category_priority_is_stable() {
    let categories = vec!["Network".to_owned(), "Game".to_owned()];
    assert_eq!(
        classify_category(&categories),
        Some(LauncherCategory::Games)
    );
}

#[test]
fn every_filterable_category_has_a_button_and_stable_index() {
    assert_eq!(
        LauncherCategory::buttons(),
        [
            LauncherCategory::Favorites,
            LauncherCategory::All,
            LauncherCategory::Internet,
            LauncherCategory::Media,
            LauncherCategory::Office,
            LauncherCategory::Games,
            LauncherCategory::System,
        ]
    );

    for (index, category) in LauncherCategory::buttons().into_iter().enumerate() {
        assert_eq!(category.index(), index);
    }
}

#[test]
fn pruning_reports_only_real_changes() {
    let mut keys = TextSet::new();
    keys.insert("keep".to_owned());
    keys.insert("drop".to_owned());
    let mut valid = TextSet::new();
    valid.insert("keep".to_owned());
    assert!(retain_known_keys(&mut keys, &valid));
    assert_eq!(keys.items, vec!["keep".to_owned()]);
    assert!(!retain_known_keys(&mut keys, &valid));
}

#[test]
fn ascii_searches_ignore_case() {
    assert_eq!(normalize_text("  Web\tBROWSER "), "web browser");
    assert_eq!(normalize_text("WEB browser"), normalize_text("web Browser"));
}

#[test]
fn search_text_is_lowered_by_character() {
    assert_eq!(normalize_text("  ÄPFEL und\u{a0}BIRNEN "), "äpfel und birnen");
    assert_eq!(normalize_text("   "), "");
    assert_eq!(
        desktop_values("Network; ;Web Browser ;;"),
        vec!["Network".to_owned(), "Web Browser".to_owned()]
    );
    assert_eq!(classify_category(&vec!["GTK".to_owned()]), None);
    assert_eq!(
        classify_category(&vec!["utility".to_owned()]),
        Some(LauncherCategory::System)
    );
}

fn facts(name: &str, id: Option<&str>) -> AppFacts {
    AppFacts {
        should_show: true,
        display_name: name.to_owned(),
        id: id.map(str::to_owned),
        executable: " run ".to_owned(),
        description: Some("  ".to_owned()),
        categories: vec!["Game".to_owned()],
        keywords: "Play FUN".to_owned(),
    }
}

#[test]
fn catalog_takes_each_key_once() {
    let mut keys = TextSet::new();
    let app = catalog_app(&facts(" Chess ", Some("chess.desktop")), 4, &mut keys).unwrap();
    assert_eq!(app.key, "id:chess.desktop");
    assert_eq!(app.name, "Chess");
    assert_eq!(app.meta, "run");
    assert_eq!(app.search_blob, "chess run play fun chess.desktop game");
    assert_eq!(app.primary_category, Some(LauncherCategory::Games));
    assert_eq!(app.source, 4);
    assert!(catalog_app(&facts("Chess", Some("chess.desktop")), 5, &mut keys).is_none());
    let plain = catalog_app(&facts("Go", None), 6, &mut keys).unwrap();
    assert_eq!(plain.key, "fallback:run::Go");
    let mut hidden = facts("X", None);
    hidden.should_show = false;
    assert!(catalog_app(&hidden, 7, &mut keys).is_none());
    assert!(catalog_app(&facts("  ", None), 8, &mut keys).is_none());
    assert_eq!(keys.items.len(), 2);
    let sorted = sort_apps(vec![plain, app]);
    assert_eq!(sorted[0].name, "Chess");
}

fn app(key: &str, category: Option<LauncherCategory>) -> LaunchableApp {
    LaunchableApp {
        key: key.to_owned(),
        name: key.to_owned(),
        meta: String::new(),
        primary_category: category,
        search_blob: format!("{key} blob"),
        source: 0,
    }
}

fn state(hidden: &[&str], favorites: &[&str]) -> LauncherUserState {
    let list = |items: &[&str]| {
        let items: Vec<String> = items.iter().map(|item| item.to_string()).collect();
        keys_from_list(&items)
    };
    LauncherUserState {
        hidden: list(hidden),
        favorites: list(favorites),
    }
}

#[test]
fn launcher_views_filter_applications() {
    let apps = vec![
        app("a", Some(LauncherCategory::Games)),
        app("b", None),
        app("c", Some(LauncherCategory::Office)),
    ];
    let state = state(&["c"], &["b"]);
    let mut view = LauncherView {
        show_hidden: false,
        category: LauncherCategory::All,
    };
    assert_eq!(view.visible_rows(&apps, "", &state), vec![0, 1]);
    assert_eq!(view.visible_rows(&apps, "c blob", &state), vec![2]);
    view.category = LauncherCategory::Office;
    assert!(view.visible_rows(&apps, "", &state).is_empty());
    view.category = LauncherCategory::Favorites;
    assert_eq!(view.visible_rows(&apps, "", &state), vec![1]);
    assert!(view.is_favorites_view(false));
    assert!(!view.is_favorites_view(true));
    view.show_hidden = true;
    assert_eq!(view.visible_rows(&apps, "", &state), vec![2]);
    assert!(view.visible_rows(&apps, "zzz", &state).is_empty());
    assert_eq!(view.header(1, false, 1).title, "Hidden applications 1");
    assert_eq!(view.header(1, false, 1).toggle_tooltip, "Back to applications");
    view.show_hidden = false;
    assert_eq!(view.header(3, true, 0).title, "Search results 3");
    assert!(!view.header(3, true, 0).toggle_visible);
    assert_eq!(view.header(2, false, 0).title, "Favorites 2");
    view.category = LauncherCategory::Internet;
    assert_eq!(view.header(2, false, 0).title, "Web 2");
    assert_eq!(view.empty_text(), "Nothing found");
}

#[test]
fn category_clicks_choose_the_transition() {
    let mut view = LauncherView {
        show_hidden: false,
        category: LauncherCategory::All,
    };
    assert!(view.click_category(LauncherCategory::All, false).is_none());
    let click = view.click_category(LauncherCategory::Games, false).unwrap();
    assert_eq!(
        click.transition,
        Some(LauncherViewTransition::CategoryForward)
    );
    assert!(!click.clear_search);
    let click = view.click_category(LauncherCategory::Media, true).unwrap();
    assert_eq!(click.transition, Some(LauncherViewTransition::CategoryBack));
    assert!(click.clear_search);
    let click = view.click_category(LauncherCategory::Media, true).unwrap();
    assert_eq!(click.transition, None);
    view.show_hidden = true;
    let click = view.click_category(LauncherCategory::Media, false).unwrap();
    assert_eq!(
        click.transition.map(|transition| transition.css_class()),
        Some("launcher-view-hidden-back")
    );
    assert!(!view.show_hidden);
}

#[test]
fn user_state_is_toggled_and_pruned() {
    let mut state = state(&["a"], &["b"]);
    assert_eq!(state.default_category(), LauncherCategory::Favorites);
    state.toggle_state_key(LauncherStateKind::Favorite, "b");
    assert_eq!(state.default_category(), LauncherCategory::All);
    state.toggle_state_key(LauncherStateKind::Favorite, "b");
    assert!(state.favorites.contains("b"));
    state.toggle_state_key(LauncherStateKind::Hidden, "c");
    assert_eq!(state.hidden.items, vec!["a".to_owned(), "c".to_owned()]);
    let empty = TextSet::new();
    assert_eq!(state.prune(true, &empty), (false, false));
    let mut valid = TextSet::new();
    valid.insert("b".to_owned());
    assert_eq!(state.prune(false, &valid), (false, false));
    assert_eq!(state.prune(true, &valid), (true, false));
    assert!(state.hidden.is_empty());
    let mut view = LauncherView {
        show_hidden: true,
        category: LauncherCategory::Favorites,
    };
    view.ensure_valid_category(&state);
    assert_eq!(view.category, LauncherCategory::Favorites);
    state.toggle_state_key(LauncherStateKind::Favorite, "b");
    view.ensure_valid_category(&state);
    assert_eq!(view.category, LauncherCategory::All);
    view.reset(&state);
    assert!(!view.show_hidden);
    assert_eq!(
        LauncherStateKind::Hidden.file_name(),
        "hidden-launcher-apps.json"
    );
}

#[test]
fn launcher_keys_are_stored_and_read_back() {
    let keys = keys_from_list(&vec![" b ".to_owned(), "".to_owned(), "a".to_owned()]);
    let text = state_keys_to_json(&keys).unwrap();
    assert_eq!(text, "[\"a\",\"b\"]");
    assert_eq!(state_keys_from_json(&text).items, keys.items);
    assert!(state_keys_from_json("{\"a\":1}").is_empty());
}

#[test]
fn catalog_refreshes_coalesce() {
    let mut catalog = CatalogState::new();
    let empty = TextSet::new();
    assert!(catalog.is_stale(&empty, &empty));
    assert!(catalog.schedule_refresh());
    assert!(!catalog.schedule_refresh());
    assert!(!catalog.is_stale(&empty, &empty));
    assert!(catalog.apply_refresh());
    assert!(!catalog.is_stale(&empty, &empty));
    let mut one = TextSet::new();
    one.insert("x".to_owned());
    assert!(catalog.is_stale(&empty, &one));
    assert!(catalog.schedule_refresh());
    assert!(!catalog.apply_refresh());
}

#[test]
fn favorites_share_the_width() {
    assert_eq!(favorites_layout(true), (392, 42));
    assert_eq!(favorites_layout(false), (350, 0));
    let apps = vec![app("a", None), app("b", None)];
    assert!(grid_is_current(&vec!["b".to_owned()], &apps, &vec![1]));
    assert!(!grid_is_current(&vec!["a".to_owned()], &apps, &vec![1]));
    assert!(!grid_is_current(&Vec::new(), &apps, &vec![1]));
}

#[test]
fn hidden_view_is_toggled() {
    let mut view = LauncherView {
        show_hidden: false,
        category: LauncherCategory::Media,
    };
    assert_eq!(view.toggle_hidden(), LauncherViewTransition::HiddenForward);
    assert!(view.show_hidden);
    assert_eq!(view.toggle_hidden(), LauncherViewTransition::HiddenBack);
    assert_eq!(view.category, LauncherCategory::Media);
    let user = state(&["a"], &["b"]);
    assert_eq!(row_icons(&user, "a"), ("\u{f04d2}", "\u{f05e1}"));
    assert_eq!(row_icons(&user, "b"), ("\u{f04ce}", "\u{f06d1}"));
}

#[test]
fn stored_keys_are_toggled_in_their_own_file() {
    let kind = LauncherStateKind::Favorite;
    let (user, document) =
        LauncherUserState::toggle_stored(Some("[\"h\"]"), Some("[\" a \", \"\"]"), kind, "b");
    assert!(user.hidden.contains("h"));
    assert!(user.favorites.contains("a") && user.favorites.contains("b"));
    let document = document.unwrap();
    assert_eq!(document, "[\"a\",\"b\"]");
    let (user, again) =
        LauncherUserState::toggle_stored(None, Some(&document), kind, "b");
    assert!(user.hidden.is_empty());
    assert_eq!(again.unwrap(), "[\"a\"]");
    let user = LauncherUserState::read(Some("no list"), None);
    assert!(user.hidden.is_empty() && user.favorites.is_empty());
}

#[test]
fn favorites_come_and_go_in_frames() {
    let mut layout = FavoritesLayout::new(false);
    assert_eq!(layout.sync(false, true), LayoutChange::Keep);
    assert_eq!(layout.sync(true, true), LayoutChange::Glide { token: 1 });
    assert!(layout.slot_visible);
    assert_eq!((layout.popup_width, layout.slot_width), (350, 0));
    assert!(layout.frame(1, 360, 10, false));
    assert_eq!((layout.popup_width, layout.slot_width), (360, 10));
    assert_eq!(layout.sync(false, true), LayoutChange::Glide { token: 2 });
    assert!(!layout.frame(1, 370, 20, false));
    assert_eq!(layout.popup_width, 360);
    assert!(!layout.frame(2, 351, 1, true));
    assert_eq!(layout.popup_width, 350);
    assert!(!layout.slot_visible);
    assert_eq!(layout.sync(true, false), LayoutChange::Jump);
    assert_eq!((layout.popup_width, layout.slot_width), (392, 42));
    assert_eq!(
        grid_rows(&vec![9, 8, 7, 6, 5, 4, 3]),
        vec![vec![9, 8, 7, 6, 5], vec![4, 3]]
    );
    assert!(grid_rows(&Vec::new()).is_empty());
}

fn path(text: &str) -> Vec<PathPart> {
    let mut parts = Vec::new();
    if text.starts_with('/') {
        parts.push(PathPart::Root);
    }
    for part in text.split('/').filter(|part| !part.is_empty()) {
        parts.push(match part {
            "." => PathPart::Current,
            ".." => PathPart::Parent,
            name => PathPart::Name(name.as_bytes().to_vec()),
        });
    }
    parts
}

#[test]
fn paths_are_normalized() {
    assert!(same_path(
        &normalize_path(&path("/usr/./share/../lib")),
        &path("/usr/lib")
    ));
    assert!(same_path(&normalize_path(&path("/../x")), &path("/x")));
    assert!(same_path(&normalize_path(&path("../x")), &path("x")));
    assert!(!same_path(&path("/x"), &path("x")));
    assert!(same_path(
        &follow_link(&path("/a/link"), &path("../b"), &path("c/d")),
        &path("/b/c/d")
    ));
    assert!(same_path(
        &follow_link(&path("/a/link"), &path("/z"), &path("c")),
        &path("/z/c")
    ));
}

#[test]
fn watches_follow_links_and_are_set_up_once() {
    let facts = |is_directory: bool, parent: Option<&str>| DirectoryFacts {
        is_directory,
        missing: None,
        parent: parent.map(path),
    };
    let place = || WatchPlace {
        path: path("/a/apps"),
        facts: facts(true, Some("/a")),
        links: vec![(path("/a/apps"), true), (path("/x/y"), false), (path("/"), true)],
        resolved: path("/b/apps"),
        resolved_facts: facts(true, None),
    };
    let watches = desktop_watches(&vec![place(), place()]);
    let shown: Vec<(String, Option<String>)> = watches
        .iter()
        .map(|watch| (text(&watch.directory), watch.exact_path.as_deref().map(text)))
        .collect();
    assert_eq!(
        shown,
        vec![
            ("/a/apps".to_owned(), None),
            ("/a".to_owned(), Some("/a/apps".to_owned())),
            ("/b/apps".to_owned(), None),
        ]
    );
    let mut same = place();
    same.resolved = path("/a/apps");
    same.links.clear();
    assert_eq!(desktop_watches(&vec![same]).len(), 2);
}

#[test]
fn watches_match_their_path() {
    let exact = Some(path("/data/applications"));
    assert!(desktop_watch_matches(&None, &None, &None));
    assert!(desktop_watch_matches(&exact, &None, &None));
    assert!(desktop_watch_matches(
        &exact,
        &Some(path("/data/./applications")),
        &None
    ));
    assert!(!desktop_watch_matches(&exact, &Some(path("/data/x")), &None));
    assert!(desktop_watch_matches(
        &exact,
        &Some(path("/data/x")),
        &Some(path("/data/applications"))
    ));
    let watches = directory_watches(
        &path("/data/applications"),
        &DirectoryFacts {
            is_directory: true,
            missing: None,
            parent: Some(path("/data")),
        },
    );
    assert_eq!(watches.len(), 2);
    assert!(watches[0].exact_path.is_none());
    assert!(same_path(&watches[1].directory, &path("/data")));
    assert_eq!(
        distinct_paths(&vec![path("/a"), path("/b/.."), path("/a/."), path("/")]),
        vec![0, 1]
    );
}

fn text(path: &[PathPart]) -> String {
    let parts: Vec<String> = path
        .iter()
        .map(|part| match part {
            PathPart::Root => String::new(),
            PathPart::Current => ".".to_owned(),
            PathPart::Parent => "..".to_owned(),
            PathPart::Name(name) => String::from_utf8_lossy(name).into_owned(),
        })
        .collect();
    parts.join("/")
}

#[test]
fn desktop_entries_are_sought_in_order() {
    let dirs = desktop_application_dirs(&DesktopPlaces {
        data_home: None,
        home: Some(path("/home/me")),
        data_dirs: None,
        user: Some(path("me")),
    });
    let found: Vec<String> = dirs.iter().map(|dir| text(dir)).collect();
    assert_eq!(
        found,
        vec![
            "/home/me/.local/share/applications",
            "/usr/local/share/applications",
            "/usr/share/applications",
            "/home/me/.nix-profile/share/applications",
            "/home/me/.local/share/flatpak/exports/share/applications",
            "/etc/profiles/per-user/me/share/applications",
            "/run/current-system/sw/share/applications",
            "/var/lib/flatpak/exports/share/applications",
        ]
    );
    let dirs = desktop_application_dirs(&DesktopPlaces {
        data_home: Some(path("/data/../data")),
        home: None,
        data_dirs: Some(vec![path("/data"), path("/run/current-system/sw/share")]),
        user: None,
    });
    let found: Vec<String> = dirs.iter().map(|dir| text(dir)).collect();
    assert_eq!(
        found,
        vec![
            "/data/applications",
            "/run/current-system/sw/share/applications",
            "/var/lib/flatpak/exports/share/applications",
        ]
    );
}

#[test]
fn missing_parts_are_watched_from_above() {
    let state = |exists: bool, is_directory: bool| PathState {
        exists,
        is_directory,
    };
    let states = vec![
        state(false, false),
        state(false, false),
        state(true, true),
        state(true, true),
    ];
    let (directory, missing) =
        nearest_missing_component(&path("/a/b/c"), &states).unwrap();
    assert_eq!(text(&directory), "/a");
    assert_eq!(text(&missing), "/a/b");
    assert!(nearest_missing_component(&path("/a"), &vec![state(true, true); 2]).is_none());
    assert!(nearest_missing_component(&path("/"), &vec![state(false, false); 2]).is_none());
    assert!(nearest_missing_component(&path("/a/b"), &vec![state(false, false); 3]).is_none());
}

#[test]
fn links_are_followed_to_their_end() {
    let mut walk = PathWalk::new(path("/a/link/c"));
    while walk.advance() {
        let here = text(&walk.resolved);
        walk.answer(match here.as_str() {
            "/a/link" => LinkFacts::Target(path("../other")),
            "/other/c" => LinkFacts::Unreadable,
            _ => LinkFacts::NoLink,
        });
    }
    assert_eq!(text(&walk.resolved), "/other/c");
    let links: Vec<String> = walk.links.iter().map(|link| text(link)).collect();
    assert_eq!(links, vec!["/a/link", "/other/c"]);

    let mut looping = PathWalk::new(path("/x/y"));
    while looping.advance() {
        let looks = text(&looping.resolved) == "/x";
        looping.answer(if looks {
            LinkFacts::Target(path("/x"))
        } else {
            LinkFacts::NoLink
        });
    }
    assert_eq!(text(&looping.resolved), "/x/y");
    assert_eq!(looping.links.len(), usize::from(MAX_LINK_DEPTH));
}
