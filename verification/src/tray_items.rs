//! Icons and menus of status items, and the calls of the watcher.
use crate::text::{
    begins_with, chars_of, concat3, ends_with, opt_is, opt_str, opt_text, or_empty, parts_show,
    same, text_or_empty, texts, trimmed,
};
use crate::tray::{
    canonical_id, first_slash, normalize_item_id, ICON_NEGATIVE_CACHE_TTL_MS, ICON_SCAN_MAX_DEPTH,
    ICON_SCAN_MAX_ENTRIES, ICON_SIZE, INVALID_ARGS, MENU_MAX_CHILDREN, MENU_MAX_DEPTH,
    MENU_MAX_NODES, UNKNOWN_METHOD, WatcherMirror,
};
use vstd::prelude::*;

verus! {

/// A picture as a status item sends it: four bytes for each pixel, opacity first.
#[derive(Clone, Debug, PartialEq, Eq)]
pub struct Pixmap {
    pub width: i32,
    pub height: i32,
    pub bytes: Vec<u8>,
}

/// What a status item says of itself.
#[derive(Clone, Debug, PartialEq, Eq)]
pub struct ItemFacts {
    pub status: Option<String>,
    pub title: Option<String>,
    pub id: Option<String>,
    pub service: String,
    /// The title and the text of the tooltip.
    pub tooltip: Option<(String, String)>,
    pub icon_name: Option<String>,
    pub icon_pixmaps: Option<Vec<Pixmap>>,
    pub attention_icon_name: Option<String>,
    pub attention_icon_pixmaps: Option<Vec<Pixmap>>,
    pub icon_theme_path: Option<String>,
}

/// Where the picture of an item comes from.
#[derive(Clone, Copy, Debug, PartialEq, Eq, Structural)]
pub enum PixmapSource {
    Normal,
    Attention,
}

/// What the button of an item shows.
#[derive(Clone, Debug, PartialEq, Eq)]
pub struct TraySnapshot {
    pub tooltip: String,
    pub icon_name: Option<String>,
    /// Which of the item's pictures to show, where it has no icon's name.
    pub pixmaps: Option<PixmapSource>,
    pub icon_theme_path: Option<String>,
}

/// A text that is there and not empty.
pub open spec fn some_text(value: Option<String>) -> Option<Seq<char>> {
    match value {
        Some(text) => if text@.len() > 0 {
            Some(text@)
        } else {
            None
        },
        None => None,
    }
}

fn filled(value: &Option<String>) -> (r: Option<String>)
    ensures
        opt_text(r) == some_text(*value),
{
    match value {
        Some(text) => if text.as_str().is_empty() {
            None
        } else {
            Some(text.clone())
        },
        None => None,
    }
}

/// The text of a tooltip: its title and text, each where there is one.
pub open spec fn tooltip_of(tooltip: Option<(String, String)>) -> Option<Seq<char>> {
    match tooltip {
        Some((title, text)) => if title@.len() > 0 && text@.len() > 0 {
            Some(title@ + "\n"@ + text@)
        } else if title@.len() > 0 {
            Some(title@)
        } else if text@.len() > 0 {
            Some(text@)
        } else {
            None
        },
        None => None,
    }
}

pub fn tooltip_text(tooltip: &Option<(String, String)>) -> (r: Option<String>)
    ensures
        opt_text(r) == tooltip_of(*tooltip),
{
    match tooltip {
        Some((title, text)) => {
            let has_title = !title.as_str().is_empty();
            let has_text = !text.as_str().is_empty();
            if has_title && has_text {
                Some(concat3(title, "\n", text))
            } else if has_title {
                Some(title.clone())
            } else if has_text {
                Some(text.clone())
            } else {
                None
            }
        },
        None => None,
    }
}

pub open spec fn has_pixmaps(pixmaps: Option<Vec<Pixmap>>) -> bool {
    pixmaps matches Some(list) && list@.len() > 0
}

impl ItemFacts {
    pub open spec fn wants_attention(&self) -> bool {
        opt_text(self.status) == Some("NeedsAttention"@)
    }

    pub open spec fn shown_icon(&self) -> Option<Seq<char>> {
        if self.wants_attention() {
            some_text(self.attention_icon_name)
        } else {
            some_text(self.icon_name)
        }
    }

    pub open spec fn shown_pixmaps(&self) -> Option<PixmapSource> {
        if self.shown_icon() is Some {
            None
        } else if self.wants_attention() {
            if has_pixmaps(self.attention_icon_pixmaps) {
                Some(PixmapSource::Attention)
            } else {
                None
            }
        } else {
            if has_pixmaps(self.icon_pixmaps) {
                Some(PixmapSource::Normal)
            } else {
                None
            }
        }
    }

    /// The title of the item: its own, else its id, else its service.
    pub open spec fn shown_title(&self) -> Seq<char> {
        if some_text(self.title) is Some {
            self.title->0@
        } else if self.id is Some {
            self.id->0@
        } else {
            self.service@
        }
    }

    /// What the button of the item shows; nothing where the item has no picture.
    pub fn snapshot(&self) -> (r: Option<TraySnapshot>)
        ensures
            match r {
                Some(snapshot) => {
                    &&& self.shown_icon() is Some || self.shown_pixmaps() is Some
                    &&& snapshot.tooltip@ == (match tooltip_of(self.tooltip) {
                        Some(text) => text,
                        None => self.shown_title(),
                    })
                    &&& opt_text(snapshot.icon_name) == self.shown_icon()
                    &&& snapshot.pixmaps == self.shown_pixmaps()
                    &&& opt_text(snapshot.icon_theme_path) == some_text(self.icon_theme_path)
                },
                None => self.shown_icon() is None && self.shown_pixmaps() is None,
            },
    {
        let attention = match &self.status {
            Some(status) => same(status, "NeedsAttention"),
            None => false,
        };
        let icon_name = if attention {
            filled(&self.attention_icon_name)
        } else {
            filled(&self.icon_name)
        };
        let list = if attention {
            &self.attention_icon_pixmaps
        } else {
            &self.icon_pixmaps
        };
        let pictured = match list {
            Some(list) => !list.is_empty(),
            None => false,
        };
        let pixmaps = if icon_name.is_some() || !pictured {
            None
        } else if attention {
            Some(PixmapSource::Attention)
        } else {
            Some(PixmapSource::Normal)
        };
        if icon_name.is_none() && pixmaps.is_none() {
            return None;
        }
        let tooltip = match tooltip_text(&self.tooltip) {
            Some(text) => text,
            None => match filled(&self.title) {
                Some(title) => title,
                None => match &self.id {
                    Some(id) => id.clone(),
                    None => self.service.clone(),
                },
            },
        };
        Some(
            TraySnapshot { tooltip, icon_name, pixmaps, icon_theme_path: filled(&self.icon_theme_path) },
        )
    }
}

/// How many pixels a picture has.
pub open spec fn pixel_count(pixmap: Pixmap) -> int {
    pixmap.width * pixmap.height
}

/// Whether a picture has the pixels that its size promises.
pub open spec fn is_usable(pixmap: Pixmap) -> bool {
    &&& pixmap.width > 0
    &&& pixmap.height > 0
    &&& pixel_count(pixmap) * 4 <= usize::MAX
    &&& pixel_count(pixmap) * 4 <= pixmap.bytes@.len()
}

/// How far a picture is from the size wanted; larger ones come before smaller ones.
pub open spec fn misfit(pixmap: Pixmap) -> (int, int) {
    let edge = if pixmap.width > pixmap.height {
        pixmap.width
    } else {
        pixmap.height
    };
    if edge >= ICON_SIZE {
        (0, edge - ICON_SIZE)
    } else {
        (1, ICON_SIZE - edge)
    }
}

pub open spec fn fits_no_worse(a: Pixmap, b: Pixmap) -> bool {
    misfit(a).0 < misfit(b).0 || (misfit(a).0 == misfit(b).0 && misfit(a).1 <= misfit(b).1)
}

/// Whether picture `i` is the first of those that fit best.
pub open spec fn best_pixmap(pixmaps: Seq<Pixmap>, i: int) -> bool {
    &&& 0 <= i < pixmaps.len()
    &&& is_usable(pixmaps[i])
    &&& forall|j: int|
        0 <= j < pixmaps.len() && is_usable(#[trigger] pixmaps[j]) ==> fits_no_worse(
            pixmaps[i],
            pixmaps[j],
        )
    &&& forall|j: int|
        0 <= j < i && is_usable(#[trigger] pixmaps[j]) ==> !fits_no_worse(pixmaps[j], pixmaps[i])
}

fn usable_pixels(pixmap: &Pixmap) -> (r: Option<usize>)
    ensures
        match r {
            Some(n) => is_usable(*pixmap) && n == pixel_count(*pixmap),
            None => !is_usable(*pixmap),
        },
{
    if pixmap.width <= 0 || pixmap.height <= 0 {
        return None;
    }
    let width: usize = pixmap.width as usize;
    let height: usize = pixmap.height as usize;
    assert(pixmap.width * pixmap.height >= 0) by (nonlinear_arith)
        requires
            pixmap.width > 0,
            pixmap.height > 0,
    ;
    match width.checked_mul(height) {
        Some(pixels) => match pixels.checked_mul(4) {
            Some(size) => if pixmap.bytes.len() >= size {
                Some(pixels)
            } else {
                None
            },
            None => None,
        },
        None => None,
    }
}

fn not_worse(a: &Pixmap, b: &Pixmap) -> (r: bool)
    requires
        is_usable(*a),
        is_usable(*b),
    ensures
        r == fits_no_worse(*a, *b),
{
    let edge_a: i32 = if a.width > a.height {
        a.width
    } else {
        a.height
    };
    let edge_b: i32 = if b.width > b.height {
        b.width
    } else {
        b.height
    };
    if edge_a >= ICON_SIZE {
        edge_b < ICON_SIZE || edge_a <= edge_b
    } else {
        edge_b < ICON_SIZE && edge_a >= edge_b
    }
}

/// A picture with its colours first and its opacity last.
#[derive(Clone, Debug, PartialEq, Eq)]
pub struct IconImage {
    pub width: i32,
    pub height: i32,
    /// How many bytes a row takes.
    pub rowstride: i32,
    pub rgba: Vec<u8>,
}

/// The bytes of the first `n` pixels with the opacity behind the colours.
pub open spec fn opacity_last(bytes: Seq<u8>, n: nat) -> Seq<u8> {
    Seq::new(4 * n, |k: int| bytes[4 * (k / 4) + (k % 4 + 1) % 4])
}

fn swap_opacity(bytes: &Vec<u8>, pixels: usize) -> (r: Vec<u8>)
    requires
        pixels * 4 <= bytes@.len(),
    ensures
        r@ == opacity_last(bytes@, pixels as nat),
{
    let size: usize = bytes.len();
    let mut out: Vec<u8> = Vec::new();
    let mut i: usize = 0;
    while i < pixels
        invariant
            i <= pixels,
            size == bytes@.len(),
            pixels * 4 <= size,
            out@ =~= opacity_last(bytes@, i as nat),
        decreases pixels - i,
    {
        let at: usize = 4 * i;
        out.push(bytes[at + 1]);
        out.push(bytes[at + 2]);
        out.push(bytes[at + 3]);
        out.push(bytes[at]);
        i = i + 1;
    }
    out
}

/// Makes the picture of the icon out of the one that fits best; nothing where none is usable or
/// a row of it would be too long.
pub fn icon_from_pixmaps(pixmaps: &Vec<Pixmap>) -> (r: Option<IconImage>)
    ensures
        match r {
            Some(image) => exists|i: int|
                {
                    &&& #[trigger] best_pixmap(pixmaps@, i)
                    &&& image.width == pixmaps@[i].width
                    &&& image.height == pixmaps@[i].height
                    &&& image.rowstride == 4 * pixmaps@[i].width
                    &&& image.rgba@ == opacity_last(
                        pixmaps@[i].bytes@,
                        pixel_count(pixmaps@[i]) as nat,
                    )
                },
            None => (forall|i: int|
                0 <= i < pixmaps@.len() ==> !is_usable(#[trigger] pixmaps@[i])) || exists|i: int|
                #[trigger] best_pixmap(pixmaps@, i) && 4 * pixmaps@[i].width > i32::MAX,
        },
{
    let mut best: Option<(usize, usize)> = None;
    let mut i: usize = 0;
    while i < pixmaps.len()
        invariant
            i <= pixmaps@.len(),
            match best {
                Some((b, n)) => {
                    &&& b < i
                    &&& is_usable(pixmaps@[b as int])
                    &&& n == pixel_count(pixmaps@[b as int])
                    &&& forall|j: int|
                        0 <= j < i && is_usable(#[trigger] pixmaps@[j]) ==> fits_no_worse(
                            pixmaps@[b as int],
                            pixmaps@[j],
                        )
                    &&& forall|j: int|
                        0 <= j < b && is_usable(#[trigger] pixmaps@[j]) ==> !fits_no_worse(
                            pixmaps@[j],
                            pixmaps@[b as int],
                        )
                },
                None => forall|j: int| 0 <= j < i ==> !is_usable(#[trigger] pixmaps@[j]),
            },
        decreases pixmaps@.len() - i,
    {
        if let Some(n) = usable_pixels(&pixmaps[i]) {
            match best {
                Some((b, _)) => {
                    if !not_worse(&pixmaps[b], &pixmaps[i]) {
                        best = Some((i, n));
                    }
                },
                None => {
                    best = Some((i, n));
                },
            }
        }
        i = i + 1;
    }
    match best {
        Some((b, n)) => {
            assert(best_pixmap(pixmaps@, b as int));
            let pixmap = &pixmaps[b];
            let rowstride: i32 = match pixmap.width.checked_mul(4) {
                Some(rowstride) => rowstride,
                None => return None,
            };
            Some(
                IconImage {
                    width: pixmap.width,
                    height: pixmap.height,
                    rowstride,
                    rgba: swap_opacity(&pixmap.bytes, n),
                },
            )
        },
        None => None,
    }
}

/// An entry of a menu as it was sent.
pub struct RawMenu {
    /// Whether it has the three parts that an entry has.
    pub complete: bool,
    pub id: Option<i32>,
    pub label: Option<String>,
    pub item_type: Option<String>,
    pub enabled: Option<bool>,
    pub visible: Option<bool>,
    pub toggle_type: Option<String>,
    pub toggle_state: Option<i32>,
    pub icon_name: Option<String>,
    pub children: Vec<RawMenu>,
}

/// An entry of a menu.
pub struct MenuNode {
    pub id: i32,
    pub label: String,
    pub item_type: String,
    pub enabled: bool,
    pub visible: bool,
    pub toggle_type: String,
    pub toggle_state: i32,
    pub icon_name: Option<String>,
    pub children: Vec<MenuNode>,
}

/// The contents of a `MenuNode`.
pub struct MenuModel {
    pub id: i32,
    pub label: Seq<char>,
    pub item_type: Seq<char>,
    pub enabled: bool,
    pub visible: bool,
    pub toggle_type: Seq<char>,
    pub toggle_state: i32,
    pub icon_name: Option<Seq<char>>,
    pub children: Seq<MenuModel>,
}

pub open spec fn menu_model(node: MenuNode) -> MenuModel
    decreases node,
{
    MenuModel {
        id: node.id,
        label: node.label@,
        item_type: node.item_type@,
        enabled: node.enabled,
        visible: node.visible,
        toggle_type: node.toggle_type@,
        toggle_state: node.toggle_state,
        icon_name: opt_text(node.icon_name),
        children: Seq::new(
            node.children@.len(),
            |i: int|
                if 0 <= i < node.children.len() {
                    menu_model(node.children[i])
                } else {
                    arbitrary()
                },
        ),
    }
}

pub open spec fn menu_models(nodes: Seq<MenuNode>) -> Seq<MenuModel> {
    nodes.map_values(|node: MenuNode| menu_model(node))
}

/// What is read of an entry at a depth, where `left` entries may still be read, and how many may
/// be read after it.
pub open spec fn menu_read(raw: RawMenu, depth: nat, left: nat) -> (Option<MenuModel>, nat)
    decreases MENU_MAX_DEPTH + 2 - depth, 0nat,
{
    if depth > MENU_MAX_DEPTH || left == 0 {
        (None, left)
    } else if !raw.complete || raw.id is None {
        (None, (left - 1) as nat)
    } else {
        let count = if raw.children@.len() < MENU_MAX_CHILDREN {
            raw.children@.len()
        } else {
            MENU_MAX_CHILDREN as nat
        };
        let (children, rest) = children_read(raw.children@, count, depth + 1, (left - 1) as nat);
        (
            Some(
                MenuModel {
                    id: raw.id->0,
                    label: text_or_empty(raw.label),
                    item_type: match raw.item_type {
                        Some(text) => text@,
                        None => "standard"@,
                    },
                    enabled: raw.enabled != Some(false),
                    visible: raw.visible != Some(false),
                    toggle_type: text_or_empty(raw.toggle_type),
                    toggle_state: match raw.toggle_state {
                        Some(state) => state,
                        None => 0,
                    },
                    icon_name: some_text(raw.icon_name),
                    children,
                },
            ),
            rest,
        )
    }
}

/// What is read of the first `n` entries of a list.
pub open spec fn children_read(list: Seq<RawMenu>, n: nat, depth: nat, left: nat) -> (
    Seq<MenuModel>,
    nat,
)
    decreases MENU_MAX_DEPTH + 2 - depth, n + 1,
{
    if n == 0 || depth > MENU_MAX_DEPTH + 1 {
        (Seq::empty(), left)
    } else {
        let (before, rest) = children_read(list, (n - 1) as nat, depth, left);
        let (node, after) = menu_read(list[n - 1], depth, rest);
        (
            match node {
                Some(node) => before.push(node),
                None => before,
            },
            after,
        )
    }
}

/// Reads an entry of a menu.
pub fn parse_menu_node(raw: &RawMenu, depth: usize, remaining: &mut usize) -> (r: Option<MenuNode>)
    ensures
        (
            match r {
                Some(node) => Some(menu_model(node)),
                None => None,
            },
            *final(remaining) as nat,
        ) == menu_read(*raw, depth as nat, *old(remaining) as nat),
    decreases MENU_MAX_DEPTH + 2 - depth,
{
    if depth > MENU_MAX_DEPTH || *remaining == 0 {
        return None;
    }
    *remaining = *remaining - 1;
    let id: i32 = match raw.id {
        Some(id) => id,
        None => return None,
    };
    if !raw.complete {
        return None;
    }
    let ghost start = *remaining as nat;
    let mut count: usize = raw.children.len();
    if count > MENU_MAX_CHILDREN {
        count = MENU_MAX_CHILDREN;
    }
    let mut children: Vec<MenuNode> = Vec::new();
    let mut i: usize = 0;
    assert(menu_models(children@) =~= Seq::<MenuModel>::empty());
    while i < count
        invariant
            depth <= MENU_MAX_DEPTH,
            i <= count <= raw.children@.len(),
            (menu_models(children@), *remaining as nat) == children_read(
                raw.children@,
                i as nat,
                (depth + 1) as nat,
                start,
            ),
        decreases count - i,
    {
        let ghost before = children@;
        if let Some(child) = parse_menu_node(&raw.children[i], depth + 1, remaining) {
            children.push(child);
            assert(menu_models(children@) =~= menu_models(before).push(menu_model(child)));
        }
        i = i + 1;
    }
    let node = MenuNode {
        id,
        label: or_empty(&raw.label),
        item_type: match &raw.item_type {
            Some(text) => text.clone(),
            None => "standard".to_owned(),
        },
        enabled: raw.enabled.unwrap_or(true),
        visible: raw.visible.unwrap_or(true),
        toggle_type: or_empty(&raw.toggle_type),
        toggle_state: raw.toggle_state.unwrap_or(0),
        icon_name: filled(&raw.icon_name),
        children,
    };
    assert(menu_model(node).children =~= menu_models(node.children@));
    Some(node)
}

/// Reads a menu from its first entry on.
pub fn parse_menu_layout(root: &RawMenu) -> (r: Option<MenuNode>)
    ensures
        (match r {
            Some(node) => Some(menu_model(node)),
            None => None,
        }) == menu_read(*root, 0, MENU_MAX_NODES as nat).0,
{
    let mut remaining: usize = MENU_MAX_NODES;
    parse_menu_node(root, 0, &mut remaining)
}

/// How many entries a menu has.
pub open spec fn node_count(node: MenuModel) -> nat
    decreases node, 0nat,
{
    1 + total_count(node.children, node.children.len())
}

/// How many entries the first `n` menus of a list have together.
pub open spec fn total_count(list: Seq<MenuModel>, n: nat) -> nat
    decreases list, n,
{
    if n == 0 || n > list.len() {
        0
    } else {
        total_count(list, (n - 1) as nat) + node_count(list[n - 1])
    }
}

proof fn total_of_push(list: Seq<MenuModel>, node: MenuModel, n: nat)
    requires
        n <= list.len(),
    ensures
        total_count(list.push(node), n) == total_count(list, n),
        n == list.len() ==> total_count(list.push(node), n + 1) == total_count(list, n)
            + node_count(node),
    decreases n,
{
    if n > 0 {
        total_of_push(list, node, (n - 1) as nat);
        assert(list.push(node)[n - 1] == list[n - 1]);
    }
    if n == list.len() {
        assert(list.push(node)[n as int] == node);
        assert(total_count(list.push(node), n + 1) == total_count(list.push(node), n) + node_count(
            list.push(node)[n as int],
        ));
    }
}

/// No more entries of a menu are read than are allowed.
pub proof fn menus_are_bounded(raw: RawMenu, depth: nat, left: nat)
    ensures
        menu_read(raw, depth, left).1 <= left,
        menu_read(raw, depth, left).0 matches Some(node) ==> node_count(node) + menu_read(
            raw,
            depth,
            left,
        ).1 <= left,
    decreases MENU_MAX_DEPTH + 2 - depth, 0nat,
{
    if depth <= MENU_MAX_DEPTH && left > 0 && raw.complete && raw.id is Some {
        let count = if raw.children@.len() < MENU_MAX_CHILDREN {
            raw.children@.len()
        } else {
            MENU_MAX_CHILDREN as nat
        };
        children_are_bounded(raw.children@, count, depth + 1, (left - 1) as nat);
    }
}

proof fn children_are_bounded(list: Seq<RawMenu>, n: nat, depth: nat, left: nat)
    requires
        depth <= MENU_MAX_DEPTH + 1,
    ensures
        ({
            let (nodes, rest) = children_read(list, n, depth, left);
            &&& rest <= left
            &&& nodes.len() <= n
            &&& total_count(nodes, nodes.len()) + rest <= left
        }),
    decreases MENU_MAX_DEPTH + 2 - depth, n + 1,
{
    if n > 0 {
        children_are_bounded(list, (n - 1) as nat, depth, left);
        let (before, rest) = children_read(list, (n - 1) as nat, depth, left);
        menus_are_bounded(list[n - 1], depth, rest);
        if let Some(node) = menu_read(list[n - 1], depth, rest).0 {
            total_of_push(before, node, before.len());
        }
    }
}

/// Whether a menu at a depth is no deeper and has no longer lists than allowed.
pub open spec fn is_shallow(node: MenuModel, depth: nat) -> bool
    decreases node,
{
    &&& depth <= MENU_MAX_DEPTH
    &&& node.children.len() <= MENU_MAX_CHILDREN
    &&& forall|i: int|
        0 <= i < node.children.len() ==> is_shallow(#[trigger] node.children[i], depth + 1)
}

/// What is read of a menu is no deeper and has no longer lists than allowed.
pub proof fn menus_are_shallow(raw: RawMenu, depth: nat, left: nat)
    ensures
        menu_read(raw, depth, left).0 matches Some(node) ==> is_shallow(node, depth),
    decreases MENU_MAX_DEPTH + 2 - depth, 0nat,
{
    if depth <= MENU_MAX_DEPTH && left > 0 && raw.complete && raw.id is Some {
        let count = if raw.children@.len() < MENU_MAX_CHILDREN {
            raw.children@.len()
        } else {
            MENU_MAX_CHILDREN as nat
        };
        children_are_shallow(raw.children@, count, depth + 1, (left - 1) as nat);
        children_are_bounded(raw.children@, count, depth + 1, (left - 1) as nat);
    }
}

proof fn children_are_shallow(list: Seq<RawMenu>, n: nat, depth: nat, left: nat)
    requires
        depth <= MENU_MAX_DEPTH + 1,
    ensures
        forall|i: int|
            0 <= i < children_read(list, n, depth, left).0.len() ==> is_shallow(
                #[trigger] children_read(list, n, depth, left).0[i],
                depth,
            ),
    decreases MENU_MAX_DEPTH + 2 - depth, n + 1,
{
    if n > 0 {
        children_are_shallow(list, (n - 1) as nat, depth, left);
        let (before, rest) = children_read(list, (n - 1) as nat, depth, left);
        menus_are_shallow(list[n - 1], depth, rest);
        let nodes = children_read(list, n, depth, left).0;
        assert forall|i: int| 0 <= i < nodes.len() implies is_shallow(
            #[trigger] nodes[i],
            depth,
        ) by {
            if i < before.len() {
                assert(is_shallow(before[i], depth));
            }
        }
    }
}

/// Whether any entry of a menu can be seen and chosen.
pub fn has_visible_menu_item(nodes: &Vec<MenuNode>) -> (r: bool)
    ensures
        r == exists|i: int|
            0 <= i < nodes@.len() && (#[trigger] nodes@[i]).visible && nodes@[i].item_type@
                != "separator"@,
{
    let mut i: usize = 0;
    while i < nodes.len()
        invariant
            i <= nodes@.len(),
            forall|k: int|
                0 <= k < i ==> !((#[trigger] nodes@[k]).visible && nodes@[k].item_type@
                    != "separator"@),
        decreases nodes@.len() - i,
    {
        if nodes[i].visible && !same(&nodes[i].item_type, "separator") {
            return true;
        }
        i = i + 1;
    }
    false
}

/// How an entry of a menu is drawn.
#[derive(Clone, Copy, Debug, PartialEq, Eq, Structural)]
pub enum MenuRow {
    Hidden,
    Separator,
    Submenu,
    Action,
}

pub fn menu_row(node: &MenuNode) -> (r: MenuRow)
    ensures
        r == (if !node.visible {
            MenuRow::Hidden
        } else if node.item_type@ == "separator"@ {
            MenuRow::Separator
        } else if node.children@.len() > 0 {
            MenuRow::Submenu
        } else {
            MenuRow::Action
        }),
{
    if !node.visible {
        MenuRow::Hidden
    } else if same(&node.item_type, "separator") {
        MenuRow::Separator
    } else if !node.children.is_empty() {
        MenuRow::Submenu
    } else {
        MenuRow::Action
    }
}

/// The mark in front of an entry that can be on or off.
pub fn menu_indicator(node: &MenuNode) -> (r: &'static str)
    ensures
        r@ == (if node.toggle_state <= 0 {
            ""@
        } else if node.toggle_type@ == "radio"@ {
            "●"@
        } else {
            "✓"@
        }),
{
    if node.toggle_state > 0 {
        if same(&node.toggle_type, "radio") {
            "●"
        } else {
            "✓"
        }
    } else {
        ""
    }
}

/// A label without its keyboard marks: an underscore is dropped, and of two together one stays.
pub open spec fn unmarked(label: Seq<char>) -> Seq<char>
    decreases label.len(),
{
    if label.len() == 0 {
        Seq::empty()
    } else if label[0] != '_' {
        seq![label[0]] + unmarked(label.skip(1))
    } else if label.len() > 1 && label[1] == '_' {
        seq!['_'] + unmarked(label.skip(2))
    } else {
        unmarked(label.skip(1))
    }
}

pub fn normalize_menu_label(label: &str) -> (r: String)
    ensures
        r@ == unmarked(label@),
{
    let chars = chars_of(label);
    let n: usize = chars.len();
    let mut out = String::new();
    let mut i: usize = 0;
    assert(label@.skip(0) =~= label@);
    assert(Seq::<char>::empty() + unmarked(label@) =~= unmarked(label@));
    while i < n
        invariant
            chars@ == label@,
            n == label@.len(),
            i <= n,
            out@ + unmarked(label@.skip(i as int)) == unmarked(label@),
        decreases n - i,
    {
        let ghost rest = label@.skip(i as int);
        let ghost before = out@;
        assert(rest.skip(1) =~= label@.skip(i as int + 1));
        if chars[i] != '_' {
            out.push(chars[i]);
            assert(out@ + unmarked(rest.skip(1)) =~= before + (seq![rest[0]] + unmarked(
                rest.skip(1),
            )));
            i = i + 1;
        } else if i + 1 < n && chars[i + 1] == '_' {
            out.push('_');
            assert(rest.skip(2) =~= label@.skip(i as int + 2));
            assert(out@ + unmarked(rest.skip(2)) =~= before + (seq!['_'] + unmarked(
                rest.skip(2),
            )));
            i = i + 2;
        } else {
            i = i + 1;
        }
    }
    assert(out@ + unmarked(label@.skip(n as int)) =~= out@);
    out
}

/// A label without underscores is left as it is.
pub proof fn plain_labels_stay(label: Seq<char>)
    requires
        !label.contains('_'),
    ensures
        unmarked(label) == label,
    decreases label.len(),
{
    if label.len() > 0 {
        assert(label.contains(label[0]));
        assert(!label.skip(1).contains('_')) by {
            if label.skip(1).contains('_') {
                let i = choose|i: int| 0 <= i < label.skip(1).len() && label.skip(1)[i] == '_';
                assert(label[i + 1] == '_');
            }
        }
        plain_labels_stay(label.skip(1));
        assert(seq![label[0]] + label.skip(1) =~= label);
    } else {
        assert(unmarked(label) =~= label);
    }
}

/// How a call of the watcher is answered.
pub enum WatcherReply {
    Done,
    Refused { name: &'static str, message: &'static str },
}

/// What a call of the watcher leads to.
pub struct WatcherOutcome {
    pub reply: WatcherReply,
    /// The item to announce and to connect to.
    pub registered: Option<String>,
    /// Whether to announce that there is a host.
    pub host_registered: bool,
}

/// Takes a call of the watcher. `argument` is nothing where the call does not have the method's
/// form.
pub fn watcher_call(
    mirror: &mut WatcherMirror,
    method: &str,
    argument: Option<&str>,
    sender: Option<&str>,
) -> (r: WatcherOutcome)
    requires
        old(mirror).wf(),
    ensures
        final(mirror).wf(),
        if method@ == "RegisterStatusNotifierItem"@ {
            let known = texts(old(mirror).items@);
            let id = match argument {
                Some(raw) => canonical_id(raw@, opt_str(sender)),
                None => None,
            };
            &&& final(mirror).host_registered == old(mirror).host_registered
            &&& !r.host_registered
            &&& match id {
                Some(id) => r.reply is Done && opt_text(r.registered) == (if known.contains(id) {
                    None
                } else {
                    Some(id)
                }) && texts(final(mirror).items@) == (if known.contains(id) {
                    known
                } else {
                    known.push(id)
                }),
                None => r.registered is None && texts(final(mirror).items@) == known && (
                r.reply matches WatcherReply::Refused { name, message } && name@ == INVALID_ARGS@
                    && message@ == (if argument is None {
                    "Expected one service or object path"@
                } else {
                    "Invalid StatusNotifierItem identifier"@
                })),
            }
        } else if method@ == "RegisterStatusNotifierHost"@ {
            &&& r.reply is Done
            &&& r.registered is None
            &&& r.host_registered == !old(mirror).host_registered
            &&& final(mirror).host_registered
            &&& final(mirror).items == old(mirror).items
        } else {
            &&& *final(mirror) == *old(mirror)
            &&& r.registered is None
            &&& !r.host_registered
            &&& r.reply matches WatcherReply::Refused { name, message } && name@ == UNKNOWN_METHOD@
                && message@ == "Unknown StatusNotifierWatcher method"@
        },
{
    if same(method, "RegisterStatusNotifierItem") {
        let raw = match argument {
            Some(raw) => raw,
            None => return WatcherOutcome {
                reply: WatcherReply::Refused {
                    name: INVALID_ARGS,
                    message: "Expected one service or object path",
                },
                registered: None,
                host_registered: false,
            },
        };
        let item = match normalize_item_id(raw, sender) {
            Some(item) => item,
            None => return WatcherOutcome {
                reply: WatcherReply::Refused {
                    name: INVALID_ARGS,
                    message: "Invalid StatusNotifierItem identifier",
                },
                registered: None,
                host_registered: false,
            },
        };
        let inserted = mirror.insert(item.clone());
        WatcherOutcome {
            reply: WatcherReply::Done,
            registered: if inserted {
                Some(item)
            } else {
                None
            },
            host_registered: false,
        }
    } else if same(method, "RegisterStatusNotifierHost") {
        let changed = !mirror.host_registered;
        mirror.host_registered = true;
        WatcherOutcome { reply: WatcherReply::Done, registered: None, host_registered: changed }
    } else {
        WatcherOutcome {
            reply: WatcherReply::Refused {
                name: UNKNOWN_METHOD,
                message: "Unknown StatusNotifierWatcher method",
            },
            registered: None,
            host_registered: false,
        }
    }
}

/// Whether the answer to a request for a name says that the name is this program's.
pub fn name_is_ours(reply: Option<u32>) -> (r: bool)
    ensures
        r == (reply == Some(1u32) || reply == Some(4u32)),
{
    match reply {
        Some(code) => code == 1 || code == 4,
        None => false,
    }
}

/// Whether a signal of an item says that its properties are to be read again.
pub fn signal_asks_refresh(signal: &str) -> (r: bool)
    ensures
        r == (signal@ == "NewTitle"@ || signal@ == "NewIcon"@ || signal@ == "NewAttentionIcon"@
            || signal@ == "NewOverlayIcon"@ || signal@ == "NewToolTip"@ || signal@ == "NewStatus"@),
{
    same(signal, "NewTitle") || same(signal, "NewIcon") || same(signal, "NewAttentionIcon") || same(
        signal,
        "NewOverlayIcon",
    ) || same(signal, "NewToolTip") || same(signal, "NewStatus")
}

/// What is remembered of the search for an icon's file.
#[derive(Clone, Copy, Debug, PartialEq, Eq, Structural)]
pub enum IconMemory {
    /// Nothing.
    Unknown,
    /// The file that was found; whether it is still there.
    Found { still_there: bool },
    /// That there was no file, and for how many milliseconds that is known.
    Missing { age: u64 },
}

/// What to do for an icon's file.
#[derive(Clone, Copy, Debug, PartialEq, Eq, Structural)]
pub enum IconLookup {
    UseFound,
    GiveUp,
    Search,
}

pub fn icon_lookup(memory: IconMemory) -> (r: IconLookup)
    ensures
        r == (match memory {
            IconMemory::Found { still_there } => if still_there {
                IconLookup::UseFound
            } else {
                IconLookup::Search
            },
            IconMemory::Missing { age } => if age < ICON_NEGATIVE_CACHE_TTL_MS {
                IconLookup::GiveUp
            } else {
                IconLookup::Search
            },
            IconMemory::Unknown => IconLookup::Search,
        }),
{
    match memory {
        IconMemory::Found { still_there } => if still_there {
            IconLookup::UseFound
        } else {
            IconLookup::Search
        },
        IconMemory::Missing { age } => if age < ICON_NEGATIVE_CACHE_TTL_MS {
            IconLookup::GiveUp
        } else {
            IconLookup::Search
        },
        IconMemory::Unknown => IconLookup::Search,
    }
}

/// What an entry of a directory means for the search.
#[derive(Clone, Copy, Debug, PartialEq, Eq, Structural)]
pub enum EntryStep {
    /// A directory to search later.
    Descend,
    /// The icon's file.
    Hit,
    Skip,
}

/// How far the search for an icon's file has gone.
#[derive(Clone, Copy, Debug, PartialEq, Eq, Structural)]
pub struct IconScan {
    pub inspected: usize,
}

impl IconScan {
    /// The search stops one entry past its limit.
    pub open spec fn wf(&self) -> bool {
        self.inspected <= ICON_SCAN_MAX_ENTRIES + 1
    }

    pub fn new() -> (r: Self)
        ensures
            r.wf(),
            r.inspected == 0,
    {
        IconScan { inspected: 0 }
    }

    /// Whether a directory at this depth is read.
    pub fn reads(&self, depth: usize) -> (r: bool)
        ensures
            r == (depth <= ICON_SCAN_MAX_DEPTH && self.inspected < ICON_SCAN_MAX_ENTRIES),
    {
        depth <= ICON_SCAN_MAX_DEPTH && self.inspected < ICON_SCAN_MAX_ENTRIES
    }

    /// Counts an entry; the answer says whether it is looked at.
    pub fn inspect(&mut self) -> (r: bool)
        requires
            old(self).wf(),
        ensures
            final(self).wf(),
            r == (old(self).inspected < ICON_SCAN_MAX_ENTRIES),
            final(self).inspected == (if old(self).inspected <= ICON_SCAN_MAX_ENTRIES {
                old(self).inspected + 1
            } else {
                old(self).inspected as int
            }),
    {
        if self.inspected <= ICON_SCAN_MAX_ENTRIES {
            self.inspected = self.inspected + 1;
        }
        self.inspected <= ICON_SCAN_MAX_ENTRIES
    }

    /// What an entry found at this depth means: a directory is searched later, down to the
    /// deepest that is, and a file with the wanted stem is the icon's.
    pub fn entry(depth: usize, is_dir: bool, is_file: bool, stem: Option<&str>, wanted: &str) -> (r:
        EntryStep)
        ensures
            r == (if is_dir && depth < ICON_SCAN_MAX_DEPTH {
                EntryStep::Descend
            } else if is_file && opt_str(stem) == Some(wanted@) {
                EntryStep::Hit
            } else {
                EntryStep::Skip
            }),
    {
        if is_dir && depth < ICON_SCAN_MAX_DEPTH {
            EntryStep::Descend
        } else if is_file && opt_is(stem, wanted) {
            EntryStep::Hit
        } else {
            EntryStep::Skip
        }
    }
}

/// A tooltip shows its title and its text, whichever there are, the title first.
pub proof fn tooltips_show_title_and_text(title: String, text: String, both: Option<(String, String)>, r: Option<String>)
    requires
        both == Some((title, text)),
        call_ensures(tooltip_text, (&both,), r),
    ensures
        (r is None) == (title@.len() == 0 && text@.len() == 0),
        r matches Some(shown) ==> begins_with(shown@, title@) && ends_with(shown@, text@),
        title@.len() > 0 && text@.len() > 0 ==> r is Some && r->0@.len() == title@.len()
            + text@.len() + 1,
{
    reveal_strlit("\n");
    parts_show(title@, "\n"@, text@);
    assert(title@.subrange(0, title@.len() as int) =~= title@);
    assert(text@.subrange(0, text@.len() as int) =~= text@);
    assert(title@.subrange(title@.len() as int, title@.len() as int) =~= Seq::<char>::empty());
    if title@.len() == 0 {
        assert(title@ =~= Seq::<char>::empty());
        assert(text@.subrange(0, 0) =~= title@);
    }
    if text@.len() == 0 {
        assert(text@ =~= Seq::<char>::empty());
        assert(title@.subrange(title@.len() as int, title@.len() as int) =~= text@);
    }
}

/// An item that wants attention shows the pictures for that, another its usual ones; a name comes
/// before a picture, and an item without either is not shown.
pub proof fn items_show_the_picture_that_fits(facts: ItemFacts, r: Option<TraySnapshot>)
    requires
        call_ensures(ItemFacts::snapshot, (&facts,), r),
    ensures
        ({
            let attention = facts.status is Some && facts.status->0@ == "NeedsAttention"@;
            let name = if attention {
                facts.attention_icon_name
            } else {
                facts.icon_name
            };
            let pictures = if attention {
                facts.attention_icon_pixmaps
            } else {
                facts.icon_pixmaps
            };
            &&& (r is Some) == ((name is Some && name->0@.len() > 0) || (pictures is Some
                && pictures->0@.len() > 0))
            &&& r matches Some(shown) ==> {
                &&& name is Some && name->0@.len() > 0 ==> opt_text(shown.icon_name) == Some(
                    name->0@,
                ) && shown.pixmaps is None
                &&& !(name is Some && name->0@.len() > 0) ==> shown.icon_name is None
                    && shown.pixmaps == Some(
                    if attention {
                        PixmapSource::Attention
                    } else {
                        PixmapSource::Normal
                    },
                )
                &&& facts.tooltip is None && facts.title is Some && facts.title->0@.len() > 0
                    ==> shown.tooltip@ == facts.title->0@
                &&& facts.tooltip is None && facts.title is None && facts.id is Some
                    ==> shown.tooltip@ == facts.id->0@
                &&& facts.tooltip is None && facts.title is None && facts.id is None
                    ==> shown.tooltip@ == facts.service@
            }
        }),
{
}

/// An icon is made of one of the pictures that came, whole: its size is that of the picture, and
/// each pixel keeps its colours and its opacity, the opacity going from first to last.
pub proof fn pictures_keep_their_pixels(pixmaps: Vec<Pixmap>, r: Option<IconImage>)
    requires
        call_ensures(icon_from_pixmaps, (&pixmaps,), r),
        r is Some,
    ensures
        exists|i: int|
            0 <= i < pixmaps@.len() && {
                let (from, to) = (#[trigger] pixmaps@[i], r->0);
                &&& from.width == to.width && from.height == to.height && to.rowstride == 4
                    * to.width
                &&& to.rgba@.len() == 4 * (from.width * from.height)
                &&& forall|p: int|
                    #![trigger to.rgba@[4 * p]]
                    0 <= p < from.width * from.height ==> to.rgba@[4 * p] == from.bytes@[4 * p + 1]
                        && to.rgba@[4 * p + 1] == from.bytes@[4 * p + 2] && to.rgba@[4 * p + 2]
                        == from.bytes@[4 * p + 3] && to.rgba@[4 * p + 3] == from.bytes@[4 * p]
            },
{
    let i = choose|i: int|
        {
            &&& #[trigger] best_pixmap(pixmaps@, i)
            &&& r->0.width == pixmaps@[i].width
            &&& r->0.height == pixmaps@[i].height
            &&& r->0.rowstride == 4 * pixmaps@[i].width
            &&& r->0.rgba@ == opacity_last(pixmaps@[i].bytes@, pixel_count(pixmaps@[i]) as nat)
        };
    let (from, to) = (pixmaps@[i], r->0);
    assert(from.width * from.height > 0) by (nonlinear_arith)
        requires
            from.width > 0,
            from.height > 0,
    ;
    let n = pixel_count(from);
    assert forall|p: int| #![trigger to.rgba@[4 * p]] 0 <= p < n implies to.rgba@[4 * p]
        == from.bytes@[4 * p + 1] && to.rgba@[4 * p + 1] == from.bytes@[4 * p + 2] && to.rgba@[4 * p
        + 2] == from.bytes@[4 * p + 3] && to.rgba@[4 * p + 3] == from.bytes@[4 * p] by {
        assert((4 * p) / 4 == p && (4 * p + 1) / 4 == p && (4 * p + 2) / 4 == p && (4 * p + 3) / 4
            == p);
        assert((4 * p) % 4 == 0 && (4 * p + 1) % 4 == 1 && (4 * p + 2) % 4 == 2 && (4 * p + 3) % 4
            == 3);
    }
}

/// Of the pictures that have all their pixels the one is used that is large enough and closest to
/// the size wanted; only without a large one the largest of the small ones is.
pub proof fn the_closest_picture_is_used(pixmaps: Vec<Pixmap>, r: Option<IconImage>, j: int)
    requires
        call_ensures(icon_from_pixmaps, (&pixmaps,), r),
        r is Some,
        0 <= j < pixmaps@.len(),
        is_usable(pixmaps@[j]),
        pixmaps@[j].width == pixmaps@[j].height,
        r->0.width == r->0.height,
    ensures
        pixmaps@[j].width >= 18 ==> 18 <= r->0.width <= pixmaps@[j].width,
        r->0.width < 18 ==> pixmaps@[j].width <= r->0.width,
{
    let i = choose|i: int|
        {
            &&& #[trigger] best_pixmap(pixmaps@, i)
            &&& r->0.width == pixmaps@[i].width
            &&& r->0.height == pixmaps@[i].height
            &&& r->0.rowstride == 4 * pixmaps@[i].width
            &&& r->0.rgba@ == opacity_last(pixmaps@[i].bytes@, pixel_count(pixmaps@[i]) as nat)
        };
    assert(fits_no_worse(pixmaps@[i], pixmaps@[j]));
}

/// An entry of a menu is read as it was sent: its number, its label and its state, what is not said
/// being the usual; it has no more entries under it than were sent.
pub proof fn menu_entries_are_read_as_sent(root: RawMenu, r: Option<MenuNode>)
    requires
        call_ensures(parse_menu_layout, (&root,), r),
    ensures
        (r is Some) == (root.complete && root.id is Some),
        r matches Some(node) ==> {
            &&& node.id == root.id->0
            &&& root.label matches Some(label) ==> node.label@ == label@
            &&& node.enabled == !(root.enabled == Some(false))
            &&& node.visible == !(root.visible == Some(false))
            &&& root.toggle_state matches Some(state) ==> node.toggle_state == state
            &&& root.toggle_state is None ==> node.toggle_state == 0
            &&& root.toggle_type matches Some(kind) ==> node.toggle_type@ == kind@
            &&& root.item_type matches Some(kind) ==> node.item_type@ == kind@
            &&& root.item_type is None ==> node.item_type@ == "standard"@
            &&& node.children@.len() <= root.children@.len()
        },
{
    if r is Some {
        let m = menu_model(r->0);
        assert(m.children.len() == r->0.children@.len());
        let count = if root.children@.len() < MENU_MAX_CHILDREN {
            root.children@.len()
        } else {
            MENU_MAX_CHILDREN as nat
        };
        children_are_no_more(root.children@, count, 1, (MENU_MAX_NODES - 1) as nat);
    }
}

proof fn children_are_no_more(list: Seq<RawMenu>, n: nat, depth: nat, left: nat)
    ensures
        children_read(list, n, depth, left).0.len() <= n,
    decreases n,
{
    if n > 0 && depth <= MENU_MAX_DEPTH + 1 {
        children_are_no_more(list, (n - 1) as nat, depth, left);
    }
}

/// An entry of a menu is drawn as what it is: not at all where it is not visible, as a line where
/// it separates, and as a menu of its own where entries stand under it. A mark shows that it is on.
pub proof fn entries_are_drawn_as_what_they_are(node: MenuNode, row: MenuRow, mark: &'static str)
    requires
        call_ensures(menu_row, (&node,), row),
        call_ensures(menu_indicator, (&node,), mark),
    ensures
        (row is Hidden) == !node.visible,
        (row is Separator) == (node.visible && node.item_type@ == "separator"@),
        row is Submenu ==> node.children@.len() > 0,
        row is Action ==> node.children@.len() == 0,
        (mark@.len() > 0) == (node.toggle_state > 0),
        (mark@ == "●"@) == (node.toggle_state > 0 && node.toggle_type@ == "radio"@),
        (mark@ == "✓"@) == (node.toggle_state > 0 && node.toggle_type@ != "radio"@),
{
    reveal_strlit("");
    reveal_strlit("●");
    reveal_strlit("✓");
    assert("●"@[0] != "✓"@[0] && ""@.len() == 0 && "●"@.len() == 1 && "✓"@.len() == 1);
}

/// A mark for the keyboard goes away from a label and the letter behind it stays; two together are
/// one underscore.
pub proof fn keyboard_marks_go_away(
    label: &str,
    r: String,
    marked: &str,
    shown: String,
    doubled: &str,
    escaped: String,
)
    requires
        call_ensures(normalize_menu_label, (label,), r),
        marked@ == seq!['_'] + label@,
        label@.len() > 0 && label@[0] != '_',
        call_ensures(normalize_menu_label, (marked,), shown),
        doubled@ == seq!['_', '_'] + label@,
        call_ensures(normalize_menu_label, (doubled,), escaped),
    ensures
        shown@ == r@,
        escaped@ == seq!['_'] + r@,
        r@[0] == label@[0],
        r@.len() <= label@.len(),
{
    assert(marked@.skip(1) =~= label@);
    assert(doubled@.skip(2) =~= label@);
    labels_do_not_grow(label@);
    assert(unmarked(label@) == seq![label@[0]] + unmarked(label@.skip(1)));
}

proof fn labels_do_not_grow(label: Seq<char>)
    ensures
        unmarked(label).len() <= label.len(),
    decreases label.len(),
{
    if label.len() > 0 {
        labels_do_not_grow(label.skip(1));
        if label.len() > 1 {
            labels_do_not_grow(label.skip(2));
        }
    }
}

/// An item that registers is announced once under its full name, a host is announced the first
/// time, and what is not understood is refused and changes nothing.
pub proof fn registrations_are_announced(
    mirror: &mut WatcherMirror,
    method: &str,
    argument: Option<&str>,
    sender: Option<&str>,
    r: WatcherOutcome,
    again: &mut WatcherMirror,
    second: WatcherOutcome,
)
    requires
        call_ensures(watcher_call, (mirror, method, argument, sender), r),
        *old(again) == *final(mirror),
        call_ensures(watcher_call, (again, method, argument, sender), second),
    ensures
        second.registered is None && !second.host_registered,
        r.registered is Some ==> method@ == "RegisterStatusNotifierItem"@ && r.reply is Done,
        r.registered matches Some(id) ==> texts(final(mirror).items@).contains(id@) && !texts(
            old(mirror).items@,
        ).contains(id@),
        r.host_registered == (method@ == "RegisterStatusNotifierHost"@ && !old(
            mirror,
        ).host_registered),
        r.reply is Refused ==> texts(final(mirror).items@) == texts(old(mirror).items@) && final(
            mirror).host_registered == old(mirror).host_registered,
        method@ != "RegisterStatusNotifierItem"@ && method@ != "RegisterStatusNotifierHost"@
            ==> r.reply is Refused,
        method@ == "RegisterStatusNotifierItem"@ && argument is None ==> r.reply is Refused,
        method@ == "RegisterStatusNotifierItem"@ && argument is Some && trimmed(argument->0@).len()
            > 0 && trimmed(argument->0@)[0] != '/' ==> r.reply is Done,
{
    reveal_strlit("RegisterStatusNotifierItem");
    reveal_strlit("RegisterStatusNotifierHost");
    assert("RegisterStatusNotifierItem"@[22] != "RegisterStatusNotifierHost"@[22]);
    let known = texts(old(mirror).items@);
    let now = texts(final(mirror).items@);
    if r.registered is Some {
        assert(now[now.len() - 1] == r.registered->0@);
    }
    if method@ == "RegisterStatusNotifierItem"@ && argument is Some {
        let id = canonical_id(argument->0@, opt_str(sender));
        first_slash(trimmed(argument->0@), 0);
        if id is Some && !known.contains(id->0) {
            assert(now[now.len() - 1] == id->0);
        }
    }
}

/// The name on the bus is this program's where it was given or was so already; the signals on an
/// item's looks ask for it to be read again; and a file that was not found is not searched for
/// again for half a minute.
pub proof fn other_answers_are_understood(
    reply: Option<u32>,
    ours: bool,
    signal: &str,
    reads: bool,
    memory: IconMemory,
    lookup: IconLookup,
)
    requires
        call_ensures(name_is_ours, (reply,), ours),
        call_ensures(signal_asks_refresh, (signal,), reads),
        call_ensures(icon_lookup, (memory,), lookup),
    ensures
        ours == (reply is Some && (reply->0 == 1 || reply->0 == 4)),
        reads == (signal@ == "NewTitle"@ || signal@ == "NewIcon"@ || signal@ == "NewAttentionIcon"@
            || signal@ == "NewOverlayIcon"@ || signal@ == "NewToolTip"@ || signal@ == "NewStatus"@),
        memory is Unknown ==> lookup is Search,
        memory matches IconMemory::Found { still_there } ==> (lookup is UseFound) == still_there && (
        lookup is Search) == !still_there,
        memory matches IconMemory::Missing { age } ==> (lookup is GiveUp) == (age < 30_000) && (
        lookup is Search) == (age >= 30_000),
{
}

/// The search for an icon goes no deeper than three directories and looks at no more than 512
/// entries; the file with the wanted name ends it.
pub proof fn searches_are_bounded(
    scan: &mut IconScan,
    looks: bool,
    depth: usize,
    reads: bool,
    is_dir: bool,
    is_file: bool,
    stem: Option<&str>,
    wanted: &str,
    step: EntryStep,
)
    requires
        call_ensures(IconScan::inspect, (scan,), looks),
        call_ensures(IconScan::reads, (final(scan), depth), reads),
        call_ensures(IconScan::entry, (depth, is_dir, is_file, stem, wanted), step),
    ensures
        old(scan).inspected < 512 ==> looks && final(scan).inspected == old(scan).inspected + 1,
        old(scan).inspected >= 512 ==> !looks,
        depth > 3 ==> !reads,
        final(scan).inspected >= 512 ==> !reads,
        step is Descend ==> is_dir && depth < 3,
        is_dir && depth < 3 ==> step is Descend,
        step is Hit ==> is_file && stem is Some && stem->0@ == wanted@,
        !is_dir && is_file && stem is Some && stem->0@ == wanted@ ==> step is Hit,
{
}

/// A menu is shown only where an entry can be seen that is more than a line.
pub proof fn menus_need_something_to_show(nodes: Vec<MenuNode>, r: bool, i: int)
    requires
        call_ensures(has_visible_menu_item, (&nodes,), r),
        0 <= i < nodes@.len(),
    ensures
        nodes@[i].visible && nodes@[i].item_type@ != "separator"@ ==> r,
        (forall|j: int|
            0 <= j < nodes@.len() ==> !(#[trigger] nodes@[j]).visible || nodes@[j].item_type@
                == "separator"@) ==> !r,
{
}

/// A call that is refused tells whether it was not known or its argument was wrong.
pub proof fn refused_calls_tell_why(
    mirror: &mut WatcherMirror,
    method: &str,
    argument: Option<&str>,
    sender: Option<&str>,
    r: WatcherOutcome,
)
    requires
        call_ensures(watcher_call, (mirror, method, argument, sender), r),
    ensures
        r.reply matches WatcherReply::Refused { name, message } ==> {
            &&& method@ == "RegisterStatusNotifierItem"@ ==> name@
                == "org.freedesktop.DBus.Error.InvalidArgs"@
            &&& method@ != "RegisterStatusNotifierItem"@ ==> name@
                == "org.freedesktop.DBus.Error.UnknownMethod"@
            &&& method@ == "RegisterStatusNotifierItem"@ && argument is None ==> message@
                == "Expected one service or object path"@
            &&& method@ == "RegisterStatusNotifierItem"@ && argument is Some ==> message@
                == "Invalid StatusNotifierItem identifier"@
        },
{
}

} // verus!
