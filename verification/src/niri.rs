//! The compositor's event stream: keyboard layouts, workspaces and windows.
use crate::sort::{in_order, sorted_has_the_same_members, stable_sort, Ranked};
use crate::text::{
    ascii_lower, ascii_upper, begins_with, blank_texts_trim_to_nothing, char_is_alphabetic,
    chars_of, concat2, concat4, ends_with, has_text, is_ascii_letter, is_ascii_text, is_blank,
    is_letter, lower_text, lowering_forgets_case, not_after, opt_str, opt_text, parts_show,
    push_text, same, starts_with, text_le, text_le_antisymmetric, text_le_reflexive, text_le_total,
    text_le_transitive, texts, to_ascii_upper, to_lowercase, trim, trimmed,
    trimming_ignores_outer_space, trimming_keeps_ascii, trimming_keeps_upper_case, upper_char,
    uppercase_char, uppered_char,
};
use niri_ipc::state::{EventStreamStatePart, KeyboardLayoutsState, WindowsState, WorkspacesState};
use vstd::prelude::*;

verus! {

/// What stands for a layout that is not known.
pub const UNKNOWN_LAYOUT: &'static str = "--";

/// How long to wait before the stream is opened again, in milliseconds.
pub const RECONNECT_DELAY_MS: u64 = 1_000;

/// Whether a name, in lower case, is the alias or begins with it as a whole word.
pub open spec fn alias_hits(name: Seq<char>, alias: Seq<char>) -> bool {
    name == alias || (begins_with(name, alias) && name.len() > alias.len() && (
    name[alias.len() as int] == ' ' || name[alias.len() as int] == '('))
}

/// The code of a layout whose name, in lower case, is well known.
pub open spec fn known_layout(name: Seq<char>) -> Option<Seq<char>> {
    if alias_hits(name, "english (us)"@) || alias_hits(name, "english (united states)"@)
        || alias_hits(name, "us"@) {
        Some("US"@)
    } else if alias_hits(name, "english (uk)"@) || alias_hits(name, "english (gb)"@) || alias_hits(
        name,
        "english (united kingdom)"@,
    ) || alias_hits(name, "british"@) || alias_hits(name, "gb"@) {
        Some("GB"@)
    } else if alias_hits(name, "english"@) || alias_hits(name, "en"@) {
        Some("EN"@)
    } else if alias_hits(name, "russian"@) || alias_hits(name, "ru"@) {
        Some("RU"@)
    } else if alias_hits(name, "ukrainian"@) || alias_hits(name, "ukraine"@) || alias_hits(
        name,
        "ua"@,
    ) {
        Some("UA"@)
    } else if alias_hits(name, "german"@) || alias_hits(name, "deutsch"@) || alias_hits(
        name,
        "de"@,
    ) {
        Some("DE"@)
    } else if alias_hits(name, "french"@) || alias_hits(name, "français"@) || alias_hits(
        name,
        "francais"@,
    ) || alias_hits(name, "fr"@) {
        Some("FR"@)
    } else if alias_hits(name, "spanish"@) || alias_hits(name, "español"@) || alias_hits(
        name,
        "espanol"@,
    ) || alias_hits(name, "es"@) {
        Some("ES"@)
    } else if alias_hits(name, "italian"@) || alias_hits(name, "italiano"@) || alias_hits(
        name,
        "it"@,
    ) {
        Some("IT"@)
    } else if alias_hits(name, "polish"@) || alias_hits(name, "polski"@) || alias_hits(
        name,
        "pl"@,
    ) {
        Some("PL"@)
    } else if alias_hits(name, "czech"@) || alias_hits(name, "cs"@) || alias_hits(name, "cz"@) {
        Some("CZ"@)
    } else if alias_hits(name, "turkish"@) || alias_hits(name, "tr"@) {
        Some("TR"@)
    } else if alias_hits(name, "dutch"@) || alias_hits(name, "nederlands"@) || alias_hits(
        name,
        "nl"@,
    ) {
        Some("NL"@)
    } else {
        None
    }
}

/// The letters of a text, in order.
pub open spec fn letters(s: Seq<char>) -> Seq<char>
    decreases s.len(),
{
    if s.len() == 0 {
        Seq::empty()
    } else {
        let before = letters(s.drop_last());
        if is_letter(s.last()) {
            before.push(s.last())
        } else {
            before
        }
    }
}

/// The upper case of the first two letters of a text.
pub open spec fn initials(s: Seq<char>) -> Seq<char> {
    let found = letters(s);
    if found.len() == 0 {
        Seq::empty()
    } else if found.len() == 1 {
        uppered_char(found[0])
    } else {
        uppered_char(found[0]) + uppered_char(found[1])
    }
}

/// The short name of a layout.
pub open spec fn compact_name(name: Seq<char>) -> Seq<char> {
    let raw = trimmed(name);
    if raw.len() == 0 {
        UNKNOWN_LAYOUT@
    } else if known_layout(lower_text(raw)) is Some {
        known_layout(lower_text(raw))->0
    } else if raw.len() == 2 && is_ascii_letter(raw[0]) && is_ascii_letter(raw[1]) {
        ascii_upper(raw)
    } else if initials(raw).len() == 0 {
        UNKNOWN_LAYOUT@
    } else {
        initials(raw)
    }
}

/// White space around the name of a layout does not change its short name.
pub proof fn short_names_ignore_outer_space(front: Seq<char>, name: Seq<char>, back: Seq<char>)
    requires
        is_blank(front),
        is_blank(back),
    ensures
        compact_name(front + name + back) == compact_name(name),
{
    trimming_ignores_outer_space(front, name, back);
}

/// The case of its letters does not change the short name of a layout whose name holds ASCII
/// characters alone.
pub proof fn short_names_ignore_case(name: Seq<char>)
    requires
        is_ascii_text(name),
    ensures
        compact_name(ascii_upper(name)) == compact_name(name),
        compact_name(ascii_lower(name)) == compact_name(name),
{
    upper_case_keeps_short_name(name);
    upper_case_keeps_short_name(ascii_lower(name));
    assert(ascii_upper(ascii_lower(name)) =~= ascii_upper(name));
}

proof fn upper_case_keeps_short_name(name: Seq<char>)
    requires
        is_ascii_text(name),
    ensures
        compact_name(ascii_upper(name)) == compact_name(name),
{
    let raw = trimmed(name);
    trimming_keeps_upper_case(name);
    trimming_keeps_ascii(name);
    lowering_forgets_case(raw);
    letters_in_upper_case(raw);
    assert(initials(ascii_upper(raw)) =~= initials(raw));
}

proof fn letters_in_upper_case(s: Seq<char>)
    requires
        is_ascii_text(s),
    ensures
        letters(ascii_upper(s)) == ascii_upper(letters(s)),
        is_ascii_text(letters(s)),
    decreases s.len(),
{
    if s.len() > 0 {
        letters_in_upper_case(s.drop_last());
        assert(ascii_upper(s).drop_last() =~= ascii_upper(s.drop_last()));
        assert(ascii_upper(s).last() == upper_char(s.last()));
    }
    assert(letters(ascii_upper(s)) =~= ascii_upper(letters(s)));
}

fn hits(name: &str, alias: &str) -> (r: bool)
    ensures
        r == alias_hits(name@, alias@),
{
    if same(name, alias) {
        return true;
    }
    if !starts_with(name, alias) {
        return false;
    }
    let name = chars_of(name);
    let alias = chars_of(alias);
    name.len() > alias.len() && (name[alias.len()] == ' ' || name[alias.len()] == '(')
}

/// The code of a layout whose name, in lower case, is well known.
pub fn known_layout_code(name: &str) -> (r: Option<&'static str>)
    ensures
        opt_str(r) == known_layout(name@),
{
    if hits(name, "english (us)") || hits(name, "english (united states)") || hits(name, "us") {
        Some("US")
    } else if hits(name, "english (uk)") || hits(name, "english (gb)") || hits(
        name,
        "english (united kingdom)",
    ) || hits(name, "british") || hits(name, "gb") {
        Some("GB")
    } else if hits(name, "english") || hits(name, "en") {
        Some("EN")
    } else if hits(name, "russian") || hits(name, "ru") {
        Some("RU")
    } else if hits(name, "ukrainian") || hits(name, "ukraine") || hits(name, "ua") {
        Some("UA")
    } else if hits(name, "german") || hits(name, "deutsch") || hits(name, "de") {
        Some("DE")
    } else if hits(name, "french") || hits(name, "français") || hits(name, "francais") || hits(
        name,
        "fr",
    ) {
        Some("FR")
    } else if hits(name, "spanish") || hits(name, "español") || hits(name, "espanol") || hits(
        name,
        "es",
    ) {
        Some("ES")
    } else if hits(name, "italian") || hits(name, "italiano") || hits(name, "it") {
        Some("IT")
    } else if hits(name, "polish") || hits(name, "polski") || hits(name, "pl") {
        Some("PL")
    } else if hits(name, "czech") || hits(name, "cs") || hits(name, "cz") {
        Some("CZ")
    } else if hits(name, "turkish") || hits(name, "tr") {
        Some("TR")
    } else if hits(name, "dutch") || hits(name, "nederlands") || hits(name, "nl") {
        Some("NL")
    } else {
        None
    }
}

fn two_initials(chars: &Vec<char>) -> (r: String)
    ensures
        r@ == initials(chars@),
{
    let mut found: Vec<char> = Vec::new();
    let mut i: usize = 0;
    assert(chars@.take(0) =~= Seq::<char>::empty());
    while i < chars.len()
        invariant
            i <= chars@.len(),
            found@ == letters(chars@.take(i as int)),
        decreases chars@.len() - i,
    {
        assert(chars@.take(i as int + 1).drop_last() =~= chars@.take(i as int));
        if char_is_alphabetic(chars[i]) {
            found.push(chars[i]);
        }
        i = i + 1;
    }
    assert(chars@.take(chars@.len() as int) =~= chars@);
    if found.len() == 0 {
        return String::new();
    }
    let mut out = uppercase_char(found[0]);
    if found.len() > 1 {
        let second = uppercase_char(found[1]);
        push_text(&mut out, &second);
    }
    out
}

/// The short name of a layout.
pub fn compact_layout_name(name: &str) -> (r: String)
    ensures
        r@ == compact_name(name@),
{
    let raw = trim(name);
    if raw.as_str().is_empty() {
        return UNKNOWN_LAYOUT.to_owned();
    }
    let lower = to_lowercase(&raw);
    compact_from_lower(&raw, &lower)
}

/// The short name of a layout whose name is `raw`, `lower` in lower case.
pub fn compact_from_lower(raw: &str, lower: &str) -> (r: String)
    ensures
        r@ == (if known_layout(lower@) is Some {
            known_layout(lower@)->0
        } else if raw@.len() == 2 && is_ascii_letter(raw@[0]) && is_ascii_letter(raw@[1]) {
            ascii_upper(raw@)
        } else if initials(raw@).len() == 0 {
            UNKNOWN_LAYOUT@
        } else {
            initials(raw@)
        }),
{
    if let Some(code) = known_layout_code(lower) {
        return code.to_owned();
    }
    let chars = chars_of(raw);
    if chars.len() == 2 {
        let (a, b) = (chars[0], chars[1]);
        if (('a' <= a && a <= 'z') || ('A' <= a && a <= 'Z')) && (('a' <= b && b <= 'z') || ('A'
            <= b && b <= 'Z')) {
            return to_ascii_upper(raw);
        }
    }
    let fallback = two_initials(&chars);
    if fallback.as_str().is_empty() {
        UNKNOWN_LAYOUT.to_owned()
    } else {
        fallback
    }
}

#[derive(Clone, Debug, PartialEq, Eq)]
pub struct Workspace {
    pub id: u64,
    pub idx: u8,
    pub name: Option<String>,
    pub output: Option<String>,
    pub is_urgent: bool,
    pub is_active: bool,
    pub is_focused: bool,
    pub active_window_id: Option<u64>,
}

/// The contents of a `Workspace`.
pub struct WorkspaceRow {
    pub id: u64,
    pub idx: u8,
    pub name: Option<Seq<char>>,
    pub output: Option<Seq<char>>,
    pub is_urgent: bool,
    pub is_active: bool,
    pub is_focused: bool,
    pub active_window_id: Option<u64>,
}

impl View for Workspace {
    type V = WorkspaceRow;

    open spec fn view(&self) -> WorkspaceRow {
        WorkspaceRow {
            id: self.id,
            idx: self.idx,
            name: opt_text(self.name),
            output: opt_text(self.output),
            is_urgent: self.is_urgent,
            is_active: self.is_active,
            is_focused: self.is_focused,
            active_window_id: self.active_window_id,
        }
    }
}

/// Whether an output comes no later than another; a workspace without one comes first.
pub open spec fn output_le(a: Option<Seq<char>>, b: Option<Seq<char>>) -> bool {
    match (a, b) {
        (None, _) => true,
        (Some(_), None) => false,
        (Some(x), Some(y)) => text_le(x, y),
    }
}

/// Workspaces go by output, then by place, then by id.
impl Ranked for Workspace {
    open spec fn le(&self, other: &Self) -> bool {
        if opt_text(self.output) != opt_text(other.output) {
            output_le(opt_text(self.output), opt_text(other.output))
        } else if self.idx != other.idx {
            self.idx < other.idx
        } else {
            self.id <= other.id
        }
    }

    proof fn le_total(a: &Self, b: &Self) {
        if let (Some(x), Some(y)) = (opt_text(a.output), opt_text(b.output)) {
            text_le_total(x, y);
        }
    }

    proof fn le_transitive(a: &Self, b: &Self, c: &Self) {
        let (x, y, z) = (opt_text(a.output), opt_text(b.output), opt_text(c.output));
        if let (Some(p), Some(q), Some(s)) = (x, y, z) {
            if p != q && q != s {
                text_le_transitive(p, q, s);
                if p == s {
                    text_le_antisymmetric(p, q);
                }
            }
        }
    }

    fn ranks_le(&self, other: &Self) -> (r: bool) {
        match (&self.output, &other.output) {
            (Some(mine), Some(theirs)) => {
                if !same(mine, theirs) {
                    return not_after(mine, theirs);
                }
            },
            (None, Some(_)) => return true,
            (Some(_), None) => return false,
            (None, None) => {},
        }
        if self.idx != other.idx {
            self.idx < other.idx
        } else {
            self.id <= other.id
        }
    }
}

/// A window. The size of its tile is given by the bit patterns of two 64-bit floating-point
/// numbers.
#[derive(Clone, Debug, PartialEq, Eq)]
pub struct Window {
    pub id: u64,
    pub title: Option<String>,
    pub app_id: Option<String>,
    pub workspace_id: Option<u64>,
    pub is_focused: bool,
    pub is_urgent: bool,
    pub tile_width_bits: u64,
    pub tile_height_bits: u64,
}

/// The contents of a `Window`.
pub struct WindowRow {
    pub id: u64,
    pub title: Option<Seq<char>>,
    pub app_id: Option<Seq<char>>,
    pub workspace_id: Option<u64>,
    pub is_focused: bool,
    pub is_urgent: bool,
    pub tile_width_bits: u64,
    pub tile_height_bits: u64,
}

impl View for Window {
    type V = WindowRow;

    open spec fn view(&self) -> WindowRow {
        WindowRow {
            id: self.id,
            title: opt_text(self.title),
            app_id: opt_text(self.app_id),
            workspace_id: self.workspace_id,
            is_focused: self.is_focused,
            is_urgent: self.is_urgent,
            tile_width_bits: self.tile_width_bits,
            tile_height_bits: self.tile_height_bits,
        }
    }
}

/// Windows go by id.
impl Ranked for Window {
    open spec fn le(&self, other: &Self) -> bool {
        self.id <= other.id
    }

    proof fn le_total(a: &Self, b: &Self) {
    }

    proof fn le_transitive(a: &Self, b: &Self, c: &Self) {
    }

    fn ranks_le(&self, other: &Self) -> (r: bool) {
        self.id <= other.id
    }
}

/// The keyboard's layouts, and which is in use.
pub struct KeyboardLayouts {
    pub names: Vec<String>,
    pub current_idx: u8,
}

/// An event of the compositor.
#[verifier::external_type_specification]
#[verifier::external_body]
pub struct ExEvent(niri_ipc::Event);

/// The workspaces that the events tell of.
#[verifier::external_type_specification]
#[verifier::external_body]
pub struct ExWorkspacesState(niri_ipc::state::WorkspacesState);

/// The windows that the events tell of.
#[verifier::external_type_specification]
#[verifier::external_body]
pub struct ExWindowsState(niri_ipc::state::WindowsState);

/// The keyboard layouts that the events tell of.
#[verifier::external_type_specification]
#[verifier::external_body]
pub struct ExKeyboardLayoutsState(niri_ipc::state::KeyboardLayoutsState);

/// What an event tells, as far as it matters here.
pub enum EventFacts {
    WorkspacesChanged(Seq<WorkspaceRow>),
    WorkspaceUrgencyChanged { id: u64, urgent: bool },
    WorkspaceActivated { id: u64, focused: bool },
    WorkspaceActiveWindowChanged { id: u64, active_window_id: Option<u64> },
    WindowsChanged(Seq<WindowRow>),
    WindowOpenedOrChanged(WindowRow),
    WindowClosed(u64),
    WindowFocusChanged(Option<u64>),
    WindowFocusTimestampChanged,
    WindowUrgencyChanged { id: u64, urgent: bool },
    /// The windows whose tiles changed, with the new sizes.
    WindowLayoutsChanged(Seq<(u64, u64, u64)>),
    KeyboardLayoutsChanged { names: Seq<Seq<char>>, current_idx: u8 },
    KeyboardLayoutSwitched(u8),
    Other,
}

/// What an event tells.
pub uninterp spec fn event_facts(event: niri_ipc::Event) -> EventFacts;

/// What a line of the stream tells, or why it tells nothing.
pub uninterp spec fn niri_event(line: Seq<char>) -> Result<EventFacts, Seq<char>>;

/// The workspaces that are known, by id.
pub uninterp spec fn workspace_table(state: niri_ipc::state::WorkspacesState) -> Map<
    u64,
    WorkspaceRow,
>;

/// The windows that are known, by id.
pub uninterp spec fn window_table(state: niri_ipc::state::WindowsState) -> Map<u64, WindowRow>;

/// The layouts that are known, and which is in use.
pub uninterp spec fn layout_table(state: niri_ipc::state::KeyboardLayoutsState) -> Option<
    (Seq<Seq<char>>, u8),
>;

/// Whether each workspace is found under its own id.
pub open spec fn workspaces_keyed(table: Map<u64, WorkspaceRow>) -> bool {
    forall|id: u64| #[trigger] table.dom().contains(id) ==> table[id].id == id
}

/// Whether each window is found under its own id.
pub open spec fn windows_keyed(table: Map<u64, WindowRow>) -> bool {
    forall|id: u64| #[trigger] table.dom().contains(id) ==> table[id].id == id
}

/// The workspaces of a list, by id; of two with one id the later.
pub open spec fn workspaces_by_id(list: Seq<WorkspaceRow>) -> Map<u64, WorkspaceRow>
    decreases list.len(),
{
    if list.len() == 0 {
        Map::empty()
    } else {
        workspaces_by_id(list.drop_last()).insert(list.last().id, list.last())
    }
}

/// The windows of a list, by id; of two with one id the later.
pub open spec fn windows_by_id(list: Seq<WindowRow>) -> Map<u64, WindowRow>
    decreases list.len(),
{
    if list.len() == 0 {
        Map::empty()
    } else {
        windows_by_id(list.drop_last()).insert(list.last().id, list.last())
    }
}

/// The windows with the tiles of some changed.
pub open spec fn with_tiles(table: Map<u64, WindowRow>, changes: Seq<(u64, u64, u64)>) -> Map<
    u64,
    WindowRow,
>
    decreases changes.len(),
{
    if changes.len() == 0 {
        table
    } else {
        let before = with_tiles(table, changes.drop_last());
        let (id, width, height) = changes.last();
        before.insert(
            id,
            WindowRow { tile_width_bits: width, tile_height_bits: height, ..before[id] },
        )
    }
}

/// The workspaces after an event; nothing for an event that is not about them.
pub open spec fn workspaces_after(table: Map<u64, WorkspaceRow>, facts: EventFacts) -> Option<
    Map<u64, WorkspaceRow>,
> {
    match facts {
        EventFacts::WorkspacesChanged(list) => Some(workspaces_by_id(list)),
        EventFacts::WorkspaceUrgencyChanged { id, urgent } => Some(
            table.map_values(
                |row: WorkspaceRow|
                    if row.id == id {
                        WorkspaceRow { is_urgent: urgent, ..row }
                    } else {
                        row
                    },
            ),
        ),
        EventFacts::WorkspaceActivated { id, focused } => Some(
            table.map_values(
                |row: WorkspaceRow|
                    WorkspaceRow {
                        is_active: if row.output == table[id].output {
                            row.id == id
                        } else {
                            row.is_active
                        },
                        is_focused: if focused {
                            row.id == id
                        } else {
                            row.is_focused
                        },
                        ..row
                    },
            ),
        ),
        EventFacts::WorkspaceActiveWindowChanged { id, active_window_id } => Some(
            table.insert(id, WorkspaceRow { active_window_id, ..table[id] }),
        ),
        _ => None,
    }
}

/// The windows after an event; nothing for an event that is not about them.
pub open spec fn windows_after(table: Map<u64, WindowRow>, facts: EventFacts) -> Option<
    Map<u64, WindowRow>,
> {
    match facts {
        EventFacts::WindowsChanged(list) => Some(windows_by_id(list)),
        EventFacts::WindowOpenedOrChanged(window) => Some(
            if window.is_focused {
                table.map_values(
                    |row: WindowRow| WindowRow { is_focused: false, ..row },
                ).insert(window.id, window)
            } else {
                table.insert(window.id, window)
            },
        ),
        EventFacts::WindowClosed(id) => Some(table.remove(id)),
        EventFacts::WindowFocusChanged(id) => Some(
            table.map_values(
                |row: WindowRow| WindowRow { is_focused: id == Some(row.id), ..row },
            ),
        ),
        EventFacts::WindowFocusTimestampChanged => Some(table),
        EventFacts::WindowUrgencyChanged { id, urgent } => Some(
            table.map_values(
                |row: WindowRow|
                    if row.id == id {
                        WindowRow { is_urgent: urgent, ..row }
                    } else {
                        row
                    },
            ),
        ),
        EventFacts::WindowLayoutsChanged(changes) => Some(with_tiles(table, changes)),
        _ => None,
    }
}

/// The layouts after an event; nothing for an event that is not about them.
pub open spec fn layouts_after(table: Option<(Seq<Seq<char>>, u8)>, facts: EventFacts) -> Option<
    (Seq<Seq<char>>, u8),
> {
    match facts {
        EventFacts::KeyboardLayoutsChanged { names, current_idx } => Some((names, current_idx)),
        EventFacts::KeyboardLayoutSwitched(idx) => match table {
            Some((names, _)) => Some((names, idx)),
            None => None,
        },
        _ => None,
    }
}

/// The kind of an event, told as far as something has to be known before it is applied, with the
/// ids that it speaks of.
pub enum EventHead {
    WorkspaceActivated(u64),
    WorkspaceActiveWindowChanged(u64),
    WindowClosed(u64),
    WindowLayoutsChanged(Vec<u64>),
    KeyboardLayoutSwitched,
    /// Any other kind.
    Other,
}

/// Whether `head` is the kind of an event, with its ids.
pub open spec fn is_head(head: EventHead, facts: EventFacts) -> bool {
    match facts {
        EventFacts::WorkspaceActivated { id, .. } => head == EventHead::WorkspaceActivated(id),
        EventFacts::WorkspaceActiveWindowChanged { id, .. } => head
            == EventHead::WorkspaceActiveWindowChanged(id),
        EventFacts::WindowClosed(id) => head == EventHead::WindowClosed(id),
        EventFacts::WindowLayoutsChanged(changes) => head matches EventHead::WindowLayoutsChanged(
            ids,
        ) && ids@ == changes.map_values(|change: (u64, u64, u64)| change.0),
        EventFacts::KeyboardLayoutSwitched(_) => head is KeyboardLayoutSwitched,
        _ => head is Other,
    }
}

/// Whether the workspaces that an event speaks of are known.
pub open spec fn workspaces_ready(table: Map<u64, WorkspaceRow>, facts: EventFacts) -> bool {
    match facts {
        EventFacts::WorkspaceActivated { id, .. } => table.dom().contains(id),
        EventFacts::WorkspaceActiveWindowChanged { id, .. } => table.dom().contains(id),
        _ => true,
    }
}

/// Whether the windows that an event speaks of are known.
pub open spec fn windows_ready(table: Map<u64, WindowRow>, facts: EventFacts) -> bool {
    match facts {
        EventFacts::WindowClosed(id) => table.dom().contains(id),
        EventFacts::WindowLayoutsChanged(changes) => forall|i: int|
            0 <= i < changes.len() ==> table.dom().contains((#[trigger] changes[i]).0),
        _ => true,
    }
}

/// `serde_json::from_str` into `niri_ipc::Event`: the outcome is a function of the line alone.
/// What a given line tells is not stated.
#[verifier::external_body]
fn parse_event(line: &str) -> (r: Result<niri_ipc::Event, String>)
    ensures
        match r {
            Ok(event) => niri_event(line@) == Ok::<EventFacts, Seq<char>>(event_facts(event)),
            Err(message) => niri_event(line@) == Err::<EventFacts, Seq<char>>(message@),
        },
{
    serde_json::from_str(line).map_err(|error| error.to_string())
}

/// The variant of an event of `niri_ipc` and the ids in its fields, for the five variants that
/// are told apart.
#[verifier::external_body]
fn event_head(event: &niri_ipc::Event) -> (r: EventHead)
    ensures
        is_head(r, event_facts(*event)),
{
    match event {
        niri_ipc::Event::WorkspaceActivated { id, .. } => EventHead::WorkspaceActivated(*id),
        niri_ipc::Event::WorkspaceActiveWindowChanged { workspace_id, .. } => {
            EventHead::WorkspaceActiveWindowChanged(*workspace_id)
        },
        niri_ipc::Event::WindowClosed { id } => EventHead::WindowClosed(*id),
        niri_ipc::Event::WindowLayoutsChanged { changes } => {
            EventHead::WindowLayoutsChanged(changes.iter().map(|change| change.0).collect())
        },
        niri_ipc::Event::KeyboardLayoutSwitched { .. } => EventHead::KeyboardLayoutSwitched,
        _ => EventHead::Other,
    }
}

/// `WorkspacesState::default` of `niri_ipc`: no workspace is known.
#[verifier::external_body]
fn no_workspaces() -> (r: WorkspacesState)
    ensures
        workspace_table(r).dom() == Set::<u64>::empty(),
{
    WorkspacesState::default()
}

/// `WindowsState::default` of `niri_ipc`: no window is known.
#[verifier::external_body]
fn no_windows() -> (r: WindowsState)
    ensures
        window_table(r).dom() == Set::<u64>::empty(),
{
    WindowsState::default()
}

/// `KeyboardLayoutsState::default` of `niri_ipc`: no layout is known.
#[verifier::external_body]
fn no_layouts() -> (r: KeyboardLayoutsState)
    ensures
        layout_table(r) is None,
{
    KeyboardLayoutsState::default()
}

/// `WorkspacesState::apply` of `niri_ipc`: an event about workspaces changes them, another one is
/// handed back. The workspace that an event speaks of has to be known.
#[verifier::external_body]
fn apply_to_workspaces(state: &mut WorkspacesState, event: niri_ipc::Event) -> (r: Option<
    niri_ipc::Event,
>)
    requires
        workspaces_keyed(workspace_table(*old(state))),
        workspaces_ready(workspace_table(*old(state)), event_facts(event)),
    ensures
        match workspaces_after(workspace_table(*old(state)), event_facts(event)) {
            Some(after) => r is None && workspace_table(*final(state)) == after,
            None => r == Some(event) && *final(state) == *old(state),
        },
{
    state.apply(event)
}

/// `WindowsState::apply` of `niri_ipc`: an event about windows changes them, another one is handed
/// back. The windows that an event speaks of have to be known.
#[verifier::external_body]
fn apply_to_windows(state: &mut WindowsState, event: niri_ipc::Event) -> (r: Option<
    niri_ipc::Event,
>)
    requires
        windows_keyed(window_table(*old(state))),
        windows_ready(window_table(*old(state)), event_facts(event)),
    ensures
        match windows_after(window_table(*old(state)), event_facts(event)) {
            Some(after) => r is None && window_table(*final(state)) == after,
            None => r == Some(event) && *final(state) == *old(state),
        },
{
    state.apply(event)
}

/// `KeyboardLayoutsState::apply` of `niri_ipc`: an event about layouts changes them, another one
/// is handed back. A switch of the layout needs the layouts to be known.
#[verifier::external_body]
fn apply_to_layouts(state: &mut KeyboardLayoutsState, event: niri_ipc::Event) -> (r: Option<
    niri_ipc::Event,
>)
    requires
        event_facts(event) is KeyboardLayoutSwitched ==> layout_table(*old(state)) is Some,
    ensures
        match layouts_after(layout_table(*old(state)), event_facts(event)) {
            Some(after) => r is None && layout_table(*final(state)) == Some(after),
            None => r == Some(event) && *final(state) == *old(state),
        },
{
    state.apply(event)
}

/// Whether a list holds the workspaces of a table, each once.
pub open spec fn holds_workspaces(list: Seq<Workspace>, table: Map<u64, WorkspaceRow>) -> bool {
    &&& forall|i: int|
        0 <= i < list.len() ==> table.dom().contains((#[trigger] list[i]).id) && table[list[i].id]
            == list[i]@
    &&& forall|i: int, j: int|
        0 <= i < list.len() && 0 <= j < list.len() && (#[trigger] list[i]).id == (
        #[trigger] list[j]).id ==> i == j
    &&& forall|id: u64| #[trigger]
        table.dom().contains(id) ==> exists|i: int| 0 <= i < list.len() && (
        #[trigger] list[i]).id == id
}

/// Whether a list holds the windows of a table, each once.
pub open spec fn holds_windows(list: Seq<Window>, table: Map<u64, WindowRow>) -> bool {
    &&& forall|i: int|
        0 <= i < list.len() ==> table.dom().contains((#[trigger] list[i]).id) && table[list[i].id]
            == list[i]@
    &&& forall|i: int, j: int|
        0 <= i < list.len() && 0 <= j < list.len() && (#[trigger] list[i]).id == (
        #[trigger] list[j]).id ==> i == j
    &&& forall|id: u64| #[trigger]
        table.dom().contains(id) ==> exists|i: int| 0 <= i < list.len() && (
        #[trigger] list[i]).id == id
}

/// The workspaces in the map of `niri_ipc`, each once, in no particular order.
#[verifier::external_body]
fn workspace_list(state: &WorkspacesState) -> (r: Vec<Workspace>)
    requires
        workspaces_keyed(workspace_table(*state)),
    ensures
        holds_workspaces(r@, workspace_table(*state)),
{
    let convert = |row: &niri_ipc::Workspace| Workspace {
        id: row.id,
        idx: row.idx,
        name: row.name.clone(),
        output: row.output.clone(),
        is_urgent: row.is_urgent,
        is_active: row.is_active,
        is_focused: row.is_focused,
        active_window_id: row.active_window_id,
    };
    state.workspaces.values().map(convert).collect()
}

/// The windows in the map of `niri_ipc`, each once, in no particular order.
#[verifier::external_body]
fn window_list(state: &WindowsState) -> (r: Vec<Window>)
    requires
        windows_keyed(window_table(*state)),
    ensures
        holds_windows(r@, window_table(*state)),
{
    let convert = |row: &niri_ipc::Window| Window {
        id: row.id,
        title: row.title.clone(),
        app_id: row.app_id.clone(),
        workspace_id: row.workspace_id,
        is_focused: row.is_focused,
        is_urgent: row.is_urgent,
        tile_width_bits: row.layout.tile_size.0.to_bits(),
        tile_height_bits: row.layout.tile_size.1.to_bits(),
    };
    state.windows.values().map(convert).collect()
}

/// The layouts that `niri_ipc` holds.
#[verifier::external_body]
fn layouts_of(state: &KeyboardLayoutsState) -> (r: Option<KeyboardLayouts>)
    ensures
        match r {
            Some(layouts) => layout_table(*state) == Some((texts(layouts.names@), layouts.current_idx)),
            None => layout_table(*state) is None,
        },
{
    state.keyboard_layouts.as_ref().map(|layouts| KeyboardLayouts {
        names: layouts.names.clone(),
        current_idx: layouts.current_idx,
    })
}

/// The workspaces in order of display.
pub fn sorted_workspaces(state: &WorkspacesState) -> (r: Vec<Workspace>)
    requires
        workspaces_keyed(workspace_table(*state)),
    ensures
        in_order(r@),
        holds_workspaces(r@, workspace_table(*state)),
{
    let list = workspace_list(state);
    sort_workspaces(list, Ghost(workspace_table(*state)))
}

fn sort_workspaces(list: Vec<Workspace>, Ghost(table): Ghost<Map<u64, WorkspaceRow>>) -> (r: Vec<
    Workspace,
>)
    requires
        holds_workspaces(list@, table),
    ensures
        in_order(r@),
        holds_workspaces(r@, table),
{
    let ghost before = list@;
    let r = stable_sort(list);
    proof {
        let after = r@;
        assert forall|i: int| 0 <= i < after.len() implies table.dom().contains(
            (#[trigger] after[i]).id,
        ) && table[after[i].id] == after[i]@ by {
            assert(after.contains(after[i]));
            sorted_has_the_same_members(before, after, after[i]);
            let k = choose|k: int| 0 <= k < before.len() && before[k] == after[i];
            assert(table.dom().contains(before[k].id));
        }
        before.to_multiset_ensures();
        after.to_multiset_ensures();
        assert(before.no_duplicates()) by {
            assert forall|i: int, j: int|
                0 <= i < before.len() && 0 <= j < before.len() && i != j implies before[i]
                != before[j] by {
                assert(before[i].id == before[j].id ==> i == j);
            }
        }
        before.lemma_multiset_has_no_duplicates();
        after.lemma_multiset_has_no_duplicates_conv();
        assert forall|i: int, j: int|
            0 <= i < after.len() && 0 <= j < after.len() && (#[trigger] after[i]).id == (
            #[trigger] after[j]).id implies i == j by {
            assert(after.contains(after[i]) && after.contains(after[j]));
            sorted_has_the_same_members(before, after, after[i]);
            sorted_has_the_same_members(before, after, after[j]);
            let k = choose|k: int| 0 <= k < before.len() && before[k] == after[i];
            let l = choose|l: int| 0 <= l < before.len() && before[l] == after[j];
            assert(before[k].id == before[l].id);
            assert(k == l);
        }
        assert forall|id: u64| #[trigger] table.dom().contains(id) implies exists|i: int|
            0 <= i < after.len() && (#[trigger] after[i]).id == id by {
            let k = choose|k: int| 0 <= k < before.len() && (#[trigger] before[k]).id == id;
            assert(before.contains(before[k]));
            sorted_has_the_same_members(before, after, before[k]);
            let i = choose|i: int| 0 <= i < after.len() && after[i] == before[k];
            assert(after[i].id == id);
        }
    }
    r
}

/// The windows in order of their ids.
pub fn sorted_windows(state: &WindowsState) -> (r: Vec<Window>)
    requires
        windows_keyed(window_table(*state)),
    ensures
        in_order(r@),
        holds_windows(r@, window_table(*state)),
{
    let list = window_list(state);
    let ghost table = window_table(*state);
    let ghost before = list@;
    let r = stable_sort(list);
    proof {
        let after = r@;
        assert forall|i: int| 0 <= i < after.len() implies table.dom().contains(
            (#[trigger] after[i]).id,
        ) && table[after[i].id] == after[i]@ by {
            assert(after.contains(after[i]));
            sorted_has_the_same_members(before, after, after[i]);
            let k = choose|k: int| 0 <= k < before.len() && before[k] == after[i];
            assert(table.dom().contains(before[k].id));
        }
        before.to_multiset_ensures();
        after.to_multiset_ensures();
        assert(before.no_duplicates()) by {
            assert forall|i: int, j: int|
                0 <= i < before.len() && 0 <= j < before.len() && i != j implies before[i]
                != before[j] by {
                assert(before[i].id == before[j].id ==> i == j);
            }
        }
        before.lemma_multiset_has_no_duplicates();
        after.lemma_multiset_has_no_duplicates_conv();
        assert forall|i: int, j: int|
            0 <= i < after.len() && 0 <= j < after.len() && (#[trigger] after[i]).id == (
            #[trigger] after[j]).id implies i == j by {
            assert(after.contains(after[i]) && after.contains(after[j]));
            sorted_has_the_same_members(before, after, after[i]);
            sorted_has_the_same_members(before, after, after[j]);
            let k = choose|k: int| 0 <= k < before.len() && before[k] == after[i];
            let l = choose|l: int| 0 <= l < before.len() && before[l] == after[j];
            assert(before[k].id == before[l].id);
            assert(k == l);
        }
        assert forall|id: u64| #[trigger] table.dom().contains(id) implies exists|i: int|
            0 <= i < after.len() && (#[trigger] after[i]).id == id by {
            let k = choose|k: int| 0 <= k < before.len() && (#[trigger] before[k]).id == id;
            assert(before.contains(before[k]));
            sorted_has_the_same_members(before, after, before[k]);
            let i = choose|i: int| 0 <= i < after.len() && after[i] == before[k];
            assert(after[i].id == id);
        }
    }
    r
}

/// The name of the layout in use: the one at its place, else the first.
pub open spec fn current_name(names: Seq<Seq<char>>, current_idx: u8) -> Option<Seq<char>> {
    if current_idx < names.len() {
        Some(names[current_idx as int])
    } else if names.len() > 0 {
        Some(names[0])
    } else {
        None
    }
}

/// The short name of the layout in use.
pub open spec fn compact_current(table: Option<(Seq<Seq<char>>, u8)>) -> Option<Seq<char>> {
    match table {
        Some((names, current_idx)) => match current_name(names, current_idx) {
            Some(name) => Some(compact_name(name)),
            None => None,
        },
        None => None,
    }
}

/// The short name of the layout in use.
pub fn current_compact_layout(state: &KeyboardLayoutsState) -> (r: Option<String>)
    ensures
        opt_text(r) == compact_current(layout_table(*state)),
{
    let layouts = match layouts_of(state) {
        Some(layouts) => layouts,
        None => return None,
    };
    let place: usize = layouts.current_idx as usize;
    assert(texts(layouts.names@).len() == layouts.names@.len());
    if place < layouts.names.len() {
        Some(compact_layout_name(&layouts.names[place]))
    } else if layouts.names.len() > 0 {
        Some(compact_layout_name(&layouts.names[0]))
    } else {
        None
    }
}

/// What the bar is told.
#[derive(Clone, Debug, PartialEq, Eq)]
pub enum Update {
    KeyboardLayout(String),
    Windows(Vec<Window>),
    Workspaces(Vec<Workspace>),
}

/// Whether the updates are those for an event, given what is known after it.
pub open spec fn updates_for(
    updates: Seq<Update>,
    facts: EventFacts,
    workspaces: Map<u64, WorkspaceRow>,
    windows: Map<u64, WindowRow>,
    layouts: Option<(Seq<Seq<char>>, u8)>,
) -> bool {
    if workspaces_after(workspaces, facts) is Some {
        updates.len() == 1 && (updates[0] matches Update::Workspaces(list) && in_order(list@)
            && holds_workspaces(list@, workspaces))
    } else if windows_after(windows, facts) is Some {
        updates.len() == 1 && (updates[0] matches Update::Windows(list) && in_order(list@)
            && holds_windows(list@, windows))
    } else if (facts is KeyboardLayoutsChanged || facts is KeyboardLayoutSwitched)
        && compact_current(layouts) is Some {
        updates.len() == 1 && (updates[0] matches Update::KeyboardLayout(name) && name@
            == compact_current(layouts)->0)
    } else {
        updates.len() == 0
    }
}

/// Why a line of the stream is not taken.
pub enum StreamError {
    /// It is no event.
    Malformed(String),
    /// It speaks of a workspace or a window that is not known.
    UnknownTarget,
}

/// What the event stream has told so far.
pub struct EventStream {
    pub workspaces: WorkspacesState,
    pub windows: WindowsState,
    pub layouts: KeyboardLayoutsState,
}

impl EventStream {
    /// Each workspace and each window is found under its own id.
    pub open spec fn wf(&self) -> bool {
        workspaces_keyed(workspace_table(self.workspaces)) && windows_keyed(
            window_table(self.windows),
        )
    }

    /// Whether what an event speaks of is known.
    pub open spec fn knows(&self, facts: EventFacts) -> bool {
        workspaces_ready(workspace_table(self.workspaces), facts) && windows_ready(
            window_table(self.windows),
            facts,
        )
    }

    /// The stream's knowledge after an event.
    pub open spec fn learned(&self, before: &Self, facts: EventFacts) -> bool {
        &&& workspace_table(self.workspaces) == (match workspaces_after(
            workspace_table(before.workspaces),
            facts,
        ) {
            Some(table) => table,
            None => workspace_table(before.workspaces),
        })
        &&& window_table(self.windows) == (match windows_after(
            window_table(before.windows),
            facts,
        ) {
            Some(table) => table,
            None => window_table(before.windows),
        })
        &&& layout_table(self.layouts) == (match layouts_after(
            layout_table(before.layouts),
            facts,
        ) {
            Some(table) => Some(table),
            None => layout_table(before.layouts),
        })
    }

    pub fn new() -> (r: Self)
        ensures
            r.wf(),
            workspace_table(r.workspaces).dom() == Set::<u64>::empty(),
            window_table(r.windows).dom() == Set::<u64>::empty(),
            layout_table(r.layouts) is None,
    {
        EventStream { workspaces: no_workspaces(), windows: no_windows(), layouts: no_layouts() }
    }

    fn knows_workspace(&self, id: u64) -> (r: bool)
        requires
            self.wf(),
        ensures
            r == workspace_table(self.workspaces).dom().contains(id),
    {
        let list = workspace_list(&self.workspaces);
        has_workspace(&list, id, Ghost(workspace_table(self.workspaces)))
    }

    /// Whether all that an event speaks of is known.
    pub fn knows_targets(&self, event: &niri_ipc::Event) -> (r: bool)
        requires
            self.wf(),
        ensures
            r == self.knows(event_facts(*event)),
    {
        match event_head(event) {
            EventHead::WorkspaceActivated(id) => self.knows_workspace(id),
            EventHead::WorkspaceActiveWindowChanged(id) => self.knows_workspace(id),
            EventHead::WindowClosed(id) => {
                let list = window_list(&self.windows);
                has_window(&list, id, Ghost(window_table(self.windows)))
            },
            EventHead::WindowLayoutsChanged(ids) => {
                let list = window_list(&self.windows);
                let ghost facts = event_facts(*event);
                let ghost table = window_table(self.windows);
                let ghost changes = facts->WindowLayoutsChanged_0;
                let mut i: usize = 0;
                while i < ids.len()
                    invariant
                        facts == event_facts(*event),
                        facts is WindowLayoutsChanged,
                        changes == facts->WindowLayoutsChanged_0,
                        ids@ == changes.map_values(|change: (u64, u64, u64)| change.0),
                        table == window_table(self.windows),
                        holds_windows(list@, table),
                        i <= ids@.len(),
                        forall|k: int|
                            0 <= k < i ==> table.dom().contains((#[trigger] changes[k]).0),
                    decreases ids@.len() - i,
                {
                    assert(ids@[i as int] == changes[i as int].0);
                    if !has_window(&list, ids[i], Ghost(table)) {
                        assert(!table.dom().contains(changes[i as int].0));
                        return false;
                    }
                    i = i + 1;
                }
                true
            },
            EventHead::KeyboardLayoutSwitched => true,
            EventHead::Other => true,
        }
    }

    /// Takes an event; the answer is what the bar is told. A switch of the layout before any
    /// layout is known is passed over.
    pub fn feed(&mut self, event: niri_ipc::Event) -> (r: Vec<Update>)
        requires
            old(self).wf(),
            old(self).knows(event_facts(event)),
        ensures
            final(self).wf(),
            final(self).learned(old(self), event_facts(event)),
            updates_for(
                r@,
                event_facts(event),
                workspace_table(final(self).workspaces),
                window_table(final(self).windows),
                layout_table(final(self).layouts),
            ),
    {
        let ghost facts = event_facts(event);
        let ghost known_workspaces = workspace_table(self.workspaces);
        let ghost known_windows = window_table(self.windows);
        let mut updates: Vec<Update> = Vec::new();
        let switch = match event_head(&event) {
            EventHead::KeyboardLayoutSwitched => true,
            _ => false,
        };
        if switch && layouts_of(&self.layouts).is_none() {
            return updates;
        }
        let rest = apply_to_workspaces(&mut self.workspaces, event);
        let event = match rest {
            Some(event) => event,
            None => {
                proof {
                    workspaces_stay_keyed(known_workspaces, facts);
                }
                updates.push(Update::Workspaces(sorted_workspaces(&self.workspaces)));
                assert(workspaces_after(workspace_table(self.workspaces), facts) is Some);
                return updates;
            },
        };
        let rest = apply_to_windows(&mut self.windows, event);
        let event = match rest {
            Some(event) => event,
            None => {
                proof {
                    windows_stay_keyed(known_windows, facts);
                }
                updates.push(Update::Windows(sorted_windows(&self.windows)));
                assert(windows_after(window_table(self.windows), facts) is Some);
                return updates;
            },
        };
        if apply_to_layouts(&mut self.layouts, event).is_none() {
            if let Some(layout) = current_compact_layout(&self.layouts) {
                updates.push(Update::KeyboardLayout(layout));
            }
        }
        updates
    }

    /// Takes a line of the stream; the answer is what the bar is told. A line that is not taken
    /// changes nothing.
    pub fn feed_line(&mut self, line: &str) -> (r: Result<Vec<Update>, StreamError>)
        requires
            old(self).wf(),
        ensures
            final(self).wf(),
            match niri_event(line@) {
                Ok(facts) => if old(self).knows(facts) {
                    r matches Ok(updates) && final(self).learned(old(self), facts) && updates_for(
                        updates@,
                        facts,
                        workspace_table(final(self).workspaces),
                        window_table(final(self).windows),
                        layout_table(final(self).layouts),
                    )
                } else {
                    r == Err::<Vec<Update>, StreamError>(StreamError::UnknownTarget) && *final(
                        self) == *old(self)
                },
                Err(reason) => (r matches Err(StreamError::Malformed(message)) && message@
                    == reason) && *final(self) == *old(self),
            },
    {
        let event = match parse_event(line) {
            Ok(event) => event,
            Err(message) => return Err(StreamError::Malformed(message)),
        };
        if !self.knows_targets(&event) {
            return Err(StreamError::UnknownTarget);
        }
        Ok(self.feed(event))
    }
}

fn has_workspace(list: &Vec<Workspace>, id: u64, Ghost(table): Ghost<Map<u64, WorkspaceRow>>) -> (r:
    bool)
    requires
        holds_workspaces(list@, table),
    ensures
        r == table.dom().contains(id),
{
    let mut i: usize = 0;
    while i < list.len()
        invariant
            holds_workspaces(list@, table),
            i <= list@.len(),
            forall|k: int| 0 <= k < i ==> (#[trigger] list@[k]).id != id,
        decreases list@.len() - i,
    {
        if list[i].id == id {
            assert(table.dom().contains(list@[i as int].id));
            return true;
        }
        i = i + 1;
    }
    false
}

fn has_window(list: &Vec<Window>, id: u64, Ghost(table): Ghost<Map<u64, WindowRow>>) -> (r: bool)
    requires
        holds_windows(list@, table),
    ensures
        r == table.dom().contains(id),
{
    let mut i: usize = 0;
    while i < list.len()
        invariant
            holds_windows(list@, table),
            i <= list@.len(),
            forall|k: int| 0 <= k < i ==> (#[trigger] list@[k]).id != id,
        decreases list@.len() - i,
    {
        if list[i].id == id {
            assert(table.dom().contains(list@[i as int].id));
            return true;
        }
        i = i + 1;
    }
    false
}

/// After any event each workspace is still found under its own id.
pub proof fn workspaces_stay_keyed(table: Map<u64, WorkspaceRow>, facts: EventFacts)
    requires
        workspaces_keyed(table),
        workspaces_ready(table, facts),
    ensures
        workspaces_after(table, facts) matches Some(after) ==> workspaces_keyed(after),
{
    if let EventFacts::WorkspacesChanged(list) = facts {
        listed_workspaces_are_keyed(list);
    }
}

proof fn listed_workspaces_are_keyed(list: Seq<WorkspaceRow>)
    ensures
        workspaces_keyed(workspaces_by_id(list)),
    decreases list.len(),
{
    if list.len() > 0 {
        listed_workspaces_are_keyed(list.drop_last());
    }
}

/// After any event each window is still found under its own id.
pub proof fn windows_stay_keyed(table: Map<u64, WindowRow>, facts: EventFacts)
    requires
        windows_keyed(table),
        windows_ready(table, facts),
    ensures
        windows_after(table, facts) matches Some(after) ==> windows_keyed(after),
{
    match facts {
        EventFacts::WindowsChanged(list) => {
            listed_windows_are_keyed(list);
        },
        EventFacts::WindowLayoutsChanged(changes) => {
            tiles_keep_keys(table, changes);
        },
        _ => {},
    }
}

proof fn listed_windows_are_keyed(list: Seq<WindowRow>)
    ensures
        windows_keyed(windows_by_id(list)),
    decreases list.len(),
{
    if list.len() > 0 {
        listed_windows_are_keyed(list.drop_last());
    }
}

proof fn tiles_keep_keys(table: Map<u64, WindowRow>, changes: Seq<(u64, u64, u64)>)
    requires
        windows_keyed(table),
        forall|i: int|
            0 <= i < changes.len() ==> table.dom().contains((#[trigger] changes[i]).0),
    ensures
        windows_keyed(with_tiles(table, changes)),
        with_tiles(table, changes).dom() == table.dom(),
    decreases changes.len(),
{
    if changes.len() > 0 {
        let front = changes.drop_last();
        assert forall|i: int| 0 <= i < front.len() implies table.dom().contains(
            (#[trigger] front[i]).0,
        ) by {
            assert(table.dom().contains(changes[i].0));
        }
        tiles_keep_keys(table, front);
        assert(table.dom().contains(changes[changes.len() - 1].0));
        assert(with_tiles(table, changes).dom() =~= table.dom());
    }
}

/// When a workspace is activated and focused, it alone is focused, and on its output it alone is
/// active.
pub proof fn activation_is_exclusive(table: Map<u64, WorkspaceRow>, id: u64, other: u64)
    requires
        workspaces_keyed(table),
        table.dom().contains(id),
        table.dom().contains(other),
    ensures
        ({
            let after = workspaces_after(
                table,
                EventFacts::WorkspaceActivated { id, focused: true },
            )->0;
            &&& after[other].is_focused == (other == id)
            &&& after[other].output == after[id].output ==> after[other].is_active == (other == id)
        }),
{
}

/// What came back for a request.
pub enum ReplyFacts {
    Handled,
    /// Another answer than was expected, in words.
    Unexpected(String),
    /// The compositor refused.
    Refused(String),
}

/// The contents of a `ReplyFacts`.
pub enum ReplyModel {
    Handled,
    Unexpected(Seq<char>),
    Refused(Seq<char>),
}

impl View for ReplyFacts {
    type V = ReplyModel;

    open spec fn view(&self) -> ReplyModel {
        match *self {
            ReplyFacts::Handled => ReplyModel::Handled,
            ReplyFacts::Unexpected(text) => ReplyModel::Unexpected(text@),
            ReplyFacts::Refused(text) => ReplyModel::Refused(text@),
        }
    }
}

/// The kind of an answer, and the reason where the compositor refused.
pub enum ReplyKind {
    Handled,
    Unexpected,
    Refused(Seq<char>),
}

impl ReplyFacts {
    /// The answer without the words for one that was not expected.
    pub open spec fn kind(&self) -> ReplyKind {
        match *self {
            ReplyFacts::Handled => ReplyKind::Handled,
            ReplyFacts::Unexpected(_) => ReplyKind::Unexpected,
            ReplyFacts::Refused(text) => ReplyKind::Refused(text@),
        }
    }
}

/// The kind of answer that a line tells, or why it tells nothing.
pub uninterp spec fn niri_reply(line: Seq<char>) -> Result<ReplyKind, Seq<char>>;

/// `serde_json::from_str` into `niri_ipc::Reply`: the kind of answer, the reason of a refusal and
/// the message for a line that is no answer are functions of the line alone. What a given line
/// tells is not stated. The words for an answer that was not expected are left open: a response
/// can hold a hash map, which is put into words in the order in which it is walked.
#[verifier::external_body]
fn parse_reply(line: &str) -> (r: Result<ReplyFacts, String>)
    ensures
        match r {
            Ok(reply) => niri_reply(line@) == Ok::<ReplyKind, Seq<char>>(reply.kind()),
            Err(message) => niri_reply(line@) == Err::<ReplyKind, Seq<char>>(message@),
        },
{
    match serde_json::from_str::<niri_ipc::Reply>(line) {
        Ok(Ok(niri_ipc::Response::Handled)) => Ok(ReplyFacts::Handled),
        Ok(Ok(response)) => Ok(ReplyFacts::Unexpected(format!("{response:?}"))),
        Ok(Err(message)) => Ok(ReplyFacts::Refused(message)),
        Err(error) => Err(error.to_string()),
    }
}

/// Whether a request was taken, or why not; `expected` says what was asked for.
pub fn reply_result(reply: ReplyFacts, expected: &str) -> (r: Result<(), String>)
    ensures
        match reply@ {
            ReplyModel::Handled => r is Ok,
            ReplyModel::Unexpected(text) => r matches Err(message) && message@
                == "unexpected niri "@ + expected@ + " response: "@ + text,
            ReplyModel::Refused(text) => r matches Err(message) && message@ == "niri IPC error: "@
                + text,
        },
{
    match reply {
        ReplyFacts::Handled => Ok(()),
        ReplyFacts::Unexpected(text) => Err(
            concat4("unexpected niri ", expected, " response: ", &text),
        ),
        ReplyFacts::Refused(text) => Err(concat2("niri IPC error: ", &text)),
    }
}

/// Whether the line that answers the request for the stream grants it, or why not. For an answer
/// that was not expected, `reply_result` says how its words end the message.
pub fn stream_granted(line: &str) -> (r: Result<(), String>)
    ensures
        match niri_reply(line@) {
            Ok(ReplyKind::Handled) => r is Ok,
            Ok(ReplyKind::Unexpected) => r matches Err(message) && begins_with(
                message@,
                "unexpected niri EventStream response: "@,
            ),
            Ok(ReplyKind::Refused(text)) => r matches Err(message) && message@
                == "niri IPC error: "@ + text,
            Err(reason) => r matches Err(message) && message@ == reason,
        },
{
    match parse_reply(line) {
        Ok(reply) => {
            let ghost kind = reply.kind();
            let r = reply_result(reply, "EventStream");
            proof {
                reveal_strlit("unexpected niri ");
                reveal_strlit("EventStream");
                reveal_strlit(" response: ");
                reveal_strlit("unexpected niri EventStream response: ");
                let head = "unexpected niri EventStream response: "@;
                assert("unexpected niri "@ + "EventStream"@ + " response: "@ =~= head);
                if kind is Unexpected {
                    assert(r->Err_0@.subrange(0, head.len() as int) =~= head);
                }
            }
            r
        },
        Err(message) => Err(message),
    }
}

/// The position, from `i` on, of the active workspace of an output.
pub open spec fn active_workspace(workspaces: Seq<Workspace>, output: Seq<char>, i: int) -> Option<
    int,
>
    decreases workspaces.len() - i,
{
    if i < 0 || i >= workspaces.len() {
        None
    } else if workspaces[i].is_active && opt_text(workspaces[i].output) == Some(output) {
        Some(i)
    } else {
        active_workspace(workspaces, output, i + 1)
    }
}

/// The position, from `i` on, of the window with the id on the workspace.
pub open spec fn window_on(windows: Seq<Window>, id: u64, workspace: u64, i: int) -> Option<int>
    decreases windows.len() - i,
{
    if i < 0 || i >= windows.len() {
        None
    } else if windows[i].id == id && windows[i].workspace_id == Some(workspace) {
        Some(i)
    } else {
        window_on(windows, id, workspace, i + 1)
    }
}

/// The position of the window that covers an output, if any does: the active window of the active
/// workspace.
pub open spec fn front_window(
    output: Seq<char>,
    windows: Seq<Window>,
    workspaces: Seq<Workspace>,
) -> Option<int> {
    match active_workspace(workspaces, output, 0) {
        Some(w) => match workspaces[w].active_window_id {
            Some(id) => window_on(windows, id, workspaces[w].id, 0),
            None => None,
        },
        None => None,
    }
}

/// Finds the window whose size tells whether an output shows a window in full screen.
pub fn fullscreen_candidate(
    output: &str,
    windows: &Vec<Window>,
    workspaces: &Vec<Workspace>,
) -> (r: Option<usize>)
    ensures
        match r {
            Some(i) => i < windows@.len() && front_window(output@, windows@, workspaces@) == Some(
                i as int,
            ),
            None => front_window(output@, windows@, workspaces@) is None,
        },
{
    let w: usize = match find_active(output, workspaces) {
        Some(w) => w,
        None => return None,
    };
    match workspaces[w].active_window_id {
        Some(id) => find_window(windows, id, workspaces[w].id),
        None => None,
    }
}

fn find_active(output: &str, workspaces: &Vec<Workspace>) -> (r: Option<usize>)
    ensures
        match r {
            Some(i) => i < workspaces@.len() && active_workspace(workspaces@, output@, 0) == Some(
                i as int,
            ),
            None => active_workspace(workspaces@, output@, 0) is None,
        },
{
    let mut i: usize = 0;
    while i < workspaces.len()
        invariant
            i <= workspaces@.len(),
            active_workspace(workspaces@, output@, 0) == active_workspace(
                workspaces@,
                output@,
                i as int,
            ),
        decreases workspaces@.len() - i,
    {
        let on_output = match &workspaces[i].output {
            Some(own) => same(own, output),
            None => false,
        };
        if workspaces[i].is_active && on_output {
            return Some(i);
        }
        i = i + 1;
    }
    None
}

fn find_window(windows: &Vec<Window>, id: u64, workspace: u64) -> (r: Option<usize>)
    ensures
        match r {
            Some(i) => i < windows@.len() && window_on(windows@, id, workspace, 0) == Some(
                i as int,
            ),
            None => window_on(windows@, id, workspace, 0) is None,
        },
{
    let mut i: usize = 0;
    while i < windows.len()
        invariant
            i <= windows@.len(),
            window_on(windows@, id, workspace, 0) == window_on(windows@, id, workspace, i as int),
        decreases windows@.len() - i,
    {
        let there = match windows[i].workspace_id {
            Some(own) => own == workspace,
            None => false,
        };
        if windows[i].id == id && there {
            return Some(i);
        }
        i = i + 1;
    }
    None
}

/// Whether a layout is called by a name, alone or with more said behind it.
pub open spec fn is_called(name: Seq<char>, alias: Seq<char>) -> bool {
    ||| name == alias
    ||| begins_with(name, alias.push(' '))
    ||| begins_with(name, alias.push('('))
}

proof fn calls_are_hits(name: Seq<char>, alias: Seq<char>)
    ensures
        is_called(name, alias) == alias_hits(name, alias),
        is_called(name, alias) ==> name.len() >= alias.len() && forall|k: int|
            0 <= k < alias.len() ==> #[trigger] name[k] == alias[k],
{
    let n = alias.len() as int;
    if is_called(name, alias) && name != alias {
        assert(name.subrange(0, n + 1).take(n) =~= name.subrange(0, n));
        assert(alias.push(' ').take(n) =~= alias);
        assert(alias.push('(').take(n) =~= alias);
        assert(name.subrange(0, n + 1)[n] == name[n]);
    }
    if alias_hits(name, alias) && name != alias {
        assert(name.subrange(0, n + 1) =~= name.subrange(0, n).push(name[n]));
    }
    if is_called(name, alias) {
        assert forall|k: int| 0 <= k < n implies #[trigger] name[k] == alias[k] by {
            if name != alias {
                assert(name.subrange(0, n)[k] == alias[k]);
            }
        }
    }
}

/// A layout that is called by one of the names of a language gets the code of that language, and
/// no other does; of English, American and British come first.
#[verifier::rlimit(60)]
pub proof fn languages_have_their_codes(name: &str, r: Option<&'static str>)
    requires
        call_ensures(known_layout_code, (name,), r),
    ensures
        (opt_str(r) == Some("US"@)) == (is_called(name@, "english (us)"@) || is_called(name@, "english (united states)"@) || is_called(name@, "us"@)),
        (opt_str(r) == Some("GB"@)) == (is_called(name@, "english (uk)"@) || is_called(name@, "english (gb)"@) || is_called(name@, "english (united kingdom)"@) || is_called(name@, "british"@) || is_called(name@, "gb"@)),
        (opt_str(r) == Some("EN"@)) == ((is_called(name@, "english"@) || is_called(name@, "en"@)) && opt_str(r) != Some("US"@) && opt_str(r) != Some("GB"@)),
        (opt_str(r) == Some("RU"@)) == (is_called(name@, "russian"@) || is_called(name@, "ru"@)),
        (opt_str(r) == Some("UA"@)) == (is_called(name@, "ukrainian"@) || is_called(name@, "ukraine"@) || is_called(name@, "ua"@)),
        (opt_str(r) == Some("DE"@)) == (is_called(name@, "german"@) || is_called(name@, "deutsch"@) || is_called(name@, "de"@)),
        (opt_str(r) == Some("FR"@)) == (is_called(name@, "french"@) || is_called(name@, "français"@) || is_called(name@, "francais"@) || is_called(name@, "fr"@)),
        (opt_str(r) == Some("ES"@)) == (is_called(name@, "spanish"@) || is_called(name@, "español"@) || is_called(name@, "espanol"@) || is_called(name@, "es"@)),
        (opt_str(r) == Some("IT"@)) == (is_called(name@, "italian"@) || is_called(name@, "italiano"@) || is_called(name@, "it"@)),
        (opt_str(r) == Some("PL"@)) == (is_called(name@, "polish"@) || is_called(name@, "polski"@) || is_called(name@, "pl"@)),
        (opt_str(r) == Some("CZ"@)) == (is_called(name@, "czech"@) || is_called(name@, "cs"@) || is_called(name@, "cz"@)),
        (opt_str(r) == Some("TR"@)) == (is_called(name@, "turkish"@) || is_called(name@, "tr"@)),
        (opt_str(r) == Some("NL"@)) == (is_called(name@, "dutch"@) || is_called(name@, "nederlands"@) || is_called(name@, "nl"@)),
{
    reveal_strlit("US");
    reveal_strlit("GB");
    reveal_strlit("EN");
    reveal_strlit("RU");
    reveal_strlit("UA");
    reveal_strlit("DE");
    reveal_strlit("FR");
    reveal_strlit("ES");
    reveal_strlit("IT");
    reveal_strlit("PL");
    reveal_strlit("CZ");
    reveal_strlit("TR");
    reveal_strlit("NL");
    assert("US"@.len() == 2 && "US"@[0] == 'U' && "US"@[1] == 'S');
    assert("GB"@.len() == 2 && "GB"@[0] == 'G' && "GB"@[1] == 'B');
    assert("EN"@.len() == 2 && "EN"@[0] == 'E' && "EN"@[1] == 'N');
    assert("RU"@.len() == 2 && "RU"@[0] == 'R' && "RU"@[1] == 'U');
    assert("UA"@.len() == 2 && "UA"@[0] == 'U' && "UA"@[1] == 'A');
    assert("DE"@.len() == 2 && "DE"@[0] == 'D' && "DE"@[1] == 'E');
    assert("FR"@.len() == 2 && "FR"@[0] == 'F' && "FR"@[1] == 'R');
    assert("ES"@.len() == 2 && "ES"@[0] == 'E' && "ES"@[1] == 'S');
    assert("IT"@.len() == 2 && "IT"@[0] == 'I' && "IT"@[1] == 'T');
    assert("PL"@.len() == 2 && "PL"@[0] == 'P' && "PL"@[1] == 'L');
    assert("CZ"@.len() == 2 && "CZ"@[0] == 'C' && "CZ"@[1] == 'Z');
    assert("TR"@.len() == 2 && "TR"@[0] == 'T' && "TR"@[1] == 'R');
    assert("NL"@.len() == 2 && "NL"@[0] == 'N' && "NL"@[1] == 'L');
    reveal_strlit("english (us)");
    assert("english (us)"@.len() == 12 && "english (us)"@[0] == 'e' && "english (us)"@[1] == 'n' && "english (us)"@[9] == 'u' && "english (us)"@[10] == 's');
    calls_are_hits(name@, "english (us)"@);
    reveal_strlit("english (united states)");
    assert("english (united states)"@.len() == 23 && "english (united states)"@[0] == 'e' && "english (united states)"@[1] == 'n' && "english (united states)"@[9] == 'u' && "english (united states)"@[10] == 'n' && "english (united states)"@[16] == 's');
    calls_are_hits(name@, "english (united states)"@);
    reveal_strlit("us");
    assert("us"@.len() == 2 && "us"@[0] == 'u' && "us"@[1] == 's');
    calls_are_hits(name@, "us"@);
    reveal_strlit("english (uk)");
    assert("english (uk)"@.len() == 12 && "english (uk)"@[0] == 'e' && "english (uk)"@[1] == 'n' && "english (uk)"@[9] == 'u' && "english (uk)"@[10] == 'k');
    calls_are_hits(name@, "english (uk)"@);
    reveal_strlit("english (gb)");
    assert("english (gb)"@.len() == 12 && "english (gb)"@[0] == 'e' && "english (gb)"@[1] == 'n' && "english (gb)"@[9] == 'g' && "english (gb)"@[10] == 'b');
    calls_are_hits(name@, "english (gb)"@);
    reveal_strlit("english (united kingdom)");
    assert("english (united kingdom)"@.len() == 24 && "english (united kingdom)"@[0] == 'e' && "english (united kingdom)"@[1] == 'n' && "english (united kingdom)"@[9] == 'u' && "english (united kingdom)"@[10] == 'n' && "english (united kingdom)"@[16] == 'k');
    calls_are_hits(name@, "english (united kingdom)"@);
    reveal_strlit("british");
    assert("british"@.len() == 7 && "british"@[0] == 'b' && "british"@[1] == 'r');
    calls_are_hits(name@, "british"@);
    reveal_strlit("gb");
    assert("gb"@.len() == 2 && "gb"@[0] == 'g' && "gb"@[1] == 'b');
    calls_are_hits(name@, "gb"@);
    reveal_strlit("english");
    assert("english"@.len() == 7 && "english"@[0] == 'e' && "english"@[1] == 'n');
    calls_are_hits(name@, "english"@);
    reveal_strlit("en");
    assert("en"@.len() == 2 && "en"@[0] == 'e' && "en"@[1] == 'n');
    calls_are_hits(name@, "en"@);
    reveal_strlit("russian");
    assert("russian"@.len() == 7 && "russian"@[0] == 'r' && "russian"@[1] == 'u');
    calls_are_hits(name@, "russian"@);
    reveal_strlit("ru");
    assert("ru"@.len() == 2 && "ru"@[0] == 'r' && "ru"@[1] == 'u');
    calls_are_hits(name@, "ru"@);
    reveal_strlit("ukrainian");
    assert("ukrainian"@.len() == 9 && "ukrainian"@[0] == 'u' && "ukrainian"@[1] == 'k');
    calls_are_hits(name@, "ukrainian"@);
    reveal_strlit("ukraine");
    assert("ukraine"@.len() == 7 && "ukraine"@[0] == 'u' && "ukraine"@[1] == 'k');
    calls_are_hits(name@, "ukraine"@);
    reveal_strlit("ua");
    assert("ua"@.len() == 2 && "ua"@[0] == 'u' && "ua"@[1] == 'a');
    calls_are_hits(name@, "ua"@);
    reveal_strlit("german");
    assert("german"@.len() == 6 && "german"@[0] == 'g' && "german"@[1] == 'e');
    calls_are_hits(name@, "german"@);
    reveal_strlit("deutsch");
    assert("deutsch"@.len() == 7 && "deutsch"@[0] == 'd' && "deutsch"@[1] == 'e');
    calls_are_hits(name@, "deutsch"@);
    reveal_strlit("de");
    assert("de"@.len() == 2 && "de"@[0] == 'd' && "de"@[1] == 'e');
    calls_are_hits(name@, "de"@);
    reveal_strlit("french");
    assert("french"@.len() == 6 && "french"@[0] == 'f' && "french"@[1] == 'r');
    calls_are_hits(name@, "french"@);
    reveal_strlit("français");
    assert("français"@.len() == 8 && "français"@[0] == 'f' && "français"@[1] == 'r');
    calls_are_hits(name@, "français"@);
    reveal_strlit("francais");
    assert("francais"@.len() == 8 && "francais"@[0] == 'f' && "francais"@[1] == 'r');
    calls_are_hits(name@, "francais"@);
    reveal_strlit("fr");
    assert("fr"@.len() == 2 && "fr"@[0] == 'f' && "fr"@[1] == 'r');
    calls_are_hits(name@, "fr"@);
    reveal_strlit("spanish");
    assert("spanish"@.len() == 7 && "spanish"@[0] == 's' && "spanish"@[1] == 'p');
    calls_are_hits(name@, "spanish"@);
    reveal_strlit("español");
    assert("español"@.len() == 7 && "español"@[0] == 'e' && "español"@[1] == 's');
    calls_are_hits(name@, "español"@);
    reveal_strlit("espanol");
    assert("espanol"@.len() == 7 && "espanol"@[0] == 'e' && "espanol"@[1] == 's');
    calls_are_hits(name@, "espanol"@);
    reveal_strlit("es");
    assert("es"@.len() == 2 && "es"@[0] == 'e' && "es"@[1] == 's');
    calls_are_hits(name@, "es"@);
    reveal_strlit("italian");
    assert("italian"@.len() == 7 && "italian"@[0] == 'i' && "italian"@[1] == 't');
    calls_are_hits(name@, "italian"@);
    reveal_strlit("italiano");
    assert("italiano"@.len() == 8 && "italiano"@[0] == 'i' && "italiano"@[1] == 't');
    calls_are_hits(name@, "italiano"@);
    reveal_strlit("it");
    assert("it"@.len() == 2 && "it"@[0] == 'i' && "it"@[1] == 't');
    calls_are_hits(name@, "it"@);
    reveal_strlit("polish");
    assert("polish"@.len() == 6 && "polish"@[0] == 'p' && "polish"@[1] == 'o');
    calls_are_hits(name@, "polish"@);
    reveal_strlit("polski");
    assert("polski"@.len() == 6 && "polski"@[0] == 'p' && "polski"@[1] == 'o');
    calls_are_hits(name@, "polski"@);
    reveal_strlit("pl");
    assert("pl"@.len() == 2 && "pl"@[0] == 'p' && "pl"@[1] == 'l');
    calls_are_hits(name@, "pl"@);
    reveal_strlit("czech");
    assert("czech"@.len() == 5 && "czech"@[0] == 'c' && "czech"@[1] == 'z');
    calls_are_hits(name@, "czech"@);
    reveal_strlit("cs");
    assert("cs"@.len() == 2 && "cs"@[0] == 'c' && "cs"@[1] == 's');
    calls_are_hits(name@, "cs"@);
    reveal_strlit("cz");
    assert("cz"@.len() == 2 && "cz"@[0] == 'c' && "cz"@[1] == 'z');
    calls_are_hits(name@, "cz"@);
    reveal_strlit("turkish");
    assert("turkish"@.len() == 7 && "turkish"@[0] == 't' && "turkish"@[1] == 'u');
    calls_are_hits(name@, "turkish"@);
    reveal_strlit("tr");
    assert("tr"@.len() == 2 && "tr"@[0] == 't' && "tr"@[1] == 'r');
    calls_are_hits(name@, "tr"@);
    reveal_strlit("dutch");
    assert("dutch"@.len() == 5 && "dutch"@[0] == 'd' && "dutch"@[1] == 'u');
    calls_are_hits(name@, "dutch"@);
    reveal_strlit("nederlands");
    assert("nederlands"@.len() == 10 && "nederlands"@[0] == 'n' && "nederlands"@[1] == 'e');
    calls_are_hits(name@, "nederlands"@);
    reveal_strlit("nl");
    assert("nl"@.len() == 2 && "nl"@[0] == 'n' && "nl"@[1] == 'l');
    calls_are_hits(name@, "nl"@);
}

/// A layout without a name is shown by two dashes, a known one by its code, and another of two
/// letters by these in upper case; the rest by the first two letters of the name.
pub proof fn layouts_have_short_names(
    raw: &str,
    lower: &str,
    code: Option<&'static str>,
    r: String,
    blank: &str,
    none: String,
)
    requires
        call_ensures(known_layout_code, (lower,), code),
        call_ensures(compact_from_lower, (raw, lower), r),
        is_blank(blank@),
        call_ensures(compact_layout_name, (blank,), none),
    ensures
        none@ == "--"@,
        code matches Some(text) ==> r@ == text@,
        code is None && raw@.len() == 2 && is_ascii_letter(raw@[0]) && is_ascii_letter(raw@[1])
            ==> r@.len() == 2 && r@[0] == upper_char(raw@[0]) && r@[1] == upper_char(raw@[1]),
        code is None && raw@.len() > 2 && is_ascii_letter(raw@[0]) && is_ascii_letter(raw@[1])
            ==> r@ == seq![upper_char(raw@[0]), upper_char(raw@[1])],
{
    blank_texts_trim_to_nothing(blank@);
    if raw@.len() > 2 && is_ascii_letter(raw@[0]) && is_ascii_letter(raw@[1]) {
        first_letters(raw@);
        assert(initials(raw@) =~= seq![upper_char(raw@[0]), upper_char(raw@[1])]);
    }
}

proof fn first_letters(s: Seq<char>)
    requires
        s.len() >= 2,
        is_ascii_letter(s[0]),
        is_ascii_letter(s[1]),
    ensures
        letters(s).len() >= 2,
        letters(s)[0] == s[0],
        letters(s)[1] == s[1],
    decreases s.len(),
{
    if s.len() == 2 {
        let one = s.drop_last();
        assert(one.drop_last() =~= Seq::<char>::empty());
        assert(letters(Seq::<char>::empty()) =~= Seq::<char>::empty());
        assert(letters(one) =~= seq![s[0]]);
    } else {
        first_letters(s.drop_last());
    }
}

/// Windows are listed by their ids, each once, and all that are known.
pub proof fn windows_are_listed_by_id(state: WindowsState, r: Vec<Window>, i: int, j: int, id: u64)
    requires
        call_ensures(sorted_windows, (&state,), r),
        0 <= i < j < r@.len(),
    ensures
        r@[i].id < r@[j].id,
        window_table(state).dom().contains(id) == exists|k: int|
            0 <= k < r@.len() && (#[trigger] r@[k]).id == id,
{
    assert(r@[i].le(&r@[j]));
}

/// Workspaces of one output are listed in their places.
pub proof fn workspaces_are_listed_by_place(
    state: WorkspacesState,
    r: Vec<Workspace>,
    i: int,
    j: int,
)
    requires
        call_ensures(sorted_workspaces, (&state,), r),
        0 <= i < j < r@.len(),
    ensures
        opt_text(r@[i].output) == opt_text(r@[j].output) ==> r@[i].idx <= r@[j].idx,
        r@[j].output is None ==> r@[i].output is None,
        r@[i].output is Some && r@[j].output is Some ==> text_le(
            r@[i].output->0@,
            r@[j].output->0@,
        ),
        r@[i].id != r@[j].id,
{
    assert(r@[i].le(&r@[j]));
    if r@[i].output is Some {
        text_le_reflexive(r@[i].output->0@);
    }
    if r@[i].id == r@[j].id {
        assert(holds_workspaces(r@, workspace_table(state)));
    }
}

/// A window that was closed is told of no more, and the others are as they were.
pub proof fn closed_windows_are_gone(
    stream: &mut EventStream,
    event: niri_ipc::Event,
    r: Vec<Update>,
    id: u64,
    other: u64,
)
    requires
        event_facts(event) == EventFacts::WindowClosed(id),
        call_ensures(EventStream::feed, (stream, event), r),
        other != id,
    ensures
        r@.len() == 1,
        r@[0] matches Update::Windows(list) && forall|i: int|
            0 <= i < list@.len() ==> (#[trigger] list@[i]).id != id,
        window_table(final(stream).windows).dom().contains(other) == window_table(
            old(stream).windows,
        ).dom().contains(other),
        workspace_table(final(stream).workspaces) == workspace_table(old(stream).workspaces),
{
    let table = window_table(final(stream).windows);
    assert(!table.dom().contains(id));
    let list = r@[0]->Windows_0;
    assert forall|i: int| 0 <= i < list@.len() implies (#[trigger] list@[i]).id != id by {
        assert(table.dom().contains(list@[i].id));
    }
}

/// The focus is told of one window at most: of the one that has it, and of none where none has.
pub proof fn one_window_has_the_focus(
    stream: &mut EventStream,
    event: niri_ipc::Event,
    r: Vec<Update>,
    focused: Option<u64>,
)
    requires
        event_facts(event) == EventFacts::WindowFocusChanged(focused),
        call_ensures(EventStream::feed, (stream, event), r),
    ensures
        r@.len() == 1,
        r@[0] matches Update::Windows(list) && forall|i: int|
            0 <= i < list@.len() ==> (#[trigger] list@[i]).is_focused == (focused == Some(
                list@[i].id,
            )),
{
    let table = window_table(final(stream).windows);
    let before = window_table(old(stream).windows);
    let list = r@[0]->Windows_0;
    assert forall|i: int| 0 <= i < list@.len() implies (#[trigger] list@[i]).is_focused == (focused
        == Some(list@[i].id)) by {
        let id = list@[i].id;
        assert(table.dom().contains(id));
        assert(before.dom().contains(id));
        assert(table[id] == list@[i]@);
        assert(list@[i]@.is_focused == list@[i].is_focused);
    }
}

/// A switch of the layout is told by the short name of the layout at that place, and each event is
/// told as what it is about and nothing else.
pub proof fn events_are_told_as_what_they_are(
    stream: &mut EventStream,
    event: niri_ipc::Event,
    r: Vec<Update>,
)
    requires
        call_ensures(EventStream::feed, (stream, event), r),
    ensures
        r@.len() <= 1,
        event_facts(event) is Other ==> r@.len() == 0,
        event_facts(event) is WorkspacesChanged || event_facts(event) is WorkspaceActivated
            || event_facts(event) is WorkspaceUrgencyChanged
            || event_facts(event) is WorkspaceActiveWindowChanged ==> r@.len() == 1
            && r@[0] is Workspaces && layout_table(final(stream).layouts) == layout_table(
            old(stream).layouts,
        ),
        event_facts(event) is WindowsChanged || event_facts(event) is WindowOpenedOrChanged
            || event_facts(event) is WindowUrgencyChanged
            || event_facts(event) is WindowLayoutsChanged ==> r@.len() == 1 && r@[0] is Windows,
        event_facts(event) matches EventFacts::KeyboardLayoutSwitched(idx) ==> (layout_table(
            old(stream).layouts,
        ) matches Some((names, _)) ==> (idx < names.len() ==> r@.len() == 1 && (
        r@[0] matches Update::KeyboardLayout(name) && name@ == compact_name(names[idx as int])))),
{
}

/// A request was taken exactly where the compositor says so; else the message ends with what it
/// said, and tells an answer that was not expected from a refusal.
pub proof fn replies_are_told(reply: ReplyFacts, expected: &str, r: Result<(), String>)
    requires
        call_ensures(reply_result, (reply, expected), r),
    ensures
        (r is Ok) == (reply is Handled),
        reply matches ReplyFacts::Refused(text) ==> (r matches Err(message) && ends_with(
            message@,
            text@,
        ) && begins_with(message@, "niri IPC error"@)),
        reply matches ReplyFacts::Unexpected(text) ==> (r matches Err(message) && ends_with(
            message@,
            text@,
        ) && has_text(message@, expected@)),
{
    match reply {
        ReplyFacts::Refused(text) => {
            reveal_strlit("niri IPC error: ");
            reveal_strlit("niri IPC error");
            let all = "niri IPC error: "@ + text@;
            parts_show("niri IPC error: "@, text@, Seq::empty());
            assert(all.subrange(0, 14) =~= "niri IPC error"@);
        },
        ReplyFacts::Unexpected(text) => {
            parts_show("unexpected niri "@, expected@, " response: "@ + text@);
            parts_show("unexpected niri "@ + expected@, " response: "@, text@);
            assert("unexpected niri "@ + expected@ + " response: "@ + text@ =~= "unexpected niri "@
                + expected@ + (" response: "@ + text@));
        },
        ReplyFacts::Handled => {},
    }
}

/// The stream is granted exactly where its answer says so.
pub proof fn streams_are_granted_by_their_answer(line: &str, r: Result<(), String>)
    requires
        call_ensures(stream_granted, (line,), r),
    ensures
        (r is Ok) == (niri_reply(line@) matches Ok(kind) && kind is Handled),
        niri_reply(line@) matches Err(reason) ==> (r matches Err(message) && message@ == reason),
{
}

proof fn active_is_on_the_output(workspaces: Seq<Workspace>, output: Seq<char>, from: int)
    requires
        0 <= from,
    ensures
        match active_workspace(workspaces, output, from) {
            Some(i) => from <= i < workspaces.len() && workspaces[i].is_active && opt_text(
                workspaces[i].output,
            ) == Some(output),
            None => forall|i: int|
                from <= i < workspaces.len() ==> !((#[trigger] workspaces[i]).is_active && opt_text(
                    workspaces[i].output,
                ) == Some(output)),
        },
    decreases workspaces.len() - from,
{
    if from < workspaces.len() {
        active_is_on_the_output(workspaces, output, from + 1);
    }
}

proof fn window_is_on_the_workspace(windows: Seq<Window>, id: u64, workspace: u64, from: int)
    requires
        0 <= from,
    ensures
        match window_on(windows, id, workspace, from) {
            Some(i) => from <= i < windows.len() && windows[i].id == id && windows[i].workspace_id
                == Some(workspace),
            None => forall|i: int|
                from <= i < windows.len() ==> !((#[trigger] windows[i]).id == id
                    && windows[i].workspace_id == Some(workspace)),
        },
    decreases windows.len() - from,
{
    if from < windows.len() {
        window_is_on_the_workspace(windows, id, workspace, from + 1);
    }
}

/// The window that can cover an output is on a workspace of that output that is shown, and is the
/// one in use there.
pub proof fn covering_windows_are_in_use(
    output: &str,
    windows: Vec<Window>,
    workspaces: Vec<Workspace>,
    r: Option<usize>,
)
    requires
        call_ensures(fullscreen_candidate, (output, &windows, &workspaces), r),
    ensures
        r matches Some(i) ==> i < windows@.len() && exists|w: int|
            0 <= w < workspaces@.len() && (#[trigger] workspaces@[w]).is_active && opt_text(
                workspaces@[w].output,
            ) == Some(output@) && workspaces@[w].active_window_id == Some(windows@[i as int].id)
                && windows@[i as int].workspace_id == Some(workspaces@[w].id),
        (forall|w: int|
            0 <= w < workspaces@.len() ==> opt_text((#[trigger] workspaces@[w]).output) != Some(
                output@,
            )) ==> r is None,
{
    active_is_on_the_output(workspaces@, output@, 0);
    if let Some(w) = active_workspace(workspaces@, output@, 0) {
        if let Some(id) = workspaces@[w].active_window_id {
            window_is_on_the_workspace(windows@, id, workspaces@[w].id, 0);
        }
    }
}

/// A line that is no event, or speaks of what is not known, changes nothing and is told; every
/// other is taken.
pub proof fn bad_lines_change_nothing(
    stream: &mut EventStream,
    line: &str,
    r: Result<Vec<Update>, StreamError>,
)
    requires
        call_ensures(EventStream::feed_line, (stream, line), r),
    ensures
        r is Err ==> *final(stream) == *old(stream),
        (r matches Err(StreamError::Malformed(_))) == (niri_event(line@) is Err),
        niri_event(line@) matches Ok(facts) ==> (facts is WindowsChanged ==> (r matches Ok(updates)
            && updates@.len() == 1 && updates@[0] is Windows)),
        niri_event(line@) matches Ok(facts) ==> (facts matches EventFacts::WindowClosed(id) ==> (
        r is Ok) == window_table(old(stream).windows).dom().contains(id)),
{
}

/// The layout in use is the one at its place, and none where there are no layouts.
pub proof fn layouts_in_use_are_shown(
    state: KeyboardLayoutsState,
    r: Option<String>,
    names: Seq<Seq<char>>,
    idx: u8,
)
    requires
        call_ensures(current_compact_layout, (&state,), r),
    ensures
        layout_table(state) is None ==> r is None,
        layout_table(state) == Some((names, idx)) && idx < names.len() ==> opt_text(r) == Some(
            compact_name(names[idx as int]),
        ),
        layout_table(state) == Some((names, idx)) && names.len() == 0 ==> r is None,
{
}

} // verus!
