//! The application launcher: its catalog, its categories and what its list shows.
use crate::audio::document_keys;
use crate::gate::{bumped, Generation};
use crate::json::{
    json_list_written, json_parsed, json_text_list, parse_json, reads_as, text_list_model,
    text_list_of_model, write_json_list,
};
use crate::sort::{sorted_has_the_same_members, stable_sort, stably_sorted, Ranked};
use crate::text::{
    ascii_lower, ascii_upper, begins_with, blank_texts_have_no_words, blank_texts_trim_to_nothing,
    concat2, concat3, concat4, contains, decimal, ends_with, has_text, is_ascii, is_ascii_text,
    is_blank, is_space, is_word, joined, joined_words_in_lower_case, lower_text, lowercase_char,
    lowered_char, lowering_forgets_case, not_after, numeral, occurs_at, opt_str, opt_text, or_empty,
    parts_show, pieces, push_text, same, split_pieces, split_words, squeezed, text_le,
    text_le_total, text_le_transitive, text_or_empty, texts, to_ascii_lower, to_lowercase, trim,
    trimmed, trimmed_is_idempotent, trimming_keeps_words, words, words_are_solid,
    words_in_upper_case, words_keep_ascii, words_of_joined_words,
};
use crate::text_set::TextSet;
use vstd::prelude::*;

verus! {

pub const ICON_LAUNCHER: &'static str = "\u{f003b}";

pub const FAVORITES_STATE_FILE: &'static str = "favorite-launcher-apps.json";

pub const HIDDEN_STATE_FILE: &'static str = "hidden-launcher-apps.json";

pub const ICON_HIDE: &'static str = "\u{f06d1}";

pub const ICON_BACK: &'static str = "\u{f004d}";

pub const ICON_RESTORE: &'static str = "\u{f05e1}";

pub const ICON_FAVORITE: &'static str = "\u{f04ce}";

pub const ICON_FAVORITE_OUTLINE: &'static str = "\u{f04d2}";

/// How wide a popup of the bar is.
pub const BAR_POPUP_WIDTH: i32 = 392;

/// How wide the place of the favorites' button is.
pub const FAVORITES_SLOT_WIDTH: i32 = 42;

/// How many favorites stand in a row.
pub const FAVORITES_COLUMNS: usize = 5;

/// How many applications are looked at before others get their turn.
pub const APPS_PER_IDLE: usize = 12;

#[derive(Clone, Copy, Debug, PartialEq, Eq, Structural)]
pub enum LauncherCategory {
    Favorites,
    All,
    Internet,
    Media,
    Office,
    Games,
    System,
}

impl LauncherCategory {
    pub open spec fn position(self) -> usize {
        match self {
            LauncherCategory::Favorites => 0,
            LauncherCategory::All => 1,
            LauncherCategory::Internet => 2,
            LauncherCategory::Media => 3,
            LauncherCategory::Office => 4,
            LauncherCategory::Games => 5,
            LauncherCategory::System => 6,
        }
    }

    /// The categories in the order of their buttons.
    pub fn buttons() -> (r: Vec<LauncherCategory>)
        ensures
            r@.len() == 7,
            forall|i: int| 0 <= i < 7 ==> (#[trigger] r@[i]).position() == i,
    {
        let mut out: Vec<LauncherCategory> = Vec::new();
        out.push(LauncherCategory::Favorites);
        out.push(LauncherCategory::All);
        out.push(LauncherCategory::Internet);
        out.push(LauncherCategory::Media);
        out.push(LauncherCategory::Office);
        out.push(LauncherCategory::Games);
        out.push(LauncherCategory::System);
        out
    }

    pub fn index(self) -> (r: usize)
        ensures
            r == self.position(),
    {
        match self {
            LauncherCategory::Favorites => 0,
            LauncherCategory::All => 1,
            LauncherCategory::Internet => 2,
            LauncherCategory::Media => 3,
            LauncherCategory::Office => 4,
            LauncherCategory::Games => 5,
            LauncherCategory::System => 6,
        }
    }

    pub open spec fn label_text(self) -> Seq<char> {
        match self {
            LauncherCategory::Favorites => "Favorites"@,
            LauncherCategory::All => "All"@,
            LauncherCategory::Internet => "Web"@,
            LauncherCategory::Media => "Media"@,
            LauncherCategory::Office => "Office"@,
            LauncherCategory::Games => "Games"@,
            LauncherCategory::System => "System"@,
        }
    }

    pub fn label(self) -> (r: &'static str)
        ensures
            r@ == self.label_text(),
    {
        match self {
            LauncherCategory::Favorites => "Favorites",
            LauncherCategory::All => "All",
            LauncherCategory::Internet => "Web",
            LauncherCategory::Media => "Media",
            LauncherCategory::Office => "Office",
            LauncherCategory::Games => "Games",
            LauncherCategory::System => "System",
        }
    }

    /// Whether a desktop entry's category, in lower case, belongs here.
    pub open spec fn takes(self, name: Seq<char>) -> bool {
        match self {
            LauncherCategory::Favorites => false,
            LauncherCategory::All => false,
            LauncherCategory::Internet => name == "network"@ || name == "webbrowser"@ || name
                == "email"@ || name == "chat"@ || name == "instantmessaging"@ || name
                == "filetransfer"@ || name == "p2p"@,
            LauncherCategory::Media => name == "audiovideo"@ || name == "audio"@ || name
                == "video"@ || name == "player"@ || name == "recorder"@ || name == "music"@ || name
                == "photography"@ || name == "graphics"@,
            LauncherCategory::Office => name == "office"@ || name == "wordprocessor"@ || name
                == "spreadsheet"@ || name == "presentation"@ || name == "calendar"@ || name
                == "contactmanagement"@ || name == "education"@ || name == "science"@,
            LauncherCategory::Games => name == "game"@,
            LauncherCategory::System => name == "system"@ || name == "settings"@ || name
                == "utility"@ || name == "security"@ || name == "monitor"@ || name
                == "terminalemulator"@ || name == "filemanager"@,
        }
    }

    fn matches(self, name: &str) -> (r: bool)
        ensures
            r == self.takes(name@),
    {
        match self {
            LauncherCategory::Favorites => false,
            LauncherCategory::All => false,
            LauncherCategory::Internet => same(name, "network") || same(name, "webbrowser") || same(
                name,
                "email",
            ) || same(name, "chat") || same(name, "instantmessaging") || same(name, "filetransfer")
                || same(name, "p2p"),
            LauncherCategory::Media => same(name, "audiovideo") || same(name, "audio") || same(
                name,
                "video",
            ) || same(name, "player") || same(name, "recorder") || same(name, "music") || same(
                name,
                "photography",
            ) || same(name, "graphics"),
            LauncherCategory::Office => same(name, "office") || same(name, "wordprocessor") || same(
                name,
                "spreadsheet",
            ) || same(name, "presentation") || same(name, "calendar") || same(
                name,
                "contactmanagement",
            ) || same(name, "education") || same(name, "science"),
            LauncherCategory::Games => same(name, "game"),
            LauncherCategory::System => same(name, "system") || same(name, "settings") || same(
                name,
                "utility",
            ) || same(name, "security") || same(name, "monitor") || same(name, "terminalemulator")
                || same(name, "filemanager"),
        }
    }

    /// Whether one of a desktop entry's categories belongs here.
    pub open spec fn takes_any(self, categories: Seq<Seq<char>>) -> bool {
        exists|i: int|
            0 <= i < categories.len() && self.takes(ascii_lower(#[trigger] categories[i]))
    }

    fn claims(self, categories: &Vec<String>) -> (r: bool)
        ensures
            r == self.takes_any(texts(categories@)),
    {
        let mut i: usize = 0;
        while i < categories.len()
            invariant
                i <= categories@.len(),
                forall|k: int|
                    0 <= k < i ==> !self.takes(ascii_lower(#[trigger] texts(categories@)[k])),
            decreases categories@.len() - i,
        {
            let name = to_ascii_lower(&categories[i]);
            if self.matches(&name) {
                assert(self.takes(ascii_lower(texts(categories@)[i as int])));
                return true;
            }
            i = i + 1;
        }
        false
    }
}

/// The category of an application: games before the rest.
pub open spec fn classified(categories: Seq<Seq<char>>) -> Option<LauncherCategory> {
    if LauncherCategory::Games.takes_any(categories) {
        Some(LauncherCategory::Games)
    } else if LauncherCategory::Internet.takes_any(categories) {
        Some(LauncherCategory::Internet)
    } else if LauncherCategory::Media.takes_any(categories) {
        Some(LauncherCategory::Media)
    } else if LauncherCategory::Office.takes_any(categories) {
        Some(LauncherCategory::Office)
    } else if LauncherCategory::System.takes_any(categories) {
        Some(LauncherCategory::System)
    } else {
        None
    }
}

pub fn classify_category(categories: &Vec<String>) -> (r: Option<LauncherCategory>)
    ensures
        r == classified(texts(categories@)),
{
    if LauncherCategory::Games.claims(categories) {
        Some(LauncherCategory::Games)
    } else if LauncherCategory::Internet.claims(categories) {
        Some(LauncherCategory::Internet)
    } else if LauncherCategory::Media.claims(categories) {
        Some(LauncherCategory::Media)
    } else if LauncherCategory::Office.claims(categories) {
        Some(LauncherCategory::Office)
    } else if LauncherCategory::System.claims(categories) {
        Some(LauncherCategory::System)
    } else {
        None
    }
}

/// A text with each character in lower case.
pub open spec fn lowered(s: Seq<char>) -> Seq<char>
    decreases s.len(),
{
    if s.len() == 0 {
        Seq::empty()
    } else {
        lowered(s.drop_last()) + lowered_char(s.last())
    }
}

/// A text with one more word behind it, a space between them where there is a text.
pub open spec fn with_word(text: Seq<char>, word: Seq<char>) -> Seq<char> {
    if text.len() == 0 {
        text + lowered(word)
    } else {
        text + " "@ + lowered(word)
    }
}

/// A text with more words behind it.
pub open spec fn with_words(text: Seq<char>, more: Seq<Seq<char>>) -> Seq<char>
    decreases more.len(),
{
    if more.len() == 0 {
        text
    } else {
        with_word(with_words(text, more.drop_last()), more.last())
    }
}

/// The words of all fields in lower case, one space between two.
pub open spec fn search_text(fields: Seq<Seq<char>>) -> Seq<char>
    decreases fields.len(),
{
    if fields.len() == 0 {
        Seq::empty()
    } else {
        with_words(search_text(fields.drop_last()), words(fields.last()))
    }
}

/// The words of all fields, in order.
pub open spec fn field_words(fields: Seq<Seq<char>>) -> Seq<Seq<char>>
    decreases fields.len(),
{
    if fields.len() == 0 {
        Seq::empty()
    } else {
        field_words(fields.drop_last()) + words(fields.last())
    }
}

/// Fields of ASCII characters are searched by their words in lower case with one space between
/// two.
pub proof fn ascii_fields_are_searched_by_words(fields: Seq<Seq<char>>)
    requires
        forall|i: int| 0 <= i < fields.len() ==> is_ascii_text(#[trigger] fields[i]),
    ensures
        search_text(fields) == ascii_lower(joined(field_words(fields), " "@)),
        forall|i: int|
            0 <= i < field_words(fields).len() ==> is_word(#[trigger] field_words(fields)[i]),
    decreases fields.len(),
{
    if fields.len() > 0 {
        let front = fields.drop_last();
        assert forall|i: int| 0 <= i < front.len() implies is_ascii_text(#[trigger] front[i]) by {
            assert(front[i] == fields[i]);
        }
        ascii_fields_are_searched_by_words(front);
        assert(is_ascii_text(fields[fields.len() - 1]));
        let more = words(fields.last());
        words_are_solid(fields.last());
        words_keep_ascii(fields.last());
        assert forall|i: int| 0 <= i < more.len() implies is_word(#[trigger] more[i]) by {
            assert(more[i].len() > 0);
            assert forall|j: int| 0 <= j < more[i].len() implies !is_space(
                #[trigger] more[i][j],
            ) by {
            }
        }
        words_are_appended(field_words(front), more);
    } else {
        assert(search_text(fields) =~= ascii_lower(joined(field_words(fields), " "@)));
    }
}

proof fn words_are_appended(before: Seq<Seq<char>>, more: Seq<Seq<char>>)
    requires
        forall|i: int| 0 <= i < before.len() ==> is_word(#[trigger] before[i]),
        forall|i: int|
            0 <= i < more.len() ==> is_word(#[trigger] more[i]) && is_ascii_text(more[i]),
    ensures
        with_words(ascii_lower(joined(before, " "@)), more) == ascii_lower(
            joined(before + more, " "@),
        ),
    decreases more.len(),
{
    reveal_strlit(" ");
    if more.len() == 0 {
        assert(before + more =~= before);
    } else {
        let front = more.drop_last();
        let word = more.last();
        assert forall|i: int| 0 <= i < front.len() implies is_word(#[trigger] front[i])
            && is_ascii_text(front[i]) by {
            assert(front[i] == more[i]);
        }
        words_are_appended(before, front);
        assert(is_word(more[more.len() - 1]));
        ascii_words_are_lowered(word);
        let list = before + front;
        assert((before + more).drop_last() =~= list);
        assert((before + more).last() == word);
        assert forall|i: int| 0 <= i < list.len() implies is_word(#[trigger] list[i]) by {
        }
        words_of_joined_words(list);
        if list.len() == 0 {
            assert(joined(list, " "@) =~= Seq::<char>::empty());
            assert(with_words(ascii_lower(joined(before, " "@)), more) =~= ascii_lower(word));
            assert((before + more)[0] == word);
        } else {
            assert(words(joined(list, " "@)).len() > 0);
            assert(with_words(ascii_lower(joined(before, " "@)), more) =~= ascii_lower(
                joined(before + more, " "@),
            ));
        }
    }
}

proof fn ascii_words_are_lowered(word: Seq<char>)
    requires
        is_ascii_text(word),
    ensures
        lowered(word) == ascii_lower(word),
    decreases word.len(),
{
    if word.len() > 0 {
        ascii_words_are_lowered(word.drop_last());
        assert(is_ascii(word[word.len() - 1]));
    }
    assert(lowered(word) =~= ascii_lower(word));
}

/// What is searched for does not depend on the case of ASCII letters.
pub proof fn searches_ignore_case(query: Seq<char>)
    requires
        is_ascii_text(query),
    ensures
        with_words(Seq::empty(), words(query)) == ascii_lower(squeezed(query)),
        with_words(Seq::empty(), words(ascii_upper(query))) == with_words(
            Seq::empty(),
            words(query),
        ),
{
    let upper = ascii_upper(query);
    let (one, other) = (seq![query], seq![upper]);
    assert(one.drop_last() =~= Seq::<Seq<char>>::empty());
    assert(other.drop_last() =~= Seq::<Seq<char>>::empty());
    ascii_fields_are_searched_by_words(one);
    ascii_fields_are_searched_by_words(other);
    let none = Seq::<Seq<char>>::empty();
    assert(field_words(none) == none);
    assert(one.last() == query && other.last() == upper);
    assert(field_words(one) =~= words(query));
    assert(field_words(other) =~= words(upper));
    assert(search_text(one.drop_last()) == Seq::<char>::empty());
    assert(search_text(other.drop_last()) == Seq::<char>::empty());
    words_in_upper_case(query);
    joined_words_in_lower_case(words(query));
    joined_words_in_lower_case(words(upper));
    let low = words(query).map_values(|word: Seq<char>| ascii_lower(word));
    let same = words(upper).map_values(|word: Seq<char>| ascii_lower(word));
    assert forall|i: int| 0 <= i < low.len() implies low[i] == same[i] by {
        lowering_forgets_case(words(query)[i]);
    }
    assert(low =~= same);
}

fn push_lowered(out: &mut String, word: &str)
    ensures
        final(out)@ == old(out)@ + lowered(word@),
{
    let ghost start = out@;
    assert(word@.take(0) =~= Seq::<char>::empty());
    assert(start + lowered(word@.take(0)) =~= start);
    for c in it: word.chars()
        invariant
            it.seq() == word@,
            out@ == start + lowered(word@.take(it.index() as int)),
    {
        let small = lowercase_char(c);
        proof {
            let next = word@.take(it.index() as int + 1);
            assert(next.drop_last() =~= word@.take(it.index() as int));
            assert(next.last() == c);
        }
        push_text(out, &small);
        assert(out@ =~= start + lowered(word@.take(it.index() as int + 1)));
    }
    assert(word@.take(word@.len() as int) =~= word@);
}

fn push_words(out: &mut String, field: &str)
    ensures
        final(out)@ == with_words(old(out)@, words(field@)),
{
    let parts = split_words(field);
    let ghost start = out@;
    let mut i: usize = 0;
    assert(texts(parts@).take(0) =~= Seq::<Seq<char>>::empty());
    while i < parts.len()
        invariant
            texts(parts@) == words(field@),
            i <= parts@.len(),
            out@ == with_words(start, texts(parts@).take(i as int)),
        decreases parts@.len() - i,
    {
        proof {
            let next = texts(parts@).take(i as int + 1);
            assert(next.drop_last() =~= texts(parts@).take(i as int));
            assert(next.last() == parts@[i as int]@);
        }
        if !out.as_str().is_empty() {
            push_text(out, " ");
        }
        push_lowered(out, &parts[i]);
        i = i + 1;
    }
    assert(texts(parts@).take(parts@.len() as int) =~= texts(parts@));
}

/// The words of all fields in lower case, one space between two.
pub fn normalize_fields(fields: &Vec<String>) -> (r: String)
    ensures
        r@ == search_text(texts(fields@)),
{
    let mut out = String::new();
    let mut i: usize = 0;
    assert(texts(fields@).take(0) =~= Seq::<Seq<char>>::empty());
    while i < fields.len()
        invariant
            i <= fields@.len(),
            out@ == search_text(texts(fields@).take(i as int)),
        decreases fields@.len() - i,
    {
        proof {
            let next = texts(fields@).take(i as int + 1);
            assert(next.drop_last() =~= texts(fields@).take(i as int));
            assert(next.last() == fields@[i as int]@);
        }
        push_words(&mut out, &fields[i]);
        i = i + 1;
    }
    assert(texts(fields@).take(fields@.len() as int) =~= texts(fields@));
    out
}

pub fn normalize_text(value: &str) -> (r: String)
    ensures
        r@ == with_words(Seq::empty(), words(value@)),
{
    let mut out = String::new();
    push_words(&mut out, value);
    out
}

/// The trimmed pieces of a list with semicolons that are not blank.
pub open spec fn listed_values(list: Seq<Seq<char>>) -> Seq<Seq<char>>
    decreases list.len(),
{
    if list.len() == 0 {
        Seq::empty()
    } else {
        let before = listed_values(list.drop_last());
        if trimmed(list.last()).len() > 0 {
            before.push(trimmed(list.last()))
        } else {
            before
        }
    }
}

/// The values of a list in a desktop entry.
pub fn desktop_values(raw: &str) -> (r: Vec<String>)
    ensures
        texts(r@) == listed_values(pieces(raw@, ';')),
{
    let parts = split_pieces(raw, ';');
    let mut out: Vec<String> = Vec::new();
    let mut i: usize = 0;
    assert(texts(parts@).take(0) =~= Seq::<Seq<char>>::empty());
    assert(texts(out@) =~= Seq::<Seq<char>>::empty());
    while i < parts.len()
        invariant
            texts(parts@) == pieces(raw@, ';'),
            i <= parts@.len(),
            texts(out@) =~= listed_values(texts(parts@).take(i as int)),
        decreases parts@.len() - i,
    {
        proof {
            let next = texts(parts@).take(i as int + 1);
            assert(next.drop_last() =~= texts(parts@).take(i as int));
            assert(next.last() == parts@[i as int]@);
        }
        let value = trim(&parts[i]);
        if !value.as_str().is_empty() {
            out.push(value);
        }
        i = i + 1;
    }
    assert(texts(parts@).take(parts@.len() as int) =~= texts(parts@));
    out
}

/// What the desktop says of an application.
pub struct AppFacts {
    pub should_show: bool,
    pub display_name: String,
    pub id: Option<String>,
    pub executable: String,
    pub description: Option<String>,
    pub categories: Vec<String>,
    pub keywords: String,
}

/// The key of an application: by its id, or by its program and name where it has none.
pub open spec fn app_key(facts: AppFacts) -> Seq<char> {
    if text_or_empty(facts.id).len() == 0 {
        "fallback:"@ + trimmed(facts.executable@) + "::"@ + trimmed(facts.display_name@)
    } else {
        "id:"@ + text_or_empty(facts.id)
    }
}

/// Whether an application is listed at all.
pub open spec fn is_launchable(facts: AppFacts) -> bool {
    facts.should_show && trimmed(facts.display_name@).len() > 0
}

/// The key of an application that is listed.
pub fn launchable_app_key(facts: &AppFacts) -> (r: Option<String>)
    ensures
        opt_text(r) == (if is_launchable(*facts) {
            Some(app_key(*facts))
        } else {
            None
        }),
{
    if !facts.should_show {
        return None;
    }
    let name = trim(&facts.display_name);
    if name.as_str().is_empty() {
        return None;
    }
    let id = or_empty(&facts.id);
    if id.as_str().is_empty() {
        let executable = trim(&facts.executable);
        Some(concat4("fallback:", &executable, "::", &name))
    } else {
        Some(concat2("id:", &id))
    }
}

/// An application of the catalog; `source` is its place in the desktop's list.
#[derive(Clone, Debug, PartialEq, Eq)]
pub struct LaunchableApp {
    pub key: String,
    pub name: String,
    pub meta: String,
    pub primary_category: Option<LauncherCategory>,
    pub search_blob: String,
    pub source: usize,
}

/// The contents of a `LaunchableApp`.
pub struct AppModel {
    pub key: Seq<char>,
    pub name: Seq<char>,
    pub meta: Seq<char>,
    pub primary_category: Option<LauncherCategory>,
    pub search_blob: Seq<char>,
    pub source: usize,
}

impl View for LaunchableApp {
    type V = AppModel;

    open spec fn view(&self) -> AppModel {
        AppModel {
            key: self.key@,
            name: self.name@,
            meta: self.meta@,
            primary_category: self.primary_category,
            search_blob: self.search_blob@,
            source: self.source,
        }
    }
}

/// Applications go by name, letter case aside.
impl Ranked for LaunchableApp {
    open spec fn le(&self, other: &Self) -> bool {
        text_le(lower_text(self.name@), lower_text(other.name@))
    }

    proof fn le_total(a: &Self, b: &Self) {
        text_le_total(lower_text(a.name@), lower_text(b.name@));
    }

    proof fn le_transitive(a: &Self, b: &Self, c: &Self) {
        text_le_transitive(lower_text(a.name@), lower_text(b.name@), lower_text(c.name@));
    }

    fn ranks_le(&self, other: &Self) -> (r: bool) {
        let mine = to_lowercase(&self.name);
        let theirs = to_lowercase(&other.name);
        not_after(&mine, &theirs)
    }
}

/// The description of an application without the white space around it.
pub open spec fn app_description(facts: AppFacts) -> Seq<char> {
    match facts.description {
        Some(text) => trimmed(text@),
        None => Seq::empty(),
    }
}

/// The catalog's entry for an application that is listed.
pub open spec fn app_model(facts: AppFacts, source: usize) -> AppModel {
    let name = trimmed(facts.display_name@);
    let executable = trimmed(facts.executable@);
    let id = text_or_empty(facts.id);
    let description = app_description(facts);
    AppModel {
        key: app_key(facts),
        name,
        meta: if description.len() > 0 {
            description
        } else if executable.len() > 0 {
            executable
        } else if id.len() > 0 {
            id
        } else {
            "Desktop application"@
        },
        primary_category: classified(texts(facts.categories@)),
        search_blob: search_text(
            seq![name, description, executable, facts.keywords@, id] + texts(facts.categories@),
        ),
        source,
    }
}

fn build_app(facts: &AppFacts, key: String, source: usize) -> (r: LaunchableApp)
    requires
        key@ == app_key(*facts),
    ensures
        r@ == app_model(*facts, source),
{
    let name = trim(&facts.display_name);
    let executable = trim(&facts.executable);
    let id = or_empty(&facts.id);
    let description = match &facts.description {
        Some(text) => trim(text),
        None => String::new(),
    };
    let mut fields: Vec<String> = Vec::new();
    fields.push(name.clone());
    fields.push(description.clone());
    fields.push(executable.clone());
    fields.push(facts.keywords.clone());
    fields.push(id.clone());
    let ghost first = texts(fields@);
    assert(first =~= seq![name@, description@, executable@, facts.keywords@, id@]);
    let mut i: usize = 0;
    assert(first =~= first + texts(facts.categories@).take(0));
    while i < facts.categories.len()
        invariant
            i <= facts.categories@.len(),
            texts(fields@) == first + texts(facts.categories@).take(i as int),
        decreases facts.categories@.len() - i,
    {
        let ghost before = fields@;
        fields.push(facts.categories[i].clone());
        assert(texts(fields@) =~= texts(before).push(facts.categories@[i as int]@));
        assert(texts(facts.categories@).take(i as int + 1) =~= texts(facts.categories@).take(
            i as int,
        ).push(facts.categories@[i as int]@));
        assert(texts(fields@) =~= first + texts(facts.categories@).take(i as int + 1));
        i = i + 1;
    }
    assert(texts(facts.categories@).take(facts.categories@.len() as int) =~= texts(
        facts.categories@,
    ));
    let search_blob = normalize_fields(&fields);
    let meta = if !description.as_str().is_empty() {
        description
    } else if !executable.as_str().is_empty() {
        executable
    } else if !id.as_str().is_empty() {
        id
    } else {
        "Desktop application".to_owned()
    };
    LaunchableApp {
        key,
        name,
        meta,
        primary_category: classify_category(&facts.categories),
        search_blob,
        source,
    }
}

/// Adds an application to the catalog, unless it is not listed or its key is known. The key of a
/// listed application is known from then on.
pub fn catalog_app(facts: &AppFacts, source: usize, valid_keys: &mut TextSet) -> (r: Option<
    LaunchableApp,
>)
    requires
        old(valid_keys).wf(),
    ensures
        final(valid_keys).wf(),
        final(valid_keys)@ == (if is_launchable(*facts) {
            old(valid_keys)@.insert(app_key(*facts))
        } else {
            old(valid_keys)@
        }),
        match r {
            Some(app) => is_launchable(*facts) && !old(valid_keys)@.contains(app_key(*facts))
                && app@ == app_model(*facts, source),
            None => !is_launchable(*facts) || old(valid_keys)@.contains(app_key(*facts)),
        },
{
    let key = match launchable_app_key(facts) {
        Some(key) => key,
        None => return None,
    };
    if !valid_keys.insert(key.clone()) {
        return None;
    }
    Some(build_app(facts, key, source))
}

/// The applications in the order of display.
pub fn sort_apps(apps: Vec<LaunchableApp>) -> (r: Vec<LaunchableApp>)
    ensures
        stably_sorted(apps@, r@),
{
    stable_sort(apps)
}

/// The applications that the user has hidden, and the favorites, by key.
#[derive(Clone, Debug, PartialEq, Eq)]
pub struct LauncherUserState {
    pub hidden: TextSet,
    pub favorites: TextSet,
}

/// Which of the two sets is meant.
#[derive(Clone, Copy, Debug, PartialEq, Eq, Structural)]
pub enum LauncherStateKind {
    Hidden,
    Favorite,
}

impl LauncherStateKind {
    pub fn file_name(self) -> (r: &'static str)
        ensures
            r@ == (match self {
                LauncherStateKind::Hidden => HIDDEN_STATE_FILE@,
                LauncherStateKind::Favorite => FAVORITES_STATE_FILE@,
            }),
    {
        match self {
            LauncherStateKind::Hidden => HIDDEN_STATE_FILE,
            LauncherStateKind::Favorite => FAVORITES_STATE_FILE,
        }
    }
}

/// A set with `key` taken out where it was in, and put in where it was not.
pub open spec fn toggled(set: Set<Seq<char>>, key: Seq<char>) -> Set<Seq<char>> {
    if set.contains(key) {
        set.remove(key)
    } else {
        set.insert(key)
    }
}

fn toggle(set: &mut TextSet, key: &str)
    requires
        old(set).wf(),
    ensures
        final(set).wf(),
        final(set)@ == toggled(old(set)@, key@),
{
    if !set.remove(key) {
        assert(set@ =~= old(set)@);
        set.insert(key.to_owned());
    }
}

/// Toggling a key twice changes nothing.
pub proof fn toggling_twice_is_nothing(set: Set<Seq<char>>, key: Seq<char>)
    ensures
        toggled(toggled(set, key), key) == set,
{
    assert(toggled(toggled(set, key), key) =~= set);
}

impl LauncherUserState {
    pub open spec fn wf(&self) -> bool {
        self.hidden.wf() && self.favorites.wf()
    }

    pub open spec fn has_favorites(&self) -> bool {
        self.favorites@ != Set::<Seq<char>>::empty()
    }

    /// The category that the launcher opens with.
    pub fn default_category(&self) -> (r: LauncherCategory)
        ensures
            r == (if self.has_favorites() {
                LauncherCategory::Favorites
            } else {
                LauncherCategory::All
            }),
    {
        if self.favorites.is_empty() {
            LauncherCategory::All
        } else {
            LauncherCategory::Favorites
        }
    }

    /// Hides an application or makes it a favorite, or undoes that.
    pub fn toggle_state_key(&mut self, kind: LauncherStateKind, key: &str)
        requires
            old(self).wf(),
        ensures
            final(self).wf(),
            final(self).hidden@ == (if kind == LauncherStateKind::Hidden {
                toggled(old(self).hidden@, key@)
            } else {
                old(self).hidden@
            }),
            final(self).favorites@ == (if kind == LauncherStateKind::Favorite {
                toggled(old(self).favorites@, key@)
            } else {
                old(self).favorites@
            }),
    {
        match kind {
            LauncherStateKind::Hidden => toggle(&mut self.hidden, key),
            LauncherStateKind::Favorite => toggle(&mut self.favorites, key),
        }
    }

    /// Forgets keys of applications that are gone; the answer says which of the two sets changed.
    /// Nothing is forgotten before the catalog is built, or while it is empty.
    pub fn prune(&mut self, catalog_ready: bool, valid: &TextSet) -> (r: (bool, bool))
        requires
            old(self).wf(),
            valid.wf(),
        ensures
            final(self).wf(),
            ({
                let skip = !catalog_ready || valid@ == Set::<Seq<char>>::empty();
                &&& final(self).hidden@ == (if skip {
                    old(self).hidden@
                } else {
                    old(self).hidden@.intersect(valid@)
                })
                &&& final(self).favorites@ == (if skip {
                    old(self).favorites@
                } else {
                    old(self).favorites@.intersect(valid@)
                })
                &&& r == (
                    final(self).hidden@ != old(self).hidden@,
                    final(self).favorites@ != old(self).favorites@,
                )
            }),
    {
        if !catalog_ready || valid.is_empty() {
            return (false, false);
        }
        let hidden_changed = retain_known_keys(&mut self.hidden, valid);
        let favorites_changed = retain_known_keys(&mut self.favorites, valid);
        (hidden_changed, favorites_changed)
    }
}

/// Keeps the keys that are valid; the answer says whether any was dropped.
pub fn retain_known_keys(keys: &mut TextSet, valid: &TextSet) -> (r: bool)
    requires
        old(keys).wf(),
    ensures
        final(keys).wf(),
        final(keys)@ == old(keys)@.intersect(valid@),
        r == (final(keys)@ != old(keys)@),
{
    let all = keys.copy();
    let mut changed = false;
    let mut i: usize = 0;
    while i < all.items.len()
        invariant
            keys.wf(),
            all.wf(),
            all@ == old(keys)@,
            i <= all.items@.len(),
            forall|key: Seq<char>| #[trigger]
                keys@.contains(key) == (all@.contains(key) && (valid@.contains(key) || !exists|
                    k: int,
                |
                    0 <= k < i && #[trigger] texts(all.items@)[k] == key)),
            changed == exists|k: int|
                0 <= k < i && !valid@.contains(#[trigger] texts(all.items@)[k]),
        decreases all.items@.len() - i,
    {
        assert(texts(all.items@)[i as int] == all.items@[i as int]@);
        if !valid.contains(&all.items[i]) {
            keys.remove(&all.items[i]);
            changed = true;
        }
        i = i + 1;
    }
    proof {
        assert forall|key: Seq<char>| #[trigger] keys@.contains(key) == old(keys)@.intersect(
            valid@,
        ).contains(key) by {
            if all@.contains(key) && !valid@.contains(key) {
                assert(texts(all.items@).contains(key));
                let k = choose|k: int|
                    0 <= k < texts(all.items@).len() && texts(all.items@)[k] == key;
                assert(texts(all.items@)[k] == key);
            }
        }
        assert(keys@ =~= old(keys)@.intersect(valid@));
        if changed {
            let k = choose|k: int|
                0 <= k < all.items@.len() && !valid@.contains(#[trigger] texts(all.items@)[k]);
            let key = texts(all.items@)[k];
            assert(texts(all.items@).contains(key));
            assert(old(keys)@.contains(key) && !keys@.contains(key));
        } else {
            assert forall|key: Seq<char>| #[trigger] old(keys)@.contains(key) implies keys@.contains(
                key,
            ) by {
                assert(texts(all.items@).contains(key));
                let k = choose|k: int|
                    0 <= k < texts(all.items@).len() && texts(all.items@)[k] == key;
                assert(valid@.contains(texts(all.items@)[k]));
            }
            assert(keys@ =~= old(keys)@);
        }
    }
    changed
}

/// Whether `key` is one of the keys of a stored list.
pub open spec fn listed_key(list: Seq<Seq<char>>, key: Seq<char>) -> bool {
    key.len() > 0 && exists|i: int| 0 <= i < list.len() && trimmed(#[trigger] list[i]) == key
}

/// The set of the keys of a stored list.
pub fn keys_from_list(list: &Vec<String>) -> (r: TextSet)
    ensures
        r.wf(),
        forall|key: Seq<char>| #[trigger] r@.contains(key) == listed_key(texts(list@), key),
{
    let mut out = TextSet::new();
    let mut i: usize = 0;
    while i < list.len()
        invariant
            i <= list@.len(),
            out.wf(),
            forall|key: Seq<char>| #[trigger]
                out@.contains(key) == (key.len() > 0 && exists|k: int|
                    0 <= k < i && trimmed(#[trigger] texts(list@)[k]) == key),
        decreases list@.len() - i,
    {
        let key = trim(&list[i]);
        assert(trimmed(texts(list@)[i as int]) == key@);
        if !key.as_str().is_empty() {
            out.insert(key);
        }
        i = i + 1;
    }
    out
}

/// Reads the keys out of a stored document.
pub fn state_keys_from_json(contents: &str) -> (r: TextSet)
    ensures
        r.wf(),
        forall|key: Seq<char>|
            #[trigger] r@.contains(key) == listed_key(
                document_keys(json_parsed(contents@)),
                key,
            ),
{
    let list = match parse_json(contents) {
        Ok(document) => match json_text_list(&document) {
            Some(list) => list,
            None => Vec::new(),
        },
        Err(_) => Vec::new(),
    };
    assert(texts(list@) =~= document_keys(json_parsed(contents@)));
    keys_from_list(&list)
}

/// Writes the keys, ascending, as a document.
pub fn state_keys_to_json(keys: &TextSet) -> (r: Option<String>)
    ensures
        match json_list_written(texts(keys.items@)) {
            Ok(written) => opt_text(r) == Some(written) && reads_as(
                written,
                text_list_model(texts(keys.items@)),
            ),
            Err(_) => r is None,
        },
{
    match write_json_list(&keys.items) {
        Ok(text) => Some(text),
        Err(_) => None,
    }
}

/// Reading the document that was written gives the same keys back, where no key is empty or has
/// white space around it.
pub proof fn state_keys_survive_storage(keys: TextSet, written: Seq<char>, key: Seq<char>)
    requires
        reads_as(written, text_list_model(texts(keys.items@))),
        forall|k: Seq<char>| #[trigger] keys@.contains(k) ==> k.len() > 0 && trimmed(k) == k,
    ensures
        listed_key(document_keys(json_parsed(written)), key) == keys@.contains(key),
{
    let list = texts(keys.items@);
    text_list_of_model(list);
    assert(document_keys(json_parsed(written)) == list);
    assert forall|i: int| 0 <= i < list.len() implies trimmed(#[trigger] list[i]) == list[i] by {
        assert(list.contains(list[i]));
        assert(keys@.contains(list[i]));
    }
    if keys@.contains(key) {
        let i = choose|i: int| 0 <= i < list.len() && list[i] == key;
        assert(trimmed(list[i]) == key);
    }
}

/// Whether `key` is one of the keys in a file; a file that cannot be read has none.
pub open spec fn is_stored(contents: Option<Seq<char>>, key: Seq<char>) -> bool {
    match contents {
        Some(contents) => listed_key(document_keys(json_parsed(contents)), key),
        None => false,
    }
}

/// Whether `k` is among the keys once `key` was toggled, where `before` tells whether it was
/// before.
pub open spec fn has_after_toggle(before: bool, k: Seq<char>, key: Seq<char>) -> bool {
    if k == key {
        !before
    } else {
        before
    }
}

fn stored_set(contents: Option<&str>) -> (r: TextSet)
    ensures
        r.wf(),
        forall|k: Seq<char>| #[trigger] r@.contains(k) == is_stored(opt_str(contents), k),
{
    match contents {
        Some(contents) => state_keys_from_json(contents),
        None => TextSet::new(),
    }
}

impl LauncherUserState {
    /// The set of one kind.
    pub open spec fn set_of(self, kind: LauncherStateKind) -> TextSet {
        match kind {
            LauncherStateKind::Hidden => self.hidden,
            LauncherStateKind::Favorite => self.favorites,
        }
    }

    /// The state that the two files hold.
    pub fn read(hidden: Option<&str>, favorites: Option<&str>) -> (r: Self)
        ensures
            r.wf(),
            forall|k: Seq<char>| #[trigger]
                r.hidden@.contains(k) == is_stored(opt_str(hidden), k),
            forall|k: Seq<char>| #[trigger]
                r.favorites@.contains(k) == is_stored(opt_str(favorites), k),
    {
        LauncherUserState { hidden: stored_set(hidden), favorites: stored_set(favorites) }
    }

    /// Hides an application or makes it a favorite, or undoes that, in the state that the two
    /// files hold. The answer is the new state and what the file of the kind is to hold; once
    /// that is written, the state is told to every launcher.
    pub fn toggle_stored(
        hidden: Option<&str>,
        favorites: Option<&str>,
        kind: LauncherStateKind,
        key: &str,
    ) -> (r: (Self, Option<String>))
        ensures
            r.0.wf(),
            forall|k: Seq<char>| #[trigger]
                r.0.hidden@.contains(k) == (if kind == LauncherStateKind::Hidden {
                    has_after_toggle(is_stored(opt_str(hidden), k), k, key@)
                } else {
                    is_stored(opt_str(hidden), k)
                }),
            forall|k: Seq<char>| #[trigger]
                r.0.favorites@.contains(k) == (if kind == LauncherStateKind::Favorite {
                    has_after_toggle(is_stored(opt_str(favorites), k), k, key@)
                } else {
                    is_stored(opt_str(favorites), k)
                }),
            match json_list_written(texts(r.0.set_of(kind).items@)) {
                Ok(written) => opt_text(r.1) == Some(written) && reads_as(
                    written,
                    text_list_model(texts(r.0.set_of(kind).items@)),
                ),
                Err(_) => r.1 is None,
            },
    {
        let mut state = LauncherUserState::read(hidden, favorites);
        state.toggle_state_key(kind, key);
        let document = match kind {
            LauncherStateKind::Hidden => state_keys_to_json(&state.hidden),
            LauncherStateKind::Favorite => state_keys_to_json(&state.favorites),
        };
        (state, document)
    }
}

/// A toggle that was written changes one key of its file, and a second one restores the file's
/// keys. `first` and `second` are the sets that were written. The key is not empty and has no
/// white space around it.
pub proof fn stored_toggles_can_be_undone(
    contents: Option<Seq<char>>,
    key: Seq<char>,
    first: TextSet,
    written: Seq<char>,
    second: TextSet,
    rewritten: Seq<char>,
    k: Seq<char>,
)
    requires
        key.len() > 0,
        trimmed(key) == key,
        forall|j: Seq<char>| #[trigger]
            first@.contains(j) == has_after_toggle(is_stored(contents, j), j, key),
        reads_as(written, text_list_model(texts(first.items@))),
        forall|j: Seq<char>| #[trigger]
            second@.contains(j) == has_after_toggle(is_stored(Some(written), j), j, key),
        reads_as(rewritten, text_list_model(texts(second.items@))),
    ensures
        is_stored(Some(written), k) == has_after_toggle(is_stored(contents, k), k, key),
        is_stored(Some(rewritten), k) == is_stored(contents, k),
{
    toggled_keys_are_read_back(contents, key, first, written, k);
    toggled_keys_are_read_back(Some(written), key, second, rewritten, k);
}

proof fn toggled_keys_are_read_back(
    contents: Option<Seq<char>>,
    key: Seq<char>,
    set: TextSet,
    written: Seq<char>,
    k: Seq<char>,
)
    requires
        key.len() > 0,
        trimmed(key) == key,
        forall|j: Seq<char>| #[trigger]
            set@.contains(j) == has_after_toggle(is_stored(contents, j), j, key),
        reads_as(written, text_list_model(texts(set.items@))),
    ensures
        is_stored(Some(written), k) == has_after_toggle(is_stored(contents, k), k, key),
{
    assert forall|j: Seq<char>| #[trigger] set@.contains(j) implies j.len() > 0 && trimmed(j)
        == j by {
        if j != key {
            let list = document_keys(json_parsed(contents->0));
            let i = choose|i: int| 0 <= i < list.len() && trimmed(#[trigger] list[i]) == j;
            trimmed_is_idempotent(list[i]);
        }
    }
    state_keys_survive_storage(set, written, k);
    assert(set@.contains(k) == has_after_toggle(is_stored(contents, k), k, key));
}

/// The state of the catalog: whether it is being built, and whether it is to be built again.
#[derive(Clone, Copy, Debug, PartialEq, Eq, Structural)]
pub struct CatalogState {
    pub initialized: bool,
    pub refresh_scheduled: bool,
    pub refresh_again: bool,
}

impl CatalogState {
    pub fn new() -> (r: Self)
        ensures
            r == (CatalogState {
                initialized: false,
                refresh_scheduled: false,
                refresh_again: false,
            }),
    {
        CatalogState { initialized: false, refresh_scheduled: false, refresh_again: false }
    }

    /// Asks for the catalog to be built; the answer says whether to start now.
    pub fn schedule_refresh(&mut self) -> (r: bool)
        ensures
            r == !old(self).refresh_scheduled,
            *final(self) == (CatalogState {
                initialized: old(self).initialized,
                refresh_scheduled: true,
                refresh_again: old(self).refresh_again || old(self).refresh_scheduled,
            }),
    {
        if self.refresh_scheduled {
            self.refresh_again = true;
            false
        } else {
            self.refresh_scheduled = true;
            true
        }
    }

    /// The catalog is built; the answer says whether to build it again.
    pub fn apply_refresh(&mut self) -> (r: bool)
        ensures
            r == old(self).refresh_again,
            *final(self) == (CatalogState {
                initialized: true,
                refresh_scheduled: false,
                refresh_again: false,
            }),
    {
        self.initialized = true;
        self.refresh_scheduled = false;
        let again = self.refresh_again;
        self.refresh_again = false;
        again
    }

    /// Whether a launcher that opens has the catalog built: it was not yet, or other
    /// applications are there now.
    pub fn is_stale(&self, known: &TextSet, current: &TextSet) -> (r: bool)
        requires
            known.wf(),
            current.wf(),
        ensures
            r == (!self.refresh_scheduled && (!self.initialized || known@ != current@)),
    {
        !self.refresh_scheduled && (!self.initialized || !known.same_as(current))
    }
}

/// Which animation a change of the view plays.
#[derive(Clone, Copy, Debug, PartialEq, Eq, Structural)]
pub enum LauncherViewTransition {
    HiddenForward,
    HiddenBack,
    CategoryForward,
    CategoryBack,
}

impl LauncherViewTransition {
    pub fn css_class(self) -> (r: &'static str)
        ensures
            r@ == (match self {
                LauncherViewTransition::HiddenForward => "launcher-view-hidden-forward"@,
                LauncherViewTransition::HiddenBack => "launcher-view-hidden-back"@,
                LauncherViewTransition::CategoryForward => "launcher-view-category-forward"@,
                LauncherViewTransition::CategoryBack => "launcher-view-category-back"@,
            }),
    {
        match self {
            LauncherViewTransition::HiddenForward => "launcher-view-hidden-forward",
            LauncherViewTransition::HiddenBack => "launcher-view-hidden-back",
            LauncherViewTransition::CategoryForward => "launcher-view-category-forward",
            LauncherViewTransition::CategoryBack => "launcher-view-category-back",
        }
    }
}

/// What the launcher shows: the hidden applications, or those of a category.
#[derive(Clone, Copy, Debug, PartialEq, Eq, Structural)]
pub struct LauncherView {
    pub show_hidden: bool,
    pub category: LauncherCategory,
}

/// What a click on a category does besides choosing it.
#[derive(Clone, Copy, Debug, PartialEq, Eq, Structural)]
pub struct CategoryClick {
    /// Empty the search field; else draw the list anew.
    pub clear_search: bool,
    pub transition: Option<LauncherViewTransition>,
}

/// What the head of the list shows.
pub struct LauncherHeader {
    pub title: String,
    pub toggle_visible: bool,
    pub toggle_icon: &'static str,
    pub toggle_tooltip: &'static str,
}

impl LauncherView {
    /// Whether an application is shown. A search looks at all applications, hidden ones too.
    pub open spec fn shows(&self, app: AppModel, query: Seq<char>, state: LauncherUserState) -> bool {
        let hidden = state.hidden@.contains(app.key);
        if self.show_hidden {
            hidden && (query.len() == 0 || has_text(app.search_blob, query))
        } else if query.len() > 0 {
            has_text(app.search_blob, query)
        } else {
            !hidden && match self.category {
                LauncherCategory::Favorites => state.favorites@.contains(app.key),
                LauncherCategory::All => true,
                category => app.primary_category == Some(category),
            }
        }
    }

    pub fn app_matches(&self, app: &LaunchableApp, query: &str, state: &LauncherUserState) -> (r:
        bool)
        ensures
            r == self.shows(app@, query@, *state),
    {
        let hidden = state.hidden.contains(&app.key);
        let searching = !query.is_empty();
        if self.show_hidden {
            return hidden && (!searching || contains(&app.search_blob, query));
        }
        if searching {
            return contains(&app.search_blob, query);
        }
        if hidden {
            return false;
        }
        match self.category {
            LauncherCategory::Favorites => state.favorites.contains(&app.key),
            LauncherCategory::All => true,
            category => match app.primary_category {
                Some(own) => own == category,
                None => false,
            },
        }
    }

    /// The positions below `n` of the applications that are shown.
    pub open spec fn shown_rows(
        &self,
        apps: Seq<LaunchableApp>,
        query: Seq<char>,
        state: LauncherUserState,
        n: nat,
    ) -> Seq<usize>
        decreases n,
    {
        if n == 0 {
            Seq::empty()
        } else {
            let before = self.shown_rows(apps, query, state, (n - 1) as nat);
            if self.shows(apps[n - 1]@, query, state) {
                before.push((n - 1) as usize)
            } else {
                before
            }
        }
    }

    /// The positions of the applications that are shown; the first is the one that is started
    /// from the search field.
    pub fn visible_rows(
        &self,
        apps: &Vec<LaunchableApp>,
        query: &str,
        state: &LauncherUserState,
    ) -> (r: Vec<usize>)
        ensures
            r@ == self.shown_rows(apps@, query@, *state, apps@.len()),
    {
        let mut out: Vec<usize> = Vec::new();
        let mut i: usize = 0;
        while i < apps.len()
            invariant
                i <= apps@.len(),
                out@ == self.shown_rows(apps@, query@, *state, i as nat),
            decreases apps@.len() - i,
        {
            if self.app_matches(&apps[i], query, state) {
                out.push(i);
            }
            i = i + 1;
        }
        out
    }

    /// Whether the favorites stand in a grid: they are shown and nothing is searched for.
    pub fn is_favorites_view(&self, searching: bool) -> (r: bool)
        ensures
            r == (!self.show_hidden && !searching && self.category == LauncherCategory::Favorites),
    {
        !self.show_hidden && !searching && self.category == LauncherCategory::Favorites
    }

    pub open spec fn title_text(&self, count: nat, searching: bool) -> Seq<char> {
        (if self.show_hidden {
            "Hidden applications"@
        } else if searching {
            "Search results"@
        } else if self.category == LauncherCategory::All {
            "Applications"@
        } else {
            self.category.label_text()
        }) + " "@ + decimal(count)
    }

    /// What the head of the list shows.
    pub fn header(&self, count: usize, searching: bool, hidden_count: usize) -> (r: LauncherHeader)
        ensures
            r.title@ == self.title_text(count as nat, searching),
            r.toggle_visible == (hidden_count > 0 || self.show_hidden),
            r.toggle_icon@ == (if self.show_hidden {
                ICON_BACK@
            } else {
                ICON_HIDE@
            }),
            r.toggle_tooltip@ == (if self.show_hidden {
                "Back to applications"@
            } else {
                "Show hidden applications"@
            }),
    {
        let number = numeral(count as u64);
        let name = if self.show_hidden {
            "Hidden applications"
        } else if searching {
            "Search results"
        } else {
            match self.category {
                LauncherCategory::All => "Applications",
                category => category.label(),
            }
        };
        LauncherHeader {
            title: concat3(name, " ", &number),
            toggle_visible: hidden_count > 0 || self.show_hidden,
            toggle_icon: if self.show_hidden {
                ICON_BACK
            } else {
                ICON_HIDE
            },
            toggle_tooltip: if self.show_hidden {
                "Back to applications"
            } else {
                "Show hidden applications"
            },
        }
    }

    /// What stands in place of an empty list.
    pub fn empty_text(&self) -> (r: &'static str)
        ensures
            r@ == (if self.show_hidden {
                "No hidden applications"@
            } else {
                "Nothing found"@
            }),
    {
        if self.show_hidden {
            "No hidden applications"
        } else {
            "Nothing found"
        }
    }

    /// Leaves the favorites where there are none any more.
    pub fn ensure_valid_category(&mut self, state: &LauncherUserState)
        ensures
            final(self).show_hidden == old(self).show_hidden,
            final(self).category == (if old(self).category == LauncherCategory::Favorites
                && !state.has_favorites() {
                LauncherCategory::All
            } else {
                old(self).category
            }),
    {
        if self.category == LauncherCategory::Favorites && state.favorites.is_empty() {
            self.category = LauncherCategory::All;
        }
    }

    /// The view of a launcher that opens.
    pub fn reset(&mut self, state: &LauncherUserState)
        ensures
            !final(self).show_hidden,
            final(self).category == (if state.has_favorites() {
                LauncherCategory::Favorites
            } else {
                LauncherCategory::All
            }),
    {
        self.show_hidden = false;
        self.category = state.default_category();
    }

    /// Goes to the hidden applications or back from them; the answer is the animation to play.
    pub fn toggle_hidden(&mut self) -> (r: LauncherViewTransition)
        ensures
            final(self).show_hidden == !old(self).show_hidden,
            final(self).category == old(self).category,
            r == (if final(self).show_hidden {
                LauncherViewTransition::HiddenForward
            } else {
                LauncherViewTransition::HiddenBack
            }),
    {
        self.show_hidden = !self.show_hidden;
        if self.show_hidden {
            LauncherViewTransition::HiddenForward
        } else {
            LauncherViewTransition::HiddenBack
        }
    }

    /// Chooses a category; nothing happens where it is already shown.
    pub fn click_category(&mut self, category: LauncherCategory, searching: bool) -> (r: Option<
        CategoryClick,
    >)
        ensures
            if old(self).category == category && !searching && !old(self).show_hidden {
                r is None && *final(self) == *old(self)
            } else {
                &&& *final(self) == (LauncherView { show_hidden: false, category })
                &&& r == Some(
                    CategoryClick {
                        clear_search: searching,
                        transition: if old(self).show_hidden {
                            Some(LauncherViewTransition::HiddenBack)
                        } else if category.position() > old(self).category.position() {
                            Some(LauncherViewTransition::CategoryForward)
                        } else if category.position() < old(self).category.position() {
                            Some(LauncherViewTransition::CategoryBack)
                        } else {
                            None
                        },
                    },
                )
            },
    {
        let previous = self.category;
        let leaving_hidden = self.show_hidden;
        if previous == category && !searching && !leaving_hidden {
            return None;
        }
        self.show_hidden = false;
        self.category = category;
        let from: usize = previous.index();
        let to: usize = category.index();
        let transition = if leaving_hidden {
            Some(LauncherViewTransition::HiddenBack)
        } else if to > from {
            Some(LauncherViewTransition::CategoryForward)
        } else if to < from {
            Some(LauncherViewTransition::CategoryBack)
        } else {
            None
        };
        Some(CategoryClick { clear_search: searching, transition })
    }
}

/// Two categories with one place among the buttons are one category.
pub proof fn button_places_are_unique(a: LauncherCategory, b: LauncherCategory)
    requires
        a.position() == b.position(),
    ensures
        a == b,
{
}

/// An application that is not hidden is found in its own category, and in no other but all and
/// favorites.
pub proof fn applications_stand_in_one_category(
    app: AppModel,
    state: LauncherUserState,
    category: LauncherCategory,
)
    requires
        !state.hidden@.contains(app.key),
        category != LauncherCategory::Favorites,
        category != LauncherCategory::All,
    ensures
        (LauncherView { show_hidden: false, category }).shows(app, Seq::empty(), state) == (
        app.primary_category == Some(category)),
        (LauncherView { show_hidden: false, category: LauncherCategory::All }).shows(
            app,
            Seq::empty(),
            state,
        ),
{
}

/// The widths of the popup and of the favorites' place.
pub fn favorites_layout(has_favorites: bool) -> (r: (i32, i32))
    ensures
        r == (if has_favorites {
            (BAR_POPUP_WIDTH, FAVORITES_SLOT_WIDTH)
        } else {
            ((BAR_POPUP_WIDTH - FAVORITES_SLOT_WIDTH) as i32, 0i32)
        }),
        r.0 - r.1 == BAR_POPUP_WIDTH - FAVORITES_SLOT_WIDTH,
{
    if has_favorites {
        (BAR_POPUP_WIDTH, FAVORITES_SLOT_WIDTH)
    } else {
        (BAR_POPUP_WIDTH - FAVORITES_SLOT_WIDTH, 0)
    }
}

/// The icons of the buttons in an application's row: the favorites' one and the hiding one.
pub fn row_icons(state: &LauncherUserState, key: &str) -> (r: (&'static str, &'static str))
    ensures
        r.0@ == (if state.favorites@.contains(key@) {
            ICON_FAVORITE@
        } else {
            ICON_FAVORITE_OUTLINE@
        }),
        r.1@ == (if state.hidden@.contains(key@) {
            ICON_RESTORE@
        } else {
            ICON_HIDE@
        }),
{
    let favorite = if state.favorites.contains(key) {
        ICON_FAVORITE
    } else {
        ICON_FAVORITE_OUTLINE
    };
    let hidden = if state.hidden.contains(key) {
        ICON_RESTORE
    } else {
        ICON_HIDE
    };
    (favorite, hidden)
}

/// What a change of the favorites does to the widths.
#[derive(Clone, Copy, Debug, PartialEq, Eq, Structural)]
pub enum LayoutChange {
    Keep,
    /// The new widths hold at once.
    Jump,
    /// The widths move to the new ones, in frames that carry the token.
    Glide { token: u64 },
}

/// The widths of the popup and of the favorites' place as they are now.
#[derive(Clone, Copy, Debug, PartialEq, Eq, Structural)]
pub struct FavoritesLayout {
    pub expanded: bool,
    pub popup_width: i32,
    pub slot_width: i32,
    pub slot_visible: bool,
    pub generation: Generation,
}

impl FavoritesLayout {
    /// Whether the other buttons stand where they always stand: the popup is wider by exactly the
    /// width of the favorites' place.
    pub open spec fn is_steady(&self) -> bool {
        self.popup_width - self.slot_width == BAR_POPUP_WIDTH - FAVORITES_SLOT_WIDTH
    }

    /// Whether the widths are those that are aimed at.
    pub open spec fn is_settled(&self) -> bool {
        &&& self.slot_width == (if self.expanded {
            FAVORITES_SLOT_WIDTH
        } else {
            0
        })
        &&& self.popup_width == BAR_POPUP_WIDTH - FAVORITES_SLOT_WIDTH + self.slot_width
        &&& self.slot_visible == self.expanded
    }

    pub fn new(has_favorites: bool) -> (r: Self)
        ensures
            r.expanded == has_favorites,
            r.is_settled(),
            r.is_steady(),
            r.generation.value == 0,
    {
        let (popup_width, slot_width) = favorites_layout(has_favorites);
        FavoritesLayout {
            expanded: has_favorites,
            popup_width,
            slot_width,
            slot_visible: has_favorites,
            generation: Generation::default(),
        }
    }

    /// Takes whether there are favorites. A popup that is not shown takes the new widths at once.
    pub fn sync(&mut self, has_favorites: bool, popup_visible: bool) -> (r: LayoutChange)
        ensures
            old(self).is_steady() ==> final(self).is_steady(),
            if old(self).expanded == has_favorites {
                r == LayoutChange::Keep && *final(self) == *old(self)
            } else {
                &&& final(self).expanded == has_favorites
                &&& final(self).generation.value == bumped(old(self).generation.value, 1)
                &&& if popup_visible {
                    &&& r == LayoutChange::Glide { token: final(self).generation.value }
                    &&& final(self).popup_width == old(self).popup_width
                    &&& final(self).slot_width == old(self).slot_width
                    &&& final(self).slot_visible
                } else {
                    r == LayoutChange::Jump && final(self).is_settled()
                }
            },
    {
        if self.expanded == has_favorites {
            return LayoutChange::Keep;
        }
        self.expanded = has_favorites;
        let token: u64 = self.generation.bump();
        if popup_visible {
            self.slot_visible = true;
            return LayoutChange::Glide { token };
        }
        self.settle();
        LayoutChange::Jump
    }

    fn settle(&mut self)
        ensures
            final(self).is_settled(),
            final(self).is_steady(),
            final(self).expanded == old(self).expanded,
            final(self).generation == old(self).generation,
    {
        let (popup_width, slot_width) = favorites_layout(self.expanded);
        self.popup_width = popup_width;
        self.slot_width = slot_width;
        self.slot_visible = self.expanded;
    }

    /// Takes a frame with the widths on the way; the last frame settles them. Says whether more
    /// frames are wanted.
    pub fn frame(&mut self, token: u64, popup_width: i32, slot_width: i32, last: bool) -> (r: bool)
        ensures
            if old(self).generation.value != token {
                !r && *final(self) == *old(self)
            } else if last {
                &&& !r
                &&& final(self).is_settled()
                &&& final(self).is_steady()
                &&& final(self).expanded == old(self).expanded
                &&& final(self).generation == old(self).generation
            } else {
                r && *final(self) == (FavoritesLayout { popup_width, slot_width, ..*old(self) })
            },
    {
        if !self.generation.is_current(token) {
            return false;
        }
        if last {
            self.settle();
            return false;
        }
        self.popup_width = popup_width;
        self.slot_width = slot_width;
        true
    }
}

/// The rows of the grid: the favorites in order, all rows but the last full.
pub fn grid_rows(favorites: &Vec<usize>) -> (r: Vec<Vec<usize>>)
    ensures
        r@.len() == (favorites@.len() + FAVORITES_COLUMNS - 1) / FAVORITES_COLUMNS as int,
        forall|i: int|
            0 <= i < r@.len() ==> (#[trigger] r@[i])@ == favorites@.subrange(
                i * FAVORITES_COLUMNS,
                if (i + 1) * FAVORITES_COLUMNS < favorites@.len() {
                    (i + 1) * FAVORITES_COLUMNS
                } else {
                    favorites@.len() as int
                },
            ),
{
    let mut rows: Vec<Vec<usize>> = Vec::new();
    let mut at: usize = 0;
    while at < favorites.len()
        invariant
            at <= favorites@.len(),
            at == favorites@.len() || at == rows@.len() * FAVORITES_COLUMNS,
            rows@.len() == (at + FAVORITES_COLUMNS - 1) / FAVORITES_COLUMNS as int,
            forall|i: int|
                0 <= i < rows@.len() ==> (#[trigger] rows@[i])@ == favorites@.subrange(
                    i * FAVORITES_COLUMNS,
                    if (i + 1) * FAVORITES_COLUMNS < favorites@.len() {
                        (i + 1) * FAVORITES_COLUMNS
                    } else {
                        favorites@.len() as int
                    },
                ),
        decreases favorites@.len() - at,
    {
        let mut row: Vec<usize> = Vec::new();
        let start: usize = at;
        while at < favorites.len() && at - start < FAVORITES_COLUMNS
            invariant
                start <= at <= favorites@.len(),
                at - start <= FAVORITES_COLUMNS,
                row@ == favorites@.subrange(start as int, at as int),
            decreases favorites@.len() - at,
        {
            row.push(favorites[at]);
            at = at + 1;
            assert(row@ =~= favorites@.subrange(start as int, at as int));
        }
        rows.push(row);
    }
    rows
}

/// Whether the grid already holds the favorites in this order.
pub fn grid_is_current(keys: &Vec<String>, apps: &Vec<LaunchableApp>, rows: &Vec<usize>) -> (r: bool)
    requires
        forall|i: int| 0 <= i < rows@.len() ==> (#[trigger] rows@[i]) < apps@.len(),
    ensures
        r == (texts(keys@) == rows@.map_values(|row: usize| apps@[row as int].key@)),
{
    let ghost wanted = rows@.map_values(|row: usize| apps@[row as int].key@);
    if keys.len() != rows.len() {
        assert(texts(keys@).len() != wanted.len());
        return false;
    }
    let mut i: usize = 0;
    while i < rows.len()
        invariant
            wanted == rows@.map_values(|row: usize| apps@[row as int].key@),
            keys@.len() == rows@.len(),
            i <= rows@.len(),
            forall|k: int| 0 <= k < rows@.len() ==> (#[trigger] rows@[k]) < apps@.len(),
            forall|k: int| 0 <= k < i ==> texts(keys@)[k] == wanted[k],
        decreases rows@.len() - i,
    {
        let row: usize = rows[i];
        if !same(&keys[i], &apps[row].key) {
            assert(texts(keys@)[i as int] != wanted[i as int]);
            return false;
        }
        i = i + 1;
    }
    assert(texts(keys@) =~= wanted);
    true
}

proof fn text_is_kept(text: Seq<char>, more: Seq<Seq<char>>, pat: Seq<char>)
    requires
        has_text(text, pat),
    ensures
        has_text(with_words(text, more), pat),
    decreases more.len(),
{
    if more.len() > 0 {
        text_is_kept(text, more.drop_last(), pat);
        let before = with_words(text, more.drop_last());
        let after = with_words(text, more);
        let i = choose|i: int| occurs_at(before, pat, i);
        assert(after.subrange(i, i + pat.len()) =~= before.subrange(i, i + pat.len()));
        assert(occurs_at(after, pat, i));
    }
}

proof fn words_are_held(text: Seq<char>, more: Seq<Seq<char>>, k: int)
    requires
        0 <= k < more.len(),
    ensures
        has_text(with_words(text, more), lowered(more[k])),
    decreases more.len(),
{
    let front = more.drop_last();
    let before = with_words(text, front);
    let after = with_words(text, more);
    let word = lowered(more.last());
    if k == more.len() - 1 {
        let i = after.len() - word.len();
        assert(after.subrange(i, i + word.len()) =~= word);
        assert(occurs_at(after, word, i));
    } else {
        words_are_held(text, front, k);
        assert(front[k] == more[k]);
        let pat = lowered(more[k]);
        let i = choose|i: int| occurs_at(before, pat, i);
        assert(after.subrange(i, i + pat.len()) =~= before.subrange(i, i + pat.len()));
        assert(occurs_at(after, pat, i));
    }
}

proof fn fields_are_held(fields: Seq<Seq<char>>, f: int, k: int)
    requires
        0 <= f < fields.len(),
        0 <= k < words(fields[f]).len(),
    ensures
        has_text(search_text(fields), lowered(words(fields[f])[k])),
    decreases fields.len(),
{
    let front = fields.drop_last();
    if f == fields.len() - 1 {
        words_are_held(search_text(front), words(fields.last()), k);
    } else {
        assert(front[f] == fields[f]);
        fields_are_held(front, f, k);
        text_is_kept(search_text(front), words(fields.last()), lowered(words(fields[f])[k]));
    }
}

/// Whether a text is one of those by which an application is found: its name, its description, its
/// program, its keywords, its id, or one of its categories.
pub open spec fn speaks_of(facts: AppFacts, text: Seq<char>) -> bool {
    ||| text == facts.display_name@
    ||| facts.description matches Some(description) && text == description@
    ||| text == facts.executable@
    ||| text == facts.keywords@
    ||| facts.id matches Some(id) && text == id@
    ||| exists|i: int| 0 <= i < facts.categories@.len() && text == (#[trigger] facts.categories@[i])@
}

/// A search for any word of an application's name, description, program, keywords, id or
/// categories shows the application.
pub proof fn applications_are_found_by_their_words(
    facts: AppFacts,
    source: usize,
    text: Seq<char>,
    k: int,
    view: LauncherView,
    state: LauncherUserState,
)
    requires
        speaks_of(facts, text),
        0 <= k < words(text).len(),
        lowered(words(text)[k]).len() > 0,
        !view.show_hidden,
    ensures
        has_text(app_model(facts, source).search_blob, lowered(words(text)[k])),
        view.shows(app_model(facts, source), lowered(words(text)[k]), state),
{
    let (name, description) = (trimmed(facts.display_name@), app_description(facts));
    let (executable, id) = (trimmed(facts.executable@), text_or_empty(facts.id));
    let categories = texts(facts.categories@);
    let fields = seq![name, description, executable, facts.keywords@, id] + categories;
    trimming_keeps_words(text);
    let f: int = if text == facts.display_name@ {
        0
    } else if facts.description is Some && text == facts.description->0@ {
        1
    } else if text == facts.executable@ {
        2
    } else if text == facts.keywords@ {
        3
    } else if facts.id is Some && text == facts.id->0@ {
        4
    } else {
        5 + choose|i: int|
            0 <= i < facts.categories@.len() && text == (#[trigger] facts.categories@[i])@
    };
    if f >= 5 {
        assert(categories[f - 5] == facts.categories@[f - 5]@);
    }
    assert(fields[f] == text || fields[f] == trimmed(text));
    assert(words(fields[f]) == words(text));
    fields_are_held(fields, f, k);
}

/// An application is listed under its own name, trimmed, and where it is not known as hidden, it
/// is found in the category of its entry. Its line is never empty: it tells the description, the
/// program or the id, in this order.
pub proof fn entries_tell_the_application(facts: AppFacts, source: usize)
    requires
        is_launchable(facts),
    ensures
        app_model(facts, source).name == trimmed(facts.display_name@),
        app_model(facts, source).name.len() > 0,
        app_model(facts, source).source == source,
        app_model(facts, source).meta.len() > 0,
        facts.description matches Some(text) && trimmed(text@).len() > 0 ==> app_model(
            facts,
            source,
        ).meta == trimmed(facts.description->0@),
        app_description(facts).len() == 0 && trimmed(facts.executable@).len() > 0 ==> app_model(
            facts,
            source,
        ).meta == trimmed(facts.executable@),
        facts.should_show,
{
    reveal_strlit("Desktop application");
}

/// Two applications with ids have one key exactly where they have one id.
pub proof fn keys_go_by_ids(a: AppFacts, b: AppFacts)
    requires
        text_or_empty(a.id).len() > 0,
        text_or_empty(b.id).len() > 0,
    ensures
        (app_key(a) == app_key(b)) == (text_or_empty(a.id) == text_or_empty(b.id)),
        begins_with(app_key(a), "id:"@),
{
    reveal_strlit("id:");
    let (x, y) = (text_or_empty(a.id), text_or_empty(b.id));
    assert(app_key(a).skip(3) =~= x);
    assert(app_key(b).skip(3) =~= y);
    assert(app_key(a).subrange(0, 3) =~= "id:"@);
}

/// The applications that are shown are exactly those that the view shows, in the order of the
/// catalog.
pub proof fn shown_rows_are_those_shown(
    view: LauncherView,
    apps: Seq<LaunchableApp>,
    query: Seq<char>,
    state: LauncherUserState,
    n: nat,
    i: int,
)
    requires
        0 <= i < n <= apps.len() <= usize::MAX,
    ensures
        view.shown_rows(apps, query, state, n).contains(i as usize) == view.shows(
            apps[i]@,
            query,
            state,
        ),
        view.shown_rows(apps, query, state, n).len() <= n,
    decreases n,
{
    let before = view.shown_rows(apps, query, state, (n - 1) as nat);
    let all = view.shown_rows(apps, query, state, n);
    rows_are_below(view, apps, query, state, (n - 1) as nat);
    if i < n - 1 {
        shown_rows_are_those_shown(view, apps, query, state, (n - 1) as nat, i);
        if before.contains(i as usize) {
            let k = choose|k: int| 0 <= k < before.len() && before[k] == i as usize;
            assert(all[k] == i as usize);
        }
    } else if view.shows(apps[i]@, query, state) {
        assert(all.last() == i as usize);
    }
}

proof fn rows_are_below(
    view: LauncherView,
    apps: Seq<LaunchableApp>,
    query: Seq<char>,
    state: LauncherUserState,
    n: nat,
)
    requires
        n <= apps.len() <= usize::MAX,
    ensures
        view.shown_rows(apps, query, state, n).len() <= n,
        forall|k: int|
            0 <= k < view.shown_rows(apps, query, state, n).len() ==> (#[trigger] view.shown_rows(
                apps,
                query,
                state,
                n,
            )[k]) < n,
    decreases n,
{
    if n > 0 {
        rows_are_below(view, apps, query, state, (n - 1) as nat);
    }
}

/// What hiding an application does: it is no longer shown where nothing is searched for, it is
/// shown among the hidden ones, and a search still finds it.
pub proof fn hidden_applications_are_hidden(
    app: AppModel,
    query: Seq<char>,
    category: LauncherCategory,
    state: LauncherUserState,
)
    requires
        state.hidden@.contains(app.key),
    ensures
        !(LauncherView { show_hidden: false, category }).shows(app, Seq::empty(), state),
        (LauncherView { show_hidden: true, category }).shows(app, Seq::empty(), state),
        query.len() > 0 ==> (LauncherView { show_hidden: false, category }).shows(
            app,
            query,
            state,
        ) == has_text(app.search_blob, query),
{
}

/// The favorites show the favorites and nothing else, and only the hidden view shows hidden
/// applications without a search.
pub proof fn favorites_show_the_favorites(
    app: AppModel,
    category: LauncherCategory,
    state: LauncherUserState,
)
    requires
        !state.hidden@.contains(app.key),
    ensures
        (LauncherView { show_hidden: false, category: LauncherCategory::Favorites }).shows(
            app,
            Seq::empty(),
            state,
        ) == state.favorites@.contains(app.key),
        !(LauncherView { show_hidden: true, category }).shows(app, Seq::empty(), state),
{
}

/// Whether one of the categories, in whatever case, has this name.
pub open spec fn lists_category(categories: Seq<String>, name: Seq<char>) -> bool {
    exists|i: int| 0 <= i < categories.len() && ascii_lower((#[trigger] categories[i])@) == name
}

proof fn taken_categories_are_listed(
    category: LauncherCategory,
    categories: Seq<String>,
    name: Seq<char>,
)
    ensures
        category.takes(name) && lists_category(categories, name) ==> category.takes_any(
            texts(categories),
        ),
{
    if category.takes(name) && lists_category(categories, name) {
        let i = choose|i: int|
            0 <= i < categories.len() && ascii_lower((#[trigger] categories[i])@) == name;
        assert(texts(categories)[i] == categories[i]@);
        assert(category.takes(ascii_lower(texts(categories)[i])));
    }
}

proof fn listed_categories_are_taken(category: LauncherCategory, categories: Seq<String>)
    requires
        category.takes_any(texts(categories)),
    ensures
        exists|i: int|
            0 <= i < categories.len() && category.takes(ascii_lower((#[trigger] categories[i])@)),
{
    let list = texts(categories);
    let i = choose|i: int| 0 <= i < list.len() && category.takes(ascii_lower(#[trigger] list[i]));
    assert(list[i] == categories[i]@);
}

/// A game is a game whatever else it is; browsers, mail and chat belong to the web, players and
/// pictures to the media, documents to the office, and settings and tools to the system.
pub proof fn categories_are_told_by_their_names(
    categories: Vec<String>,
    r: Option<LauncherCategory>,
)
    requires
        call_ensures(classify_category, (&categories,), r),
    ensures
        ({
            let lists = |name: Seq<char>| lists_category(categories@, name);
            &&& lists("game"@) == (r == Some(LauncherCategory::Games))
            &&& !lists("game"@) && (lists("network"@) || lists("webbrowser"@) || lists("email"@) || lists(
                "chat"@,
            ) || lists("instantmessaging"@) || lists("filetransfer"@) || lists("p2p"@)) ==> r == Some(
                LauncherCategory::Internet,
            )
            &&& lists("audiovideo"@) || lists("audio"@) || lists("video"@) || lists("player"@) || lists(
                "recorder"@,
            ) || lists("music"@) || lists("photography"@) || lists("graphics"@) ==> r == Some(
                LauncherCategory::Games,
            ) || r == Some(LauncherCategory::Internet) || r == Some(LauncherCategory::Media)
            &&& lists("office"@) || lists("wordprocessor"@) || lists("spreadsheet"@) || lists(
                "presentation"@,
            ) || lists("calendar"@) || lists("contactmanagement"@) || lists("education"@) || lists(
                "science"@,
            ) ==> r is Some && r != Some(LauncherCategory::System)
            &&& lists("system"@) || lists("settings"@) || lists("utility"@) || lists("security"@) || lists(
                "monitor"@,
            ) || lists("terminalemulator"@) || lists("filemanager"@) ==> r is Some
            &&& r != Some(LauncherCategory::Favorites) && r != Some(LauncherCategory::All)
        }),
{
    let all = categories@;
    taken_categories_are_listed(LauncherCategory::Games, all, "game"@);
    taken_categories_are_listed(LauncherCategory::Internet, all, "network"@);
    taken_categories_are_listed(LauncherCategory::Internet, all, "webbrowser"@);
    taken_categories_are_listed(LauncherCategory::Internet, all, "email"@);
    taken_categories_are_listed(LauncherCategory::Internet, all, "chat"@);
    taken_categories_are_listed(LauncherCategory::Internet, all, "instantmessaging"@);
    taken_categories_are_listed(LauncherCategory::Internet, all, "filetransfer"@);
    taken_categories_are_listed(LauncherCategory::Internet, all, "p2p"@);
    taken_categories_are_listed(LauncherCategory::Media, all, "audiovideo"@);
    taken_categories_are_listed(LauncherCategory::Media, all, "audio"@);
    taken_categories_are_listed(LauncherCategory::Media, all, "video"@);
    taken_categories_are_listed(LauncherCategory::Media, all, "player"@);
    taken_categories_are_listed(LauncherCategory::Media, all, "recorder"@);
    taken_categories_are_listed(LauncherCategory::Media, all, "music"@);
    taken_categories_are_listed(LauncherCategory::Media, all, "photography"@);
    taken_categories_are_listed(LauncherCategory::Media, all, "graphics"@);
    taken_categories_are_listed(LauncherCategory::Office, all, "office"@);
    taken_categories_are_listed(LauncherCategory::Office, all, "wordprocessor"@);
    taken_categories_are_listed(LauncherCategory::Office, all, "spreadsheet"@);
    taken_categories_are_listed(LauncherCategory::Office, all, "presentation"@);
    taken_categories_are_listed(LauncherCategory::Office, all, "calendar"@);
    taken_categories_are_listed(LauncherCategory::Office, all, "contactmanagement"@);
    taken_categories_are_listed(LauncherCategory::Office, all, "education"@);
    taken_categories_are_listed(LauncherCategory::Office, all, "science"@);
    taken_categories_are_listed(LauncherCategory::System, all, "system"@);
    taken_categories_are_listed(LauncherCategory::System, all, "settings"@);
    taken_categories_are_listed(LauncherCategory::System, all, "utility"@);
    taken_categories_are_listed(LauncherCategory::System, all, "security"@);
    taken_categories_are_listed(LauncherCategory::System, all, "monitor"@);
    taken_categories_are_listed(LauncherCategory::System, all, "terminalemulator"@);
    taken_categories_are_listed(LauncherCategory::System, all, "filemanager"@);
    if r == Some(LauncherCategory::Games) {
        listed_categories_are_taken(LauncherCategory::Games, all);
    }
}

/// An application gets the media, the office or the web only where one of its categories is of
/// theirs, and none only where none of its categories is known.
pub proof fn categories_are_not_made_up(categories: Vec<String>, r: Option<LauncherCategory>)
    requires
        call_ensures(classify_category, (&categories,), r),
    ensures
        ({
            let lists = |name: Seq<char>| lists_category(categories@, name);
            &&& r == Some(LauncherCategory::Internet) ==> lists("network"@) || lists("webbrowser"@)
                || lists("email"@) || lists("chat"@) || lists("instantmessaging"@) || lists("filetransfer"@)
                || lists("p2p"@)
            &&& r == Some(LauncherCategory::Media) ==> lists("audiovideo"@) || lists("audio"@) || lists(
                "video"@,
            ) || lists("player"@) || lists("recorder"@) || lists("music"@) || lists("photography"@) || lists(
                "graphics"@,
            )
            &&& r == Some(LauncherCategory::Office) ==> lists("office"@) || lists("wordprocessor"@)
                || lists("spreadsheet"@) || lists("presentation"@) || lists("calendar"@) || lists(
                "contactmanagement"@,
            ) || lists("education"@) || lists("science"@)
            &&& r == Some(LauncherCategory::System) ==> lists("system"@) || lists("settings"@) || lists(
                "utility"@,
            ) || lists("security"@) || lists("monitor"@) || lists("terminalemulator"@) || lists(
                "filemanager"@,
            )
        }),
{
    if r is Some {
        listed_categories_are_taken(r->0, categories@);
        let i = choose|i: int|
            0 <= i < categories@.len() && r->0.takes(ascii_lower((#[trigger] categories@[i])@));
        assert(lists_category(categories@, ascii_lower(categories@[i]@)));
    }
}

/// Each category has its own label, and the buttons stand in one order, favorites first.
pub proof fn categories_have_their_labels(
    category: LauncherCategory,
    label: &'static str,
    index: usize,
    buttons: Vec<LauncherCategory>,
)
    requires
        call_ensures(LauncherCategory::label, (category,), label),
        call_ensures(LauncherCategory::index, (category,), index),
        call_ensures(LauncherCategory::buttons, (), buttons),
    ensures
        (label@ == "Favorites"@) == (category is Favorites),
        (label@ == "All"@) == (category is All),
        (label@ == "Web"@) == (category is Internet),
        (label@ == "Media"@) == (category is Media),
        (label@ == "Office"@) == (category is Office),
        (label@ == "Games"@) == (category is Games),
        (label@ == "System"@) == (category is System),
        index < buttons@.len(),
        buttons@[index as int] == category,
        (index == 0) == (category is Favorites),
        (index == 1) == (category is All),
{
    reveal_strlit("Favorites");
    reveal_strlit("All");
    reveal_strlit("Web");
    reveal_strlit("Media");
    reveal_strlit("Office");
    reveal_strlit("Games");
    reveal_strlit("System");
    assert("Favorites"@.len() == 9 && "All"@.len() == 3 && "Web"@.len() == 3 && "Media"@.len() == 5
        && "Office"@.len() == 6 && "Games"@.len() == 5 && "System"@.len() == 6);
    assert("All"@[0] == 'A' && "Web"@[0] == 'W' && "Media"@[0] == 'M' && "Games"@[0] == 'G'
        && "Office"@[0] == 'O' && "System"@[0] == 'S');
    assert(buttons@[index as int].position() == index);
}

/// An application is listed exactly where it wants to be shown, has a name and is not listed yet;
/// one that was listed is not listed again.
pub proof fn applications_are_listed_once(
    facts: AppFacts,
    source: usize,
    known: &mut TextSet,
    r: Option<LaunchableApp>,
    again: &mut TextSet,
    place: usize,
    second: Option<LaunchableApp>,
)
    requires
        call_ensures(catalog_app, (&facts, source, known), r),
        *old(again) == *final(known),
        call_ensures(catalog_app, (&facts, place, again), second),
    ensures
        r is Some ==> facts.should_show && !is_blank(facts.display_name@),
        facts.should_show && trimmed(facts.display_name@).len() > 0 && old(known)@ == Set::<
            Seq<char>,
        >::empty() ==> r is Some,
        second is None,
        r matches Some(app) ==> app.name@ == trimmed(facts.display_name@) && app.source == source
            && !old(known)@.contains(app.key@) && final(known)@.contains(app.key@),
{
    if is_blank(facts.display_name@) {
        blank_texts_trim_to_nothing(facts.display_name@);
    }
    if r is Some {
        assert(r->0@.key == r->0.key@ && r->0@.name == r->0.name@);
    }
}

/// Applications stand in the order of their names, case aside, and none is lost.
pub proof fn applications_are_in_order(
    apps: Vec<LaunchableApp>,
    r: Vec<LaunchableApp>,
    i: int,
    j: int,
    app: LaunchableApp,
)
    requires
        call_ensures(sort_apps, (apps,), r),
        0 <= i < j < r@.len(),
    ensures
        text_le(lower_text(r@[i].name@), lower_text(r@[j].name@)),
        apps@.contains(app) == r@.contains(app),
{
    assert(r@[i].le(&r@[j]));
    sorted_has_the_same_members(apps@, r@, app);
}

/// The launcher opens with the favorites exactly where there are any, and never with the hidden
/// applications; it leaves the favorites when the last one is gone.
pub proof fn launchers_open_with_the_favorites(
    view: &mut LauncherView,
    state: LauncherUserState,
    category: LauncherCategory,
    kept: &mut LauncherView,
)
    requires
        call_ensures(LauncherView::reset, (view, &state), ()),
        call_ensures(LauncherUserState::default_category, (&state,), category),
        call_ensures(LauncherView::ensure_valid_category, (kept, &state), ()),
    ensures
        !final(view).show_hidden,
        (category is Favorites) == (state.favorites@ != Set::<Seq<char>>::empty()),
        category is Favorites || category is All,
        final(view).category == category,
        state.favorites@ == Set::<Seq<char>>::empty() ==> !(final(kept).category is Favorites),
        !(old(kept).category is Favorites) ==> final(kept).category == old(kept).category,
{
}

/// Hiding an application and making it a favorite are two things, and each is undone by itself.
pub proof fn toggles_undo_themselves(
    state: &mut LauncherUserState,
    kind: LauncherStateKind,
    key: &str,
    again: &mut LauncherUserState,
    other: Seq<char>,
)
    requires
        call_ensures(LauncherUserState::toggle_state_key, (state, kind, key), ()),
        *old(again) == *final(state),
        call_ensures(LauncherUserState::toggle_state_key, (again, kind, key), ()),
        other != key@,
    ensures
        final(again).hidden@ =~= old(state).hidden@,
        final(again).favorites@ =~= old(state).favorites@,
        (final(state).hidden@.contains(key@) != old(state).hidden@.contains(key@)) == (
        kind is Hidden),
        (final(state).favorites@.contains(key@) != old(state).favorites@.contains(key@)) == (
        kind is Favorite),
        final(state).hidden@.contains(other) == old(state).hidden@.contains(other),
        final(state).favorites@.contains(other) == old(state).favorites@.contains(other),
{
}

/// Keys of applications that are gone are forgotten once the catalog is there, and no others.
pub proof fn only_gone_applications_are_forgotten(
    state: &mut LauncherUserState,
    ready: bool,
    valid: TextSet,
    r: (bool, bool),
    key: Seq<char>,
)
    requires
        call_ensures(LauncherUserState::prune, (state, ready, &valid), r),
    ensures
        valid@.contains(key) ==> final(state).hidden@.contains(key) == old(state).hidden@.contains(
            key,
        ) && final(state).favorites@.contains(key) == old(state).favorites@.contains(key),
        ready && valid@ != Set::<Seq<char>>::empty() && !valid@.contains(key) ==> !final(
            state).hidden@.contains(key) && !final(state).favorites@.contains(key),
        !ready ==> final(state).hidden@ == old(state).hidden@ && final(state).favorites@ == old(
            state,
        ).favorites@,
        r.0 == (final(state).hidden@ != old(state).hidden@),
        r.1 == (final(state).favorites@ != old(state).favorites@),
{
}

/// The row of an application shows whether it is a favorite and whether it is hidden.
pub proof fn rows_show_the_state(
    state: LauncherUserState,
    key: &str,
    r: (&'static str, &'static str),
    hidden_file: &'static str,
    favorite_file: &'static str,
)
    requires
        call_ensures(row_icons, (&state, key), r),
        call_ensures(LauncherStateKind::file_name, (LauncherStateKind::Hidden,), hidden_file),
        call_ensures(LauncherStateKind::file_name, (LauncherStateKind::Favorite,), favorite_file),
    ensures
        (r.0@ == "\u{f04ce}"@) == state.favorites@.contains(key@),
        (r.0@ == "\u{f04d2}"@) == !state.favorites@.contains(key@),
        (r.1@ == "\u{f05e1}"@) == state.hidden@.contains(key@),
        (r.1@ == "\u{f06d1}"@) == !state.hidden@.contains(key@),
        hidden_file@ == "hidden-launcher-apps.json"@,
        favorite_file@ == "favorite-launcher-apps.json"@,
{
    reveal_strlit("\u{f04ce}");
    reveal_strlit("\u{f04d2}");
    reveal_strlit("\u{f05e1}");
    reveal_strlit("\u{f06d1}");
    assert("\u{f04ce}"@[0] != "\u{f04d2}"@[0] && "\u{f05e1}"@[0] != "\u{f06d1}"@[0]);
}

/// The head of the list says what is shown and how many there are.
pub proof fn heads_say_what_is_shown(
    view: &LauncherView,
    count: usize,
    searching: bool,
    hidden_count: usize,
    r: LauncherHeader,
    empty: &'static str,
    favorites: bool,
)
    requires
        call_ensures(LauncherView::header, (view, count, searching, hidden_count), r),
        call_ensures(LauncherView::empty_text, (view,), empty),
        call_ensures(LauncherView::is_favorites_view, (view, searching), favorites),
    ensures
        ends_with(r.title@, decimal(count as nat)),
        view.show_hidden ==> begins_with(r.title@, "Hidden applications"@),
        !view.show_hidden && searching ==> begins_with(r.title@, "Search results"@),
        !view.show_hidden && !searching && view.category is All ==> begins_with(
            r.title@,
            "Applications"@,
        ),
        !view.show_hidden && !searching && view.category is Games ==> begins_with(r.title@, "Games"@),
        hidden_count > 0 || view.show_hidden ==> r.toggle_visible,
        hidden_count == 0 && !view.show_hidden ==> !r.toggle_visible,
        (r.toggle_icon@ == "\u{f004d}"@) == view.show_hidden,
        (r.toggle_tooltip@ == "Show hidden applications"@) == !view.show_hidden,
        (empty@ == "No hidden applications"@) == view.show_hidden,
        (empty@ == "Nothing found"@) == !view.show_hidden,
        favorites == (view.category is Favorites && !searching && !view.show_hidden),
{
    reveal_strlit("\u{f004d}");
    reveal_strlit("\u{f06d1}");
    assert("\u{f004d}"@[0] != "\u{f06d1}"@[0]);
    reveal_strlit("No hidden applications");
    reveal_strlit("Nothing found");
    reveal_strlit("Show hidden applications");
    reveal_strlit("Back to applications");
    assert("No hidden applications"@.len() == 22 && "Nothing found"@.len() == 13);
    assert("Show hidden applications"@.len() == 24 && "Back to applications"@.len() == 20);
    let head = if view.show_hidden {
        "Hidden applications"@
    } else if searching {
        "Search results"@
    } else if view.category == LauncherCategory::All {
        "Applications"@
    } else {
        view.category.label_text()
    };
    parts_show(head, " "@, decimal(count as nat));
}

/// Going to the hidden applications and back again leads where it began; a click on a category
/// shows that category, and the list moves in the direction of the button.
pub proof fn views_go_where_they_are_asked(
    view: &mut LauncherView,
    forth: LauncherViewTransition,
    back: &mut LauncherView,
    home: LauncherViewTransition,
    clicked: &mut LauncherView,
    category: LauncherCategory,
    searching: bool,
    r: Option<CategoryClick>,
)
    requires
        !old(view).show_hidden,
        call_ensures(LauncherView::toggle_hidden, (view,), forth),
        *old(back) == *final(view),
        call_ensures(LauncherView::toggle_hidden, (back,), home),
        *old(clicked) == *final(back),
        call_ensures(LauncherView::click_category, (clicked, category, searching), r),
    ensures
        final(view).show_hidden && forth is HiddenForward,
        *final(back) == *old(view) && home is HiddenBack,
        final(clicked).category == category && !final(clicked).show_hidden,
        (r is None) == (category == old(view).category && !searching),
        r matches Some(click) ==> click.clear_search == searching,
        r matches Some(click) ==> (click.transition == Some(
            LauncherViewTransition::CategoryForward,
        )) == (category.position() > old(view).category.position()),
        r matches Some(click) ==> (click.transition == Some(LauncherViewTransition::CategoryBack))
            == (category.position() < old(view).category.position()),
{
}

/// Each animation has its own class.
pub proof fn animations_have_their_classes(transition: LauncherViewTransition, r: &'static str)
    requires
        call_ensures(LauncherViewTransition::css_class, (transition,), r),
    ensures
        (r@ == "launcher-view-hidden-forward"@) == (transition is HiddenForward),
        (r@ == "launcher-view-hidden-back"@) == (transition is HiddenBack),
        (r@ == "launcher-view-category-forward"@) == (transition is CategoryForward),
        (r@ == "launcher-view-category-back"@) == (transition is CategoryBack),
{
    reveal_strlit("launcher-view-hidden-forward");
    reveal_strlit("launcher-view-hidden-back");
    reveal_strlit("launcher-view-category-forward");
    reveal_strlit("launcher-view-category-back");
    assert("launcher-view-hidden-forward"@.len() == 28 && "launcher-view-hidden-back"@.len() == 25
        && "launcher-view-category-forward"@.len() == 30 && "launcher-view-category-back"@.len()
        == 27);
}

/// The catalog is built one at a time; what was asked for meanwhile is one more time after it, and
/// other applications make it stale.
pub proof fn catalogs_are_built_in_turn(
    first: &mut CatalogState,
    now: bool,
    second: &mut CatalogState,
    meanwhile: bool,
    built: &mut CatalogState,
    again: bool,
    known: TextSet,
    current: TextSet,
    stale: bool,
)
    requires
        !old(first).refresh_scheduled,
        call_ensures(CatalogState::schedule_refresh, (first,), now),
        *old(second) == *final(first),
        call_ensures(CatalogState::schedule_refresh, (second,), meanwhile),
        *old(built) == *final(second),
        call_ensures(CatalogState::apply_refresh, (built,), again),
        call_ensures(CatalogState::is_stale, (final(built), &known, &current), stale),
    ensures
        now && !meanwhile && again,
        final(built).initialized && !final(built).refresh_scheduled && !final(built).refresh_again,
        stale == (known@ != current@),
{
}

/// Favorites take their place where there are any, and the rest of the popup keeps its width.
pub proof fn favorites_take_their_place(
    any: bool,
    r: (i32, i32),
    other: (i32, i32),
    favorites: Vec<usize>,
    rows: Vec<Vec<usize>>,
    k: int,
)
    requires
        call_ensures(favorites_layout, (any,), r),
        call_ensures(favorites_layout, (!any,), other),
        call_ensures(grid_rows, (&favorites,), rows),
        0 <= k < favorites@.len(),
    ensures
        (r.1 == 0) == !any,
        any ==> r.0 == 392 && r.1 == 42,
        r.0 - r.1 == other.0 - other.1,
        k / 5 < rows@.len(),
        k % 5 < rows@[k / 5]@.len() <= 5,
        rows@[k / 5]@[k % 5] == favorites@[k],
{
    assert(rows@.len() == (favorites@.len() + 5 - 1) / 5);
    let i = k / 5;
    assert(0 <= i < rows@.len());
    assert(rows@[i]@ == favorites@.subrange(
        i * FAVORITES_COLUMNS,
        if (i + 1) * FAVORITES_COLUMNS < favorites@.len() {
            (i + 1) * FAVORITES_COLUMNS
        } else {
            favorites@.len() as int
        },
    ));
    assert(i * 5 + k % 5 == k);
}

proof fn values_are_listed(list: Seq<Seq<char>>, value: Seq<char>)
    ensures
        listed_values(list).contains(value) == (value.len() > 0 && exists|i: int|
            0 <= i < list.len() && trimmed(#[trigger] list[i]) == value),
    decreases list.len(),
{
    if list.len() > 0 {
        let rest = list.drop_last();
        values_are_listed(rest, value);
        let (all, before) = (listed_values(list), listed_values(rest));
        if all.contains(value) {
            let k = choose|k: int| 0 <= k < all.len() && all[k] == value;
            if k < before.len() {
                assert(before[k] == value);
                let i = choose|i: int| 0 <= i < rest.len() && trimmed(#[trigger] rest[i]) == value;
                assert(list[i] == rest[i]);
            } else {
                assert(trimmed(list[list.len() - 1]) == value);
            }
        }
        if value.len() > 0 && exists|i: int|
            0 <= i < list.len() && trimmed(#[trigger] list[i]) == value {
            let i = choose|i: int| 0 <= i < list.len() && trimmed(#[trigger] list[i]) == value;
            if i < rest.len() {
                assert(rest[i] == list[i]);
                let k = choose|k: int| 0 <= k < before.len() && before[k] == value;
                assert(all[k] == value);
            } else {
                assert(all[all.len() - 1] == value);
            }
        }
    }
}

/// The values of a list are its pieces between semicolons, each without the white space around it;
/// blank ones are left out.
pub proof fn lists_are_split_at_semicolons(raw: &str, r: Vec<String>, value: Seq<char>)
    requires
        call_ensures(desktop_values, (raw,), r),
    ensures
        texts(r@).contains(value) == (value.len() > 0 && exists|i: int|
            0 <= i < pieces(raw@, ';').len() && trimmed(#[trigger] pieces(raw@, ';')[i]) == value),
{
    values_are_listed(pieces(raw@, ';'), value);
}

/// The place of the favorites is there exactly where there are any: at once while the popup is not
/// seen, and else in frames of which the last has the full width; frames of an earlier change are
/// dropped.
pub proof fn favorites_glide_into_place(
    layout: &mut FavoritesLayout,
    any: bool,
    visible: bool,
    change: LayoutChange,
    late: &mut FavoritesLayout,
    stale: u64,
    a: i32,
    b: i32,
    stale_goes_on: bool,
    last: &mut FavoritesLayout,
    goes_on: bool,
)
    requires
        old(layout).expanded != any,
        call_ensures(FavoritesLayout::sync, (layout, any, visible), change),
        *old(late) == *final(layout),
        stale != final(layout).generation.value,
        call_ensures(FavoritesLayout::frame, (late, stale, a, b, false), stale_goes_on),
        *old(last) == *final(late),
        call_ensures(
            FavoritesLayout::frame,
            (last, final(layout).generation.value, a, b, true),
            goes_on,
        ),
    ensures
        (change is Glide) == visible && (change is Jump) == !visible,
        change matches LayoutChange::Glide { token } ==> token == final(layout).generation.value,
        !visible ==> final(layout).slot_visible == any,
        !stale_goes_on && *final(late) == *final(layout),
        !goes_on,
        final(last).slot_visible == any,
        any ==> final(last).slot_width == 42 && final(last).popup_width == 392,
        !any ==> final(last).slot_width == 0 && final(last).popup_width == 350,
{
}

/// What is searched for is written as the fields are that are searched.
pub proof fn queries_are_written_as_fields(value: &str, query: String, fields: Vec<String>, blob: String)
    requires
        call_ensures(normalize_text, (value,), query),
        fields@.len() == 1,
        fields@[0]@ == value@,
        call_ensures(normalize_fields, (&fields,), blob),
    ensures
        query@ == blob@,
        is_blank(value@) ==> query@.len() == 0,
{
    let list = texts(fields@);
    assert(list.len() == 1);
    assert(list[0] == value@);
    assert(list.last() == value@);
    assert(list.drop_last() =~= Seq::<Seq<char>>::empty());
    assert(search_text(Seq::<Seq<char>>::empty()) == Seq::<char>::empty());
    if is_blank(value@) {
        blank_texts_have_no_words(value@);
    }
}

proof fn tails_tell_texts_apart(start: Seq<char>, head: Seq<char>, x: Seq<char>, y: Seq<char>)
    requires
        begins_with(head, start),
    ensures
        (head + x == head + y) == (x == y),
        begins_with(head + x, start),
        ends_with(head + x, x),
{
    parts_show(head, x, Seq::empty());
    assert((head + x).subrange(0, start.len() as int) =~= head.subrange(0, start.len() as int));
    if head + x == head + y {
        assert((head + x).skip(head.len() as int) =~= x);
        assert((head + y).skip(head.len() as int) =~= y);
    }
}

/// Applications without ids are one where their programs and their names are the same.
pub proof fn keys_without_ids_go_by_program_and_name(a: AppFacts, b: AppFacts)
    requires
        a.id is None,
        b.id is None,
        trimmed(a.executable@) == trimmed(b.executable@),
    ensures
        (app_key(a) == app_key(b)) == (trimmed(a.display_name@) == trimmed(b.display_name@)),
        begins_with(app_key(a), "fallback:"@),
        ends_with(app_key(a), trimmed(a.display_name@)),
{
    let program = trimmed(a.executable@);
    let head = "fallback:"@ + program + "::"@;
    parts_show("fallback:"@, program, "::"@);
    tails_tell_texts_apart(
        "fallback:"@,
        head,
        trimmed(a.display_name@),
        trimmed(b.display_name@),
    );
}

/// Whoever types a word of an application's name, description, program, keywords, id or categories
/// is shown the application, wherever it stands in the catalog.
pub proof fn typed_words_find_the_application(
    facts: AppFacts,
    source: usize,
    known: &mut TextSet,
    app: LaunchableApp,
    text: Seq<char>,
    k: int,
    typed: &str,
    normal: String,
    query: &str,
    view: &LauncherView,
    apps: Vec<LaunchableApp>,
    i: int,
    state: LauncherUserState,
    rows: Vec<usize>,
    matches: bool,
)
    requires
        call_ensures(catalog_app, (&facts, source, known), Some(app)),
        speaks_of(facts, text),
        0 <= k < words(text).len(),
        lowered(words(text)[k]).len() > 0,
        typed@ == words(text)[k],
        call_ensures(normalize_text, (typed,), normal),
        query@ == normal@,
        !view.show_hidden,
        0 <= i < apps@.len() <= usize::MAX,
        apps@[i] == app,
        call_ensures(LauncherView::visible_rows, (view, &apps, query, &state), rows),
        call_ensures(LauncherView::app_matches, (view, &app, query, &state), matches),
    ensures
        matches,
        rows@.contains(i as usize),
{
    let word = words(text)[k];
    words_are_solid(text);
    assert(is_word(word));
    words_of_joined_words(seq![word]);
    assert(joined(seq![word], " "@) == word);
    let one = seq![word];
    assert(words(word) == one);
    assert(one.drop_last() =~= Seq::<Seq<char>>::empty());
    assert(with_words(Seq::empty(), Seq::<Seq<char>>::empty()) == Seq::<char>::empty());
    assert(with_words(Seq::empty(), one) =~= lowered(word));
    applications_are_found_by_their_words(facts, source, text, k, *view, state);
    shown_rows_are_those_shown(*view, apps@, query@, state, apps@.len(), i);
}

/// The keys that are kept are those that are valid; the keys of a stored list are its texts without
/// the white space around them; and an application has a key exactly where it is listed.
pub proof fn kept_keys_are_valid(
    keys: &mut TextSet,
    valid: TextSet,
    dropped: bool,
    list: Vec<String>,
    read: TextSet,
    i: int,
    key: Seq<char>,
    facts: AppFacts,
    own: Option<String>,
)
    requires
        call_ensures(retain_known_keys, (keys, &valid), dropped),
        call_ensures(keys_from_list, (&list,), read),
        0 <= i < list@.len(),
        call_ensures(launchable_app_key, (&facts,), own),
    ensures
        final(keys)@.contains(key) == (old(keys)@.contains(key) && valid@.contains(key)),
        old(keys)@.contains(key) && !valid@.contains(key) ==> dropped,
        trimmed(list@[i]@).len() > 0 ==> read@.contains(trimmed(list@[i]@)),
        !read@.contains(Seq::<char>::empty()),
        (own is Some) == (facts.should_show && trimmed(facts.display_name@).len() > 0),
        own matches Some(k) ==> (facts.id matches Some(id) ==> (id@.len() > 0 ==> k@ == "id:"@
            + id@)),
{
    let t = trimmed(list@[i]@);
    assert(texts(list@)[i] == list@[i]@);
    assert(read@.contains(t) == listed_key(texts(list@), t));
    assert(read@.contains(Seq::<char>::empty()) == listed_key(texts(list@), Seq::empty()));
    if old(keys)@.contains(key) && !valid@.contains(key) {
        assert(!final(keys)@.contains(key));
    }
}

/// A grid that already shows the favorites in their order is left alone, and another is not.
pub proof fn grids_follow_the_favorites(
    keys: Vec<String>,
    apps: Vec<LaunchableApp>,
    rows: Vec<usize>,
    r: bool,
    i: int,
)
    requires
        call_ensures(grid_is_current, (&keys, &apps, &rows), r),
        0 <= i < rows@.len(),
    ensures
        r ==> keys@.len() == rows@.len() && keys@[i]@ == apps@[rows@[i] as int].key@,
        keys@.len() != rows@.len() ==> !r,
        i < keys@.len() && keys@[i]@ != apps@[rows@[i] as int].key@ ==> !r,
{
    let (a, b) = (texts(keys@), rows@.map_values(|row: usize| apps@[row as int].key@));
    assert(a.len() == keys@.len() && b.len() == rows@.len());
    if i < keys@.len() {
        assert(a[i] == keys@[i]@);
    }
    assert(b[i] == apps@[rows@[i] as int].key@);
}

/// What is written of the favorites or the hidden applications is read back: a solid key is there
/// after reading exactly where it was before writing. Favorites and hidden applications are read
/// each out of their own file, and a missing file stands for none.
pub proof fn stored_keys_are_read_back(
    keys: TextSet,
    written: String,
    contents: &str,
    read: TextSet,
    hidden: LauncherUserState,
    favorite: LauncherUserState,
    k: int,
    key: Seq<char>,
)
    requires
        call_ensures(state_keys_to_json, (&keys,), Some(written)),
        contents@ == written@,
        call_ensures(state_keys_from_json, (contents,), read),
        call_ensures(LauncherUserState::read, (Some(contents), None), hidden),
        call_ensures(LauncherUserState::read, (None, Some(contents)), favorite),
        0 <= k < keys.items@.len(),
    ensures
        trimmed(keys.items@[k]@).len() > 0 ==> read@.contains(trimmed(keys.items@[k]@)),
        read@.contains(key) ==> exists|i: int|
            0 <= i < keys.items@.len() && trimmed((#[trigger] keys.items@[i])@) == key,
        hidden.hidden@.contains(key) == read@.contains(key),
        !hidden.favorites@.contains(key),
        favorite.favorites@.contains(key) == read@.contains(key),
        !favorite.hidden@.contains(key),
{
    let list = texts(keys.items@);
    text_list_of_model(list);
    assert(document_keys(json_parsed(contents@)) == list);
    let t = trimmed(keys.items@[k]@);
    assert(list[k] == keys.items@[k]@);
    assert(read@.contains(t) == listed_key(list, t));
    assert(read@.contains(key) == listed_key(list, key));
    if read@.contains(key) {
        let i = choose|i: int| 0 <= i < list.len() && trimmed(#[trigger] list[i]) == key;
        assert(list[i] == keys.items@[i]@);
    }
    assert(hidden.hidden@.contains(key) == is_stored(opt_str(Some(contents)), key));
    assert(hidden.favorites@.contains(key) == is_stored(opt_str(None), key));
    assert(favorite.favorites@.contains(key) == is_stored(opt_str(Some(contents)), key));
    assert(favorite.hidden@.contains(key) == is_stored(opt_str(None), key));
}

/// Toggling a key in the stored lists changes that key in the list asked for and nothing else.
pub proof fn stored_toggles_change_one_key(
    hidden: Option<&str>,
    favorites: Option<&str>,
    before: LauncherUserState,
    key: &str,
    hides: (LauncherUserState, Option<String>),
    likes: (LauncherUserState, Option<String>),
    other: Seq<char>,
)
    requires
        call_ensures(LauncherUserState::read, (hidden, favorites), before),
        call_ensures(
            LauncherUserState::toggle_stored,
            (hidden, favorites, LauncherStateKind::Hidden, key),
            hides,
        ),
        call_ensures(
            LauncherUserState::toggle_stored,
            (hidden, favorites, LauncherStateKind::Favorite, key),
            likes,
        ),
        other != key@,
    ensures
        hides.0.hidden@.contains(key@) == !before.hidden@.contains(key@),
        hides.0.hidden@.contains(other) == before.hidden@.contains(other),
        hides.0.favorites@.contains(other) == before.favorites@.contains(other),
        hides.0.favorites@.contains(key@) == before.favorites@.contains(key@),
        likes.0.favorites@.contains(key@) == !before.favorites@.contains(key@),
        likes.0.favorites@.contains(other) == before.favorites@.contains(other),
        likes.0.hidden@.contains(other) == before.hidden@.contains(other),
        likes.0.hidden@.contains(key@) == before.hidden@.contains(key@),
{
}

} // verus!
