//! Which audio sinks the user has hidden, and what the sink list shows.
use crate::audio_backend::{SinkInfo, SinkKind};
use crate::json::{
    json_list_written, json_parsed, json_text_list, parse_json, reads_as, text_list,
    text_list_model, text_list_of_model, write_json_list, JsonModel,
};
use crate::text::{
    all_digits, begins_with, chars_of, concat2, concat3, decimal, ends_with, has_text,
    is_ascii_number, list_has, numeral, numerals_stand_for_their_number, occurs_at, parts_show,
    push_text, signed_decimal, signed_numeral, string_of, texts, trim, trimmed,
};
use crate::text_set::TextSet;
use vstd::prelude::*;

verus! {

/// The file of the hidden keys.
pub const HIDDEN_FILE: &'static str = "audio-hidden-sinks.json";

pub const ICON_HIGH: &'static str = "\u{f057e}";

pub const ICON_MUTED: &'static str = "\u{f0581}";

pub const ICON_ZERO: &'static str = "\u{f075f}";

pub const ICON_LOW: &'static str = "\u{f057f}";

/// How long to wait for another change before a volume is written, in milliseconds.
pub const VOLUME_WRITE_DEBOUNCE_MS: u64 = 45;

pub const ICON_HIDE: &'static str = "\u{f06d1}";

pub const ICON_RESTORE: &'static str = "\u{f05e1}";

pub const ICON_BACK: &'static str = "\u{f004d}";

pub const ICON_HEADSET: &'static str = "\u{f02cb}";

pub const ICON_HDMI: &'static str = "\u{f0f5f}";

pub const ICON_SPEAKER: &'static str = "\u{f04c3}";

pub const ICON_CHECK: &'static str = "\u{f012c}";

/// Whether one of the keys is in the set.
pub open spec fn any_key_in(keys: Seq<Seq<char>>, set: Set<Seq<char>>) -> bool {
    exists|i: int| 0 <= i < keys.len() && set.contains(#[trigger] keys[i])
}

/// Whether a sink is hidden: never the one in use.
pub open spec fn is_hidden(sink: SinkInfo, hidden: Set<Seq<char>>) -> bool {
    !sink.current && any_key_in(sink@.keys, hidden)
}

/// Whether a sink that one of the keys names is remembered under `key`.
pub open spec fn persisted(sinks: Seq<SinkInfo>, hidden: Set<Seq<char>>, key: Seq<char>) -> bool {
    exists|i: int|
        0 <= i < sinks.len() && any_key_in((#[trigger] sinks[i])@.keys, hidden)
            && sinks[i]@.persist_keys.contains(key)
}

/// Whether `key` is an old key of a sink that one of the keys names.
pub open spec fn retired(sinks: Seq<SinkInfo>, hidden: Set<Seq<char>>, key: Seq<char>) -> bool {
    exists|i: int|
        0 <= i < sinks.len() && any_key_in((#[trigger] sinks[i])@.keys, hidden)
            && sinks[i]@.keys.contains(key) && !sinks[i]@.persist_keys.contains(key)
}

/// Whether `key` is in the set once the sinks present have been moved to the keys under which
/// they are remembered.
pub open spec fn synced(sinks: Seq<SinkInfo>, hidden: Set<Seq<char>>, key: Seq<char>) -> bool {
    (hidden.contains(key) || persisted(sinks, hidden, key)) && !retired(sinks, hidden, key)
}

fn any_key(keys: &Vec<String>, set: &TextSet) -> (r: bool)
    ensures
        r == any_key_in(texts(keys@), set@),
{
    let mut i: usize = 0;
    while i < keys.len()
        invariant
            i <= keys@.len(),
            forall|k: int| 0 <= k < i ==> !set@.contains(#[trigger] texts(keys@)[k]),
        decreases keys@.len() - i,
    {
        if set.contains(&keys[i]) {
            assert(set@.contains(texts(keys@)[i as int]));
            return true;
        }
        i = i + 1;
    }
    false
}

pub fn sink_hidden(sink: &SinkInfo, hidden: &TextSet) -> (r: bool)
    ensures
        r == is_hidden(*sink, hidden@),
{
    !sink.current && any_key(&sink.keys, hidden)
}

/// Moves the hidden sinks among `sinks` to the keys under which they are remembered; the answer
/// is the new set where that changed anything.
pub fn sync_hidden_keys(hidden: &mut TextSet, sinks: &Vec<SinkInfo>) -> (r: Option<TextSet>)
    requires
        old(hidden).wf(),
    ensures
        final(hidden).wf(),
        forall|key: Seq<char>|
            #[trigger] final(hidden)@.contains(key) == synced(sinks@, old(hidden)@, key),
        match r {
            Some(set) => set.wf() && set@ == final(hidden)@ && final(hidden)@ != old(hidden)@,
            None => final(hidden)@ == old(hidden)@,
        },
{
    let before = hidden.copy();
    let mut i: usize = 0;
    while i < sinks.len()
        invariant
            i <= sinks@.len(),
            hidden.wf(),
            before.wf(),
            before@ == old(hidden)@,
            forall|key: Seq<char>| #[trigger]
                hidden@.contains(key) == (before@.contains(key) || persisted(
                    sinks@.take(i as int),
                    before@,
                    key,
                )),
        decreases sinks@.len() - i,
    {
        let ghost start = hidden@;
        let sink = &sinks[i];
        let matched = any_key(&sink.keys, &before);
        if matched {
            add_all(hidden, &sink.persist_keys);
        }
        proof {
            assert forall|key: Seq<char>| #[trigger]
                hidden@.contains(key) == (before@.contains(key) || persisted(
                    sinks@.take(i as int + 1),
                    before@,
                    key,
                )) by {
                let now = sinks@.take(i as int);
                let next = sinks@.take(i as int + 1);
                assert(start.contains(key) == (before@.contains(key) || persisted(
                    now,
                    before@,
                    key,
                )));
                if persisted(now, before@, key) {
                    let k = choose|k: int|
                        0 <= k < now.len() && any_key_in((#[trigger] now[k])@.keys, before@)
                            && now[k]@.persist_keys.contains(key);
                    assert(next[k] == now[k]);
                }
                if persisted(next, before@, key) {
                    let k = choose|k: int|
                        0 <= k < next.len() && any_key_in((#[trigger] next[k])@.keys, before@)
                            && next[k]@.persist_keys.contains(key);
                    if k < i {
                        assert(now[k] == next[k]);
                    }
                }
                assert(next[i as int] == sink);
            }
        }
        i = i + 1;
    }
    assert(sinks@.take(sinks@.len() as int) =~= sinks@);
    let mut i: usize = 0;
    while i < sinks.len()
        invariant
            i <= sinks@.len(),
            hidden.wf(),
            before.wf(),
            before@ == old(hidden)@,
            forall|key: Seq<char>| #[trigger]
                hidden@.contains(key) == ((before@.contains(key) || persisted(
                    sinks@,
                    before@,
                    key,
                )) && !retired(sinks@.take(i as int), before@, key)),
        decreases sinks@.len() - i,
    {
        let ghost start = hidden@;
        let sink = &sinks[i];
        let matched = any_key(&sink.keys, &before);
        if matched {
            retire_all(hidden, &sink.keys, &sink.persist_keys);
        }
        proof {
            assert forall|key: Seq<char>| #[trigger]
                hidden@.contains(key) == ((before@.contains(key) || persisted(
                    sinks@,
                    before@,
                    key,
                )) && !retired(sinks@.take(i as int + 1), before@, key)) by {
                let now = sinks@.take(i as int);
                let next = sinks@.take(i as int + 1);
                assert(start.contains(key) == ((before@.contains(key) || persisted(
                    sinks@,
                    before@,
                    key,
                )) && !retired(now, before@, key)));
                if retired(now, before@, key) {
                    let k = choose|k: int|
                        0 <= k < now.len() && any_key_in((#[trigger] now[k])@.keys, before@)
                            && now[k]@.keys.contains(key) && !now[k]@.persist_keys.contains(key);
                    assert(next[k] == now[k]);
                }
                if retired(next, before@, key) {
                    let k = choose|k: int|
                        0 <= k < next.len() && any_key_in((#[trigger] next[k])@.keys, before@)
                            && next[k]@.keys.contains(key) && !next[k]@.persist_keys.contains(key);
                    if k < i {
                        assert(now[k] == next[k]);
                    }
                }
                assert(next[i as int] == sink);
            }
        }
        i = i + 1;
    }
    assert(sinks@.take(sinks@.len() as int) =~= sinks@);
    if hidden.same_as(&before) {
        None
    } else {
        Some(hidden.copy())
    }
}

fn add_all(set: &mut TextSet, keys: &Vec<String>)
    requires
        old(set).wf(),
    ensures
        final(set).wf(),
        forall|key: Seq<char>|
            #[trigger] final(set)@.contains(key) == (old(set)@.contains(key) || texts(
                keys@,
            ).contains(key)),
{
    let mut i: usize = 0;
    while i < keys.len()
        invariant
            i <= keys@.len(),
            set.wf(),
            forall|key: Seq<char>| #[trigger]
                set@.contains(key) == (old(set)@.contains(key) || exists|k: int|
                    0 <= k < i && #[trigger] texts(keys@)[k] == key),
        decreases keys@.len() - i,
    {
        let ghost start = set@;
        set.insert(keys[i].clone());
        assert(texts(keys@)[i as int] == keys@[i as int]@);
        i = i + 1;
    }
}

fn retire_all(set: &mut TextSet, keys: &Vec<String>, persist: &Vec<String>)
    requires
        old(set).wf(),
    ensures
        final(set).wf(),
        forall|key: Seq<char>|
            #[trigger] final(set)@.contains(key) == (old(set)@.contains(key) && !(texts(
                keys@,
            ).contains(key) && !texts(persist@).contains(key))),
{
    let mut i: usize = 0;
    while i < keys.len()
        invariant
            i <= keys@.len(),
            set.wf(),
            forall|key: Seq<char>| #[trigger]
                set@.contains(key) == (old(set)@.contains(key) && !((exists|k: int|
                    0 <= k < i && #[trigger] texts(keys@)[k] == key) && !texts(persist@).contains(
                    key,
                ))),
        decreases keys@.len() - i,
    {
        if !list_has(persist, &keys[i]) {
            set.remove(&keys[i]);
        }
        assert(texts(keys@)[i as int] == keys@[i as int]@);
        i = i + 1;
    }
}

/// Hides a sink that is not in use; the answer says whether it was.
pub fn hide_sink(hidden: &mut TextSet, sink: &SinkInfo) -> (r: bool)
    requires
        old(hidden).wf(),
    ensures
        final(hidden).wf(),
        r == !sink.current,
        forall|key: Seq<char>|
            #[trigger] final(hidden)@.contains(key) == (old(hidden)@.contains(key) || (r
                && sink@.persist_keys.contains(key))),
{
    if sink.current {
        return false;
    }
    add_all(hidden, &sink.persist_keys);
    true
}

/// Shows a hidden sink again.
pub fn restore_sink(hidden: &mut TextSet, sink: &SinkInfo)
    requires
        old(hidden).wf(),
    ensures
        final(hidden).wf(),
        forall|key: Seq<char>|
            #[trigger] final(hidden)@.contains(key) == (old(hidden)@.contains(key)
                && !sink@.keys.contains(key)),
{
    let none: Vec<String> = Vec::new();
    retire_all(hidden, &sink.keys, &none);
    assert(texts(none@) =~= Seq::<Seq<char>>::empty());
}

/// A sink that was restored is not hidden.
pub proof fn restored_sink_is_shown(sink: SinkInfo, before: Set<Seq<char>>, after: Set<Seq<char>>)
    requires
        forall|key: Seq<char>| #[trigger]
            after.contains(key) == (before.contains(key) && !sink@.keys.contains(key)),
    ensures
        !is_hidden(sink, after),
{
}

/// A sink that is remembered under one of its keys is hidden once it was asked to be.
pub proof fn hidden_sink_is_hidden(sink: SinkInfo, before: Set<Seq<char>>, after: Set<Seq<char>>)
    requires
        !sink.current,
        exists|i: int, j: int|
            0 <= i < sink@.persist_keys.len() && 0 <= j < sink@.keys.len()
                && #[trigger] sink@.persist_keys[i] == #[trigger] sink@.keys[j],
        forall|key: Seq<char>| #[trigger]
            after.contains(key) == (before.contains(key) || sink@.persist_keys.contains(key)),
    ensures
        is_hidden(sink, after),
{
    let (i, j) = choose|i: int, j: int|
        0 <= i < sink@.persist_keys.len() && 0 <= j < sink@.keys.len()
            && #[trigger] sink@.persist_keys[i] == #[trigger] sink@.keys[j];
    assert(after.contains(sink@.keys[j]));
}

/// Moving keys does not show a hidden sink, unless another sink present gives up the key under
/// which it is remembered.
pub proof fn sync_keeps_sinks_hidden(
    sinks: Seq<SinkInfo>,
    before: Set<Seq<char>>,
    after: Set<Seq<char>>,
    n: int,
)
    requires
        0 <= n < sinks.len(),
        is_hidden(sinks[n], before),
        forall|key: Seq<char>| #[trigger] after.contains(key) == synced(sinks, before, key),
        exists|i: int, j: int|
            0 <= i < sinks[n]@.persist_keys.len() && 0 <= j < sinks[n]@.keys.len()
                && #[trigger] sinks[n]@.persist_keys[i] == #[trigger] sinks[n]@.keys[j] && !retired(
                sinks,
                before,
                sinks[n]@.persist_keys[i],
            ),
    ensures
        is_hidden(sinks[n], after),
{
    let (i, j) = choose|i: int, j: int|
        0 <= i < sinks[n]@.persist_keys.len() && 0 <= j < sinks[n]@.keys.len()
            && #[trigger] sinks[n]@.persist_keys[i] == #[trigger] sinks[n]@.keys[j] && !retired(
            sinks,
            before,
            sinks[n]@.persist_keys[i],
        );
    let key = sinks[n]@.persist_keys[i];
    assert(sinks[n]@.persist_keys.contains(key));
    assert(persisted(sinks, before, key));
    assert(after.contains(sinks[n]@.keys[j]));
}

/// How many digits a text begins with.
pub open spec fn leading_digits(s: Seq<char>) -> nat
    decreases s.len(),
{
    if s.len() > 0 && is_ascii_number(s[0]) {
        1 + leading_digits(s.drop_first())
    } else {
        0
    }
}

/// A key without the number and colon that older keys had in front.
pub open spec fn migrated_key(key: Seq<char>) -> Seq<char> {
    let k = trimmed(key);
    let n = leading_digits(k) as int;
    if 0 < n < k.len() && k[n] == ':' {
        trimmed(k.skip(n + 1))
    } else {
        k
    }
}

pub fn migrate_legacy_key(key: &str) -> (r: String)
    ensures
        r@ == migrated_key(key@),
{
    let key = trim(key);
    let k = chars_of(&key);
    let mut n: usize = 0;
    assert(k@.skip(0) =~= k@);
    while n < k.len() && '0' <= k[n] && k[n] <= '9'
        invariant
            n <= k@.len(),
            leading_digits(k@) == n + leading_digits(k@.skip(n as int)),
        decreases k@.len() - n,
    {
        assert(k@.skip(n as int).drop_first() =~= k@.skip(n as int + 1));
        n = n + 1;
    }
    assert(leading_digits(k@.skip(n as int)) == 0);
    if 0 < n && n < k.len() && k[n] == ':' {
        let rest = string_of(&k, n + 1, k.len());
        assert(rest@ =~= k@.skip(n as int + 1));
        trim(&rest)
    } else {
        key
    }
}

/// Whether `key` is one of the keys of a stored list.
pub open spec fn stored_key(list: Seq<Seq<char>>, key: Seq<char>) -> bool {
    key.len() > 0 && exists|i: int| 0 <= i < list.len() && migrated_key(#[trigger] list[i]) == key
}

/// The set of keys of a stored list.
pub fn normalize_hidden_keys(keys: &Vec<String>) -> (r: TextSet)
    ensures
        r.wf(),
        forall|key: Seq<char>| #[trigger] r@.contains(key) == stored_key(texts(keys@), key),
{
    let mut out = TextSet::new();
    let mut i: usize = 0;
    while i < keys.len()
        invariant
            i <= keys@.len(),
            out.wf(),
            forall|key: Seq<char>| #[trigger]
                out@.contains(key) == (key.len() > 0 && exists|k: int|
                    0 <= k < i && migrated_key(#[trigger] texts(keys@)[k]) == key),
        decreases keys@.len() - i,
    {
        let key = migrate_legacy_key(&keys[i]);
        assert(migrated_key(texts(keys@)[i as int]) == key@);
        if !key.as_str().is_empty() {
            out.insert(key);
        }
        i = i + 1;
    }
    out
}

/// The keys that a stored document names: none where it is no list of texts.
pub open spec fn document_keys(document: Result<JsonModel, Seq<char>>) -> Seq<Seq<char>> {
    match document {
        Ok(model) => match text_list(model) {
            Some(list) => list,
            None => Seq::empty(),
        },
        Err(_) => Seq::empty(),
    }
}

/// Reads the hidden keys out of a stored document.
pub fn hidden_keys_from_json(contents: &str) -> (r: TextSet)
    ensures
        r.wf(),
        forall|key: Seq<char>|
            #[trigger] r@.contains(key) == stored_key(
                document_keys(json_parsed(contents@)),
                key,
            ),
{
    let list = match parse_json(contents) {
        Ok(document) => match json_text_list(&document) {
            Some(list) => list,
            None => Vec::new(),
        },
        Err(_) => Vec::new(),
    };
    assert(texts(list@) =~= document_keys(json_parsed(contents@)));
    normalize_hidden_keys(&list)
}

/// Where the hidden keys come from.
#[derive(Clone, Copy, Debug, PartialEq, Eq, Structural)]
pub enum KeySource {
    /// The file in use.
    Current,
    /// The file of an earlier program; its keys are to be stored in the file in use.
    Earlier,
    /// No file, or one without keys.
    Nowhere,
}

/// Reads the hidden keys out of the file in use or, where there is none, out of that of an
/// earlier program.
pub fn read_hidden_keys(current: Option<&str>, earlier: Option<&str>) -> (r: (TextSet, KeySource))
    ensures
        r.0.wf(),
        match (current, earlier) {
            (Some(contents), _) => r.1 == KeySource::Current && forall|key: Seq<char>| #[trigger]
                r.0@.contains(key) == stored_key(document_keys(json_parsed(contents@)), key),
            (None, Some(contents)) => r.1 == (if r.0@ == Set::<Seq<char>>::empty() {
                KeySource::Nowhere
            } else {
                KeySource::Earlier
            }) && forall|key: Seq<char>| #[trigger]
                r.0@.contains(key) == stored_key(document_keys(json_parsed(contents@)), key),
            (None, None) => r.1 == KeySource::Nowhere && r.0@ == Set::<Seq<char>>::empty(),
        },
{
    match (current, earlier) {
        (Some(contents), _) => (hidden_keys_from_json(contents), KeySource::Current),
        (None, Some(contents)) => {
            let keys = hidden_keys_from_json(contents);
            if keys.is_empty() {
                (keys, KeySource::Nowhere)
            } else {
                (keys, KeySource::Earlier)
            }
        },
        (None, None) => (TextSet::new(), KeySource::Nowhere),
    }
}

/// Writes the hidden keys as a document.
pub fn hidden_keys_to_json(keys: &TextSet) -> (r: Result<String, String>)
    ensures
        match json_list_written(texts(keys.items@)) {
            Ok(written) => r matches Ok(text) && text@ == written && reads_as(
                written,
                text_list_model(texts(keys.items@)),
            ),
            Err(reason) => r matches Err(message) && message@
                == "failed to serialize hidden audio outputs: "@ + reason,
        },
{
    match write_json_list(&keys.items) {
        Ok(text) => Ok(text),
        Err(reason) => Err(concat2("failed to serialize hidden audio outputs: ", &reason)),
    }
}

/// Reading the document that was written gives the same keys back, where no key is empty, has
/// white space around it or looks like a key with a number in front.
pub proof fn hidden_keys_survive_storage(keys: TextSet, written: Seq<char>, key: Seq<char>)
    requires
        reads_as(written, text_list_model(texts(keys.items@))),
        forall|k: Seq<char>| #[trigger]
            keys@.contains(k) ==> k.len() > 0 && migrated_key(k) == k,
    ensures
        stored_key(document_keys(json_parsed(written)), key) == keys@.contains(key),
{
    let list = texts(keys.items@);
    text_list_of_model(list);
    assert(document_keys(json_parsed(written)) == list);
    assert forall|i: int| 0 <= i < list.len() implies migrated_key(#[trigger] list[i]) == list[i] by {
        assert(list.contains(list[i]));
        assert(keys@.contains(list[i]));
    }
    if keys@.contains(key) {
        let i = choose|i: int| 0 <= i < list.len() && list[i] == key;
        assert(migrated_key(list[i]) == key);
    }
}

/// What the popup of the sinks shows.
pub struct SinkListView {
    pub title: String,
    pub status: String,
    pub section: &'static str,
    pub toggle_visible: bool,
    pub toggle_icon: &'static str,
    /// The positions of the sinks to show, ascending.
    pub rows: Vec<usize>,
    /// What stands in place of rows.
    pub empty_text: Option<&'static str>,
}

/// The positions below `n` of the sinks whose being hidden is `wanted`, ascending.
pub open spec fn rows_where(
    sinks: Seq<SinkInfo>,
    hidden: Set<Seq<char>>,
    wanted: bool,
    n: nat,
) -> Seq<usize>
    decreases n,
{
    if n == 0 {
        Seq::empty()
    } else {
        let before = rows_where(sinks, hidden, wanted, (n - 1) as nat);
        if is_hidden(sinks[n - 1], hidden) == wanted {
            before.push((n - 1) as usize)
        } else {
            before
        }
    }
}

/// What the popup shows for the sinks.
pub fn sink_list_view(sinks: &Vec<SinkInfo>, hidden: &TextSet, show_hidden: bool) -> (r:
    SinkListView)
    ensures
        ({
            let hidden_count = rows_where(sinks@, hidden@, true, sinks@.len()).len();
            &&& r.title@ == (if show_hidden {
                "Hidden outputs "@ + decimal(hidden_count)
            } else {
                "Audio outputs"@
            })
            &&& r.status@ == (if sinks@.len() == 0 {
                "No sinks found"@
            } else {
                decimal(sinks@.len()) + " outputs"@
            })
            &&& r.section@ == (if show_hidden {
                "Hidden"@
            } else {
                "Outputs"@
            })
            &&& r.toggle_visible == (hidden_count > 0 || show_hidden)
            &&& r.toggle_icon@ == (if show_hidden {
                ICON_BACK@
            } else {
                ICON_HIDE@
            })
            &&& r.rows@ == rows_where(sinks@, hidden@, show_hidden, sinks@.len())
            &&& match r.empty_text {
                Some(text) => r.rows@.len() == 0 && text@ == (if show_hidden {
                    "No hidden outputs"@
                } else {
                    "No sinks found"@
                }),
                None => r.rows@.len() > 0,
            }
        }),
{
    let mut rows: Vec<usize> = Vec::new();
    let mut hidden_count: usize = 0;
    let mut i: usize = 0;
    while i < sinks.len()
        invariant
            i <= sinks@.len(),
            hidden_count <= i,
            hidden_count == rows_where(sinks@, hidden@, true, i as nat).len(),
            rows@ == rows_where(sinks@, hidden@, show_hidden, i as nat),
        decreases sinks@.len() - i,
    {
        let is = sink_hidden(&sinks[i], hidden);
        if is {
            hidden_count = hidden_count + 1;
        }
        if is == show_hidden {
            rows.push(i);
        }
        i = i + 1;
    }
    let title = if show_hidden {
        let count = numeral(hidden_count as u64);
        concat2("Hidden outputs ", &count)
    } else {
        "Audio outputs".to_owned()
    };
    let status = if sinks.is_empty() {
        "No sinks found".to_owned()
    } else {
        let count = numeral(sinks.len() as u64);
        concat2(&count, " outputs")
    };
    let empty_text = if rows.is_empty() {
        Some(if show_hidden {
            "No hidden outputs"
        } else {
            "No sinks found"
        })
    } else {
        None
    };
    SinkListView {
        title,
        status,
        section: if show_hidden {
            "Hidden"
        } else {
            "Outputs"
        },
        toggle_visible: hidden_count > 0 || show_hidden,
        toggle_icon: if show_hidden {
            ICON_BACK
        } else {
            ICON_HIDE
        },
        rows,
        empty_text,
    }
}

/// Every sink is in exactly one of the two lists.
pub proof fn sink_lists_are_a_partition(sinks: Seq<SinkInfo>, hidden: Set<Seq<char>>, n: nat, i: int)
    requires
        0 <= i < n <= sinks.len() <= usize::MAX,
    ensures
        rows_where(sinks, hidden, true, n).contains(i as usize) == is_hidden(sinks[i], hidden),
        rows_where(sinks, hidden, false, n).contains(i as usize) == !is_hidden(sinks[i], hidden),
    decreases n,
{
    rows_are_below(sinks, hidden, true, (n - 1) as nat);
    rows_are_below(sinks, hidden, false, (n - 1) as nat);
    let yes = rows_where(sinks, hidden, true, (n - 1) as nat);
    let no = rows_where(sinks, hidden, false, (n - 1) as nat);
    if i < n - 1 {
        sink_lists_are_a_partition(sinks, hidden, (n - 1) as nat, i);
        let wanted = is_hidden(sinks[n - 1], hidden);
        let grown = if wanted {
            yes.push((n - 1) as usize)
        } else {
            no.push((n - 1) as usize)
        };
        if yes.contains(i as usize) {
            let k = choose|k: int| 0 <= k < yes.len() && yes[k] == i as usize;
            assert(rows_where(sinks, hidden, true, n)[k] == i as usize);
        }
        if no.contains(i as usize) {
            let k = choose|k: int| 0 <= k < no.len() && no[k] == i as usize;
            assert(rows_where(sinks, hidden, false, n)[k] == i as usize);
        }
    } else {
        if is_hidden(sinks[i], hidden) {
            assert(rows_where(sinks, hidden, true, n).last() == i as usize);
        } else {
            assert(rows_where(sinks, hidden, false, n).last() == i as usize);
        }
    }
}

proof fn rows_are_below(sinks: Seq<SinkInfo>, hidden: Set<Seq<char>>, wanted: bool, n: nat)
    requires
        n <= sinks.len() <= usize::MAX,
    ensures
        forall|k: int|
            0 <= k < rows_where(sinks, hidden, wanted, n).len() ==> (#[trigger] rows_where(
                sinks,
                hidden,
                wanted,
                n,
            )[k]) < n,
    decreases n,
{
    if n > 0 {
        rows_are_below(sinks, hidden, wanted, (n - 1) as nat);
        let before = rows_where(sinks, hidden, wanted, (n - 1) as nat);
        let rows = rows_where(sinks, hidden, wanted, n);
        assert forall|k: int| 0 <= k < rows.len() implies (#[trigger] rows[k]) < n by {
            if k < before.len() {
                assert(before[k] < n - 1);
            }
        }
    }
}

pub open spec fn icon_text(kind: SinkKind) -> Seq<char> {
    match kind {
        SinkKind::Headset => ICON_HEADSET@,
        SinkKind::Display => ICON_HDMI@,
        _ => ICON_SPEAKER@,
    }
}

pub fn sink_icon(kind: SinkKind) -> (r: &'static str)
    ensures
        r@ == icon_text(kind),
{
    match kind {
        SinkKind::Headset => ICON_HEADSET,
        SinkKind::Display => ICON_HDMI,
        _ => ICON_SPEAKER,
    }
}

/// What a row of the sink list shows and offers.
pub struct SinkRowView {
    pub icon: &'static str,
    pub meta: String,
    pub status: &'static str,
    /// The icon of the button that hides or restores the sink, where there is one.
    pub side_icon: Option<&'static str>,
}

pub fn sink_row_view(sink: &SinkInfo, show_hidden: bool) -> (r: SinkRowView)
    ensures
        r.icon@ == icon_text(sink.kind),
        r.meta@ == (if show_hidden {
            "Hidden output"@
        } else {
            sink.meta@
        }),
        r.status@ == (if sink.current {
            ICON_CHECK@
        } else {
            ""@
        }),
        match r.side_icon {
            Some(icon) => (show_hidden || !sink.current) && icon@ == (if show_hidden {
                ICON_RESTORE@
            } else {
                ICON_HIDE@
            }),
            None => !show_hidden && sink.current,
        },
{
    SinkRowView {
        icon: sink_icon(sink.kind),
        meta: if show_hidden {
            "Hidden output".to_owned()
        } else {
            sink.meta.clone()
        },
        status: if sink.current {
            ICON_CHECK
        } else {
            ""
        },
        side_icon: if show_hidden {
            Some(ICON_RESTORE)
        } else if sink.current {
            None
        } else {
            Some(ICON_HIDE)
        },
    }
}

/// The name of the first sink in use among the first `n`.
pub open spec fn current_name(sinks: Seq<SinkInfo>, n: nat) -> Option<Seq<char>>
    decreases n,
{
    if n == 0 {
        None
    } else if current_name(sinks, (n - 1) as nat) is Some {
        current_name(sinks, (n - 1) as nat)
    } else if sinks[n - 1].current {
        Some(sinks[n - 1].name@)
    } else {
        None
    }
}

/// What the volume's button says about itself.
pub fn volume_tooltip(sinks: &Vec<SinkInfo>, percentage: i32, muted: bool) -> (r: String)
    ensures
        r@ == (if muted {
            "Muted"@
        } else {
            "Sound"@
        }) + " "@ + signed_decimal(percentage as int)
            + "% • LMB volume • MMB mute • RMB devices • "@ + (match current_name(
            sinks@,
            sinks@.len(),
        ) {
            Some(name) => name,
            None => "Audio output"@,
        }),
{
    let mut found: Option<usize> = None;
    let mut i: usize = 0;
    while i < sinks.len()
        invariant
            i <= sinks@.len(),
            match found {
                Some(k) => k < sinks@.len() && current_name(sinks@, i as nat) == Some(
                    sinks@[k as int].name@,
                ),
                None => current_name(sinks@, i as nat) is None,
            },
        decreases sinks@.len() - i,
    {
        if found.is_none() && sinks[i].current {
            found = Some(i);
        }
        i = i + 1;
    }
    let number = signed_numeral(percentage as i64);
    let mut out = concat3(
        if muted {
            "Muted"
        } else {
            "Sound"
        },
        " ",
        &number,
    );
    push_text(&mut out, "% • LMB volume • MMB mute • RMB devices • ");
    match found {
        Some(k) => push_text(&mut out, &sinks[k].name),
        None => push_text(&mut out, "Audio output"),
    }
    out
}

/// A sink that is hidden is not shown any more, unless it is the one in use, and one that is
/// restored is.
pub proof fn hiding_and_restoring_undo_each_other(
    hidden: &mut TextSet,
    sink: SinkInfo,
    hid: bool,
    after_hiding: bool,
    restored: &mut TextSet,
    after_restoring: bool,
)
    requires
        sink@.persist_keys.len() > 0,
        forall|k: int|
            0 <= k < sink@.persist_keys.len() ==> sink@.keys.contains(#[trigger] sink@.persist_keys[k]),
        call_ensures(hide_sink, (hidden, &sink), hid),
        call_ensures(sink_hidden, (&sink, final(hidden)), after_hiding),
        *old(restored) == *final(hidden),
        call_ensures(restore_sink, (restored, &sink), ()),
        call_ensures(sink_hidden, (&sink, final(restored)), after_restoring),
    ensures
        hid == !sink.current,
        after_hiding == !sink.current,
        !after_restoring,
{
    if !sink.current {
        let key = sink@.persist_keys[0];
        assert(sink@.persist_keys.contains(key));
        assert(final(hidden)@.contains(key));
        let k = choose|k: int| 0 <= k < sink@.keys.len() && sink@.keys[k] == key;
        assert(final(hidden)@.contains(sink@.keys[k]));
        if after_restoring {
            let i = choose|i: int|
                0 <= i < sink@.keys.len() && final(restored)@.contains(#[trigger] sink@.keys[i]);
            assert(sink@.keys.contains(sink@.keys[i]));
            assert(final(restored)@.contains(sink@.keys[i]));
        }
    }
}

/// Hiding and restoring a sink leave the keys of others as they are.
pub proof fn other_sinks_are_left_alone(
    hidden: &mut TextSet,
    sink: SinkInfo,
    hid: bool,
    restored: &mut TextSet,
    key: Seq<char>,
)
    requires
        !sink@.persist_keys.contains(key),
        !sink@.keys.contains(key),
        call_ensures(hide_sink, (hidden, &sink), hid),
        *old(restored) == *final(hidden),
        call_ensures(restore_sink, (restored, &sink), ()),
    ensures
        final(hidden)@.contains(key) == old(hidden)@.contains(key),
        final(restored)@.contains(key) == old(hidden)@.contains(key),
{
}

/// The list shows exactly the sinks that are hidden or exactly those that are not, as it is asked,
/// and says so; the button that leads to the hidden ones is there where there are any.
pub proof fn lists_show_what_was_asked(
    sinks: Vec<SinkInfo>,
    hidden: TextSet,
    show_hidden: bool,
    r: SinkListView,
    i: int,
    is_in: bool,
)
    requires
        call_ensures(sink_list_view, (&sinks, &hidden, show_hidden), r),
        0 <= i < sinks@.len(),
        sinks@.len() <= usize::MAX,
        call_ensures(sink_hidden, (&sinks@[i], &hidden), is_in),
    ensures
        r.rows@.contains(i as usize) == (is_in == show_hidden),
        (r.section@ == "Hidden"@) == show_hidden,
        (r.section@ == "Outputs"@) == !show_hidden,
        begins_with(r.status@, decimal(sinks@.len())),
        is_in ==> r.toggle_visible,
        show_hidden ==> r.toggle_visible,
        is_in == show_hidden ==> r.empty_text is None,
        (r.toggle_icon@ == "\u{f004d}"@) == show_hidden,
        (r.toggle_icon@ == "\u{f06d1}"@) == !show_hidden,
        (r.title@ == "Audio outputs"@) == !show_hidden,
{
    reveal_strlit("Hidden");
    reveal_strlit("Outputs");
    reveal_strlit("Audio outputs");
    reveal_strlit("Hidden outputs ");
    reveal_strlit("\u{f004d}");
    reveal_strlit("\u{f06d1}");
    assert("Hidden"@.len() == 6 && "Outputs"@.len() == 7);
    assert("\u{f004d}"@[0] != "\u{f06d1}"@[0]);
    let n = sinks@.len();
    let count = rows_where(sinks@, hidden@, true, n).len();
    if show_hidden {
        assert(r.title@[0] == 'H' && "Audio outputs"@[0] == 'A');
    }
    rows_hold_the_wanted(sinks@, hidden@, show_hidden, n, i);
    rows_hold_the_wanted(sinks@, hidden@, true, n, i);
    if is_in {
        let rows = rows_where(sinks@, hidden@, true, n);
        let k = choose|k: int| 0 <= k < rows.len() && rows[k] == i as usize;
        assert(rows.len() > 0);
    }
    parts_show(decimal(n), " outputs"@, Seq::empty());
}

proof fn rows_hold_the_wanted(
    sinks: Seq<SinkInfo>,
    hidden: Set<Seq<char>>,
    wanted: bool,
    n: nat,
    i: int,
)
    requires
        n <= sinks.len(),
        n <= usize::MAX,
        0 <= i < usize::MAX,
    ensures
        rows_where(sinks, hidden, wanted, n).contains(i as usize) == (i < n && is_hidden(
            sinks[i],
            hidden,
        ) == wanted),
    decreases n,
{
    let rows = rows_where(sinks, hidden, wanted, n);
    if n > 0 {
        rows_hold_the_wanted(sinks, hidden, wanted, (n - 1) as nat, i);
        let before = rows_where(sinks, hidden, wanted, (n - 1) as nat);
        if rows.contains(i as usize) {
            let k = choose|k: int| 0 <= k < rows.len() && rows[k] == i as usize;
            if k < before.len() {
                assert(before[k] == i as usize);
            }
        }
        if i < n && is_hidden(sinks[i], hidden) == wanted {
            if i == n - 1 {
                assert(rows[rows.len() - 1] == i as usize);
            } else {
                let k = choose|k: int| 0 <= k < before.len() && before[k] == i as usize;
                assert(rows[k] == i as usize);
            }
        }
    }
}

/// The row of a sink shows the icon of its kind and ticks the one in use; it offers to restore a
/// hidden sink, and to hide another one unless it is in use.
pub proof fn rows_offer_what_fits(sink: SinkInfo, show_hidden: bool, r: SinkRowView)
    requires
        call_ensures(sink_row_view, (&sink, show_hidden), r),
    ensures
        (r.icon@ == "\u{f02cb}"@) == (sink.kind is Headset),
        (r.icon@ == "\u{f0f5f}"@) == (sink.kind is Display),
        (r.icon@ == "\u{f04c3}"@) == (sink.kind is Digital || sink.kind is Analog
            || sink.kind is Other),
        (r.status@ == "\u{f012c}"@) == sink.current,
        (r.side_icon is None) == (sink.current && !show_hidden),
        r.side_icon matches Some(icon) ==> (icon@ == "\u{f05e1}"@) == show_hidden && (icon@
            == "\u{f06d1}"@) == !show_hidden,
        !show_hidden ==> r.meta@ == sink.meta@,
{
    reveal_strlit("\u{f02cb}");
    reveal_strlit("\u{f0f5f}");
    reveal_strlit("\u{f04c3}");
    reveal_strlit("\u{f012c}");
    reveal_strlit("\u{f05e1}");
    reveal_strlit("\u{f06d1}");
    reveal_strlit("");
    assert("\u{f02cb}"@[0] != "\u{f0f5f}"@[0] && "\u{f02cb}"@[0] != "\u{f04c3}"@[0]
        && "\u{f0f5f}"@[0] != "\u{f04c3}"@[0] && "\u{f05e1}"@[0] != "\u{f06d1}"@[0]);
    assert(""@.len() == 0 && "\u{f012c}"@.len() == 1);
}

/// The tip of the volume's button begins by saying whether the sound is muted, tells the
/// percentage, and ends with the name of the sink in use.
pub proof fn volume_tips_tell_the_volume(
    sinks: Vec<SinkInfo>,
    percentage: i32,
    muted: bool,
    r: String,
    i: int,
)
    requires
        call_ensures(volume_tooltip, (&sinks, percentage, muted), r),
        0 <= i < sinks@.len(),
        sinks@[i].current,
        forall|j: int| 0 <= j < i ==> !(#[trigger] sinks@[j]).current,
    ensures
        begins_with(r@, "Muted"@) == muted,
        begins_with(r@, "Sound"@) == !muted,
        has_text(r@, signed_decimal(percentage as int) + "%"@),
        ends_with(r@, sinks@[i].name@),
{
    let head = if muted {
        "Muted"@
    } else {
        "Sound"@
    };
    reveal_strlit("Muted");
    reveal_strlit("Sound");
    let tail = "% • LMB volume • MMB mute • RMB devices • "@;
    reveal_strlit("% • LMB volume • MMB mute • RMB devices • ");
    reveal_strlit("%");
    let n = signed_decimal(percentage as int);
    first_current(sinks@, sinks@.len(), i);
    let name = sinks@[i].name@;
    assert(r@ == head + " "@ + n + tail + name);
    assert(r@.subrange(0, 5) =~= head);
    assert(r@[0] == head[0] && "Muted"@[0] != "Sound"@[0]);
    if begins_with(r@, "Muted"@) {
        assert(r@.subrange(0, 5)[0] == "Muted"@[0]);
    }
    if begins_with(r@, "Sound"@) {
        assert(r@.subrange(0, 5)[0] == "Sound"@[0]);
    }
    let at = head.len() + " "@.len();
    assert(r@.subrange(at as int, at as int + n.len() + 1) =~= n + "%"@);
    assert(occurs_at(r@, n + "%"@, at as int));
    parts_show(head + " "@ + n + tail, name, Seq::empty());
}

proof fn first_current(sinks: Seq<SinkInfo>, n: nat, i: int)
    requires
        0 <= i < n <= sinks.len(),
        sinks[i].current,
        forall|j: int| 0 <= j < i ==> !(#[trigger] sinks[j]).current,
    ensures
        current_name(sinks, n) == Some(sinks[i].name@),
    decreases n,
{
    if n - 1 > i {
        first_current(sinks, (n - 1) as nat, i);
    } else {
        none_current(sinks, (n - 1) as nat);
    }
}

proof fn none_current(sinks: Seq<SinkInfo>, n: nat)
    requires
        n <= sinks.len(),
        forall|j: int| 0 <= j < n ==> !(#[trigger] sinks[j]).current,
    ensures
        current_name(sinks, n) is None,
    decreases n,
{
    if n > 0 {
        none_current(sinks, (n - 1) as nat);
    }
}

/// A key that an earlier program stored with a number and a colon in front is the key behind them;
/// any other is itself, without the white space around it.
pub proof fn old_keys_lose_their_number(key: &str, r: String, number: nat, rest: Seq<char>)
    requires
        call_ensures(migrate_legacy_key, (key,), r),
        trimmed(key@) == decimal(number) + seq![':'] + rest,
    ensures
        r@ == trimmed(rest),
{
    let k = trimmed(key@);
    let d = decimal(number);
    numerals_stand_for_their_number(number);
    leading_digits_end(d, seq![':'] + rest);
    assert(d + (seq![':'] + rest) =~= k);
    assert(k[d.len() as int] == ':');
    assert(k.skip(d.len() as int + 1) =~= rest);
}

proof fn leading_digits_end(d: Seq<char>, rest: Seq<char>)
    requires
        all_digits(d),
        rest.len() > 0,
        !is_ascii_number(rest[0]),
    ensures
        leading_digits(d + rest) == d.len(),
    decreases d.len(),
{
    if d.len() == 0 {
        assert(d + rest =~= rest);
    } else {
        let tail = d.drop_first();
        assert forall|i: int| 0 <= i < tail.len() implies is_ascii_number(#[trigger] tail[i]) by {
            assert(tail[i] == d[i + 1]);
        }
        leading_digits_end(tail, rest);
        assert((d + rest).drop_first() =~= tail + rest);
        assert(is_ascii_number(d[0]));
    }
}

/// A key without a number in front stays, without the white space around it.
pub proof fn new_keys_stay(key: &str, r: String)
    requires
        call_ensures(migrate_legacy_key, (key,), r),
        trimmed(key@).len() > 0,
        !is_ascii_number(trimmed(key@)[0]),
    ensures
        r@ == trimmed(key@),
{
}

/// The file in use counts where there is one, though it names no key; that of an earlier program
/// counts only without it.
pub proof fn own_keys_come_first(current: Option<&str>, earlier: Option<&str>, r: (TextSet, KeySource))
    requires
        call_ensures(read_hidden_keys, (current, earlier), r),
    ensures
        (r.1 is Current) == (current is Some),
        r.1 is Earlier ==> current is None && earlier is Some && r.0@ != Set::<Seq<char>>::empty(),
        r.1 is Nowhere ==> current is None && r.0@ == Set::<Seq<char>>::empty(),
{
}

/// A hidden sink is remembered under its lasting keys once it is seen, and its old keys are given
/// up, unless another sink gives that key up or needs it.
pub proof fn seen_sinks_change_their_keys(
    hidden: &mut TextSet,
    sinks: Vec<SinkInfo>,
    r: Option<TextSet>,
    n: int,
    key: Seq<char>,
)
    requires
        call_ensures(sync_hidden_keys, (hidden, &sinks), r),
        0 <= n < sinks@.len(),
        exists|k: int|
            0 <= k < sinks@[n]@.keys.len() && old(hidden)@.contains(
                #[trigger] sinks@[n]@.keys[k],
            ),
    ensures
        sinks@.len() == 1 && sinks@[n]@.persist_keys.contains(key) ==> final(hidden)@.contains(key),
        sinks@[n]@.keys.contains(key) && !sinks@[n]@.persist_keys.contains(key) ==> !final(
            hidden)@.contains(key),
        (r is Some) == (final(hidden)@ != old(hidden)@),
        r matches Some(set) ==> set@ == final(hidden)@,
{
    assert(any_key_in(sinks@[n]@.keys, old(hidden)@));
    assert(final(hidden)@.contains(key) == synced(sinks@, old(hidden)@, key));
    if sinks@[n]@.keys.contains(key) && !sinks@[n]@.persist_keys.contains(key) {
        assert(retired(sinks@, old(hidden)@, key));
    }
    if sinks@.len() == 1 && sinks@[n]@.persist_keys.contains(key) {
        assert(persisted(sinks@, old(hidden)@, key));
        if retired(sinks@, old(hidden)@, key) {
            let i = choose|i: int|
                0 <= i < sinks@.len() && any_key_in((#[trigger] sinks@[i])@.keys, old(hidden)@)
                    && sinks@[i]@.keys.contains(key) && !sinks@[i]@.persist_keys.contains(key);
            assert(i == n);
        }
    }
}

/// Keys of sinks that are not there stay as they are.
pub proof fn absent_sinks_stay_hidden(
    hidden: &mut TextSet,
    sinks: Vec<SinkInfo>,
    r: Option<TextSet>,
    key: Seq<char>,
)
    requires
        call_ensures(sync_hidden_keys, (hidden, &sinks), r),
        forall|i: int|
            0 <= i < sinks@.len() ==> !(#[trigger] sinks@[i])@.keys.contains(key)
                && !sinks@[i]@.persist_keys.contains(key),
    ensures
        final(hidden)@.contains(key) == old(hidden)@.contains(key),
{
    assert(final(hidden)@.contains(key) == synced(sinks@, old(hidden)@, key));
    if persisted(sinks@, old(hidden)@, key) {
        let i = choose|i: int|
            0 <= i < sinks@.len() && any_key_in((#[trigger] sinks@[i])@.keys, old(hidden)@)
                && sinks@[i]@.persist_keys.contains(key);
        assert(!sinks@[i]@.persist_keys.contains(key));
    }
    if retired(sinks@, old(hidden)@, key) {
        let i = choose|i: int|
            0 <= i < sinks@.len() && any_key_in((#[trigger] sinks@[i])@.keys, old(hidden)@)
                && sinks@[i]@.keys.contains(key) && !sinks@[i]@.persist_keys.contains(key);
        assert(!sinks@[i]@.keys.contains(key));
    }
}

/// The keys of a stored list are all kept, without white space around them, and a blank one is
/// none.
pub proof fn stored_keys_are_kept(keys: Vec<String>, r: TextSet, i: int)
    requires
        call_ensures(normalize_hidden_keys, (&keys,), r),
        0 <= i < keys@.len(),
        trimmed(keys@[i]@).len() > 0,
        !is_ascii_number(trimmed(keys@[i]@)[0]),
    ensures
        r@.contains(trimmed(keys@[i]@)),
        !r@.contains(Seq::<char>::empty()),
{
    let key = trimmed(keys@[i]@);
    assert(texts(keys@)[i] == keys@[i]@);
    assert(migrated_key(texts(keys@)[i]) == key);
    assert(r@.contains(key) == stored_key(texts(keys@), key));
    assert(r@.contains(Seq::<char>::empty()) == stored_key(texts(keys@), Seq::empty()));
}

/// A list without rows says so, and a hidden sink is told as hidden.
pub proof fn empty_lists_say_so(
    sinks: Vec<SinkInfo>,
    hidden: TextSet,
    show_hidden: bool,
    r: SinkListView,
    sink: SinkInfo,
    row: SinkRowView,
)
    requires
        call_ensures(sink_list_view, (&sinks, &hidden, show_hidden), r),
        call_ensures(sink_row_view, (&sink, true), row),
    ensures
        (r.empty_text is Some) == (r.rows@.len() == 0),
        r.empty_text matches Some(text) ==> (show_hidden ==> text@ == "No hidden outputs"@) && (
        !show_hidden ==> text@ == "No sinks found"@),
        sinks@.len() == 0 ==> r.status@ == "No sinks found"@,
        row.meta@ == "Hidden output"@,
{
}

/// What is written of the hidden outputs is read back, and headsets, displays and speakers have
/// icons of their own.
pub proof fn hidden_outputs_are_read_back(
    keys: TextSet,
    written: String,
    contents: &str,
    read: TextSet,
    k: int,
    a: &'static str,
    b: &'static str,
    c: &'static str,
    kind: SinkKind,
    other: &'static str,
)
    requires
        call_ensures(hidden_keys_to_json, (&keys,), Ok(written)),
        contents@ == written@,
        call_ensures(hidden_keys_from_json, (contents,), read),
        0 <= k < keys.items@.len(),
        trimmed(keys.items@[k]@).len() > 0,
        !is_ascii_number(trimmed(keys.items@[k]@)[0]),
        call_ensures(sink_icon, (SinkKind::Headset,), a),
        call_ensures(sink_icon, (SinkKind::Display,), b),
        call_ensures(sink_icon, (kind,), c),
        call_ensures(sink_icon, (SinkKind::Analog,), other),
    ensures
        read@.contains(trimmed(keys.items@[k]@)),
        a@ != b@ && a@ != other@ && b@ != other@,
        !(kind is Headset) && !(kind is Display) ==> c@ == other@,
        kind is Headset ==> c@ == a@,
        kind is Display ==> c@ == b@,
{
    let list = texts(keys.items@);
    text_list_of_model(list);
    assert(document_keys(json_parsed(contents@)) == list);
    let key = trimmed(keys.items@[k]@);
    assert(list[k] == keys.items@[k]@);
    assert(migrated_key(list[k]) == key);
    assert(read@.contains(key) == stored_key(list, key));
    reveal_strlit("\u{f02cb}");
    reveal_strlit("\u{f0f5f}");
    reveal_strlit("\u{f04c3}");
    assert(a@[0] == '\u{f02cb}' && b@[0] == '\u{f0f5f}' && other@[0] == '\u{f04c3}');
}

} // verus!
