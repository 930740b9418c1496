//! Audio sinks: what `pw-dump` and `wpctl` say about them, how they are named and ordered.
use crate::json::{
    field, json_get, json_model, json_models, json_parsed, json_text, parse_json, reads_as,
    text_field, JsonModel,
};
use crate::sort::{sorted_has_the_same_members, stable_sort, stably_sorted, Ranked};
use crate::text::{
    ascii_lower, ascii_upper, begins_with, blank_texts_have_no_words, blank_texts_trim_to_nothing,
    chars_of, concat2, concat3, contains, decimal, ends_with, has_text, is_ascii_letter,
    is_ascii_number, is_space, is_word, join, joined, joined_words_in_lower_case, last_at, list_has,
    lowering_forgets_case, matches_at, non_empty, not_after, numeral, occurs_at, opt_text,
    parts_show, patterns_stand_on_one_side, replace, replaced, rfind, same, split_words, squeeze,
    squeezed, starts_with, string_of, text_le, text_le_antisymmetric, text_le_total,
    text_le_transitive, texts, to_ascii_lower, trim, trimmed, words, words_are_solid,
    words_of_joined_words,
};
use vstd::prelude::*;

verus! {

/// The name under which `wpctl` knows the sink in use.
pub const DEFAULT_SINK: &'static str = "@DEFAULT_AUDIO_SINK@";

/// How long a read of the audio state stays good, in milliseconds.
pub const AUDIO_CACHE_TTL_MS: u64 = 500;

/// What a second audio change is told while one is running.
pub const AUDIO_BUSY: &'static str = "another audio change is already in progress";

#[derive(Clone, Copy, Debug, PartialEq, Eq, Structural)]
pub enum SinkKind {
    Headset,
    Display,
    Digital,
    Analog,
    Other,
}

/// One audio sink as the bar lists it.
#[derive(Clone, Debug, PartialEq, Eq)]
pub struct SinkInfo {
    pub id: String,
    pub keys: Vec<String>,
    pub persist_keys: Vec<String>,
    pub name: String,
    pub meta: String,
    pub current: bool,
    pub kind: SinkKind,
}

/// The contents of a `SinkInfo`.
pub struct SinkModel {
    pub id: Seq<char>,
    pub keys: Seq<Seq<char>>,
    pub persist_keys: Seq<Seq<char>>,
    pub name: Seq<char>,
    pub meta: Seq<char>,
    pub current: bool,
    pub kind: SinkKind,
}

impl View for SinkInfo {
    type V = SinkModel;

    open spec fn view(&self) -> SinkModel {
        SinkModel {
            id: self.id@,
            keys: texts(self.keys@),
            persist_keys: texts(self.persist_keys@),
            name: self.name@,
            meta: self.meta@,
            current: self.current,
            kind: self.kind,
        }
    }
}

/// The sink in use comes first; then sinks go by name, letter case aside, and by id.
impl Ranked for SinkInfo {
    open spec fn le(&self, other: &Self) -> bool {
        if self.current != other.current {
            self.current
        } else if ascii_lower(self.name@) != ascii_lower(other.name@) {
            text_le(ascii_lower(self.name@), ascii_lower(other.name@))
        } else {
            text_le(self.id@, other.id@)
        }
    }

    proof fn le_total(a: &Self, b: &Self) {
        text_le_total(ascii_lower(a.name@), ascii_lower(b.name@));
        text_le_total(a.id@, b.id@);
    }

    proof fn le_transitive(a: &Self, b: &Self, c: &Self) {
        let (x, y, z) = (ascii_lower(a.name@), ascii_lower(b.name@), ascii_lower(c.name@));
        if a.current == b.current && b.current == c.current {
            if x != y && y != z {
                text_le_transitive(x, y, z);
                if x == z {
                    text_le_antisymmetric(x, y);
                }
            }
            if x == y && y == z {
                text_le_transitive(a.id@, b.id@, c.id@);
            }
        }
    }

    fn ranks_le(&self, other: &Self) -> (r: bool) {
        if self.current != other.current {
            return self.current;
        }
        let mine = to_ascii_lower(&self.name);
        let theirs = to_ascii_lower(&other.name);
        if same(&mine, &theirs) {
            not_after(&self.id, &other.id)
        } else {
            not_after(&mine, &theirs)
        }
    }
}

/// A sink as `pw-dump` describes it.
#[derive(Clone, Debug, PartialEq, Eq)]
pub struct ParsedSinkNode {
    pub id: String,
    pub raw_name: String,
    pub node_name: String,
}

/// The contents of a `ParsedSinkNode`.
pub struct NodeModel {
    pub id: Seq<char>,
    pub raw_name: Seq<char>,
    pub node_name: Seq<char>,
}

impl View for ParsedSinkNode {
    type V = NodeModel;

    open spec fn view(&self) -> NodeModel {
        NodeModel { id: self.id@, raw_name: self.raw_name@, node_name: self.node_name@ }
    }
}

pub open spec fn nodes_of(nodes: Seq<ParsedSinkNode>) -> Seq<NodeModel> {
    nodes.map_values(|node: ParsedSinkNode| node@)
}

pub open spec fn sinks_of(sinks: Seq<SinkInfo>) -> Seq<SinkModel> {
    sinks.map_values(|sink: SinkInfo| sink@)
}

/// A text without the white space around it, where anything is left.
pub open spec fn solid(text: Option<Seq<char>>) -> Option<Seq<char>> {
    match text {
        Some(t) => if trimmed(t).len() > 0 {
            Some(trimmed(t))
        } else {
            None
        },
        None => None,
    }
}

/// The property `key` where it is a text that is not blank, trimmed.
pub open spec fn property(props: JsonModel, key: Seq<char>) -> Option<Seq<char>> {
    solid(text_field(props, key))
}

/// An identifier written as a number or as a text that is not blank.
pub open spec fn id_text(value: JsonModel) -> Option<Seq<char>> {
    match value {
        JsonModel::Unsigned(n) => Some(decimal(n as nat)),
        JsonModel::Text(t) => solid(Some(t)),
        _ => None,
    }
}

/// The name to show: the first of four properties that is present.
pub open spec fn shown_name(props: JsonModel) -> Option<Seq<char>> {
    if property(props, "node.description"@) is Some {
        property(props, "node.description"@)
    } else if property(props, "node.nick"@) is Some {
        property(props, "node.nick"@)
    } else if property(props, "device.description"@) is Some {
        property(props, "device.description"@)
    } else {
        property(props, "node.name"@)
    }
}

/// The properties of a node object.
pub open spec fn node_props(object: JsonModel) -> Option<JsonModel> {
    match field(object, "info"@) {
        Some(info) => match field(info, "props"@) {
            Some(JsonModel::Object(members)) => Some(JsonModel::Object(members)),
            _ => None,
        },
        None => None,
    }
}

/// The audio sink that an object of the dump describes.
pub open spec fn sink_node(object: JsonModel) -> Option<NodeModel> {
    if text_field(object, "type"@) != Some("PipeWire:Interface:Node"@) {
        None
    } else {
        match node_props(object) {
            Some(props) => match property(props, "media.class"@) {
                Some(class) => if !begins_with(class, "Audio/Sink"@) {
                    None
                } else {
                    match (field(object, "id"@), shown_name(props)) {
                        (Some(id), Some(raw_name)) => match id_text(id) {
                            Some(id) => Some(
                                NodeModel {
                                    id,
                                    raw_name,
                                    node_name: match property(props, "node.name"@) {
                                        Some(name) => name,
                                        None => Seq::empty(),
                                    },
                                },
                            ),
                            None => None,
                        },
                        _ => None,
                    }
                },
                None => None,
            },
            None => None,
        }
    }
}

/// The audio sinks that the objects of a dump describe, in order.
pub open spec fn sink_nodes(objects: Seq<JsonModel>) -> Seq<NodeModel>
    decreases objects.len(),
{
    if objects.len() == 0 {
        Seq::empty()
    } else {
        let before = sink_nodes(objects.drop_last());
        match sink_node(objects.last()) {
            Some(node) => before.push(node),
            None => before,
        }
    }
}

/// Whether a metadata entry names the sink in use.
pub open spec fn is_default_entry(entry: JsonModel) -> bool {
    text_field(entry, "key"@) == Some("default.audio.sink"@)
}

/// The first of the entries that names the sink in use.
pub open spec fn first_default_entry(entries: Seq<JsonModel>) -> Option<JsonModel>
    decreases entries.len(),
{
    if entries.len() == 0 {
        None
    } else {
        let before = first_default_entry(entries.drop_last());
        if before is Some {
            before
        } else if is_default_entry(entries.last()) {
            Some(entries.last())
        } else {
            None
        }
    }
}

/// The metadata entries of an object that holds the default metadata.
pub open spec fn default_metadata(object: JsonModel) -> Seq<JsonModel> {
    let name = match field(object, "props"@) {
        Some(props) => property(props, "metadata.name"@),
        None => None,
    };
    if text_field(object, "type"@) == Some("PipeWire:Interface:Metadata"@) && (name is None
        || name == Some("default"@)) {
        match field(object, "metadata"@) {
            Some(JsonModel::List(entries)) => entries,
            _ => Seq::empty(),
        }
    } else {
        Seq::empty()
    }
}

/// The first entry, over all objects, that names the sink in use.
pub open spec fn default_entry(objects: Seq<JsonModel>) -> Option<JsonModel>
    decreases objects.len(),
{
    if objects.len() == 0 {
        None
    } else {
        let before = default_entry(objects.drop_last());
        if before is Some {
            before
        } else {
            first_default_entry(default_metadata(objects.last()))
        }
    }
}

/// The node name in a document that was stored as text: its `name`, or the text itself where it
/// is no document and does not look like one.
pub open spec fn decoded_name(
    encoded: Seq<char>,
    decoded: Result<JsonModel, Seq<char>>,
) -> Option<Seq<char>> {
    match decoded {
        Ok(document) => solid(text_field(document, "name"@)),
        Err(_) => if begins_with(encoded, "{"@) {
            None
        } else {
            Some(encoded)
        },
    }
}

/// The node name in the value of a metadata entry.
pub open spec fn entry_name(value: JsonModel) -> Option<Seq<char>> {
    match text_field(value, "name"@) {
        Some(name) => solid(Some(name)),
        None => match value {
            JsonModel::Text(t) => if trimmed(t).len() == 0 {
                None
            } else {
                decoded_name(trimmed(t), json_parsed(trimmed(t)))
            },
            _ => None,
        },
    }
}

/// The node name of the sink in use.
pub open spec fn default_name(objects: Seq<JsonModel>) -> Option<Seq<char>> {
    match default_entry(objects) {
        Some(entry) => match field(entry, "value"@) {
            Some(value) => entry_name(value),
            None => None,
        },
        None => None,
    }
}

/// A name without the volume that some tools put behind it.
pub open spec fn without_volume(s: Seq<char>) -> Seq<char> {
    let at = last_at(ascii_lower(s), "[vol:"@, s.len() as int);
    if at >= 0 {
        trimmed(s.take(at))
    } else {
        trimmed(s)
    }
}

/// A separator of a technical name reads as a space.
pub open spec fn spaced_char(c: char) -> char {
    if c == '.' || c == '_' || c == '-' {
        ' '
    } else {
        c
    }
}

/// Whether a word of a technical name says nothing to a reader.
pub open spec fn is_filler(word: Seq<char>) -> bool {
    let lower = ascii_lower(word);
    ||| lower == "output"@
    ||| lower == "monitor"@
    ||| lower == "sink"@
    ||| lower == "pci"@
    ||| lower == "usb"@
    ||| lower == "alsa"@
    ||| lower == "bluez"@
}

/// A name without volume, fixed phrases and separators.
pub open spec fn spaced_name(raw: Seq<char>) -> Seq<char> {
    let s = without_volume(raw);
    let s = replaced(s, "PipeWire Node"@, " "@);
    let s = replaced(s, "pipewire node"@, " "@);
    let s = replaced(s, "Pro Audio"@, " "@);
    let s = replaced(s, "pro audio"@, " "@);
    s.map_values(|c: char| spaced_char(c))
}

/// The words of a technical name that say something.
pub open spec fn telling_words(raw: Seq<char>) -> Seq<Seq<char>> {
    words(spaced_name(raw)).filter(|word: Seq<char>| !is_filler(word))
}

/// The name to show for a technical name.
pub open spec fn clean_name(raw: Seq<char>) -> Seq<char> {
    let simplified = joined(telling_words(raw), " "@);
    if simplified.len() == 0 {
        without_volume(raw)
    } else {
        simplified
    }
}

pub open spec fn is_alphanumeric(c: char) -> bool {
    is_ascii_letter(c) || is_ascii_number(c)
}

/// Whether `token` stands at `i` in `s` as a whole run of letters and digits.
pub open spec fn token_at(s: Seq<char>, token: Seq<char>, i: int) -> bool {
    &&& occurs_at(s, token, i)
    &&& forall|k: int| 0 <= k < token.len() ==> is_alphanumeric(#[trigger] token[k])
    &&& i == 0 || !is_alphanumeric(s[i - 1])
    &&& i + token.len() == s.len() || !is_alphanumeric(s[i + token.len()])
}

/// Whether `token` is one of the runs of letters and digits of `s`.
pub open spec fn is_token(s: Seq<char>, token: Seq<char>) -> bool {
    exists|i: int| token_at(s, token, i)
}

/// The kind of sink that a name speaks of.
pub open spec fn kind_of(name: Seq<char>) -> SinkKind {
    let value = ascii_lower(name);
    if has_text(value, "hyperx"@) || has_text(value, "headset"@) || has_text(value, "headphone"@)
        || has_text(value, "earbud"@) {
        SinkKind::Headset
    } else if has_text(value, "hdmi"@) || has_text(value, "displayport"@) || is_token(
        value,
        "dp"@,
    ) {
        SinkKind::Display
    } else if has_text(value, "spdif"@) || has_text(value, "iec958"@) || has_text(
        value,
        "optical"@,
    ) {
        SinkKind::Digital
    } else if has_text(value, "speaker"@) || has_text(value, "analog"@) {
        SinkKind::Analog
    } else {
        SinkKind::Other
    }
}

pub open spec fn kind_text(kind: SinkKind) -> Seq<char> {
    match kind {
        SinkKind::Headset => "Headset"@,
        SinkKind::Display => "HDMI / DisplayPort"@,
        SinkKind::Digital => "SPDIF / optical"@,
        SinkKind::Analog => "Analog output"@,
        SinkKind::Other => "Audio output"@,
    }
}

/// The key that a property gives.
pub open spec fn property_key(kind: Seq<char>, value: Seq<char>) -> Option<Seq<char>> {
    let normalized = ascii_lower(squeezed(value));
    if normalized.len() == 0 {
        None
    } else {
        Some(kind + ":"@ + normalized)
    }
}

/// The key that a name alone gives.
pub open spec fn base_key(raw: Seq<char>) -> Seq<char> {
    ascii_lower(squeezed(clean_name(raw)))
}

/// All keys of a node: that of its node name, and that of its shown name.
pub open spec fn node_keys(node: NodeModel) -> Seq<Seq<char>> {
    let legacy = base_key(node.raw_name);
    let first = match property_key("node"@, node.node_name) {
        Some(key) => seq![key],
        None => Seq::empty(),
    };
    if legacy.len() > 0 && !first.contains(legacy) {
        first.push(legacy)
    } else {
        first
    }
}

/// The keys under which a node is remembered.
pub open spec fn node_persist_keys(node: NodeModel) -> Seq<Seq<char>> {
    match property_key("node"@, node.node_name) {
        Some(key) => seq![key],
        None => seq![base_key(node.raw_name)],
    }
}

/// Whether another node is shown under the same name as node `i`.
pub open spec fn name_is_shared(nodes: Seq<NodeModel>, i: int) -> bool {
    exists|j: int|
        0 <= j < nodes.len() && j != i && clean_name((#[trigger] nodes[j]).raw_name) == clean_name(
            nodes[i].raw_name,
        )
}

/// The sink that is listed for node `i`.
pub open spec fn listed_sink(
    nodes: Seq<NodeModel>,
    i: int,
    default_sink: Option<Seq<char>>,
) -> SinkModel {
    let node = nodes[i];
    let kind = kind_of(node.raw_name + " "@ + node.node_name);
    SinkModel {
        id: node.id,
        keys: node_keys(node),
        persist_keys: node_persist_keys(node),
        name: clean_name(node.raw_name),
        meta: if !name_is_shared(nodes, i) {
            kind_text(kind)
        } else if node.node_name.len() == 0 {
            kind_text(kind) + " · "@ + node.id
        } else {
            kind_text(kind) + " · "@ + node.node_name
        },
        current: default_sink == Some(node.node_name),
        kind,
    }
}

/// The sinks that are listed for the nodes, in the nodes' order.
pub open spec fn listed_sinks(nodes: Seq<NodeModel>, default_sink: Option<Seq<char>>) -> Seq<
    SinkModel,
> {
    Seq::new(nodes.len(), |i: int| listed_sink(nodes, i, default_sink))
}

/// Whether `sinks` is the list for the objects of a dump, in display order.
pub open spec fn lists_sinks(objects: Seq<JsonModel>, sinks: Seq<SinkInfo>) -> bool {
    exists|unsorted: Seq<SinkInfo>|
        {
            &&& sinks_of(unsorted) == listed_sinks(sink_nodes(objects), default_name(objects))
            &&& #[trigger] stably_sorted(unsorted, sinks)
        }
}

/// Reads the sinks out of what `pw-dump` printed.
pub fn parse_sinks(snapshot: &str) -> (r: Result<Vec<SinkInfo>, String>)
    ensures
        match json_parsed(snapshot@) {
            Ok(JsonModel::List(objects)) => r matches Ok(sinks) && lists_sinks(objects, sinks@),
            Ok(_) => r matches Err(message) && message@
                == "invalid pw-dump JSON: expected a top-level array"@,
            Err(reason) => r matches Err(message) && message@ == "invalid pw-dump JSON: "@ + reason,
        },
{
    match parse_json(snapshot) {
        Ok(root) => sinks_from_json(&root),
        Err(reason) => Err(concat2("invalid pw-dump JSON: ", &reason)),
    }
}

/// Reads the sinks out of a dump.
pub fn sinks_from_json(root: &serde_json::Value) -> (r: Result<Vec<SinkInfo>, String>)
    ensures
        match json_model(*root) {
            JsonModel::List(objects) => r matches Ok(sinks) && lists_sinks(objects, sinks@),
            _ => r matches Err(message) && message@
                == "invalid pw-dump JSON: expected a top-level array"@,
        },
{
    let objects = match root.as_array() {
        Some(objects) => objects,
        None => return Err("invalid pw-dump JSON: expected a top-level array".to_owned()),
    };
    let default_sink = default_sink_name(objects);
    let mut nodes: Vec<ParsedSinkNode> = Vec::new();
    let mut i: usize = 0;
    assert(json_models(objects@).take(0) =~= Seq::<JsonModel>::empty());
    while i < objects.len()
        invariant
            i <= objects@.len(),
            nodes_of(nodes@) =~= sink_nodes(json_models(objects@).take(i as int)),
        decreases objects@.len() - i,
    {
        proof {
            let next = json_models(objects@).take(i as int + 1);
            assert(next.drop_last() =~= json_models(objects@).take(i as int));
            assert(next.last() == json_model(objects@[i as int]));
        }
        if let Some(node) = parse_sink_node(&objects[i]) {
            nodes.push(node);
        }
        i = i + 1;
    }
    assert(json_models(objects@).take(objects@.len() as int) =~= json_models(objects@));
    Ok(sinks_from_nodes(&nodes, &default_sink))
}

/// Lists the sinks for the nodes, in display order.
pub fn sinks_from_nodes(nodes: &Vec<ParsedSinkNode>, default_sink: &Option<String>) -> (r: Vec<
    SinkInfo,
>)
    ensures
        exists|unsorted: Seq<SinkInfo>|
            {
                &&& sinks_of(unsorted) == listed_sinks(nodes_of(nodes@), opt_text(*default_sink))
                &&& #[trigger] stably_sorted(unsorted, r@)
            },
{
    let mut sinks: Vec<SinkInfo> = Vec::new();
    let mut i: usize = 0;
    while i < nodes.len()
        invariant
            i <= nodes@.len(),
            sinks@.len() == i,
            forall|k: int|
                0 <= k < i ==> (#[trigger] sinks@[k])@ == listed_sink(
                    nodes_of(nodes@),
                    k,
                    opt_text(*default_sink),
                ),
        decreases nodes@.len() - i,
    {
        let sink = build_sink(nodes, i, default_sink);
        sinks.push(sink);
        i = i + 1;
    }
    assert(sinks_of(sinks@) =~= listed_sinks(nodes_of(nodes@), opt_text(*default_sink)));
    stable_sort(sinks)
}

fn build_sink(nodes: &Vec<ParsedSinkNode>, i: usize, default_sink: &Option<String>) -> (r: SinkInfo)
    requires
        i < nodes@.len(),
    ensures
        r@ == listed_sink(nodes_of(nodes@), i as int, opt_text(*default_sink)),
{
    let node = &nodes[i];
    let name = cleanup_sink_name(&node.raw_name);
    let mut shared = false;
    let mut j: usize = 0;
    while j < nodes.len()
        invariant
            i < nodes@.len(),
            j <= nodes@.len(),
            name@ == clean_name(nodes@[i as int].raw_name@),
            shared == exists|k: int|
                0 <= k < j && k != i && clean_name((#[trigger] nodes_of(nodes@)[k]).raw_name)
                    == clean_name(nodes_of(nodes@)[i as int].raw_name),
        decreases nodes@.len() - j,
    {
        assert(nodes_of(nodes@)[j as int].raw_name == nodes@[j as int].raw_name@);
        if j != i {
            let other = cleanup_sink_name(&nodes[j].raw_name);
            if same(&other, &name) {
                shared = true;
            }
        }
        j = j + 1;
    }
    let node_key = normalized_property_key("node", &node.node_name);
    let legacy_key = stable_sink_key_base(&node.raw_name);
    let ghost legacy = legacy_key@;
    let ghost model = node@;
    let mut keys: Vec<String> = Vec::new();
    let mut persist_keys: Vec<String> = Vec::new();
    match &node_key {
        Some(key) => {
            keys.push(key.clone());
            persist_keys.push(key.clone());
            assert(texts(keys@) =~= seq![key@]);
            assert(texts(persist_keys@) =~= seq![key@]);
        },
        None => {
            persist_keys.push(legacy_key.clone());
            assert(texts(keys@) =~= Seq::<Seq<char>>::empty());
            assert(texts(persist_keys@) =~= seq![legacy]);
        },
    }
    if !legacy_key.as_str().is_empty() && !list_has(&keys, &legacy_key) {
        assert(texts(keys@.push(legacy_key)) =~= texts(keys@).push(legacy));
        keys.push(legacy_key);
    }
    let described = concat3(&node.raw_name, " ", &node.node_name);
    let kind = sink_kind(&described);
    let base_meta = sink_type_text(kind);
    let meta = if shared {
        if node.node_name.as_str().is_empty() {
            concat3(base_meta, " · ", &node.id)
        } else {
            concat3(base_meta, " · ", &node.node_name)
        }
    } else {
        base_meta.to_owned()
    };
    let current = match default_sink {
        Some(default_name) => same(default_name, &node.node_name),
        None => false,
    };
    let sink = SinkInfo { id: node.id.clone(), keys, persist_keys, name, meta, current, kind };
    proof {
        assert(nodes_of(nodes@)[i as int] == model);
        assert(name_is_shared(nodes_of(nodes@), i as int) == shared);
    }
    sink
}

/// Reads one object of a dump as an audio sink.
pub fn parse_sink_node(object: &serde_json::Value) -> (r: Option<ParsedSinkNode>)
    ensures
        match r {
            Some(node) => sink_node(json_model(*object)) == Some(node@),
            None => sink_node(json_model(*object)) is None,
        },
{
    match json_text(object, "type") {
        Some(text) => if !same(text, "PipeWire:Interface:Node") {
            return None;
        },
        None => return None,
    }
    let info = match json_get(object, "info") {
        Some(info) => info,
        None => return None,
    };
    let props = match json_get(info, "props") {
        Some(props) => props,
        None => return None,
    };
    if !props.is_object() {
        return None;
    }
    match string_property(props, "media.class") {
        Some(class) => if !starts_with(&class, "Audio/Sink") {
            return None;
        },
        None => return None,
    }
    let id = match json_get(object, "id") {
        Some(id) => match json_id(id) {
            Some(id) => id,
            None => return None,
        },
        None => return None,
    };
    let node_name = match string_property(props, "node.name") {
        Some(name) => name,
        None => String::new(),
    };
    let raw_name = match string_property(props, "node.description") {
        Some(name) => name,
        None => match string_property(props, "node.nick") {
            Some(name) => name,
            None => match string_property(props, "device.description") {
                Some(name) => name,
                None => match string_property(props, "node.name") {
                    Some(name) => name,
                    None => return None,
                },
            },
        },
    };
    Some(ParsedSinkNode { id, raw_name, node_name })
}

/// The node name of the sink in use, as the objects of a dump say it.
pub fn default_sink_name(objects: &Vec<serde_json::Value>) -> (r: Option<String>)
    ensures
        opt_text(r) == default_name(json_models(objects@)),
{
    let mut i: usize = 0;
    let ghost all = json_models(objects@);
    assert(all.take(0) =~= Seq::<JsonModel>::empty());
    while i < objects.len()
        invariant
            all == json_models(objects@),
            i <= objects@.len(),
            default_entry(all.take(i as int)) is None,
        decreases objects@.len() - i,
    {
        proof {
            assert(all.take(i as int + 1).drop_last() =~= all.take(i as int));
            assert(all.take(i as int + 1).last() == json_model(objects@[i as int]));
        }
        if let Some(entry) = default_entry_of(&objects[i]) {
            proof {
                default_entry_is_stable(all, i as int + 1, all.len() as int);
                assert(all.take(all.len() as int) =~= all);
            }
            return match json_get(entry, "value") {
                Some(value) => metadata_node_name(value),
                None => None,
            };
        }
        i = i + 1;
    }
    assert(all.take(all.len() as int) =~= all);
    None
}

proof fn default_entry_is_stable(objects: Seq<JsonModel>, i: int, j: int)
    requires
        0 <= i <= j <= objects.len(),
        default_entry(objects.take(i)) is Some,
    ensures
        default_entry(objects.take(j)) == default_entry(objects.take(i)),
    decreases j - i,
{
    if i < j {
        default_entry_is_stable(objects, i, j - 1);
        assert(objects.take(j).drop_last() =~= objects.take(j - 1));
    }
}

proof fn first_entry_is_stable(entries: Seq<JsonModel>, i: int, j: int)
    requires
        0 <= i <= j <= entries.len(),
        first_default_entry(entries.take(i)) is Some,
    ensures
        first_default_entry(entries.take(j)) == first_default_entry(entries.take(i)),
    decreases j - i,
{
    if i < j {
        first_entry_is_stable(entries, i, j - 1);
        assert(entries.take(j).drop_last() =~= entries.take(j - 1));
    }
}

fn default_entry_of<'a>(object: &'a serde_json::Value) -> (r: Option<&'a serde_json::Value>)
    ensures
        match r {
            Some(entry) => first_default_entry(default_metadata(json_model(*object))) == Some(
                json_model(*entry),
            ),
            None => first_default_entry(default_metadata(json_model(*object))) is None,
        },
{
    match json_text(object, "type") {
        Some(text) => if !same(text, "PipeWire:Interface:Metadata") {
            return None;
        },
        None => return None,
    }
    if let Some(props) = json_get(object, "props") {
        if let Some(name) = string_property(props, "metadata.name") {
            if !same(&name, "default") {
                return None;
            }
        }
    }
    let entries = match json_get(object, "metadata") {
        Some(metadata) => match metadata.as_array() {
            Some(entries) => entries,
            None => return None,
        },
        None => return None,
    };
    let ghost all = json_models(entries@);
    let mut k: usize = 0;
    assert(all.take(0) =~= Seq::<JsonModel>::empty());
    while k < entries.len()
        invariant
            all == json_models(entries@),
            default_metadata(json_model(*object)) == all,
            k <= entries@.len(),
            first_default_entry(all.take(k as int)) is None,
        decreases entries@.len() - k,
    {
        proof {
            assert(all.take(k as int + 1).drop_last() =~= all.take(k as int));
            assert(all.take(k as int + 1).last() == json_model(entries@[k as int]));
        }
        if let Some(key) = json_text(&entries[k], "key") {
            if same(key, "default.audio.sink") {
                proof {
                    first_entry_is_stable(all, k as int + 1, all.len() as int);
                    assert(all.take(all.len() as int) =~= all);
                }
                return Some(&entries[k]);
            }
        }
        k = k + 1;
    }
    assert(all.take(all.len() as int) =~= all);
    None
}

/// The node name in the value of a metadata entry.
pub fn metadata_node_name(value: &serde_json::Value) -> (r: Option<String>)
    ensures
        opt_text(r) == entry_name(json_model(*value)),
{
    if let Some(name) = json_text(value, "name") {
        return non_empty(name);
    }
    let encoded = match value.as_str() {
        Some(text) => trim(text),
        None => return None,
    };
    if encoded.as_str().is_empty() {
        return None;
    }
    match parse_json(&encoded) {
        Ok(decoded) => decoded_node_name(&encoded, Some(&decoded)),
        Err(_) => decoded_node_name(&encoded, None),
    }
}

/// The node name in a document that was stored as the text `encoded`; `decoded` is the document,
/// where the text is one.
pub fn decoded_node_name(encoded: &str, decoded: Option<&serde_json::Value>) -> (r: Option<String>)
    ensures
        opt_text(r) == (match decoded {
            Some(document) => solid(text_field(json_model(*document), "name"@)),
            None => if begins_with(encoded@, "{"@) {
                None
            } else {
                Some(encoded@)
            },
        }),
{
    match decoded {
        Some(document) => match json_text(document, "name") {
            Some(name) => non_empty(name),
            None => None,
        },
        None => if starts_with(encoded, "{") {
            None
        } else {
            Some(encoded.to_owned())
        },
    }
}

fn string_property(props: &serde_json::Value, key: &str) -> (r: Option<String>)
    ensures
        opt_text(r) == property(json_model(*props), key@),
{
    match json_text(props, key) {
        Some(text) => non_empty(text),
        None => None,
    }
}

fn json_id(value: &serde_json::Value) -> (r: Option<String>)
    ensures
        opt_text(r) == id_text(json_model(*value)),
{
    match value.as_u64() {
        Some(n) => Some(numeral(n)),
        None => match value.as_str() {
            Some(text) => non_empty(text),
            None => None,
        },
    }
}

/// A name without the volume that some tools put behind it.
pub fn strip_volume_suffix(value: &str) -> (r: String)
    ensures
        r@ == without_volume(value@),
{
    let lower = to_ascii_lower(value);
    let lower_chars = chars_of(&lower);
    let marker = chars_of("[vol:");
    let chars = chars_of(value);
    match rfind(&lower_chars, &marker) {
        Some(at) => {
            let head = string_of(&chars, 0, at);
            assert(head@ =~= value@.take(at as int));
            trim(&head)
        },
        None => trim(value),
    }
}

fn space_separators(s: &str) -> (r: String)
    ensures
        r@ == s@.map_values(|c: char| spaced_char(c)),
{
    let mut out = String::new();
    for c in it: s.chars()
        invariant
            it.seq() == s@,
            out@ =~= s@.take(it.index() as int).map_values(|c: char| spaced_char(c)),
    {
        if c == '.' || c == '_' || c == '-' {
            out.push(' ');
        } else {
            out.push(c);
        }
        assert(s@.take(it.index() as int + 1) =~= s@.take(it.index() as int).push(c));
    }
    assert(s@.take(s@.len() as int) =~= s@);
    out
}

fn is_filler_word(word: &str) -> (r: bool)
    ensures
        r == is_filler(word@),
{
    let lower = to_ascii_lower(word);
    same(&lower, "output") || same(&lower, "monitor") || same(&lower, "sink") || same(&lower, "pci")
        || same(&lower, "usb") || same(&lower, "alsa") || same(&lower, "bluez")
}

/// The name to show for a technical name.
pub fn cleanup_sink_name(raw: &str) -> (r: String)
    ensures
        r@ == clean_name(raw@),
{
    proof {
        reveal_strlit("PipeWire Node");
        reveal_strlit("pipewire node");
        reveal_strlit("Pro Audio");
        reveal_strlit("pro audio");
    }
    let s = strip_volume_suffix(raw);
    let s = replace(&s, "PipeWire Node", " ");
    let s = replace(&s, "pipewire node", " ");
    let s = replace(&s, "Pro Audio", " ");
    let s = replace(&s, "pro audio", " ");
    let normalized = space_separators(&s);
    let all = split_words(&normalized);
    let mut telling: Vec<String> = Vec::new();
    let ghost keep = |word: Seq<char>| !is_filler(word);
    let mut i: usize = 0;
    assert(texts(all@).take(0) =~= Seq::<Seq<char>>::empty());
    while i < all.len()
        invariant
            keep == (|word: Seq<char>| !is_filler(word)),
            i <= all@.len(),
            texts(telling@) =~= texts(all@).take(i as int).filter(keep),
        decreases all@.len() - i,
    {
        let word = &all[i];
        proof {
            let before = texts(all@).take(i as int);
            before.lemma_filter_push(word@, keep);
            assert(texts(all@).take(i as int + 1) =~= before.push(word@));
        }
        if !is_filler_word(word) {
            telling.push(word.clone());
        }
        i = i + 1;
    }
    assert(texts(all@).take(all@.len() as int) =~= texts(all@));
    let simplified = join(&telling, " ");
    if simplified.as_str().is_empty() {
        strip_volume_suffix(raw)
    } else {
        simplified
    }
}

/// The kind of sink that a name speaks of.
pub fn sink_kind(name: &str) -> (r: SinkKind)
    ensures
        r == kind_of(name@),
{
    let value = to_ascii_lower(name);
    if contains(&value, "hyperx") || contains(&value, "headset") || contains(&value, "headphone")
        || contains(&value, "earbud") {
        SinkKind::Headset
    } else if contains(&value, "hdmi") || contains(&value, "displayport") || has_token(
        &value,
        "dp",
    ) {
        SinkKind::Display
    } else if contains(&value, "spdif") || contains(&value, "iec958") || contains(
        &value,
        "optical",
    ) {
        SinkKind::Digital
    } else if contains(&value, "speaker") || contains(&value, "analog") {
        SinkKind::Analog
    } else {
        SinkKind::Other
    }
}

fn char_is_alphanumeric(c: char) -> (r: bool)
    ensures
        r == is_alphanumeric(c),
{
    ('a' <= c && c <= 'z') || ('A' <= c && c <= 'Z') || ('0' <= c && c <= '9')
}

/// Whether `token` is one of the runs of letters and digits of `value`.
pub fn has_token(value: &str, token: &str) -> (r: bool)
    ensures
        r == is_token(value@, token@),
{
    let s = chars_of(value);
    let t = chars_of(token);
    let mut k: usize = 0;
    while k < t.len()
        invariant
            t@ == token@,
            k <= t@.len(),
            forall|j: int| 0 <= j < k ==> is_alphanumeric(#[trigger] t@[j]),
        decreases t@.len() - k,
    {
        if !char_is_alphanumeric(t[k]) {
            assert(!is_alphanumeric(token@[k as int]));
            return false;
        }
        k = k + 1;
    }
    let n: usize = s.len();
    let m: usize = t.len();
    let mut i: usize = 0;
    loop
        invariant
            s@ == value@,
            t@ == token@,
            n == s@.len(),
            m == t@.len(),
            i <= n,
            forall|j: int| 0 <= j < m ==> is_alphanumeric(#[trigger] t@[j]),
            forall|j: int| 0 <= j < i ==> !token_at(value@, token@, j),
        decreases n - i,
    {
        if matches_at(&s, &t, i) {
            if (i == 0 || !char_is_alphanumeric(s[i - 1])) && (i + m == n
                || !char_is_alphanumeric(s[i + m])) {
                assert(token_at(value@, token@, i as int));
                return true;
            }
        }
        assert(!token_at(value@, token@, i as int));
        if i == n {
            return false;
        }
        i = i + 1;
    }
}

pub fn sink_type_text(kind: SinkKind) -> (r: &'static str)
    ensures
        r@ == kind_text(kind),
{
    match kind {
        SinkKind::Headset => "Headset",
        SinkKind::Display => "HDMI / DisplayPort",
        SinkKind::Digital => "SPDIF / optical",
        SinkKind::Analog => "Analog output",
        SinkKind::Other => "Audio output",
    }
}

/// The key that a property gives; none for a blank one.
pub fn normalized_property_key(kind: &str, value: &str) -> (r: Option<String>)
    ensures
        opt_text(r) == property_key(kind@, value@),
{
    let squeezed_value = squeeze(value);
    let normalized = to_ascii_lower(&squeezed_value);
    if normalized.as_str().is_empty() {
        None
    } else {
        Some(concat3(kind, ":", &normalized))
    }
}

/// The key that a name alone gives.
pub fn stable_sink_key_base(raw: &str) -> (r: String)
    ensures
        r@ == base_key(raw@),
{
    let name = cleanup_sink_name(raw);
    let squeezed_name = squeeze(&name);
    to_ascii_lower(&squeezed_name)
}

/// What `wpctl` can be asked to do.
pub enum AudioCommand {
    ReadVolume,
    /// The volume as a numeral with two decimals.
    SetVolume(String),
    SetMute(bool),
    SetDefault(String),
}

impl AudioCommand {
    pub open spec fn words(self) -> Seq<Seq<char>> {
        match self {
            AudioCommand::ReadVolume => seq!["get-volume"@, DEFAULT_SINK@],
            AudioCommand::SetVolume(value) => seq![
                "set-volume"@,
                DEFAULT_SINK@,
                value@,
                "-l"@,
                "1"@,
            ],
            AudioCommand::SetMute(muted) => seq![
                "set-mute"@,
                DEFAULT_SINK@,
                if muted {
                    "1"@
                } else {
                    "0"@
                },
            ],
            AudioCommand::SetDefault(id) => seq!["set-default"@, id@],
        }
    }

    /// The arguments to call `wpctl` with.
    pub fn arguments(&self) -> (r: Vec<String>)
        ensures
            texts(r@) == self.words(),
    {
        let mut out: Vec<String> = Vec::new();
        match self {
            AudioCommand::ReadVolume => {
                out.push("get-volume".to_owned());
                out.push(DEFAULT_SINK.to_owned());
            },
            AudioCommand::SetVolume(value) => {
                out.push("set-volume".to_owned());
                out.push(DEFAULT_SINK.to_owned());
                out.push(value.clone());
                out.push("-l".to_owned());
                out.push("1".to_owned());
            },
            AudioCommand::SetMute(muted) => {
                out.push("set-mute".to_owned());
                out.push(DEFAULT_SINK.to_owned());
                if *muted {
                    out.push("1".to_owned());
                } else {
                    out.push("0".to_owned());
                }
            },
            AudioCommand::SetDefault(id) => {
                out.push("set-default".to_owned());
                out.push(id.clone());
            },
        }
        assert(texts(out@) =~= self.words());
        out
    }
}

/// What `wpctl get-volume` printed: the volume's numeral and whether the sink is muted.
pub open spec fn volume_report(output: Seq<char>) -> Result<(Seq<char>, bool), Seq<char>> {
    let fields = words(output);
    if fields.len() == 0 || fields[0] != "Volume:"@ {
        Err("unexpected wpctl volume output: "@ + output)
    } else if fields.len() == 1 {
        Err("missing wpctl volume value: "@ + output)
    } else {
        Ok(
            (
                fields[1],
                exists|i: int|
                    2 <= i < fields.len() && ascii_lower(#[trigger] fields[i]) == "[muted]"@,
            ),
        )
    }
}

/// Takes the parts of what `wpctl get-volume` printed.
pub fn volume_fields(output: &str) -> (r: Result<(String, bool), String>)
    ensures
        match volume_report(output@) {
            Ok((value, muted)) => r matches Ok(parts) && parts.0@ == value && parts.1 == muted,
            Err(reason) => r matches Err(message) && message@ == reason,
        },
{
    let fields = split_words(output);
    assert(forall|i: int| 0 <= i < fields@.len() ==> words(output@)[i] == (#[trigger] fields@[i])@);
    assert(words(output@).len() == fields@.len());
    if fields.len() == 0 || !same(&fields[0], "Volume:") {
        return Err(concat2("unexpected wpctl volume output: ", output));
    }
    if fields.len() == 1 {
        return Err(concat2("missing wpctl volume value: ", output));
    }
    let mut muted = false;
    let mut i: usize = 2;
    while i < fields.len()
        invariant
            texts(fields@) == words(output@),
            2 <= i <= fields@.len(),
            muted == exists|k: int|
                2 <= k < i && ascii_lower(#[trigger] words(output@)[k]) == "[muted]"@,
        decreases fields@.len() - i,
    {
        let lower = to_ascii_lower(&fields[i]);
        assert(words(output@)[i as int] == fields@[i as int]@);
        if same(&lower, "[muted]") {
            muted = true;
        }
        i = i + 1;
    }
    Ok((fields[1].clone(), muted))
}

/// The list holds one sink for each node of the dump, and the sink in use is ahead of the others.
pub proof fn sink_list_is_complete(objects: Seq<JsonModel>, sinks: Seq<SinkInfo>)
    requires
        lists_sinks(objects, sinks),
    ensures
        sinks.len() == sink_nodes(objects).len(),
        forall|i: int, j: int|
            0 <= i < j < sinks.len() && (#[trigger] sinks[j]).current ==> (
            #[trigger] sinks[i]).current,
{
    let unsorted = choose|unsorted: Seq<SinkInfo>|
        {
            &&& sinks_of(unsorted) == listed_sinks(sink_nodes(objects), default_name(objects))
            &&& #[trigger] stably_sorted(unsorted, sinks)
        };
    assert(unsorted.len() == sinks_of(unsorted).len());
    unsorted.to_multiset_ensures();
    sinks.to_multiset_ensures();
    assert forall|i: int, j: int|
        0 <= i < j < sinks.len() && (#[trigger] sinks[j]).current implies (
    #[trigger] sinks[i]).current by {
        assert(sinks[i].le(&sinks[j]));
    }
}

/// A sink is remembered under a key by which it is found again.
pub proof fn persist_keys_are_keys(node: NodeModel)
    requires
        property_key("node"@, node.node_name) is Some || base_key(node.raw_name).len() > 0,
    ensures
        forall|i: int|
            0 <= i < node_persist_keys(node).len() ==> node_keys(node).contains(
                #[trigger] node_persist_keys(node)[i],
            ),
{
    match property_key("node"@, node.node_name) {
        Some(key) => {
            assert(node_keys(node)[0] == key);
        },
        None => {
            assert(node_keys(node)[0] == base_key(node.raw_name));
        },
    }
}

/// How well a kind of sink is told from a name; a better one comes first.
pub open spec fn kind_rank(kind: SinkKind) -> int {
    match kind {
        SinkKind::Headset => 0,
        SinkKind::Display => 1,
        SinkKind::Digital => 2,
        SinkKind::Analog => 3,
        SinkKind::Other => 4,
    }
}

/// The kind of two names with a space between them is the better of their kinds, and the case of
/// ASCII letters does not matter.
pub proof fn kinds_of_joined_names(s: Seq<char>, t: Seq<char>)
    ensures
        kind_rank(kind_of(s + " "@ + t)) == (if kind_rank(kind_of(s)) < kind_rank(kind_of(t)) {
            kind_rank(kind_of(s))
        } else {
            kind_rank(kind_of(t))
        }),
        kind_of(ascii_upper(s)) == kind_of(s),
{
    reveal_strlit(" ");
    lowering_forgets_case(s);
    let (a, b) = (ascii_lower(s), ascii_lower(t));
    assert(ascii_lower(s + " "@ + t) =~= a + " "@ + b);
    reveal_strlit("hyperx");
    reveal_strlit("headset");
    reveal_strlit("headphone");
    reveal_strlit("earbud");
    reveal_strlit("hdmi");
    reveal_strlit("displayport");
    reveal_strlit("dp");
    reveal_strlit("spdif");
    reveal_strlit("iec958");
    reveal_strlit("optical");
    reveal_strlit("speaker");
    reveal_strlit("analog");
    patterns_stand_on_one_side(a, b, "hyperx"@);
    patterns_stand_on_one_side(a, b, "headset"@);
    patterns_stand_on_one_side(a, b, "headphone"@);
    patterns_stand_on_one_side(a, b, "earbud"@);
    patterns_stand_on_one_side(a, b, "hdmi"@);
    patterns_stand_on_one_side(a, b, "displayport"@);
    tokens_stand_on_one_side(a, b, "dp"@);
    patterns_stand_on_one_side(a, b, "spdif"@);
    patterns_stand_on_one_side(a, b, "iec958"@);
    patterns_stand_on_one_side(a, b, "optical"@);
    patterns_stand_on_one_side(a, b, "speaker"@);
    patterns_stand_on_one_side(a, b, "analog"@);
}

proof fn tokens_stand_on_one_side(s: Seq<char>, t: Seq<char>, token: Seq<char>)
    requires
        token.len() > 0,
    ensures
        is_token(s + " "@ + t, token) == (is_token(s, token) || is_token(t, token)),
{
    reveal_strlit(" ");
    let all = s + " "@ + t;
    let n = token.len();
    assert(all[s.len() as int] == ' ');
    if is_token(all, token) {
        let i = choose|i: int| token_at(all, token, i);
        if i <= s.len() < i + n {
            assert(all.subrange(i, i + n)[s.len() - i] == all[s.len() as int]);
            assert(is_alphanumeric(token[s.len() - i]));
        } else if i + n <= s.len() {
            assert(s.subrange(i, i + n) =~= all.subrange(i, i + n));
            assert(token_at(s, token, i));
        } else {
            let j = i - s.len() - 1;
            assert(t.subrange(j, j + n) =~= all.subrange(i, i + n));
            assert(token_at(t, token, j));
        }
    }
    if is_token(s, token) {
        let i = choose|i: int| token_at(s, token, i);
        assert(all.subrange(i, i + n) =~= s.subrange(i, i + n));
        assert(token_at(all, token, i));
    }
    if is_token(t, token) {
        let j = choose|j: int| token_at(t, token, j);
        let i = j + s.len() + 1;
        assert(all.subrange(i, i + n) =~= t.subrange(j, j + n));
        assert(token_at(all, token, i));
    }
}

/// The words of a text, ASCII letters in lower case.
pub open spec fn lowered_words(s: Seq<char>) -> Seq<Seq<char>> {
    words(s).map_values(|word: Seq<char>| ascii_lower(word))
}

/// Two values of a property give one key where their words agree, ASCII case aside, and nowhere
/// else. A blank value gives none, and every key begins with the kind and a colon.
pub proof fn property_keys_go_by_words(kind: Seq<char>, a: Seq<char>, b: Seq<char>)
    ensures
        property_key(kind, a) is None == (trimmed(a).len() == 0),
        (property_key(kind, a) == property_key(kind, b)) == (lowered_words(a) == lowered_words(b)),
        property_key(kind, a) matches Some(key) ==> begins_with(key, kind + ":"@),
{
    key_words(a);
    key_words(b);
    let (x, y) = (ascii_lower(squeezed(a)), ascii_lower(squeezed(b)));
    let head = kind + ":"@;
    assert((head + x).subrange(0, head.len() as int) =~= head);
    if head + x == head + y {
        assert(x =~= (head + x).skip(head.len() as int));
        assert(y =~= (head + y).skip(head.len() as int));
    }
    if lowered_words(a) == lowered_words(b) {
        assert(x == y);
    }
    if x == y {
        assert(lowered_words(a) == lowered_words(b));
    }
}

proof fn key_words(s: Seq<char>)
    ensures
        ascii_lower(squeezed(s)) == joined(lowered_words(s), " "@),
        words(ascii_lower(squeezed(s))) == lowered_words(s),
        (ascii_lower(squeezed(s)).len() == 0) == (trimmed(s).len() == 0),
{
    let low = lowered_words(s);
    joined_words_in_lower_case(words(s));
    words_are_solid(s);
    assert forall|i: int| 0 <= i < low.len() implies is_word(#[trigger] low[i]) by {
        assert(low[i] == ascii_lower(words(s)[i]));
        assert forall|j: int| 0 <= j < low[i].len() implies !is_space(#[trigger] low[i][j]) by {
            assert(!is_space(words(s)[i][j]));
        }
    }
    words_of_joined_words(low);
    blank_texts_have_no_words(s);
    blank_texts_trim_to_nothing(s);
    if low.len() > 0 {
        assert(words(joined(low, " "@)).len() > 0);
    }
}

/// What `wpctl` is told to do: the first argument is the name of the command, a change of the
/// volume or of muting is about the sink in use, the volume is the one asked for with a limit of
/// one, and the last argument of a change of muting is 1 to mute and 0 to unmute.
pub proof fn commands_say_what_they_do(command: AudioCommand, arguments: Vec<String>)
    requires
        call_ensures(AudioCommand::arguments, (&command,), arguments),
    ensures
        arguments@.len() >= 2,
        (arguments@[0]@ == "get-volume"@) == (command is ReadVolume),
        (arguments@[0]@ == "set-volume"@) == (command is SetVolume),
        (arguments@[0]@ == "set-mute"@) == (command is SetMute),
        (arguments@[0]@ == "set-default"@) == (command is SetDefault),
        !(command is SetDefault) ==> arguments@[1]@ == "@DEFAULT_AUDIO_SINK@"@,
        command is ReadVolume ==> arguments@.len() == 2,
        command matches AudioCommand::SetVolume(value) ==> arguments@.len() == 5
            && arguments@[2]@ == value@ && arguments@[3]@ == "-l"@ && arguments@[4]@ == "1"@,
        command matches AudioCommand::SetMute(muted) ==> arguments@.len() == 3 && (
        arguments@.last()@ == "1"@) == muted && (arguments@.last()@ == "0"@) == !muted,
        command matches AudioCommand::SetDefault(id) ==> arguments@.len() == 2 && arguments@[1]@
            == id@,
{
    reveal_strlit("get-volume");
    reveal_strlit("set-volume");
    reveal_strlit("set-mute");
    reveal_strlit("set-default");
    reveal_strlit("1");
    reveal_strlit("0");
    let list = texts(arguments@);
    assert(list.len() == arguments@.len());
    assert(list[0] == arguments@[0]@ && list[1] == arguments@[1]@);
    assert("get-volume"@[0] != "set-volume"@[0]);
    assert("set-volume"@.len() == 10 && "set-mute"@.len() == 8 && "set-default"@.len() == 11);
    assert("1"@[0] != "0"@[0]);
    if command is SetVolume {
        assert(list[2] == arguments@[2]@ && list[3] == arguments@[3]@ && list[4]
            == arguments@[4]@);
    }
    if command is SetMute {
        assert(list[2] == arguments@[2]@);
    }
}

/// Two commands with the same arguments are the same command.
pub proof fn commands_differ_in_their_arguments(
    a: AudioCommand,
    b: AudioCommand,
    of_a: Vec<String>,
    of_b: Vec<String>,
)
    requires
        call_ensures(AudioCommand::arguments, (&a,), of_a),
        call_ensures(AudioCommand::arguments, (&b,), of_b),
        texts(of_a@) == texts(of_b@),
    ensures
        match (a, b) {
            (AudioCommand::ReadVolume, AudioCommand::ReadVolume) => true,
            (AudioCommand::SetVolume(x), AudioCommand::SetVolume(y)) => x@ == y@,
            (AudioCommand::SetMute(x), AudioCommand::SetMute(y)) => x == y,
            (AudioCommand::SetDefault(x), AudioCommand::SetDefault(y)) => x@ == y@,
            _ => false,
        },
{
    commands_say_what_they_do(a, of_a);
    commands_say_what_they_do(b, of_b);
    let (x, y) = (texts(of_a@), texts(of_b@));
    assert(x.len() == of_a@.len() && y.len() == of_b@.len());
    assert(x[0] == of_a@[0]@ && y[0] == of_b@[0]@);
    assert(x[1] == of_a@[1]@ && y[1] == of_b@[1]@);
    assert(x.last() == of_a@.last()@ && y.last() == of_b@.last()@);
    if x.len() == 5 {
        assert(x[2] == of_a@[2]@ && y[2] == of_b@[2]@);
    }
}

/// The volume that `wpctl` reports is its second word, and the sink is muted exactly where a word
/// behind it says so.
pub proof fn reports_tell_volume_and_muting(
    output: &str,
    report: Result<(String, bool), String>,
    value: Seq<char>,
    rest: Seq<Seq<char>>,
)
    requires
        call_ensures(volume_fields, (output,), report),
        words(output@) == seq!["Volume:"@, value] + rest,
    ensures
        report matches Ok(parts) && parts.0@ == value && (rest.len() == 0 ==> !parts.1) && ((
        rest.len() > 0 && rest[0] == "[MUTED]"@) ==> parts.1) && (parts.1 ==> exists|i: int|
            0 <= i < rest.len() && ascii_upper(#[trigger] rest[i]) == "[MUTED]"@),
{
    reveal_strlit("[muted]");
    reveal_strlit("[MUTED]");
    let fields = words(output@);
    assert(fields[0] == "Volume:"@ && fields[1] == value);
    assert(ascii_lower("[MUTED]"@) =~= "[muted]"@);
    assert(ascii_upper("[muted]"@) =~= "[MUTED]"@);
    if rest.len() > 0 {
        assert(fields[2] == rest[0]);
    }
    if report->Ok_0.1 {
        let i = choose|i: int|
            2 <= i < fields.len() && ascii_lower(#[trigger] fields[i]) == "[muted]"@;
        let word = rest[i - 2];
        assert(fields[i] == word);
        assert(ascii_upper(word) =~= ascii_upper(ascii_lower(word)));
    }
}

/// A sink is read out of a node of PipeWire whose class begins as that of an audio sink, under the
/// number of the object. It is called by its description where it has one, and its node name is
/// kept.
pub proof fn sinks_are_read_from_nodes(object: serde_json::Value, r: Option<ParsedSinkNode>)
    requires
        call_ensures(parse_sink_node, (&object,), r),
    ensures
        r matches Some(node) ==> {
            let m = json_model(object);
            &&& text_field(m, "type"@) == Some("PipeWire:Interface:Node"@)
            &&& field(m, "info"@) is Some
            &&& field(field(m, "info"@)->0, "props"@) is Some
            &&& {
                let props = field(field(m, "info"@)->0, "props"@)->0;
                &&& text_field(props, "media.class"@) matches Some(class) && begins_with(
                    trimmed(class),
                    "Audio/Sink"@,
                )
                &&& text_field(props, "node.description"@) matches Some(text) ==> (trimmed(
                    text,
                ).len() > 0 ==> node.raw_name@ == trimmed(text))
                &&& text_field(props, "node.description"@) is None && text_field(
                    props,
                    "node.nick"@,
                ) is Some && trimmed(text_field(props, "node.nick"@)->0).len() > 0
                    ==> node.raw_name@ == trimmed(text_field(props, "node.nick"@)->0)
                &&& text_field(props, "node.name"@) matches Some(name) ==> (trimmed(name).len() > 0
                    ==> node.node_name@ == trimmed(name))
                &&& node.raw_name@.len() > 0
            }
            &&& field(m, "id"@) matches Some(JsonModel::Unsigned(n)) ==> node.id@ == decimal(
                n as nat,
            )
        },
        ({
            let m = json_model(object);
            &&& text_field(m, "type"@) == Some("PipeWire:Interface:Node"@)
            &&& field(m, "info"@) is Some
            &&& field(field(m, "info"@)->0, "props"@) is Some
            &&& field(field(m, "info"@)->0, "props"@)->0 is Object
            &&& field(m, "id"@) is Some && field(m, "id"@)->0 is Unsigned
            &&& {
                let props = field(field(m, "info"@)->0, "props"@)->0;
                &&& text_field(props, "media.class"@) matches Some(class) && begins_with(
                    trimmed(class),
                    "Audio/Sink"@,
                )
                &&& text_field(props, "node.name"@) matches Some(name) && trimmed(name).len() > 0
            }
        }) ==> r is Some,
{
    reveal_strlit("Audio/Sink");
    let m = json_model(object);
    if field(m, "info"@) is Some && field(field(m, "info"@)->0, "props"@) is Some {
        let props = field(field(m, "info"@)->0, "props"@)->0;
        if text_field(props, "media.class"@) is Some {
            let class = trimmed(text_field(props, "media.class"@)->0);
            if begins_with(class, "Audio/Sink"@) {
                assert(class.len() >= 10);
            }
        }
    }
}

/// Whether the words of a name, in lower case, speak of headphones.
pub open spec fn speaks_of_ears(s: Seq<char>) -> bool {
    has_text(s, "hyperx"@) || has_text(s, "headset"@) || has_text(s, "headphone"@) || has_text(
        s,
        "earbud"@,
    )
}

/// A sink is of a kind only where its name speaks of that kind, in whatever case, and of another
/// kind only where it speaks of none.
pub proof fn kinds_fit_the_name(name: &str, kind: SinkKind, text: &'static str)
    requires
        call_ensures(sink_kind, (name,), kind),
        call_ensures(sink_type_text, (kind,), text),
    ensures
        ({
            let s = ascii_lower(name@);
            let screen = has_text(s, "hdmi"@) || has_text(s, "displayport"@) || is_token(s, "dp"@);
            let digital = has_text(s, "spdif"@) || has_text(s, "iec958"@) || has_text(s, "optical"@);
            let analog = has_text(s, "speaker"@) || has_text(s, "analog"@);
            &&& (kind is Headset) == speaks_of_ears(s)
            &&& (kind is Display) == (screen && !speaks_of_ears(s))
            &&& kind is Digital ==> digital
            &&& kind is Analog ==> analog
            &&& (kind is Other) == !(speaks_of_ears(s) || screen || digital || analog)
            &&& digital && !speaks_of_ears(s) && !screen ==> kind is Digital
        }),
        (text@ == "Headset"@) == (kind is Headset),
        (text@ == "HDMI / DisplayPort"@) == (kind is Display),
        (text@ == "SPDIF / optical"@) == (kind is Digital),
        (text@ == "Analog output"@) == (kind is Analog),
        (text@ == "Audio output"@) == (kind is Other),
{
    reveal_strlit("Headset");
    reveal_strlit("HDMI / DisplayPort");
    reveal_strlit("SPDIF / optical");
    reveal_strlit("Analog output");
    reveal_strlit("Audio output");
    assert("Headset"@.len() == 7 && "HDMI / DisplayPort"@.len() == 18 && "SPDIF / optical"@.len()
        == 15 && "Analog output"@.len() == 13 && "Audio output"@.len() == 12);
}

/// Whether a sink is listed for a node: under its number and its name without fillers, as the sink
/// in use exactly where it is the default.
pub open spec fn tells_sink(
    node: ParsedSinkNode,
    default_sink: Option<String>,
    sink: SinkInfo,
) -> bool {
    &&& sink.id@ == node.id@
    &&& sink.name@ == clean_name(node.raw_name@)
    &&& sink.current == (default_sink is Some && default_sink->0@ == node.node_name@)
    &&& speaks_of_ears(ascii_lower(node.raw_name@ + " "@ + node.node_name@)) == (
    sink.kind is Headset)
    &&& begins_with(sink.meta@, kind_text(sink.kind))
    &&& sink.persist_keys@.len() == 1
}

/// Whether some node is listed as the sink.
pub open spec fn comes_from_node(
    nodes: Seq<ParsedSinkNode>,
    default_sink: Option<String>,
    sink: SinkInfo,
) -> bool {
    exists|k: int| 0 <= k < nodes.len() && tells_sink(#[trigger] nodes[k], default_sink, sink)
}

/// Whether the node is listed as some sink.
pub open spec fn is_listed(
    node: ParsedSinkNode,
    default_sink: Option<String>,
    sinks: Seq<SinkInfo>,
) -> bool {
    exists|i: int| 0 <= i < sinks.len() && tells_sink(node, default_sink, #[trigger] sinks[i])
}

/// Every sink that is listed comes from a node, and every node is listed.
pub proof fn every_node_is_listed(
    nodes: Vec<ParsedSinkNode>,
    default_sink: Option<String>,
    r: Vec<SinkInfo>,
)
    requires
        call_ensures(sinks_from_nodes, (&nodes, &default_sink), r),
    ensures
        r@.len() == nodes@.len(),
        forall|i: int|
            0 <= i < r@.len() ==> comes_from_node(nodes@, default_sink, #[trigger] r@[i]),
        forall|k: int|
            0 <= k < nodes@.len() ==> is_listed(#[trigger] nodes@[k], default_sink, r@),
{
    let models = nodes_of(nodes@);
    let all = listed_sinks(models, opt_text(default_sink));
    let unsorted = choose|unsorted: Seq<SinkInfo>|
        {
            &&& sinks_of(unsorted) == all
            &&& #[trigger] stably_sorted(unsorted, r@)
        };
    assert(sinks_of(unsorted).len() == unsorted.len());
    assert(all.len() == nodes@.len());
    r@.to_multiset_ensures();
    unsorted.to_multiset_ensures();
    assert forall|k: int| 0 <= k < nodes@.len() implies tells_sink(
        #[trigger] nodes@[k],
        default_sink,
        unsorted[k],
    ) by {
        assert(sinks_of(unsorted)[k] == unsorted[k]@);
        assert(models[k] == nodes@[k]@);
        let sink = unsorted[k];
        let kind = kind_text(sink.kind);
        assert(sink@ == listed_sink(models, k, opt_text(default_sink)));
        assert(sink@.kind == sink.kind && sink@.current == sink.current && sink@.meta == sink.meta@);
        parts_show(kind, " · "@, models[k].id);
        parts_show(kind, " · "@, models[k].node_name);
        assert(kind.subrange(0, kind.len() as int) =~= kind);
        assert(sink@.persist_keys == texts(sink.persist_keys@));
        assert(sink@.persist_keys.len() == sink.persist_keys@.len());
    }
    assert forall|i: int| 0 <= i < r@.len() implies comes_from_node(
        nodes@,
        default_sink,
        #[trigger] r@[i],
    ) by {
        assert(r@.contains(r@[i]));
        sorted_has_the_same_members(unsorted, r@, r@[i]);
        let n = choose|n: int| 0 <= n < unsorted.len() && unsorted[n] == r@[i];
        assert(tells_sink(nodes@[n], default_sink, r@[i]));
    }
    assert forall|k: int| 0 <= k < nodes@.len() implies is_listed(
        #[trigger] nodes@[k],
        default_sink,
        r@,
    ) by {
        assert(unsorted.contains(unsorted[k]));
        sorted_has_the_same_members(unsorted, r@, unsorted[k]);
        let i = choose|i: int| 0 <= i < r@.len() && r@[i] == unsorted[k];
        assert(tells_sink(nodes@[k], default_sink, r@[i]));
    }
}

/// The sink in use is listed first, and the others stand in the order of their names, case aside.
pub proof fn sinks_are_in_order(
    nodes: Vec<ParsedSinkNode>,
    default_sink: Option<String>,
    r: Vec<SinkInfo>,
    i: int,
    j: int,
)
    requires
        call_ensures(sinks_from_nodes, (&nodes, &default_sink), r),
        0 <= i < j < r@.len(),
    ensures
        r@[j].current ==> r@[i].current,
        r@[i].current == r@[j].current ==> text_le(
            ascii_lower(r@[i].name@),
            ascii_lower(r@[j].name@),
        ),
{
    assert(r@[i].le(&r@[j]));
    text_le_total(ascii_lower(r@[i].name@), ascii_lower(r@[i].name@));
}

/// The name of a sink holds no word that says nothing, unless it would hold no word at all.
pub proof fn shown_names_hold_no_fillers(raw: &str, r: String, word: Seq<char>)
    requires
        call_ensures(cleanup_sink_name, (raw,), r),
        words(r@).contains(word),
        telling_words(raw@).len() > 0,
    ensures
        ascii_lower(word) != "output"@ && ascii_lower(word) != "monitor"@ && ascii_lower(word)
            != "sink"@ && ascii_lower(word) != "pci"@ && ascii_lower(word) != "usb"@ && ascii_lower(
            word,
        ) != "alsa"@ && ascii_lower(word) != "bluez"@,
        words(spaced_name(raw@)).contains(word),
{
    let all = words(spaced_name(raw@));
    let kept = telling_words(raw@);
    let p = |word: Seq<char>| !is_filler(word);
    words_are_solid(spaced_name(raw@));
    assert forall|i: int| 0 <= i < kept.len() implies is_word(#[trigger] kept[i]) && !is_filler(
        kept[i],
    ) && all.contains(kept[i]) by {
        all.lemma_filter_contains_rev(p, kept[i]);
        let k = choose|k: int| 0 <= k < all.len() && all[k] == kept[i];
        assert(is_word(all[k]));
        all.filter_lemma(p);
        assert(p(kept[i]));
    }
    let simplified = joined(kept, " "@);
    words_of_joined_words(kept);
    assert(simplified.len() > 0) by {
        if simplified.len() == 0 {
            blank_texts_have_no_words(simplified);
        }
    }
    let i = choose|i: int| 0 <= i < kept.len() && kept[i] == word;
    assert(!is_filler(kept[i]));
}

/// Of a name only the volume behind it goes away, with the white space around the rest.
pub proof fn volumes_are_cut_off(value: &str, r: String)
    requires
        call_ensures(strip_volume_suffix, (value,), r),
    ensures
        !has_text(ascii_lower(value@), "[vol:"@) ==> r@ == trimmed(value@),
        has_text(ascii_lower(value@), "[vol:"@) ==> exists|at: int|
            #![trigger occurs_at(ascii_lower(value@), "[vol:"@, at)]
            0 <= at <= value@.len() && occurs_at(ascii_lower(value@), "[vol:"@, at) && r@ == trimmed(
                value@.take(at),
            ),
{
    last_stands_there(ascii_lower(value@), "[vol:"@, value@.len() as int);
    let at = last_at(ascii_lower(value@), "[vol:"@, value@.len() as int);
    if at >= 0 {
        assert(occurs_at(ascii_lower(value@), "[vol:"@, at));
    } else if has_text(ascii_lower(value@), "[vol:"@) {
        let i = choose|i: int| occurs_at(ascii_lower(value@), "[vol:"@, i);
        assert(ascii_lower(value@).len() == value@.len());
        assert(!occurs_at(ascii_lower(value@), "[vol:"@, i));
    }
}

proof fn last_stands_there(s: Seq<char>, pat: Seq<char>, upto: int)
    ensures
        last_at(s, pat, upto) >= 0 ==> last_at(s, pat, upto) <= upto && occurs_at(
            s,
            pat,
            last_at(s, pat, upto),
        ),
        last_at(s, pat, upto) < 0 ==> forall|i: int| 0 <= i <= upto ==> !#[trigger] occurs_at(s, pat, i),
    decreases upto + 1,
{
    if upto >= 0 && !occurs_at(s, pat, upto) {
        last_stands_there(s, pat, upto - 1);
    }
}

/// The name of the sink in use is that in its metadata entry, without the white space around it; an
/// entry that is a text may be the name itself.
pub proof fn metadata_names_the_sink(
    value: serde_json::Value,
    r: Option<String>,
    encoded: &str,
    plain: Option<String>,
)
    requires
        call_ensures(metadata_node_name, (&value,), r),
        call_ensures(decoded_node_name, (encoded, None), plain),
    ensures
        text_field(json_model(value), "name"@) matches Some(name) ==> opt_text(r) == (if trimmed(
            name,
        ).len() > 0 {
            Some(trimmed(name))
        } else {
            None
        }),
        json_model(value) is Null || json_model(value) is Bool || json_model(value) is List
            ==> r is None,
        !begins_with(encoded@, "{"@) ==> opt_text(plain) == Some(encoded@),
        begins_with(encoded@, "{"@) ==> plain is None,
{
}

proof fn first_entry_is_there(entries: Seq<JsonModel>)
    ensures
        match first_default_entry(entries) {
            Some(entry) => entries.contains(entry) && text_field(entry, "key"@) == Some(
                "default.audio.sink"@,
            ),
            None => forall|i: int|
                0 <= i < entries.len() ==> text_field(#[trigger] entries[i], "key"@) != Some(
                    "default.audio.sink"@,
                ),
        },
    decreases entries.len(),
{
    if entries.len() > 0 {
        let rest = entries.drop_last();
        first_entry_is_there(rest);
        if first_default_entry(rest) is Some {
            let e = first_default_entry(rest)->0;
            let i = choose|i: int| 0 <= i < rest.len() && rest[i] == e;
            assert(entries[i] == e);
        } else {
            assert(entries[entries.len() - 1] == entries.last());
            assert forall|i: int| 0 <= i < entries.len() && !is_default_entry(entries.last()) implies text_field(
                #[trigger] entries[i],
                "key"@,
            ) != Some("default.audio.sink"@) by {
                if i < rest.len() {
                    assert(rest[i] == entries[i]);
                }
            }
        }
    }
}

proof fn default_entry_is_there(objects: Seq<JsonModel>)
    ensures
        match default_entry(objects) {
            Some(entry) => exists|k: int|
                0 <= k < objects.len() && default_metadata(#[trigger] objects[k]).contains(entry)
                    && text_field(entry, "key"@) == Some("default.audio.sink"@),
            None => forall|k: int|
                0 <= k < objects.len() ==> first_default_entry(
                    default_metadata(#[trigger] objects[k]),
                ) is None,
        },
    decreases objects.len(),
{
    if objects.len() > 0 {
        let rest = objects.drop_last();
        default_entry_is_there(rest);
        first_entry_is_there(default_metadata(objects.last()));
        assert(objects[objects.len() - 1] == objects.last());
        if default_entry(rest) is Some {
            let e = default_entry(rest)->0;
            let k = choose|k: int|
                0 <= k < rest.len() && default_metadata(#[trigger] rest[k]).contains(e)
                    && text_field(e, "key"@) == Some("default.audio.sink"@);
            assert(objects[k] == rest[k]);
        } else {
            assert forall|k: int|
                0 <= k < objects.len() && default_entry(objects) is None implies first_default_entry(
                default_metadata(#[trigger] objects[k]),
            ) is None by {
                if k < rest.len() {
                    assert(rest[k] == objects[k]);
                }
            }
        }
    }
}

/// The sink in use is the one that an entry `default.audio.sink` of the default metadata names.
pub proof fn default_sink_comes_from_metadata(objects: Vec<serde_json::Value>, r: Option<String>)
    requires
        call_ensures(default_sink_name, (&objects,), r),
        r is Some,
    ensures
        exists|k: int|
            0 <= k < objects@.len() && text_field(json_model(#[trigger] objects@[k]), "type"@)
                == Some("PipeWire:Interface:Metadata"@) && (field(
                json_model(objects@[k]),
                "metadata"@,
            ) matches Some(JsonModel::List(entries)) && exists|j: int|
                0 <= j < entries.len() && text_field(#[trigger] entries[j], "key"@) == Some(
                    "default.audio.sink"@,
                ) && (field(entries[j], "value"@) matches Some(value) && entry_name(value)
                    == opt_text(r))),
{
    let models = json_models(objects@);
    default_entry_is_there(models);
    let entry = default_entry(models)->0;
    let k = choose|k: int|
        0 <= k < models.len() && default_metadata(#[trigger] models[k]).contains(entry)
            && text_field(entry, "key"@) == Some("default.audio.sink"@);
    assert(models[k] == json_model(objects@[k]));
    let entries = default_metadata(models[k]);
    let j = choose|j: int| 0 <= j < entries.len() && entries[j] == entry;
    assert(text_field(entries[j], "key"@) == Some("default.audio.sink"@));
}

/// A dump is read exactly where it is a document that is a list.
pub proof fn dumps_are_lists(snapshot: &str, r: Result<Vec<SinkInfo>, String>)
    requires
        call_ensures(parse_sinks, (snapshot,), r),
    ensures
        (r is Ok) == (json_parsed(snapshot@) matches Ok(JsonModel::List(_))),
        json_parsed(snapshot@) matches Err(reason) ==> (r matches Err(message) && ends_with(
            message@,
            reason,
        )),
{
    if json_parsed(snapshot@) is Err {
        parts_show("invalid pw-dump JSON: "@, json_parsed(snapshot@)->Err_0, Seq::empty());
    }
}

/// A sink with a node name is remembered by that name under `node:`, in lower case, and is also
/// found by its shown name.
pub proof fn sinks_are_remembered_by_their_node(node: NodeModel, key: Seq<char>)
    requires
        words(node.node_name).len() > 0,
        node_persist_keys(node).contains(key),
    ensures
        begins_with(key, "node:"@),
        node_keys(node).contains(key),
        base_key(node.raw_name).len() > 0 ==> node_keys(node).contains(base_key(node.raw_name)),
{
    property_keys_go_by_words("node"@, node.node_name, node.node_name);
    let k = property_key("node"@, node.node_name);
    key_words(node.node_name);
    let value = ascii_lower(squeezed(node.node_name));
    assert(value.len() > 0) by {
        words_are_solid(node.node_name);
        words_of_joined_words(words(node.node_name));
        if squeezed(node.node_name).len() == 0 {
            blank_texts_have_no_words(squeezed(node.node_name));
        }
    }
    reveal_strlit("node");
    reveal_strlit(":");
    reveal_strlit("node:");
    assert(k == Some("node"@ + ":"@ + value));
    assert(node_persist_keys(node)[0] == k->0);
    assert(key == k->0);
    assert(key.subrange(0, 5) =~= "node:"@);
    let first = seq![k->0];
    let legacy = base_key(node.raw_name);
    assert(first[0] == key);
    assert(first.contains(key));
    let all = node_keys(node);
    if legacy.len() > 0 && !first.contains(legacy) {
        assert(all == first.push(legacy));
        assert(all[0] == key && all[1] == legacy);
    }
}

/// The words of a name that say something are all shown, and no separator of technical names is.
pub proof fn telling_words_are_shown(raw: &str, r: String, word: Seq<char>)
    requires
        call_ensures(cleanup_sink_name, (raw,), r),
        words(spaced_name(raw@)).contains(word),
        ascii_lower(word) != "output"@ && ascii_lower(word) != "monitor"@ && ascii_lower(word)
            != "sink"@ && ascii_lower(word) != "pci"@ && ascii_lower(word) != "usb"@ && ascii_lower(
            word,
        ) != "alsa"@ && ascii_lower(word) != "bluez"@,
    ensures
        words(r@).contains(word),
        !spaced_name(raw@).contains('.') && !spaced_name(raw@).contains('_') && !spaced_name(
            raw@,
        ).contains('-'),
{
    let all = words(spaced_name(raw@));
    let kept = telling_words(raw@);
    let p = |word: Seq<char>| !is_filler(word);
    let k = choose|k: int| 0 <= k < all.len() && all[k] == word;
    assert(p(all[k]));
    all.lemma_filter_contains(p, k);
    assert(kept.contains(word));
    words_are_solid(spaced_name(raw@));
    all.filter_lemma(p);
    assert forall|i: int| 0 <= i < kept.len() implies is_word(#[trigger] kept[i]) by {
        all.lemma_filter_contains_rev(p, kept[i]);
        let n = choose|n: int| 0 <= n < all.len() && all[n] == kept[i];
        assert(is_word(all[n]));
    }
    words_of_joined_words(kept);
    let simplified = joined(kept, " "@);
    assert(simplified.len() > 0) by {
        if simplified.len() == 0 {
            blank_texts_have_no_words(simplified);
        }
    }
    let s = spaced_name(raw@);
    assert forall|i: int| 0 <= i < s.len() implies #[trigger] s[i] != '.' && s[i] != '_' && s[i]
        != '-' by {}
}

/// Two sinks with one name are told apart by what stands behind their kinds: the node name, or the
/// number where there is none.
pub proof fn shared_names_are_told_apart(
    nodes: Seq<NodeModel>,
    i: int,
    j: int,
    default_sink: Option<Seq<char>>,
)
    requires
        0 <= i < nodes.len(),
        0 <= j < nodes.len(),
        i != j,
        nodes[i].raw_name == nodes[j].raw_name,
    ensures
        nodes[i].node_name.len() > 0 ==> ends_with(
            listed_sink(nodes, i, default_sink).meta,
            nodes[i].node_name,
        ),
        nodes[i].node_name.len() == 0 ==> ends_with(
            listed_sink(nodes, i, default_sink).meta,
            nodes[i].id,
        ),
{
    assert(clean_name(nodes[j].raw_name) == clean_name(nodes[i].raw_name));
    assert(name_is_shared(nodes, i));
    let kind = kind_text(kind_of(nodes[i].raw_name + " "@ + nodes[i].node_name));
    parts_show(kind, " · "@, nodes[i].node_name);
    parts_show(kind, " · "@, nodes[i].id);
}

/// The metadata in which the sink in use is named is the default one; that of another name does not
/// count.
pub proof fn other_metadata_does_not_count(object: JsonModel, props: JsonModel, name: Seq<char>)
    requires
        field(object, "props"@) == Some(props),
        text_field(props, "metadata.name"@) == Some(name),
        trimmed(name).len() > 0,
    ensures
        trimmed(name) != "default"@ ==> default_metadata(object).len() == 0,
        trimmed(name) == "default"@ && text_field(object, "type"@) == Some(
            "PipeWire:Interface:Metadata"@,
        ) ==> (field(object, "metadata"@) matches Some(JsonModel::List(entries))
            ==> default_metadata(object) == entries),
{
}

/// A sink without a description of its own is called by its nickname, else by the description of
/// its device, else by its node name.
pub proof fn sinks_are_called_by_what_is_known(props: JsonModel, device: Seq<char>, node: Seq<char>)
    requires
        text_field(props, "node.description"@) is None,
        text_field(props, "node.nick"@) is None,
        text_field(props, "node.name"@) == Some(node),
        trimmed(node).len() > 0,
    ensures
        text_field(props, "device.description"@) == Some(device) && trimmed(device).len() > 0
            ==> shown_name(props) == Some(trimmed(device)),
        text_field(props, "device.description"@) is None ==> shown_name(props) == Some(
            trimmed(node),
        ),
{
}

/// What `wpctl` printed is refused where it does not begin as a report of the volume or has none.
pub proof fn other_reports_are_refused(output: &str, r: Result<(String, bool), String>)
    requires
        call_ensures(volume_fields, (output,), r),
    ensures
        (r is Ok) == (words(output@).len() >= 2 && words(output@)[0] == "Volume:"@),
        r matches Err(message) ==> ends_with(message@, output@),
        words(output@).len() == 1 && words(output@)[0] == "Volume:"@ ==> (r matches Err(message)
            && begins_with(message@, "missing wpctl volume value: "@)),
{
    parts_show("unexpected wpctl volume output: "@, output@, Seq::empty());
    parts_show("missing wpctl volume value: "@, output@, Seq::empty());
}

/// A word stands by itself in a name where no letter or digit touches it, and not inside another
/// word.
pub proof fn tokens_stand_by_themselves(
    value: &str,
    token: &str,
    r: bool,
    front: Seq<char>,
    c: char,
)
    requires
        call_ensures(has_token, (value, token), r),
        token@.len() > 0,
        forall|k: int| 0 <= k < token@.len() ==> is_alphanumeric(#[trigger] token@[k]),
    ensures
        value@ == token@ ==> r,
        value@ == front.push(c) + token@ && !is_alphanumeric(c) ==> r,
        value@ == seq![c] + token@ && is_alphanumeric(c) ==> !r,
        r ==> has_text(value@, token@),
{
    let (v, t) = (value@, token@);
    if v == t {
        assert(v.subrange(0, t.len() as int) =~= t);
        assert(token_at(v, t, 0));
    }
    if v == front.push(c) + t && !is_alphanumeric(c) {
        let i = front.len() as int + 1;
        assert(v.subrange(i, i + t.len()) =~= t);
        assert(v[i - 1] == c);
        assert(token_at(v, t, i));
    }
    if r {
        let i = choose|i: int| token_at(v, t, i);
        assert(occurs_at(v, t, i));
        if v == seq![c] + t && is_alphanumeric(c) {
            assert(i == 0 || i == 1);
            assert(v[0] == c);
            if i == 0 {
                assert(v[t.len() as int] == t[t.len() - 1]);
            }
        }
    }
}

/// Metadata that is a plain text names the sink by it, unless it looks like a document that cannot
/// be read; a document names the sink in its member.
pub proof fn plain_metadata_is_the_name(
    value: serde_json::Value,
    text: Seq<char>,
    r: Option<String>,
    document: JsonModel,
)
    requires
        call_ensures(metadata_node_name, (&value,), r),
        json_model(value) == JsonModel::Text(text),
    ensures
        trimmed(text).len() == 0 ==> r is None,
        trimmed(text).len() > 0 && json_parsed(trimmed(text)) is Err ==> opt_text(r) == (if trimmed(
            text,
        )[0] == '{' {
            None
        } else {
            Some(trimmed(text))
        }),
        trimmed(text).len() > 0 && reads_as(trimmed(text), document) && text_field(
            document,
            "name"@,
        ) is None ==> r is None,
{
    let t = trimmed(text);
    reveal_strlit("{");
    assert("{"@.len() == 1 && "{"@[0] == '{');
    if t.len() > 0 {
        assert(t.subrange(0, 1).len() == 1 && t.subrange(0, 1)[0] == t[0]);
        if t[0] == '{' {
            assert(t.subrange(0, 1) =~= "{"@);
            assert(begins_with(t, "{"@));
        } else {
            assert(!begins_with(t, "{"@));
        }
    }
}

} // verus!
