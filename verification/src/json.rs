//! JSON documents as the `serde_json` crate reads them.
use crate::text::{opt_str, result_text, texts};
use vstd::prelude::*;

verus! {

/// A JSON value.
#[verifier::external_type_specification]
#[verifier::external_body]
pub struct ExValue(serde_json::Value);

/// What a JSON value holds.
pub enum JsonModel {
    Null,
    Bool(bool),
    /// A number that is an integer from 0 to `u64::MAX`.
    Unsigned(u64),
    /// Any other number.
    OtherNumber,
    Text(Seq<char>),
    List(Seq<JsonModel>),
    Object(Map<Seq<char>, JsonModel>),
}

/// What a value of `serde_json` holds.
pub uninterp spec fn json_model(value: serde_json::Value) -> JsonModel;

/// What `serde_json` reads out of a text: the document, or its message on why there is none.
pub uninterp spec fn json_parsed(text: Seq<char>) -> Result<JsonModel, Seq<char>>;

/// Whether `serde_json` reads the document `model` out of a text.
pub open spec fn reads_as(text: Seq<char>, model: JsonModel) -> bool {
    json_parsed(text) == Ok::<JsonModel, Seq<char>>(model)
}

/// The member `key` of an object.
pub open spec fn field(value: JsonModel, key: Seq<char>) -> Option<JsonModel> {
    match value {
        JsonModel::Object(members) => if members.dom().contains(key) {
            Some(members[key])
        } else {
            None
        },
        _ => None,
    }
}

/// The member `key` of an object where it is a text.
pub open spec fn text_field(value: JsonModel, key: Seq<char>) -> Option<Seq<char>> {
    match field(value, key) {
        Some(JsonModel::Text(text)) => Some(text),
        _ => None,
    }
}

/// What the values of a list hold.
pub open spec fn json_models(values: Seq<serde_json::Value>) -> Seq<JsonModel> {
    values.map_values(|value: serde_json::Value| json_model(value))
}

/// `serde_json::from_str` into a value: the outcome is a function of the text alone. What the
/// document is for a given text is not stated.
#[verifier::external_body]
pub(crate) fn parse_json(text: &str) -> (r: Result<serde_json::Value, String>)
    ensures
        match r {
            Ok(value) => json_parsed(text@) == Ok::<JsonModel, Seq<char>>(json_model(value)),
            Err(message) => json_parsed(text@) == Err::<JsonModel, Seq<char>>(message@),
        },
{
    serde_json::from_str(text).map_err(|error| error.to_string())
}

/// `serde_json::Value::get` with a name: the member of an object, and nothing for another value.
#[verifier::external_body]
pub(crate) fn json_get<'a>(value: &'a serde_json::Value, key: &str) -> (r: Option<
    &'a serde_json::Value,
>)
    ensures
        match r {
            Some(member) => field(json_model(*value), key@) == Some(json_model(*member)),
            None => field(json_model(*value), key@) is None,
        },
{
    value.get(key)
}

/// `serde_json::Value::as_array`: the elements of an array, and nothing for another value.
pub assume_specification[ serde_json::Value::as_array ](value: &serde_json::Value) -> (r: Option<
    &Vec<serde_json::Value>,
>)
    ensures
        match r {
            Some(values) => json_model(*value) == JsonModel::List(json_models(values@)),
            None => !(json_model(*value) is List),
        },
;

/// `serde_json::Value::as_str`: the text of a string, and nothing for another value.
pub assume_specification[ serde_json::Value::as_str ](value: &serde_json::Value) -> (r: Option<
    &str,
>)
    ensures
        match r {
            Some(text) => json_model(*value) == JsonModel::Text(text@),
            None => !(json_model(*value) is Text),
        },
;

/// `serde_json::Value::as_u64`: an integer from 0 to `u64::MAX`, and nothing for another value.
pub assume_specification[ serde_json::Value::as_u64 ](value: &serde_json::Value) -> (r: Option<u64>)
    ensures
        match r {
            Some(n) => json_model(*value) == JsonModel::Unsigned(n),
            None => !(json_model(*value) is Unsigned),
        },
;

/// `serde_json::Value::is_object`: whether the value is an object.
pub assume_specification[ serde_json::Value::is_object ](value: &serde_json::Value) -> (r: bool)
    ensures
        r == (json_model(*value) is Object),
;

/// What `serde_json` writes for a list of texts, or its message on why it wrote nothing.
pub uninterp spec fn json_list_written(list: Seq<Seq<char>>) -> Result<Seq<char>, Seq<char>>;

/// A document that is a list of texts.
pub open spec fn text_list_model(list: Seq<Seq<char>>) -> JsonModel {
    JsonModel::List(list.map_values(|text: Seq<char>| JsonModel::Text(text)))
}

/// `serde_json::to_string` on a list of texts: the outcome is a function of the texts alone, and
/// reading what was written gives the texts back. How the document is spelled is not stated.
#[verifier::external_body]
pub(crate) fn write_json_list(list: &Vec<String>) -> (r: Result<String, String>)
    ensures
        result_text(r) == json_list_written(texts(list@)),
        r matches Ok(written) ==> reads_as(written@, text_list_model(texts(list@))),
{
    serde_json::to_string(list).map_err(|error| error.to_string())
}

/// The texts of a document that is a list of texts and nothing else.
pub open spec fn text_list(document: JsonModel) -> Option<Seq<Seq<char>>> {
    match document {
        JsonModel::List(items) => if forall|i: int|
            0 <= i < items.len() ==> (#[trigger] items[i]) is Text {
            Some(items.map_values(|item: JsonModel| item->Text_0))
        } else {
            None
        },
        _ => None,
    }
}

/// Reading a document that is a list of texts gives the texts.
pub proof fn text_list_of_model(list: Seq<Seq<char>>)
    ensures
        text_list(text_list_model(list)) == Some(list),
{
    let items = list.map_values(|text: Seq<char>| JsonModel::Text(text));
    assert(items.map_values(|item: JsonModel| item->Text_0) =~= list);
}

/// Takes the texts of a document that is a list of texts and nothing else.
pub fn json_text_list(document: &serde_json::Value) -> (r: Option<Vec<String>>)
    ensures
        match r {
            Some(list) => text_list(json_model(*document)) == Some(texts(list@)),
            None => text_list(json_model(*document)) is None,
        },
{
    let values = match document.as_array() {
        Some(values) => values,
        None => return None,
    };
    let mut out: Vec<String> = Vec::new();
    let mut i: usize = 0;
    while i < values.len()
        invariant
            json_model(*document) == JsonModel::List(json_models(values@)),
            i <= values@.len(),
            out@.len() == i,
            forall|k: int|
                0 <= k < i ==> #[trigger] json_models(values@)[k] == JsonModel::Text(out@[k]@),
        decreases values@.len() - i,
    {
        assert(json_models(values@)[i as int] == json_model(values@[i as int]));
        match values[i].as_str() {
            Some(text) => out.push(text.to_owned()),
            None => return None,
        }
        i = i + 1;
    }
    proof {
        let items = json_models(values@);
        assert(items.map_values(|item: JsonModel| item->Text_0) =~= texts(out@));
    }
    Some(out)
}

/// The member `key` of an object where it is a text.
pub fn json_text<'a>(value: &'a serde_json::Value, key: &str) -> (r: Option<&'a str>)
    ensures
        opt_str(r) == text_field(json_model(*value), key@),
{
    match json_get(value, key) {
        Some(member) => member.as_str(),
        None => None,
    }
}

/// A list of texts that was written is read back as it was, and a document that holds anything but
/// texts is no list of texts.
pub proof fn written_lists_are_read_back(
    document: serde_json::Value,
    r: Option<Vec<String>>,
    list: Seq<Seq<char>>,
    i: int,
)
    requires
        call_ensures(json_text_list, (&document,), r),
    ensures
        json_model(document) == text_list_model(list) ==> (r matches Some(read) && texts(read@)
            == list),
        !(json_model(document) is List) ==> r is None,
        json_model(document) matches JsonModel::List(items) ==> (0 <= i < items.len() && !(
        items[i] is Text) ==> r is None),
        r matches Some(read) ==> (0 <= i < read@.len() ==> (json_model(
            document,
        ) matches JsonModel::List(items) && items.len() == read@.len() && items[i]
            == JsonModel::Text(read@[i]@))),
{
    if json_model(document) == text_list_model(list) {
        text_list_of_model(list);
    }
    if r is Some && 0 <= i < r->0@.len() {
        let items = json_model(document)->List_0;
        let read = texts(r->0@);
        assert(read[i] == r->0@[i]@);
        let mapped = items.map_values(|item: JsonModel| item->Text_0);
        assert(mapped == read);
        assert(mapped.len() == items.len());
        assert(mapped[i] == items[i]->Text_0);
        assert(items[i] is Text);
    }
}

} // verus!
