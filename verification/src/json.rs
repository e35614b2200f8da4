//! JSON values: the tree that the parsers read, and how it comes from text.

use vstd::prelude::*;

use crate::text;

verus! {

/// A JSON value. A number is kept as the `i64` it stands for, where it is one:
/// no reader asks more of a number. An object keeps its fields in a list.
pub enum Json {
    Null,
    Bool(bool),
    Number(Option<i64>),
    Text(String),
    Array(Vec<Json>),
    Object(Vec<(String, Json)>),
}

/// The content of a [`Json`] value.
pub enum JsonView {
    Null,
    Bool(bool),
    Number(Option<i64>),
    Text(Seq<char>),
    Array(Seq<JsonView>),
    Object(Seq<(Seq<char>, JsonView)>),
}

/// What a value holds, its lists read item by item.
pub open spec fn content(json: Json) -> JsonView
    decreases json,
{
    match json {
        Json::Null => JsonView::Null,
        Json::Bool(b) => JsonView::Bool(b),
        Json::Number(n) => JsonView::Number(n),
        Json::Text(s) => JsonView::Text(s@),
        Json::Array(items) => JsonView::Array(
            Seq::new(
                items@.len(),
                |i: int|
                    if 0 <= i < items@.len() {
                        content(items@[i])
                    } else {
                        JsonView::Null
                    },
            ),
        ),
        Json::Object(fields) => JsonView::Object(
            Seq::new(
                fields@.len(),
                |i: int|
                    if 0 <= i < fields@.len() {
                        (fields@[i].0@, content(fields@[i].1))
                    } else {
                        (Seq::empty(), JsonView::Null)
                    },
            ),
        ),
    }
}

impl View for Json {
    type V = JsonView;

    open spec fn view(&self) -> JsonView {
        content(*self)
    }
}

/// The contents of a list of values.
pub open spec fn item_views(items: Seq<Json>) -> Seq<JsonView> {
    items.map_values(|item: Json| item@)
}

/// The contents of a list of fields.
pub open spec fn field_views(fields: Seq<(String, Json)>) -> Seq<(Seq<char>, JsonView)> {
    fields.map_values(|f: (String, Json)| (f.0@, f.1@))
}

/// An array holds what its items hold.
pub proof fn array_view(items: Vec<Json>)
    ensures
        Json::Array(items)@ == JsonView::Array(item_views(items@)),
{
    let whole = Json::Array(items);
    assert(whole@->Array_0 =~= item_views(items@));
}

/// An object holds what its fields hold.
pub proof fn object_view(fields: Vec<(String, Json)>)
    ensures
        Json::Object(fields)@ == JsonView::Object(field_views(fields@)),
{
    let whole = Json::Object(fields);
    assert(whole@->Object_0 =~= field_views(fields@));
}

/// The content of an optional value.
pub open spec fn opt_json_view(value: Option<Json>) -> Option<JsonView> {
    match value {
        Some(value) => Some(value@),
        None => None,
    }
}

/// The content of an optional borrowed value.
pub open spec fn opt_ref_view(value: Option<&Json>) -> Option<JsonView> {
    match value {
        Some(value) => Some(value@),
        None => None,
    }
}

/// The value of the first field named `key`.
pub open spec fn field(fields: Seq<(Seq<char>, JsonView)>, key: Seq<char>) -> Option<JsonView>
    decreases fields.len(),
{
    if fields.len() == 0 {
        None
    } else if fields[0].0 == key {
        Some(fields[0].1)
    } else {
        field(fields.skip(1), key)
    }
}

impl JsonView {
    /// The value of a field; none where this is no object or has no such field.
    pub open spec fn get(self, key: Seq<char>) -> Option<JsonView> {
        match self {
            JsonView::Object(fields) => field(fields, key),
            _ => None,
        }
    }

    /// The value of a field, `null` where there is none.
    pub open spec fn at(self, key: Seq<char>) -> JsonView {
        match self.get(key) {
            Some(value) => value,
            None => JsonView::Null,
        }
    }

    /// The text of a string.
    pub open spec fn as_text(self) -> Option<Seq<char>> {
        match self {
            JsonView::Text(s) => Some(s),
            _ => None,
        }
    }

    /// The value of a number that is an `i64`.
    pub open spec fn as_i64(self) -> Option<i64> {
        match self {
            JsonView::Number(n) => n,
            _ => None,
        }
    }
}

impl Json {
    /// The value of a field.
    pub fn get(&self, key: &str) -> (value: Option<&Json>)
        ensures
            opt_ref_view(value) == self@.get(key@),
    {
        match self {
            Json::Object(fields) => {
                let ghost all = field_views(fields@);
                proof {
                    object_view(*fields);
                }
                let mut i: usize = 0;
                assert(all.skip(0) =~= all);
                while i < fields.len()
                    invariant
                        self@ == JsonView::Object(all),
                        all == field_views(fields@),
                        i <= fields@.len(),
                        field(all, key@) == field(all.skip(i as int), key@),
                    decreases fields@.len() - i,
                {
                    assert(all.skip(i as int).skip(1) =~= all.skip(i + 1));
                    if text::same(&fields[i].0, key) {
                        return Some(&fields[i].1);
                    }
                    i = i + 1;
                }
                None
            },
            _ => None,
        }
    }

    /// A copy of the text of a string.
    pub fn as_text(&self) -> (s: Option<String>)
        ensures
            text::opt_view(s) == self@.as_text(),
    {
        match self {
            Json::Text(s) => Some(s.clone()),
            _ => None,
        }
    }

    /// The value of a number that is an `i64`.
    pub fn as_i64(&self) -> (n: Option<i64>)
        ensures
            n == self@.as_i64(),
    {
        match self {
            Json::Number(n) => *n,
            _ => None,
        }
    }

    /// The text of the field `key`.
    pub fn text_at(&self, key: &str) -> (s: Option<String>)
        ensures
            text::opt_view(s) == self@.at(key@).as_text(),
    {
        match self.get(key) {
            Some(value) => value.as_text(),
            None => None,
        }
    }

    /// The text of the field `inner` of the field `outer`.
    pub fn text_at2(&self, outer: &str, inner: &str) -> (s: Option<String>)
        ensures
            text::opt_view(s) == self@.at(outer@).at(inner@).as_text(),
    {
        match self.get(outer) {
            Some(value) => value.text_at(inner),
            None => None,
        }
    }
}

/// A value of `serde_json`.
#[verifier::external_type_specification]
#[verifier::external_body]
pub struct ExValue(serde_json::Value);

/// What a `serde_json::Value` holds.
pub uninterp spec fn value_json(value: serde_json::Value) -> JsonView;

/// What `serde_json::from_slice` reads out of bytes, none where it fails.
pub uninterp spec fn json_of_bytes(bytes: Seq<u8>) -> Option<JsonView>;

/// A letter.
pub open spec fn is_letter(byte: u8) -> bool {
    65 <= byte <= 90 || 97 <= byte <= 122
}

/// `bytes` start like no JSON value: with a letter that begins none of `null`,
/// `true` and `false`, or with a digit and a letter that is no exponent's `e`.
pub open spec fn starts_no_value(bytes: Seq<u8>) -> bool {
    ||| bytes.len() > 0 && is_letter(bytes[0]) && bytes[0] != 110 && bytes[0] != 116 && bytes[0]
        != 102
    ||| bytes.len() > 1 && 48 <= bytes[0] <= 57 && is_letter(bytes[1]) && bytes[1] != 101
        && bytes[1] != 69
}

/// The JSON value in `bytes`, none where they hold none.
pub open spec fn read_json(bytes: Seq<u8>) -> Option<JsonView> {
    if starts_no_value(bytes) {
        None
    } else {
        json_of_bytes(bytes)
    }
}

/// The top level of a `serde_json::Value`, what lies below it left as it is.
enum JsonNode {
    Null,
    Bool(bool),
    Number(Option<i64>),
    Text(String),
    Array(Vec<serde_json::Value>),
    Object(Vec<(String, serde_json::Value)>),
}

/// What a node holds.
spec fn node_json(node: JsonNode) -> JsonView {
    match node {
        JsonNode::Null => JsonView::Null,
        JsonNode::Bool(b) => JsonView::Bool(b),
        JsonNode::Number(n) => JsonView::Number(n),
        JsonNode::Text(s) => JsonView::Text(s@),
        JsonNode::Array(items) => JsonView::Array(
            items@.map_values(|v: serde_json::Value| value_json(v)),
        ),
        JsonNode::Object(fields) => JsonView::Object(
            fields@.map_values(|f: (String, serde_json::Value)| (f.0@, value_json(f.1))),
        ),
    }
}

/// Opens a `serde_json::Value` at its top level, one variant for each of its
/// own; a number is taken by `serde_json::Number::as_i64`. Trusted: the node
/// holds what the value holds.
#[verifier::external_body]
fn value_node(value: serde_json::Value) -> (node: JsonNode)
    ensures
        node_json(node) == value_json(value),
{
    match value {
        serde_json::Value::Null => JsonNode::Null,
        serde_json::Value::Bool(b) => JsonNode::Bool(b),
        serde_json::Value::Number(n) => JsonNode::Number(n.as_i64()),
        serde_json::Value::String(s) => JsonNode::Text(s),
        serde_json::Value::Array(items) => JsonNode::Array(items),
        serde_json::Value::Object(fields) => JsonNode::Object(fields.into_iter().collect()),
    }
}

/// Calls `serde_json::from_slice` for a `serde_json::Value`. Trusted: whether
/// it succeeds, and what the value then holds, follow from the bytes alone; and
/// it fails on bytes that start with a letter other than `n`, `t` and `f`, or
/// with a digit that a letter other than `e` and `E` follows.
#[verifier::external_body]
fn value_from_slice(bytes: &[u8]) -> (value: Option<serde_json::Value>)
    ensures
        !starts_no_value(bytes@) ==> (match value {
            Some(v) => Some(value_json(v)),
            None => None,
        }) == json_of_bytes(bytes@),
        starts_no_value(bytes@) ==> value is None,
{
    serde_json::from_slice::<serde_json::Value>(bytes).ok()
}

/// The tree that a `serde_json::Value` holds.
pub fn json_from_value(value: serde_json::Value) -> (json: Json)
    ensures
        json@ == value_json(value),
    decreases value_json(value),
{
    match value_node(value) {
        JsonNode::Null => Json::Null,
        JsonNode::Bool(b) => Json::Bool(b),
        JsonNode::Number(n) => Json::Number(n),
        JsonNode::Text(s) => Json::Text(s),
        JsonNode::Array(items) => {
            let ghost given = items@;
            let mut out: Vec<Json> = Vec::new();
            for item in it: items.into_iter()
                invariant
                    it.seq() == given,
                    out@.len() == it.index(),
                    value_json(value) == JsonView::Array(
                        given.map_values(|v: serde_json::Value| value_json(v)),
                    ),
                    forall|k: int|
                        0 <= k < out@.len() ==> (#[trigger] out@[k])@ == value_json(given[k]),
            {
                proof {
                    let views = value_json(value)->Array_0;
                    let k = out@.len() as int;
                    assert(decreases_to!(value_json(value) => views));
                    assert(decreases_to!(views => views[k]));
                    assert(views[k] == value_json(item));
                }
                out.push(json_from_value(item));
            }
            proof {
                array_view(out);
                assert(item_views(out@) =~= given.map_values(|v: serde_json::Value| value_json(v)));
            }
            Json::Array(out)
        },
        JsonNode::Object(fields) => {
            let ghost given = fields@;
            let mut out: Vec<(String, Json)> = Vec::new();
            for f in it: fields.into_iter()
                invariant
                    it.seq() == given,
                    out@.len() == it.index(),
                    value_json(value) == JsonView::Object(
                        given.map_values(
                            |f: (String, serde_json::Value)| (f.0@, value_json(f.1)),
                        ),
                    ),
                    forall|k: int|
                        0 <= k < out@.len() ==> (#[trigger] out@[k]).0@ == given[k].0@
                            && out@[k].1@ == value_json(given[k].1),
            {
                proof {
                    let views = value_json(value)->Object_0;
                    let k = out@.len() as int;
                    assert(decreases_to!(value_json(value) => views));
                    assert(decreases_to!(views => views[k]));
                    assert(views[k].1 == value_json(f.1));
                    assert(decreases_to!(views[k] => views[k].1));
                }
                out.push((f.0, json_from_value(f.1)));
            }
            proof {
                object_view(out);
                assert(field_views(out@) =~= given.map_values(
                    |f: (String, serde_json::Value)| (f.0@, value_json(f.1)),
                ));
            }
            Json::Object(out)
        },
    }
}

/// The JSON value in `bytes`.
pub fn parse_json(bytes: &[u8]) -> (json: Option<Json>)
    ensures
        opt_json_view(json) == read_json(bytes@),
{
    match value_from_slice(bytes) {
        Some(value) => Some(json_from_value(value)),
        None => None,
    }
}

/// A value holds what it is made of.
pub proof fn values_hold_what_they_are(b: bool, n: Option<i64>, s: String)
    ensures
        Json::Null@ == JsonView::Null,
        Json::Bool(b)@ == JsonView::Bool(b),
        Json::Number(n)@ == JsonView::Number(n),
        Json::Text(s)@ == JsonView::Text(s@),
{
}

/// Lists hold their items, one for one and in order.
pub proof fn lists_hold_their_items(items: Vec<Json>, fields: Vec<(String, Json)>)
    ensures
        Json::Array(items)@ is Array,
        (Json::Array(items)@->Array_0).len() == items@.len(),
        forall|i: int|
            0 <= i < items@.len() ==> (#[trigger] (Json::Array(items)@->Array_0)[i]) == items@[i]@,
        Json::Object(fields)@ is Object,
        (Json::Object(fields)@->Object_0).len() == fields@.len(),
        forall|i: int|
            0 <= i < fields@.len() ==> (#[trigger] (Json::Object(fields)@->Object_0)[i]) == (
                fields@[i].0@,
                fields@[i].1@,
            ),
        item_views(items@) == Json::Array(items)@->Array_0,
        field_views(fields@) == Json::Object(fields)@->Object_0,
{
    array_view(items);
    object_view(fields);
}

/// An optional value holds what the value holds.
pub proof fn optional_values_hold_theirs(value: Option<Json>, borrowed: Option<&Json>)
    ensures
        value matches Some(v) ==> opt_json_view(value) == Some(v@),
        value is None ==> opt_json_view(value) is None,
        borrowed matches Some(v) ==> opt_ref_view(borrowed) == Some(v@),
        borrowed is None ==> opt_ref_view(borrowed) is None,
{
}

/// The value of a field is that of the first field with its name.
pub proof fn the_first_field_counts(fields: Seq<(Seq<char>, JsonView)>, key: Seq<char>, i: int)
    requires
        0 <= i < fields.len(),
        fields[i].0 == key,
        forall|j: int| 0 <= j < i ==> (#[trigger] fields[j]).0 != key,
    ensures
        JsonView::Object(fields).get(key) == Some(fields[i].1),
        JsonView::Object(fields).at(key) == fields[i].1,
    decreases i,
{
    if i > 0 {
        let rest = fields.skip(1);
        assert(fields[0].0 != key);
        assert forall|j: int| 0 <= j < i - 1 implies (#[trigger] rest[j]).0 != key by {
            assert(rest[j] == fields[j + 1]);
        }
        assert(rest[i - 1] == fields[i]);
        the_first_field_counts(rest, key, i - 1);
    }
}

/// What is no object, or has no field of that name, gives nothing.
pub proof fn missing_fields_give_nothing(value: JsonView, key: Seq<char>)
    requires
        value matches JsonView::Object(fields) ==> forall|i: int|
            0 <= i < fields.len() ==> (#[trigger] fields[i]).0 != key,
    ensures
        value.get(key) is None,
        value.at(key) == JsonView::Null,
    decreases value,
{
    if let JsonView::Object(fields) = value {
        no_field(fields, key);
    }
}

proof fn no_field(fields: Seq<(Seq<char>, JsonView)>, key: Seq<char>)
    requires
        forall|i: int| 0 <= i < fields.len() ==> (#[trigger] fields[i]).0 != key,
    ensures
        field(fields, key) is None,
    decreases fields.len(),
{
    if fields.len() > 0 {
        assert(fields[0].0 != key);
        let rest = fields.skip(1);
        assert forall|i: int| 0 <= i < rest.len() implies (#[trigger] rest[i]).0 != key by {
            assert(rest[i] == fields[i + 1]);
        }
        no_field(rest, key);
    }
}

/// The value at a name is that of the field, and `null` where there is none.
pub proof fn at_is_the_field_or_null(value: JsonView, key: Seq<char>)
    ensures
        value.get(key) matches Some(v) ==> value.at(key) == v,
        value.get(key) is None ==> value.at(key) == JsonView::Null,
{
}

/// A text is read whole, a number as it is, and nothing else as either.
pub proof fn only_texts_are_text(value: JsonView)
    ensures
        value matches JsonView::Text(s) ==> value.as_text() == Some(s),
        value !is Text ==> value.as_text() is None,
        value matches JsonView::Number(n) ==> value.as_i64() == n,
        value !is Number ==> value.as_i64() is None,
{
}

/// What is read out of bytes is what `serde_json` reads, and nothing only where
/// it reads nothing or the bytes start like no value.
pub proof fn bytes_are_read_by_serde(bytes: Seq<u8>)
    ensures
        starts_no_value(bytes) ==> read_json(bytes) is None,
        !starts_no_value(bytes) ==> read_json(bytes) == json_of_bytes(bytes),
{
}

} // verus!
