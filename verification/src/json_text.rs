//! JSON values as text: what `serde_json` and `serde_yaml` read and write.

use crate::json::{entries_view, items_view, lemma_entries_front, Json, JsonView};
use crate::text::same_text;
use vstd::prelude::*;

verus! {

/// One layer of a `serde_json::Value`.
pub enum Layer {
    Null,
    Bool(bool),
    Number(serde_json::Number),
    Text(String),
    Array(Vec<serde_json::Value>),
    Object(Vec<(String, serde_json::Value)>),
}

/// What a `serde_json::Value` holds.
pub uninterp spec fn value_content(v: serde_json::Value) -> JsonView;

/// What the items of an array hold.
pub open spec fn values_content(values: Seq<serde_json::Value>) -> Seq<JsonView> {
    values.map_values(|v: serde_json::Value| value_content(v))
}

/// What the entries of an object hold.
pub open spec fn fields_content(entries: Seq<(String, serde_json::Value)>) -> Map<
    Seq<char>,
    JsonView,
>
    decreases entries.len(),
{
    if entries.len() == 0 {
        Map::empty()
    } else {
        fields_content(entries.drop_last()).insert(
            entries.last().0@,
            value_content(entries.last().1),
        )
    }
}

/// What a layer holds.
pub open spec fn layer_content(layer: Layer) -> JsonView {
    match layer {
        Layer::Null => JsonView::Null,
        Layer::Bool(b) => JsonView::Bool(b),
        Layer::Number(n) => JsonView::Number(n),
        Layer::Text(s) => JsonView::Text(s@),
        Layer::Array(values) => JsonView::Array(values_content(values@)),
        Layer::Object(entries) => JsonView::Object(fields_content(entries@)),
    }
}

/// No two entries have one key.
pub open spec fn distinct_keys(entries: Seq<(String, serde_json::Value)>) -> bool {
    forall|i: int, j: int|
        0 <= i < j < entries.len() ==> (#[trigger] entries[i]).0@ != (#[trigger] entries[j]).0@
}

/// Takes the outermost layer off a `serde_json::Value`: the variants of that enum one by one, with
/// the entries of its map as a list. The map holds each key once.
#[verifier::external_body]
pub(crate) fn open_value(v: serde_json::Value) -> (r: Layer)
    ensures
        layer_content(r) == value_content(v),
        r matches Layer::Object(entries) ==> distinct_keys(entries@),
{
    match v {
        serde_json::Value::Null => Layer::Null,
        serde_json::Value::Bool(b) => Layer::Bool(b),
        serde_json::Value::Number(n) => Layer::Number(n),
        serde_json::Value::String(s) => Layer::Text(s),
        serde_json::Value::Array(values) => Layer::Array(values),
        serde_json::Value::Object(fields) => Layer::Object(fields.into_iter().collect()),
    }
}

/// Makes a `serde_json::Value` of one layer: the variants of that enum one by one, with its map
/// collected from a list of entries that has each key once.
#[verifier::external_body]
pub(crate) fn close_value(layer: Layer) -> (r: serde_json::Value)
    requires
        layer matches Layer::Object(entries) ==> distinct_keys(entries@),
    ensures
        value_content(r) == layer_content(layer),
{
    match layer {
        Layer::Null => serde_json::Value::Null,
        Layer::Bool(b) => serde_json::Value::Bool(b),
        Layer::Number(n) => serde_json::Value::Number(n),
        Layer::Text(s) => serde_json::Value::String(s),
        Layer::Array(values) => serde_json::Value::Array(values),
        Layer::Object(entries) => serde_json::Value::Object(entries.into_iter().collect()),
    }
}

/// What `serde_json` reads from a text: a value, or the message of the error.
pub uninterp spec fn json_document(text: Seq<char>) -> Result<JsonView, Seq<char>>;

/// What `serde_yaml` reads from a text: a value, or the message of the error.
pub uninterp spec fn yaml_document(text: Seq<char>) -> Result<JsonView, Seq<char>>;

/// What `serde_json` writes of a value, without white space.
pub uninterp spec fn compact_json(v: JsonView) -> Seq<char>;

/// What `serde_json` writes of a value, indented.
pub uninterp spec fn pretty_json(v: JsonView) -> Seq<char>;

/// The JSON number for an unsigned integer, if there is one.
pub uninterp spec fn json_number(n: u128) -> Option<serde_json::Number>;

/// Tells whether a result holds the value, or the message, that `document` gives.
pub open spec fn reads_as(
    r: Result<serde_json::Value, String>,
    document: Result<JsonView, Seq<char>>,
) -> bool {
    match r {
        Ok(v) => document == Ok::<JsonView, Seq<char>>(value_content(v)),
        Err(e) => document == Err::<JsonView, Seq<char>>(e@),
    }
}

/// `serde_json::from_str`: the value that a JSON text stands for, or the message of its error. Both
/// depend on the text alone.
#[verifier::external_body]
fn json_value(text: &str) -> (r: Result<serde_json::Value, String>)
    ensures
        reads_as(r, json_document(text@)),
{
    serde_json::from_str(text).map_err(|e| e.to_string())
}

/// `serde_yaml::from_str` into a `serde_json::Value`: the value that a YAML text stands for, or the
/// message of its error. Both depend on the text alone.
#[verifier::external_body]
fn yaml_value(text: &str) -> (r: Result<serde_json::Value, String>)
    ensures
        reads_as(r, yaml_document(text@)),
{
    serde_yaml::from_str(text).map_err(|e| e.to_string())
}

/// `serde_json::to_string` of a value, which depends on what the value holds alone: objects are
/// written in the order of their keys. Writing a value to memory does not fail.
#[verifier::external_body]
fn compact_value(v: &serde_json::Value) -> (r: String)
    ensures
        r@ == compact_json(value_content(*v)),
{
    serde_json::to_string(v).unwrap_or_default()
}

/// `serde_json::to_string_pretty` of a value, which depends on what the value holds alone.
#[verifier::external_body]
fn pretty_value(v: &serde_json::Value) -> (r: String)
    ensures
        r@ == pretty_json(value_content(*v)),
{
    serde_json::to_string_pretty(v).unwrap_or_default()
}

/// `serde_json::Number::from_u128`: the number for an unsigned integer, which depends on the integer
/// alone. There is one for every integer of 64 bits.
#[verifier::external_body]
fn number_from(n: u128) -> (r: Option<serde_json::Number>)
    ensures
        r == json_number(n),
        n <= u64::MAX ==> r is Some,
{
    serde_json::Number::from_u128(n)
}

/// An unsigned integer as a JSON value; null for one that JSON has no number for.
pub open spec fn count_json(n: u128) -> JsonView {
    match json_number(n) {
        Some(number) => JsonView::Number(number),
        None => JsonView::Null,
    }
}

/// An unsigned integer as a JSON value, which is a number for every integer of 64 bits.
pub fn unsigned(n: u128) -> (r: Json)
    ensures
        r@ == count_json(n),
        n <= u64::MAX ==> r is Number,
{
    match number_from(n) {
        Some(number) => Json::Number(number),
        None => Json::Null,
    }
}

/// Each of some entries with different keys is a field of what they hold.
pub proof fn lemma_fields_hold(entries: Seq<(String, serde_json::Value)>, i: int)
    requires
        distinct_keys(entries),
        0 <= i < entries.len(),
    ensures
        fields_content(entries).dom().finite(),
        fields_content(entries).contains_key(entries[i].0@),
        fields_content(entries)[entries[i].0@] == value_content(entries[i].1),
    decreases entries.len(),
{
    if entries.len() == 1 {
        assert(fields_content(entries.drop_last()) == Map::<Seq<char>, JsonView>::empty());
    } else {
        let shorter = entries.drop_last();
        assert(distinct_keys(shorter)) by {
            assert forall|a: int, b: int| 0 <= a < b < shorter.len() implies (
            #[trigger] shorter[a]).0@ != (#[trigger] shorter[b]).0@ by {
                assert(entries[a].0@ != entries[b].0@);
            }
        }
        if i < entries.len() - 1 {
            assert(entries[i].0@ != entries[entries.len() - 1].0@);
            lemma_fields_hold(shorter, i);
        } else {
            lemma_fields_hold(shorter, 0);
        }
    }
}

proof fn lemma_fields_push(
    entries: Seq<(String, serde_json::Value)>,
    entry: (String, serde_json::Value),
)
    ensures
        fields_content(entries.push(entry)) == fields_content(entries).insert(
            entry.0@,
            value_content(entry.1),
        ),
{
    assert(entries.push(entry).drop_last() == entries);
}

/// Reads a `serde_json::Value` into the library's tree.
pub fn json_of(v: serde_json::Value) -> (r: Json)
    ensures
        r@ == value_content(v),
    decreases value_content(v),
{
    let ghost whole = value_content(v);
    match open_value(v) {
        Layer::Null => Json::Null,
        Layer::Bool(b) => Json::Bool(b),
        Layer::Number(n) => Json::Number(n),
        Layer::Text(s) => Json::Text(s),
        Layer::Array(values) => {
            let mut out: Vec<Json> = Vec::new();
            let ghost all = values@;
            for value in it: values
                invariant
                    it.seq() == all,
                    whole == value_content(v),
                    whole == JsonView::Array(values_content(all)),
                    items_view(out@) == values_content(all.take(it.index() as int)),
            {
                let ghost i = it.index() as int;
                assert(decreases_to!(whole => whole->Array_0));
                assert(decreases_to!(whole->Array_0 => whole->Array_0[i]));
                let item = json_of(value);
                proof {
                    assert(out@.push(item).drop_last() == out@);
                    assert(values_content(all.take(i + 1)) == values_content(all.take(i)).push(
                        item@,
                    ));
                }
                out.push(item);
            }
            assert(all.take(all.len() as int) == all);
            Json::Array(out)
        },
        Layer::Object(entries) => {
            let mut out: Vec<(String, Json)> = Vec::new();
            let ghost all = entries@;
            for entry in it: entries
                invariant
                    it.seq() == all,
                    distinct_keys(all),
                    whole == value_content(v),
                    whole == JsonView::Object(fields_content(all)),
                    entries_view(out@) == fields_content(all.take(it.index() as int)),
            {
                let ghost i = it.index() as int;
                proof {
                    lemma_fields_hold(all, i);
                    assert(decreases_to!(whole => whole->Object_0));
                    assert(decreases_to!(whole->Object_0 => whole->Object_0[all[i].0@]));
                }
                let (key, value) = entry;
                let item = json_of(value);
                proof {
                    assert(out@.push((key, item)).drop_last() == out@);
                    assert(all.take(i + 1) == all.take(i).push(all[i]));
                    lemma_fields_push(all.take(i), all[i]);
                }
                out.push((key, item));
            }
            assert(all.take(all.len() as int) == all);
            Json::Object(out)
        },
    }
}

/// The keys of what some entries hold are those of the entries.
pub proof fn lemma_fields_keys(entries: Seq<(String, serde_json::Value)>, key: Seq<char>)
    ensures
        fields_content(entries).contains_key(key) <==> exists|i: int|
            0 <= i < entries.len() && (#[trigger] entries[i]).0@ == key,
    decreases entries.len(),
{
    if entries.len() > 0 {
        let shorter = entries.drop_last();
        lemma_fields_keys(shorter, key);
        if exists|i: int| 0 <= i < entries.len() && (#[trigger] entries[i]).0@ == key {
            let i = choose|i: int| 0 <= i < entries.len() && (#[trigger] entries[i]).0@ == key;
            if i < entries.len() - 1 {
                assert(shorter[i].0@ == key);
            }
        }
        if exists|i: int| 0 <= i < shorter.len() && (#[trigger] shorter[i]).0@ == key {
            let i = choose|i: int| 0 <= i < shorter.len() && (#[trigger] shorter[i]).0@ == key;
            assert(entries[i].0@ == key);
        }
        if entries.last().0@ == key {
            assert(entries[entries.len() - 1].0@ == key);
        }
    }
}

fn has_key(entries: &Vec<(String, serde_json::Value)>, key: &str) -> (r: bool)
    ensures
        r == fields_content(entries@).contains_key(key@),
{
    proof {
        lemma_fields_keys(entries@, key@);
    }
    for i in 0..entries.len()
        invariant
            fields_content(entries@).contains_key(key@) <==> exists|j: int|
                0 <= j < entries@.len() && (#[trigger] entries@[j]).0@ == key@,
            forall|j: int| 0 <= j < i ==> (#[trigger] entries@[j]).0@ != key@,
    {
        if same_text(entries[i].0.as_str(), key) {
            return true;
        }
    }
    false
}

/// Writes the library's tree as a `serde_json::Value`.
pub fn value_of(j: &Json) -> (r: serde_json::Value)
    ensures
        value_content(r) == j@,
    decreases j,
{
    match j {
        Json::Null => close_value(Layer::Null),
        Json::Bool(b) => close_value(Layer::Bool(*b)),
        Json::Number(n) => close_value(Layer::Number(n.clone())),
        Json::Text(s) => close_value(Layer::Text(s.clone())),
        Json::Array(items) => {
            let mut out: Vec<serde_json::Value> = Vec::new();
            for i in 0..items.len()
                invariant
                    *j == Json::Array(*items),
                    values_content(out@) == items_view(items@.take(i as int)),
            {
                assert(decreases_to!(*j => j->Array_0));
                assert(decreases_to!(*items => items[i as int]));
                let value = value_of(&items[i]);
                proof {
                    assert(items@.take(i + 1).drop_last() == items@.take(i as int));
                    assert(values_content(out@.push(value)) == values_content(out@).push(
                        value_content(value),
                    ));
                }
                out.push(value);
            }
            assert(items@.take(items@.len() as int) == items@);
            close_value(Layer::Array(out))
        },
        Json::Object(entries) => {
            // From the last entry to the first, so that of a key only the last entry is taken.
            let mut out: Vec<(String, serde_json::Value)> = Vec::new();
            let mut i: usize = entries.len();
            assert(entries@.skip(i as int) =~= Seq::empty());
            while i > 0
                invariant
                    *j == Json::Object(*entries),
                    i <= entries@.len(),
                    distinct_keys(out@),
                    fields_content(out@) == entries_view(entries@.skip(i as int)),
                decreases i,
            {
                i = i - 1;
                proof {
                    lemma_entries_front(entries@.skip(i + 1), entries@[i as int]);
                    assert(entries@.skip(i as int) =~= seq![entries@[i as int]] + entries@.skip(
                        i + 1,
                    ));
                }
                if !has_key(&out, entries[i].0.as_str()) {
                    assert(decreases_to!(*j => j->Object_0));
                    assert(decreases_to!(*entries => entries[i as int]));
                    let entry = (entries[i].0.clone(), value_of(&entries[i].1));
                    proof {
                        lemma_fields_keys(out@, entry.0@);
                        lemma_fields_push(out@, entry);
                        assert(distinct_keys(out@.push(entry)));
                    }
                    out.push(entry);
                }
            }
            assert(entries@.skip(0) =~= entries@);
            close_value(Layer::Object(out))
        },
    }
}

/// What a reading of a document gives.
pub open spec fn reading(r: Result<Json, String>) -> Result<JsonView, Seq<char>> {
    match r {
        Ok(j) => Ok(j@),
        Err(e) => Err(e@),
    }
}

/// Reads a JSON text. An error is its message.
pub fn parse_json(text: &str) -> (r: Result<Json, String>)
    ensures
        reading(r) == json_document(text@),
{
    match json_value(text) {
        Ok(v) => Ok(json_of(v)),
        Err(e) => Err(e),
    }
}

/// Reads a YAML text. An error is its message.
pub fn parse_yaml(text: &str) -> (r: Result<Json, String>)
    ensures
        reading(r) == yaml_document(text@),
{
    match yaml_value(text) {
        Ok(v) => Ok(json_of(v)),
        Err(e) => Err(e),
    }
}

/// Writes a value as JSON without white space.
pub fn to_compact(j: &Json) -> (r: String)
    ensures
        r@ == compact_json(j@),
{
    compact_value(&value_of(j))
}

/// Writes a value as indented JSON.
pub fn to_pretty(j: &Json) -> (r: String)
    ensures
        r@ == pretty_json(j@),
{
    pretty_value(&value_of(j))
}

} // verus!
