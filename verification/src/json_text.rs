//! JSON text, read and written by serde_json.
//!
//! serde_json does the parsing and printing; this module states what its calls
//! do and moves values between its types and [`Json`].
use crate::json::{
    Json, JsonTree, entries_tree, items_tree, number_as_integer, number_integer, number_tree,
};
use vstd::prelude::*;

verus! {

/// A value of serde_json.
#[verifier::external_type_specification]
#[verifier::external_body]
pub struct ExValue(serde_json::Value);

/// An object of serde_json, under construction or taken apart.
#[verifier::external_type_specification]
#[verifier::external_body]
#[verifier::reject_recursive_types(K)]
#[verifier::reject_recursive_types(V)]
pub struct ExObject<K, V>(serde_json::Map<K, V>);

/// The reason why serde_json refused a text.
#[verifier::external_type_specification]
#[verifier::external_body]
pub struct ExError(serde_json::Error);

/// What a value of serde_json holds.
pub uninterp spec fn value_tree(value: serde_json::Value) -> JsonTree;

/// The members of an object of serde_json.
pub uninterp spec fn object_tree(object: serde_json::Map<String, serde_json::Value>) -> Map<
    Seq<char>,
    JsonTree,
>;

/// The value that serde_json reads from a text, if it accepts it.
pub uninterp spec fn json_parse(text: Seq<char>) -> Option<JsonTree>;

/// The compact text that serde_json writes for a value.
pub uninterp spec fn json_text(tree: JsonTree) -> Seq<char>;

/// How many arrays and objects inside each other serde_json reads.
pub const MAX_DEPTH: u8 = 127;

/// Whether a value holds no floats, and at most `levels` arrays and objects
/// inside each other.
pub open spec fn readable(tree: JsonTree, levels: nat) -> bool
    decreases levels,
{
    match tree {
        JsonTree::Real(_) => false,
        JsonTree::Array(items) => levels > 0 && forall|i: int|
            0 <= i < items.len() ==> readable(#[trigger] items[i], (levels - 1) as nat),
        JsonTree::Object(members) => levels > 0 && forall|name: Seq<char>|
            members.contains_key(name) ==> readable(
                #[trigger] members[name],
                (levels - 1) as nat,
            ),
        _ => true,
    }
}

/// What is readable within some levels is within more.
pub proof fn lemma_readable_deeper(tree: JsonTree, few: nat, many: nat)
    requires
        readable(tree, few),
        few <= many,
    ensures
        readable(tree, many),
    decreases few,
{
    match tree {
        JsonTree::Array(items) => {
            assert forall|i: int| 0 <= i < items.len() implies readable(
                #[trigger] items[i],
                (many - 1) as nat,
            ) by {
                lemma_readable_deeper(items[i], (few - 1) as nat, (many - 1) as nat);
            }
        },
        JsonTree::Object(members) => {
            assert forall|name: Seq<char>| members.contains_key(name) implies readable(
                #[trigger] members[name],
                (many - 1) as nat,
            ) by {
                lemma_readable_deeper(members[name], (few - 1) as nat, (many - 1) as nat);
            }
        },
        _ => {},
    }
}

/// One level of a value of serde_json.
pub enum ValueParts {
    Null,
    Bool(bool),
    Number(serde_json::Number),
    Text(String),
    Array(Vec<serde_json::Value>),
    Object(serde_json::Map<String, serde_json::Value>),
}

/// What each of several values of serde_json holds.
pub open spec fn values_tree(values: Seq<serde_json::Value>) -> Seq<JsonTree> {
    Seq::new(values.len(), |i: int| value_tree(values[i]))
}

/// What the parts of a value hold.
pub open spec fn parts_tree(parts: ValueParts) -> JsonTree {
    match parts {
        ValueParts::Null => JsonTree::Null,
        ValueParts::Bool(b) => JsonTree::Bool(b),
        ValueParts::Number(n) => number_tree(n),
        ValueParts::Text(s) => JsonTree::Text(s@),
        ValueParts::Array(items) => JsonTree::Array(values_tree(items@)),
        ValueParts::Object(object) => JsonTree::Object(object_tree(object)),
    }
}

/// `serde_json::from_str`, reading a whole text as one value: the value is
/// determined by the text, and so is whether there is one.
#[verifier::external_body]
fn value_from_str(text: &str) -> (value: Result<serde_json::Value, serde_json::Error>)
    ensures
        match value {
            Ok(v) => json_parse(text@) == Some(value_tree(v)),
            Err(_) => json_parse(text@) is None,
        },
{
    serde_json::from_str::<serde_json::Value>(text)
}

/// `Value::to_string`, through the `Display` of `serde_json::Value`: compact
/// text that is determined by what the value holds. `serde_json::from_str` reads
/// the value back from it, unless the value is nested too deeply or holds a
/// float; of those, which may come back with another last digit, nothing is
/// said.
#[verifier::external_body]
fn value_to_string(value: &serde_json::Value) -> (text: String)
    ensures
        text@ == json_text(value_tree(*value)),
        readable(value_tree(*value), MAX_DEPTH as nat) ==> json_parse(text@) == Some(
            value_tree(*value),
        ),
{
    value.to_string()
}

/// Tells the variants of `serde_json::Value` apart; each hands over its
/// content.
#[verifier::external_body]
fn value_into_parts(value: serde_json::Value) -> (parts: ValueParts)
    ensures
        parts_tree(parts) == value_tree(value),
{
    match value {
        serde_json::Value::Null => ValueParts::Null,
        serde_json::Value::Bool(b) => ValueParts::Bool(b),
        serde_json::Value::Number(n) => ValueParts::Number(n),
        serde_json::Value::String(s) => ValueParts::Text(s),
        serde_json::Value::Array(items) => ValueParts::Array(items),
        serde_json::Value::Object(object) => ValueParts::Object(object),
    }
}

/// Makes the variant of `serde_json::Value` that holds `parts`.
#[verifier::external_body]
fn value_from_parts(parts: ValueParts) -> (value: serde_json::Value)
    ensures
        value_tree(value) == parts_tree(parts),
{
    match parts {
        ValueParts::Null => serde_json::Value::Null,
        ValueParts::Bool(b) => serde_json::Value::Bool(b),
        ValueParts::Number(n) => serde_json::Value::Number(n),
        ValueParts::Text(s) => serde_json::Value::String(s),
        ValueParts::Array(items) => serde_json::Value::Array(items),
        ValueParts::Object(object) => serde_json::Value::Object(object),
    }
}

/// `Number::from_i128`: a number for every integer that fits a `u64` or an
/// `i64`, and for no other.
#[verifier::external_body]
fn number_from_integer(integer: i128) -> (number: Option<serde_json::Number>)
    ensures
        match number {
            Some(n) => i64::MIN <= integer <= u64::MAX && number_integer(n) == Some(integer),
            None => !(i64::MIN <= integer <= u64::MAX),
        },
{
    serde_json::Number::from_i128(integer)
}

/// The members of an empty object.
pub open spec fn no_members() -> Map<Seq<char>, JsonTree> {
    Map::empty()
}

/// `Map::new`: an object without members.
#[verifier::external_body]
fn object_new() -> (object: serde_json::Map<String, serde_json::Value>)
    ensures
        object_tree(object) == no_members(),
{
    serde_json::Map::new()
}

/// `Map::insert`: sets one member and leaves the others alone.
#[verifier::external_body]
fn object_insert(
    object: &mut serde_json::Map<String, serde_json::Value>,
    name: String,
    value: serde_json::Value,
)
    ensures
        object_tree(*final(object)) == object_tree(*old(object)).insert(name@, value_tree(value)),
{
    object.insert(name, value);
}

/// The members in `pairs`, later ones replacing earlier ones.
pub open spec fn pairs_tree(pairs: Seq<(String, serde_json::Value)>) -> Map<Seq<char>, JsonTree>
    decreases pairs.len(),
{
    if pairs.len() == 0 {
        Map::empty()
    } else {
        pairs_tree(pairs.drop_last()).insert(pairs.last().0@, value_tree(pairs.last().1))
    }
}

/// `Map::into_iter`: every member once, under its own name.
#[verifier::external_body]
fn object_into_pairs(object: serde_json::Map<String, serde_json::Value>) -> (pairs: Vec<
    (String, serde_json::Value),
>)
    ensures
        pairs_tree(pairs@) == object_tree(object),
        forall|i: int, j: int| 0 <= i < j < pairs@.len() ==> pairs@[i].0@ != pairs@[j].0@,
{
    object.into_iter().collect()
}

/// Distinct names keep every pair's value in the object.
proof fn lemma_pairs_member(pairs: Seq<(String, serde_json::Value)>, i: int)
    requires
        0 <= i < pairs.len(),
        forall|i: int, j: int| 0 <= i < j < pairs.len() ==> pairs[i].0@ != pairs[j].0@,
    ensures
        pairs_tree(pairs).contains_key(pairs[i].0@),
        pairs_tree(pairs)[pairs[i].0@] == value_tree(pairs[i].1),
    decreases pairs.len(),
{
    if i < pairs.len() - 1 {
        lemma_pairs_member(pairs.drop_last(), i);
    }
}

proof fn lemma_pairs_finite(pairs: Seq<(String, serde_json::Value)>)
    ensures
        pairs_tree(pairs).dom().finite(),
    decreases pairs.len(),
{
    if pairs.len() > 0 {
        lemma_pairs_finite(pairs.drop_last());
    }
}

/// Takes a value of serde_json over.
fn json_of(value: serde_json::Value) -> (json: Json)
    ensures
        json@ == value_tree(value),
    decreases value_tree(value),
{
    match value_into_parts(value) {
        ValueParts::Null => Json::Null,
        ValueParts::Bool(b) => Json::Bool(b),
        ValueParts::Number(n) => {
            match number_as_integer(&n) {
                Some(i) => if i >= 0 {
                    Json::Unsigned(i as u64)
                } else {
                    Json::Signed(i as i64)
                },
                None => Json::Real(n),
            }
        },
        ValueParts::Text(s) => Json::Text(s),
        ValueParts::Array(items) => {
            let ghost all = items@;
            let mut out: Vec<Json> = Vec::new();
            for item in it: items
                invariant
                    it.seq() == all,
                    value_tree(value) == JsonTree::Array(values_tree(all)),
                    items_tree(out@) == values_tree(all).take(it.index()),
            {
                let ghost before = out@;
                let ghost trees = values_tree(all);
                proof {
                    assert(trees[it.index()] == value_tree(item));
                    assert(decreases_to!(value_tree(value) => value_tree(value)->Array_0));
                    assert(decreases_to!(trees => trees[it.index()]));
                    assert(trees.take(it.index() + 1) =~= trees.take(it.index()).push(
                        value_tree(item),
                    ));
                }
                out.push(json_of(item));
                assert(out@.drop_last() =~= before);
            }
            assert(values_tree(all).take(all.len() as int) =~= values_tree(all));
            Json::Array(out)
        },
        ValueParts::Object(object) => {
            let pairs: Vec<(String, serde_json::Value)> = object_into_pairs(object);
            let ghost all = pairs@;
            let mut out: Vec<(String, Json)> = Vec::new();
            for pair in it: pairs
                invariant
                    it.seq() == all,
                    forall|i: int, j: int| 0 <= i < j < all.len() ==> all[i].0@ != all[j].0@,
                    value_tree(value) == JsonTree::Object(pairs_tree(all)),
                    entries_tree(out@) == pairs_tree(all.take(it.index())),
            {
                let ghost before = out@;
                proof {
                    lemma_pairs_member(all, it.index());
                    lemma_pairs_finite(all);
                    let members = pairs_tree(all);
                    assert(decreases_to!(value_tree(value) => value_tree(value)->Object_0));
                    assert(decreases_to!(members => members[pair.0@]));
                    assert(all.take(it.index() + 1).drop_last() =~= all.take(it.index()));
                }
                let json: Json = json_of(pair.1);
                out.push((pair.0, json));
                assert(out@.drop_last() =~= before);
            }
            assert(all.take(all.len() as int) =~= all);
            Json::Object(out)
        },
    }
}

/// Hands a value over to serde_json.
fn value_of(json: Json) -> (value: serde_json::Value)
    ensures
        value_tree(value) == json@,
    decreases json,
{
    match json {
        Json::Null => value_from_parts(ValueParts::Null),
        Json::Bool(b) => value_from_parts(ValueParts::Bool(b)),
        Json::Unsigned(n) => value_of_integer(n as i128),
        Json::Signed(n) => value_of_integer(n as i128),
        Json::Real(n) => value_from_parts(ValueParts::Number(n)),
        Json::Text(s) => value_from_parts(ValueParts::Text(s)),
        Json::Array(items) => {
            let ghost all = items@;
            let mut out: Vec<serde_json::Value> = Vec::new();
            for item in it: items
                invariant
                    it.seq() == all,
                    json == Json::Array(items),
                    items@ == all,
                    out@.len() == it.index(),
                    values_tree(out@) == items_tree(all.take(it.index())),
            {
                let ghost before = out@;
                assert(decreases_to!(json => json->Array_0));
                assert(decreases_to!(items => items@));
                assert(decreases_to!(items@ => items@[it.index()]));
                assert(all.take(it.index() + 1).drop_last() =~= all.take(it.index()));
                out.push(value_of(item));
                assert(values_tree(out@) =~= values_tree(before).push(value_tree(out@.last())));
            }
            assert(all.take(all.len() as int) =~= all);
            value_from_parts(ValueParts::Array(out))
        },
        Json::Object(entries) => {
            let ghost all = entries@;
            let mut out = object_new();
            for entry in it: entries
                invariant
                    it.seq() == all,
                    json == Json::Object(entries),
                    entries@ == all,
                    object_tree(out) == entries_tree(all.take(it.index())),
            {
                assert(all.take(it.index() + 1).drop_last() =~= all.take(it.index()));
                assert(decreases_to!(json => json->Object_0));
                assert(decreases_to!(entries => entries@));
                assert(decreases_to!(entries@ => entries@[it.index()]));
                assert(decreases_to!(entry => entry.1));
                let value = value_of(entry.1);
                object_insert(&mut out, entry.0, value);
            }
            assert(all.take(all.len() as int) =~= all);
            value_from_parts(ValueParts::Object(out))
        },
    }
}

/// Hands a 64-bit integer over to serde_json.
fn value_of_integer(integer: i128) -> (value: serde_json::Value)
    requires
        i64::MIN <= integer <= u64::MAX,
    ensures
        value_tree(value) == JsonTree::Integer(integer as int),
{
    match number_from_integer(integer) {
        Some(n) => value_from_parts(ValueParts::Number(n)),
        None => value_from_parts(ValueParts::Null),
    }
}

/// Reads a text as one JSON value; `None` if it is none.
pub fn parse_json(text: &str) -> (json: Option<Json>)
    ensures
        match json {
            Some(j) => json_parse(text@) == Some(j@),
            None => json_parse(text@) is None,
        },
{
    match value_from_str(text) {
        Ok(value) => Some(json_of(value)),
        Err(_) => None,
    }
}

/// Writes a JSON value as compact text, from which it can be read back.
pub fn print_json(json: Json) -> (text: String)
    ensures
        text@ == json_text(json@),
        readable(json@, MAX_DEPTH as nat) ==> json_parse(text@) == Some(json@),
{
    let value = value_of(json);
    value_to_string(&value)
}

/// Reading undoes writing: a value without floats that is not nested too deeply
/// comes back from its text as it was.
pub proof fn law_written_values_are_read_back(
    json: Json,
    text: String,
    read: &str,
    again: Option<Json>,
)
    requires
        call_ensures(print_json, (json,), text),
        read@ == text@,
        call_ensures(parse_json, (read,), again),
        readable(json@, 127),
    ensures
        again matches Some(value) && value@ == json@,
{
}

/// A text is read as the value it spells, and as none if it spells none; equal
/// values are written alike.
pub proof fn law_reading_and_writing(
    text: &str,
    value: Option<Json>,
    a: Json,
    b: Json,
    written: String,
    other: String,
)
    requires
        call_ensures(parse_json, (text,), value),
        call_ensures(print_json, (a,), written),
        call_ensures(print_json, (b,), other),
    ensures
        value is Some <==> json_parse(text@) is Some,
        value matches Some(json) ==> json_parse(text@) == Some(json@),
        written@ == json_text(a@),
        a@ == b@ ==> written@ == other@,
{
}

} // verus!
