//! Reading the few fields of a JSON request body that routing depends on.
//! `serde_json` holds the body; its contents are described by
//! [`JsonTree`], the library's own model of a JSON value.

use vstd::prelude::*;

use crate::diagnostics::capture::JsonTree;
use vstd::utf8::encode_utf8;

verus! {

/// The members of the JSON object `serde_json::from_slice` reads from the
/// bytes, or `None` where the bytes are not exactly one JSON object.
pub uninterp spec fn json_object_from_bytes(bytes: Seq<u8>) -> Option<Seq<(Seq<char>, JsonTree)>>;

/// The members of a JSON object, in the order `serde_json` walks them.
pub uninterp spec fn json_object_entries(object: serde_json::Map<String, serde_json::Value>) -> Seq<(Seq<char>, JsonTree)>;

/// The bytes `serde_json::to_vec` writes for a JSON object.
pub uninterp spec fn json_object_bytes(object: serde_json::Map<String, serde_json::Value>) -> Seq<u8>;

/// A JSON value as a tree.
pub uninterp spec fn json_value_tree(value: serde_json::Value) -> JsonTree;

/// The bytes `serde_json::to_vec` writes for a JSON value with this tree.
pub uninterp spec fn json_tree_bytes(tree: JsonTree) -> Seq<u8>;

/// The tree of the JSON value `serde_json::from_slice` reads from the bytes,
/// or `None` where the bytes are not exactly one JSON value.
pub uninterp spec fn json_value_from_bytes(bytes: Seq<u8>) -> Option<JsonTree>;

/// The value of the first member named `key`.
pub open spec fn json_member(entries: Seq<(Seq<char>, JsonTree)>, key: Seq<char>) -> Option<JsonTree>
    decreases entries.len(),
{
    if entries.len() == 0 {
        None
    } else if entries[0].0 == key {
        Some(entries[0].1)
    } else {
        json_member(entries.drop_first(), key)
    }
}

/// The members of a tree's object, with their names as text.
pub open spec fn tree_entries(members: Seq<(String, JsonTree)>) -> Seq<(Seq<char>, JsonTree)> {
    members.map_values(|m: (String, JsonTree)| (m.0@, m.1))
}

/// The text of the first member named `key`, where it is a string.
pub open spec fn json_member_text(entries: Seq<(Seq<char>, JsonTree)>, key: Seq<char>) -> Option<Seq<char>> {
    match json_member(entries, key) {
        Some(JsonTree::Text(s)) => Some(s@),
        _ => None,
    }
}

/// The members of the first member named `key`, where it is an object.
pub open spec fn json_member_object(entries: Seq<(Seq<char>, JsonTree)>, key: Seq<char>) -> Option<
    Seq<(Seq<char>, JsonTree)>,
> {
    match json_member(entries, key) {
        Some(JsonTree::Object(members)) => Some(tree_entries(members@)),
        _ => None,
    }
}

/// A tree holds, at any depth, an object whose `type` member is the text
/// `expected`.
pub open spec fn tree_contains_type(t: JsonTree, expected: Seq<char>) -> bool
    decreases t, 0int,
{
    match t {
        JsonTree::Array(items) => {
            proof {
                assert(decreases_to!(t => t->Array_0));
            }
            items_contain_type(items@, expected, items@.len() as int)
        },
        JsonTree::Object(members) => {
            proof {
                assert(decreases_to!(t => t->Object_0));
            }
            json_member_text(tree_entries(members@), "type"@) == Some(expected) || members_contain_type(
                members@,
                expected,
                members@.len() as int,
            )
        },
        _ => false,
    }
}

/// One of the first `n` items holds the type at any depth.
pub open spec fn items_contain_type(items: Seq<JsonTree>, expected: Seq<char>, n: int) -> bool
    decreases items, n,
{
    if n <= 0 || n > items.len() {
        false
    } else {
        items_contain_type(items, expected, n - 1) || tree_contains_type(items[n - 1], expected)
    }
}

/// One of the first `n` member values holds the type at any depth.
pub open spec fn members_contain_type(members: Seq<(String, JsonTree)>, expected: Seq<char>, n: int) -> bool
    decreases members, n,
{
    if n <= 0 || n > members.len() {
        false
    } else {
        members_contain_type(members, expected, n - 1) || tree_contains_type(members[n - 1].1, expected)
    }
}

proof fn lemma_items_contain_grows(items: Seq<JsonTree>, expected: Seq<char>, a: int, b: int)
    requires
        0 <= a <= b <= items.len(),
        items_contain_type(items, expected, a),
    ensures
        items_contain_type(items, expected, b),
    decreases b - a,
{
    if a < b {
        lemma_items_contain_grows(items, expected, a, b - 1);
    }
}

proof fn lemma_members_contain_grows(members: Seq<(String, JsonTree)>, expected: Seq<char>, a: int, b: int)
    requires
        0 <= a <= b <= members.len(),
        members_contain_type(members, expected, a),
    ensures
        members_contain_type(members, expected, b),
    decreases b - a,
{
    if a < b {
        lemma_members_contain_grows(members, expected, a, b - 1);
    }
}

/// `serde_json::from_slice` into a JSON object: the object, or `None` where
/// the bytes are not exactly one JSON object.
#[verifier::external_body]
pub(crate) fn json_object_from_slice(body: &[u8]) -> (r: Option<serde_json::Map<String, serde_json::Value>>)
    ensures
        r is Some <==> json_object_from_bytes(body@) is Some,
        r matches Some(m) ==> json_object_from_bytes(body@) == Some(json_object_entries(m)),
{
    serde_json::from_slice::<serde_json::Map<String, serde_json::Value>>(body).ok()
}

/// `serde_json::from_slice` into any JSON value: the value, or `None` where
/// the bytes are not exactly one JSON value.
#[verifier::external_body]
pub fn json_value_from_slice(bytes: &[u8]) -> (r: Option<serde_json::Value>)
    ensures
        r is Some <==> json_value_from_bytes(bytes@) is Some,
        r matches Some(v) ==> json_value_from_bytes(bytes@) == Some(json_value_tree(v)),
{
    serde_json::from_slice::<serde_json::Value>(bytes).ok()
}

/// `serde_json::to_vec` of any JSON value: its bytes, or `None` where the
/// encoder reports an error.
#[verifier::external_body]
pub(crate) fn json_value_to_vec(value: &serde_json::Value) -> (r: Option<Vec<u8>>)
    ensures
        r matches Some(b) ==> b@ == json_tree_bytes(json_value_tree(*value)),
{
    serde_json::to_vec(value).ok()
}

/// `serde_json::Map::insert`: the member named `key` now holds `value`; the
/// other members are unchanged.
#[verifier::external_body]
pub(crate) fn json_insert(object: &mut serde_json::Map<String, serde_json::Value>, key: &str, value: serde_json::Value)
    ensures
        forall|k: Seq<char>|
            #[trigger] json_member(json_object_entries(*final(object)), k) == if k == key@ {
                Some(json_value_tree(value))
            } else {
                json_member(json_object_entries(*old(object)), k)
            },
{
    object.insert(key.to_string(), value);
}

/// `serde_json::Value::Object`: the object as a JSON value.
#[verifier::external_body]
pub(crate) fn json_object_value(object: serde_json::Map<String, serde_json::Value>) -> (r: serde_json::Value)
    ensures
        (match json_value_tree(r) {
            JsonTree::Object(members) => tree_entries(members@) == json_object_entries(object),
            _ => false,
        }),
{
    serde_json::Value::Object(object)
}

/// `serde_json::Value::Bool`.
#[verifier::external_body]
pub(crate) fn json_bool(b: bool) -> (r: serde_json::Value)
    ensures
        json_value_tree(r) == JsonTree::Bool(b),
{
    serde_json::Value::Bool(b)
}

/// `serde_json::Value::Null`.
#[verifier::external_body]
pub(crate) fn json_null() -> (r: serde_json::Value)
    ensures
        json_value_tree(r) == JsonTree::Null,
{
    serde_json::Value::Null
}

/// `serde_json::Value::String`.
#[verifier::external_body]
pub(crate) fn json_string(text: String) -> (r: serde_json::Value)
    ensures
        (match json_value_tree(r) {
            JsonTree::Text(t) => t@ == text@,
            _ => false,
        }),
{
    serde_json::Value::String(text)
}

/// `serde_json::Value::from` a `u64`: the number, whose JSON text is its
/// shortest decimal rendering.
#[verifier::external_body]
pub(crate) fn json_u64(n: u64) -> (r: serde_json::Value)
    ensures
        (match json_value_tree(r) {
            JsonTree::Number { as_u64, text } => as_u64 == Some(n) && encode_utf8(text@) == crate::text::nat_digits(
                n as nat,
            ),
            _ => false,
        }),
{
    serde_json::Value::from(n)
}

/// `Clone::clone` of a JSON value: the same value.
pub assume_specification[ <serde_json::Value as Clone>::clone ](value: &serde_json::Value) -> (r: serde_json::Value)
    ensures
        json_value_tree(r) == json_value_tree(*value),
;

/// `serde_json::Map::iter`: the members, names and values, in order.
#[verifier::external_body]
pub(crate) fn json_entries<'a>(object: &'a serde_json::Map<String, serde_json::Value>) -> (r: Vec<
    (&'a String, &'a serde_json::Value),
>)
    ensures
        r@.len() == json_object_entries(*object).len(),
        forall|i: int|
            0 <= i < r@.len() ==> (#[trigger] r@[i]).0@ == json_object_entries(*object)[i].0 && json_value_tree(
                *r@[i].1,
            ) == json_object_entries(*object)[i].1,
{
    object.iter().collect()
}

/// `serde_json::Value::as_bool`: the value where it is a boolean.
#[verifier::external_body]
pub(crate) fn json_as_bool(value: &serde_json::Value) -> (r: Option<bool>)
    ensures
        r == (match json_value_tree(*value) {
            JsonTree::Bool(b) => Some(b),
            _ => None,
        }),
{
    value.as_bool()
}

/// `serde_json::Value::as_number` and the number's `to_string`: the JSON
/// text of the value where it is a number.
#[verifier::external_body]
pub(crate) fn json_number_text(value: &serde_json::Value) -> (r: Option<String>)
    ensures
        match json_value_tree(*value) {
            JsonTree::Number { text, .. } => r matches Some(t) && t@ == text@,
            _ => r is None,
        },
{
    value.as_number().map(|n| n.to_string())
}

/// `serde_json::to_vec` of a JSON object: its bytes, or `None` where the
/// encoder reports an error.
#[verifier::external_body]
pub(crate) fn json_object_to_vec(object: &serde_json::Map<String, serde_json::Value>) -> (r: Option<Vec<u8>>)
    ensures
        r matches Some(b) ==> b@ == json_object_bytes(*object),
{
    serde_json::to_vec(object).ok()
}

/// `serde_json::Map::get`: the member named `key`.
#[verifier::external_body]
pub(crate) fn json_get<'a>(object: &'a serde_json::Map<String, serde_json::Value>, key: &str) -> (r: Option<
    &'a serde_json::Value,
>)
    ensures
        match json_member(json_object_entries(*object), key@) {
            Some(t) => r matches Some(v) && json_value_tree(*v) == t,
            None => r is None,
        },
{
    object.get(key)
}

/// `serde_json::Map::values`: the member values, in order.
#[verifier::external_body]
pub(crate) fn json_values<'a>(object: &'a serde_json::Map<String, serde_json::Value>) -> (r: Vec<
    &'a serde_json::Value,
>)
    ensures
        r@.len() == json_object_entries(*object).len(),
        forall|i: int| 0 <= i < r@.len() ==> json_value_tree(*#[trigger] r@[i]) == json_object_entries(*object)[i].1,
{
    object.values().collect()
}

/// `serde_json::Value::as_u64`: the value where it is a non-negative
/// integer.
#[verifier::external_body]
pub(crate) fn json_as_u64(value: &serde_json::Value) -> (r: Option<u64>)
    ensures
        r == (match json_value_tree(*value) {
            JsonTree::Number { as_u64, .. } => as_u64,
            _ => None,
        }),
{
    value.as_u64()
}

/// `serde_json::Value::as_str`: the text where the value is a string.
#[verifier::external_body]
pub(crate) fn json_as_str(value: &serde_json::Value) -> (r: Option<&str>)
    ensures
        match json_value_tree(*value) {
            JsonTree::Text(s) => r matches Some(x) && x@ == s@,
            _ => r is None,
        },
{
    value.as_str()
}

/// `serde_json::Value::as_array`: the items where the value is an array.
#[verifier::external_body]
pub(crate) fn json_as_array<'a>(value: &'a serde_json::Value) -> (r: Option<Vec<&'a serde_json::Value>>)
    ensures
        match json_value_tree(*value) {
            JsonTree::Array(items) => r matches Some(vs) && vs@.len() == items@.len() && forall|i: int|
                0 <= i < vs@.len() ==> json_value_tree(*#[trigger] vs@[i]) == items@[i],
            _ => r is None,
        },
{
    value.as_array().map(|items| items.iter().collect())
}

/// `serde_json::Value::as_object`: the members where the value is an
/// object.
#[verifier::external_body]
pub(crate) fn json_as_object(value: &serde_json::Value) -> (r: Option<&serde_json::Map<String, serde_json::Value>>)
    ensures
        match json_value_tree(*value) {
            JsonTree::Object(members) => r matches Some(m) && json_object_entries(*m) == tree_entries(members@),
            _ => r is None,
        },
{
    value.as_object()
}

/// Whether a JSON value holds, at any depth, an object whose `type` member
/// is `expected`.
pub fn contains_type(value: &serde_json::Value, expected: &str) -> (r: bool)
    ensures
        r == tree_contains_type(json_value_tree(*value), expected@),
    decreases json_value_tree(*value),
{
    let ghost t = json_value_tree(*value);
    if let Some(items) = json_as_array(value) {
        let ghost its = t->Array_0;
        let mut i: usize = 0;
        while i < items.len()
            invariant
                t == json_value_tree(*value),
                t == JsonTree::Array(its),
                items@.len() == its@.len(),
                forall|k: int| 0 <= k < items@.len() ==> json_value_tree(*#[trigger] items@[k]) == its@[k],
                i <= items@.len(),
                !items_contain_type(its@, expected@, i as int),
            decreases items@.len() - i,
        {
            proof {
                assert(decreases_to!(t => t->Array_0));
                assert(decreases_to!(its => its@));
                assert(decreases_to!(its@ => its@[i as int]));
            }
            if contains_type(items[i], expected) {
                proof {
                    lemma_items_contain_grows(its@, expected@, i + 1, its@.len() as int);
                }
                return true;
            }
            i = i + 1;
        }
        return false;
    }
    match json_as_object(value) {
        Some(object) => {
            let ghost ms = t->Object_0;
            let matches = match json_get(object, "type") {
                Some(kind) => match json_as_str(kind) {
                    Some(text) => crate::text::str_equal(text, expected),
                    None => false,
                },
                None => false,
            };
            if matches {
                return true;
            }
            let values = json_values(object);
            let mut i: usize = 0;
            while i < values.len()
                invariant
                    t == json_value_tree(*value),
                    t == JsonTree::Object(ms),
                    json_object_entries(*object) == tree_entries(ms@),
                    values@.len() == ms@.len(),
                    forall|k: int| 0 <= k < values@.len() ==> json_value_tree(*#[trigger] values@[k]) == tree_entries(ms@)[k].1,
                    i <= values@.len(),
                    json_member_text(tree_entries(ms@), "type"@) != Some(expected@),
                    !members_contain_type(ms@, expected@, i as int),
                decreases values@.len() - i,
            {
                proof {
                    assert(tree_entries(ms@)[i as int].1 == ms@[i as int].1);
                    assert(decreases_to!(t => t->Object_0));
                    assert(decreases_to!(ms => ms@));
                    assert(decreases_to!(ms@ => ms@[i as int]));
                    assert(decreases_to!(ms@[i as int] => ms@[i as int].1));
                }
                if contains_type(values[i], expected) {
                    proof {
                        lemma_members_contain_grows(ms@, expected@, i + 1, ms@.len() as int);
                    }
                    return true;
                }
                i = i + 1;
            }
            false
        },
        None => false,
    }
}

} // verus!
