//! JSON documents, as far as the endpoint descriptor needs them.
//!
//! `serde_json` parses the text. The parsed value is then copied, node by node, into
//! [`Json`], the plain tree that the descriptor walk works on.

use vstd::prelude::*;
use vstd::string::*;

use crate::text::same_text;

verus! {

/// A JSON value: objects keep their fields in document order.
#[derive(Debug)]
pub enum Json {
    Object(Vec<(String, Json)>),
    Array(Vec<Json>),
    Text(String),
    /// A number that is a `u64`.
    Number(u64),
    /// Every other value: other numbers, booleans and null.
    Other,
}

/// The mathematical content of a JSON value.
pub enum JsonTree {
    Object(Seq<(Seq<char>, JsonTree)>),
    Array(Seq<JsonTree>),
    Text(Seq<char>),
    Number(u64),
    Other,
}

impl Json {
    /// The tree this value stands for.
    pub open spec fn tree(self) -> JsonTree
        decreases self,
    {
        match self {
            Json::Object(fields) => JsonTree::Object(
                Seq::new(
                    fields@.len(),
                    |i: int|
                        if 0 <= i < fields@.len() {
                            (fields@[i].0@, fields@[i].1.tree())
                        } else {
                            arbitrary()
                        },
                ),
            ),
            Json::Array(items) => JsonTree::Array(
                Seq::new(
                    items@.len(),
                    |i: int|
                        if 0 <= i < items@.len() {
                            items@[i].tree()
                        } else {
                            arbitrary()
                        },
                ),
            ),
            Json::Text(s) => JsonTree::Text(s@),
            Json::Number(n) => JsonTree::Number(n),
            Json::Other => JsonTree::Other,
        }
    }
}

/// The value of the field `key`: the first one, if a key stands there twice.
pub open spec fn field(fields: Seq<(Seq<char>, JsonTree)>, key: Seq<char>) -> Option<JsonTree>
    decreases fields.len(),
{
    if fields.len() == 0 {
        None
    } else if fields[0].0 == key {
        Some(fields[0].1)
    } else {
        field(fields.drop_first(), key)
    }
}

/// The text of the field `key`, when there is one and it is a text.
pub open spec fn text_field(fields: Seq<(Seq<char>, JsonTree)>, key: Seq<char>) -> Option<
    Seq<char>,
> {
    match field(fields, key) {
        Some(JsonTree::Text(s)) => Some(s),
        _ => None,
    }
}

/// The number of the field `key`, when there is one and it is a `u64`.
pub open spec fn number_field(fields: Seq<(Seq<char>, JsonTree)>, key: Seq<char>) -> Option<u64> {
    match field(fields, key) {
        Some(JsonTree::Number(n)) => Some(n),
        _ => None,
    }
}

/// Look a field up by its key.
fn find_field<'a>(fields: &'a Vec<(String, Json)>, key: &str) -> (res: Option<&'a Json>)
    ensures
        match res {
            Some(value) => field(Json::Object(*fields).tree()->Object_0, key@) == Some(
                value.tree(),
            ),
            None => field(Json::Object(*fields).tree()->Object_0, key@) is None,
        },
{
    let ghost tree = Json::Object(*fields).tree()->Object_0;
    let mut i: usize = 0;
    assert(tree.skip(0) =~= tree);
    while i < fields.len()
        invariant
            i <= fields@.len(),
            tree == Json::Object(*fields).tree()->Object_0,
            tree.len() == fields@.len(),
            field(tree, key@) == field(tree.skip(i as int), key@),
        decreases fields@.len() - i,
    {
        assert(tree[i as int] == (fields@[i as int].0@, fields@[i as int].1.tree()));
        assert(tree.skip(i as int)[0] == tree[i as int]);
        assert(tree.skip(i as int).drop_first() =~= tree.skip(i + 1));
        if same_text(fields[i].0.as_str(), key) {
            return Some(&fields[i].1);
        }
        i = i + 1;
    }
    None
}

/// The text of the field `key`, when there is one and it is a text.
pub fn find_text<'a>(fields: &'a Vec<(String, Json)>, key: &str) -> (res: Option<&'a str>)
    ensures
        match res {
            Some(s) => text_field(Json::Object(*fields).tree()->Object_0, key@) == Some(s@),
            None => text_field(Json::Object(*fields).tree()->Object_0, key@) is None,
        },
{
    match find_field(fields, key) {
        Some(Json::Text(s)) => Some(s.as_str()),
        _ => None,
    }
}

/// The number of the field `key`, when there is one and it is a `u64`.
pub fn find_number(fields: &Vec<(String, Json)>, key: &str) -> (res: Option<u64>)
    ensures
        res == number_field(Json::Object(*fields).tree()->Object_0, key@),
{
    match find_field(fields, key) {
        Some(Json::Number(n)) => Some(*n),
        _ => None,
    }
}

/// A parsed value of `serde_json`.
#[verifier::external_type_specification]
#[verifier::external_body]
pub struct ExValue(serde_json::Value);

/// What a parsed value holds.
pub uninterp spec fn value_tree(value: serde_json::Value) -> JsonTree;

/// What `serde_json::from_str` makes of a text: the value, or the message of its error.
pub uninterp spec fn json_document(text: Seq<char>) -> Result<JsonTree, Seq<char>>;

/// Calls `serde_json::from_str`: parses a text into a value, or gives the message of the
/// parse error. Claimed is only that the outcome is a function of the text.
#[verifier::external_body]
fn parse_value(text: &str) -> (res: Result<serde_json::Value, String>)
    ensures
        match res {
            Ok(value) => json_document(text@) == Ok::<JsonTree, Seq<char>>(value_tree(value)),
            Err(message) => json_document(text@) == Err::<JsonTree, Seq<char>>(message@),
        },
{
    serde_json::from_str(text).map_err(|err| err.to_string())
}

/// Calls `serde_json::Value::as_array`: the items of an array in order, nothing for any
/// other value.
#[verifier::external_body]
fn value_items(value: &serde_json::Value) -> (res: Option<&Vec<serde_json::Value>>)
    ensures
        match value_tree(*value) {
            JsonTree::Array(items) => res matches Some(found) && found@.len() == items.len() && (
            forall|i: int| 0 <= i < items.len() ==> value_tree(#[trigger] found@[i]) == items[i]),
            _ => res is None,
        },
{
    value.as_array()
}

/// Calls `serde_json::Value::as_object` and `serde_json::Map::iter`: the keys and values
/// of an object, in the order in which the document has them, nothing for any other
/// value.
#[verifier::external_body]
fn value_fields(value: &serde_json::Value) -> (res: Option<Vec<(&String, &serde_json::Value)>>)
    ensures
        match value_tree(*value) {
            JsonTree::Object(fields) => res matches Some(found) && found@.len() == fields.len() && (
            forall|i: int|
                0 <= i < fields.len() ==> (#[trigger] found@[i]).0@ == fields[i].0 && value_tree(
                    *found@[i].1,
                ) == fields[i].1),
            _ => res is None,
        },
{
    value.as_object().map(|map| map.iter().collect())
}

/// Calls `serde_json::Value::as_str`: the text of a string, nothing for any other value.
#[verifier::external_body]
fn value_text(value: &serde_json::Value) -> (res: Option<&str>)
    ensures
        match value_tree(*value) {
            JsonTree::Text(s) => res matches Some(found) && found@ == s,
            _ => res is None,
        },
{
    value.as_str()
}

/// Calls `serde_json::Value::as_u64`: the number, when the value is one that a `u64`
/// holds, nothing for any other value.
#[verifier::external_body]
fn value_number(value: &serde_json::Value) -> (res: Option<u64>)
    ensures
        res == (match value_tree(*value) {
            JsonTree::Number(n) => Some(n),
            _ => None,
        }),
{
    value.as_u64()
}

/// Copy a parsed value into a plain tree.
fn copy_value(value: &serde_json::Value) -> (res: Json)
    ensures
        res.tree() == value_tree(*value),
    decreases value_tree(*value),
{
    if let Some(items) = value_items(value) {
        let ghost tree = value_tree(*value)->Array_0;
        let mut copied: Vec<Json> = Vec::new();
        let mut i: usize = 0;
        while i < items.len()
            invariant
                i <= items@.len(),
                items@.len() == tree.len(),
                value_tree(*value) == JsonTree::Array(tree),
                forall|k: int| 0 <= k < tree.len() ==> value_tree(#[trigger] items@[k]) == tree[k],
                copied@.len() == i,
                forall|k: int| 0 <= k < i ==> (#[trigger] copied@[k]).tree() == tree[k],
            decreases items@.len() - i,
        {
            assert(value_tree(items@[i as int]) == tree[i as int]);
            proof {
                let whole = value_tree(*value);
                assert(decreases_to!(whole => whole->Array_0));
                assert(decreases_to!(whole->Array_0 => whole->Array_0[i as int]));
            }
            let item = copy_value(&items[i]);
            copied.push(item);
            i = i + 1;
        }
        let res = Json::Array(copied);
        assert(res.tree()->Array_0 =~= tree);
        return res;
    }
    if let Some(fields) = value_fields(value) {
        let ghost tree = value_tree(*value)->Object_0;
        let mut copied: Vec<(String, Json)> = Vec::new();
        let mut i: usize = 0;
        while i < fields.len()
            invariant
                i <= fields@.len(),
                fields@.len() == tree.len(),
                value_tree(*value) == JsonTree::Object(tree),
                forall|k: int|
                    0 <= k < tree.len() ==> (#[trigger] fields@[k]).0@ == tree[k].0 && value_tree(
                        *fields@[k].1,
                    ) == tree[k].1,
                copied@.len() == i,
                forall|k: int|
                    0 <= k < i ==> (#[trigger] copied@[k]).0@ == tree[k].0 && copied@[k].1.tree()
                        == tree[k].1,
            decreases fields@.len() - i,
        {
            assert(value_tree(*fields@[i as int].1) == tree[i as int].1);
            proof {
                let whole = value_tree(*value);
                assert(decreases_to!(whole => whole->Object_0));
                assert(decreases_to!(whole->Object_0 => whole->Object_0[i as int]));
                let pair = whole->Object_0[i as int];
                assert(decreases_to!(pair => pair.1));
            }
            let key: String = fields[i].0.clone();
            let child = copy_value(fields[i].1);
            copied.push((key, child));
            i = i + 1;
        }
        let res = Json::Object(copied);
        assert(res.tree()->Object_0 =~= tree);
        return res;
    }
    if let Some(text) = value_text(value) {
        return Json::Text(text.to_owned());
    }
    match value_number(value) {
        Some(n) => Json::Number(n),
        None => Json::Other,
    }
}

impl Json {
    /// Parse a JSON document; the error is the parser's message.
    pub fn parse(text: &str) -> (res: Result<Json, String>)
        ensures
            match res {
                Ok(json) => json_document(text@) == Ok::<JsonTree, Seq<char>>(json.tree()),
                Err(message) => json_document(text@) == Err::<JsonTree, Seq<char>>(message@),
            },
    {
        match parse_value(text) {
            Ok(value) => Ok(copy_value(&value)),
            Err(message) => Err(message),
        }
    }
}

/// A key stands for the value of its first field: as a text if that is a text, as a number if
/// that is a number, and as neither otherwise.
pub proof fn law_keys_stand_for_their_first_field(
    fields: Seq<(Seq<char>, JsonTree)>,
    key: Seq<char>,
    k: int,
)
    requires
        0 <= k < fields.len(),
        fields[k].0 == key,
        forall|j: int| 0 <= j < k ==> (#[trigger] fields[j]).0 != key,
    ensures
        field(fields, key) == Some(fields[k].1),
        text_field(fields, key) == (match fields[k].1 {
            JsonTree::Text(s) => Some(s),
            _ => None,
        }),
        number_field(fields, key) == (match fields[k].1 {
            JsonTree::Number(n) => Some(n),
            _ => None,
        }),
    decreases fields.len(),
{
    if k > 0 {
        let rest = fields.drop_first();
        assert(fields[0].0 != key);
        assert forall|j: int| 0 <= j < k - 1 implies (#[trigger] rest[j]).0 != key by {
            assert(rest[j] == fields[j + 1]);
        }
        law_keys_stand_for_their_first_field(rest, key, k - 1);
    }
}

/// A key that no field has stands for nothing.
pub proof fn law_missing_keys_stand_for_nothing(
    fields: Seq<(Seq<char>, JsonTree)>,
    key: Seq<char>,
)
    requires
        forall|j: int| 0 <= j < fields.len() ==> (#[trigger] fields[j]).0 != key,
    ensures
        field(fields, key) is None,
        text_field(fields, key) is None,
        number_field(fields, key) is None,
    decreases fields.len(),
{
    if fields.len() > 0 {
        let rest = fields.drop_first();
        assert forall|j: int| 0 <= j < rest.len() implies (#[trigger] rest[j]).0 != key by {
            assert(rest[j] == fields[j + 1]);
        }
        law_missing_keys_stand_for_nothing(rest, key);
    }
}

} // verus!
