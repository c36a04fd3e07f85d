//! JSON documents as plain values, read with `serde_json`.

use crate::text::same;
use vstd::prelude::*;

verus! {

// ---------- The outside types ----------

/// `serde_json::Value`, a parsed document. Opaque: its content is `value_tree`.
#[verifier::external_type_specification]
#[verifier::external_body]
pub struct ExValue(serde_json::Value);

/// `serde_json::Error`, why a text is no document. Opaque: its message is
/// `error_text`.
#[verifier::external_type_specification]
#[verifier::external_body]
pub struct ExError(serde_json::Error);

// ---------- Documents ----------

/// A JSON document. A number is known by the unsigned 64-bit integer that it
/// was written as, if it was; an object's fields stand in the order of their
/// names.
pub enum JsonTree {
    Null,
    Bool(bool),
    Number(Option<u64>),
    Text(Seq<char>),
    Array(Seq<JsonTree>),
    Object(Seq<(Seq<char>, JsonTree)>),
}

/// A JSON document held in memory.
#[derive(Debug)]
pub enum Json {
    Null,
    Bool(bool),
    /// A number, with its value where it is an unsigned integer.
    Number(Option<u64>),
    Text(String),
    Array(Vec<Json>),
    Object(Vec<(String, Json)>),
}

/// The documents of `items`.
pub open spec fn item_trees(items: Seq<Json>) -> Seq<JsonTree>
    decreases items,
{
    if items.len() == 0 {
        Seq::empty()
    } else {
        item_trees(items.drop_last()).push(tree_of(items.last()))
    }
}

/// The fields of an object, names and documents.
pub open spec fn field_trees(fields: Seq<(String, Json)>) -> Seq<(Seq<char>, JsonTree)>
    decreases fields,
{
    if fields.len() == 0 {
        Seq::empty()
    } else {
        field_trees(fields.drop_last()).push((fields.last().0@, tree_of(fields.last().1)))
    }
}

/// The document that `j` holds.
pub open spec fn tree_of(j: Json) -> JsonTree
    decreases j,
{
    match j {
        Json::Null => JsonTree::Null,
        Json::Bool(b) => JsonTree::Bool(b),
        Json::Number(n) => JsonTree::Number(n),
        Json::Text(s) => JsonTree::Text(s@),
        Json::Array(v) => JsonTree::Array(item_trees(v@)),
        Json::Object(v) => JsonTree::Object(field_trees(v@)),
    }
}

impl View for Json {
    type V = JsonTree;

    open spec fn view(&self) -> JsonTree {
        tree_of(*self)
    }
}

/// `item_trees` goes item by item.
pub proof fn lemma_item_trees(items: Seq<Json>)
    ensures
        item_trees(items).len() == items.len(),
        forall|i: int|
            0 <= i < items.len() ==> #[trigger] item_trees(items)[i] == tree_of(items[i]),
    decreases items.len(),
{
    if items.len() > 0 {
        lemma_item_trees(items.drop_last());
    }
}

/// `field_trees` goes field by field.
pub proof fn lemma_field_trees(fields: Seq<(String, Json)>)
    ensures
        field_trees(fields).len() == fields.len(),
        forall|i: int|
            0 <= i < fields.len() ==> #[trigger] field_trees(fields)[i] == (
                fields[i].0@,
                tree_of(fields[i].1),
            ),
    decreases fields.len(),
{
    if fields.len() > 0 {
        lemma_field_trees(fields.drop_last());
    }
}

// ---------- Looking into a document ----------

/// The document of the first of `fields` that is called `name`.
pub open spec fn field_named(fields: Seq<(Seq<char>, JsonTree)>, name: Seq<char>) -> Option<JsonTree>
    decreases fields.len(),
{
    if fields.len() == 0 {
        None
    } else if fields.first().0 == name {
        Some(fields.first().1)
    } else {
        field_named(fields.drop_first(), name)
    }
}

impl JsonTree {
    /// The field `name` of an object.
    pub open spec fn get(self, name: Seq<char>) -> Option<JsonTree> {
        match self {
            JsonTree::Object(fields) => field_named(fields, name),
            _ => None,
        }
    }

    /// The unsigned integer that this is.
    pub open spec fn as_u64(self) -> Option<u64> {
        match self {
            JsonTree::Number(n) => n,
            _ => None,
        }
    }

    /// The truth value that this is.
    pub open spec fn as_bool(self) -> Option<bool> {
        match self {
            JsonTree::Bool(b) => Some(b),
            _ => None,
        }
    }

    /// The unsigned integer in the field `name` of an object.
    pub open spec fn u64_at(self, name: Seq<char>) -> Option<u64> {
        match self.get(name) {
            Some(t) => t.as_u64(),
            None => None,
        }
    }

    /// The truth value in the field `name` of an object.
    pub open spec fn bool_at(self, name: Seq<char>) -> Option<bool> {
        match self.get(name) {
            Some(t) => t.as_bool(),
            None => None,
        }
    }
}

impl Json {
    /// The field `name` of an object.
    pub fn get(&self, name: &str) -> (r: Option<&Json>)
        ensures
            match r {
                Some(j) => self@.get(name@) == Some(j@),
                None => self@.get(name@) is None,
            },
    {
        let fields: &Vec<(String, Json)> = match self {
            Json::Object(fields) => fields,
            _ => {
                return None;
            },
        };
        let ghost all = field_trees(fields@);
        proof {
            lemma_field_trees(fields@);
            assert(all.skip(0) =~= all);
        }
        let mut i: usize = 0;
        while i < fields.len()
            invariant
                i <= fields@.len(),
                self@ == JsonTree::Object(all),
                all.len() == fields@.len(),
                forall|k: int|
                    0 <= k < fields@.len() ==> #[trigger] all[k] == (
                        fields@[k].0@,
                        tree_of(fields@[k].1),
                    ),
                field_named(all, name@) == field_named(all.skip(i as int), name@),
            decreases fields@.len() - i,
        {
            assert(all.skip(i as int).first() == all[i as int]);
            if same(fields[i].0.as_str(), name) {
                return Some(&fields[i].1);
            }
            assert(all.skip(i as int).drop_first() =~= all.skip(i + 1));
            i += 1;
        }
        None
    }

    /// The unsigned integer that this is.
    pub fn as_u64(&self) -> (r: Option<u64>)
        ensures
            r == self@.as_u64(),
    {
        match self {
            Json::Number(n) => *n,
            _ => None,
        }
    }

    /// The truth value that this is.
    pub fn as_bool(&self) -> (r: Option<bool>)
        ensures
            r == self@.as_bool(),
    {
        match self {
            Json::Bool(b) => Some(*b),
            _ => None,
        }
    }

    /// The unsigned integer in the field `name` of an object.
    pub fn u64_at(&self, name: &str) -> (r: Option<u64>)
        ensures
            r == self@.u64_at(name@),
    {
        match self.get(name) {
            Some(j) => j.as_u64(),
            None => None,
        }
    }

    /// The truth value in the field `name` of an object.
    pub fn bool_at(&self, name: &str) -> (r: Option<bool>)
        ensures
            r == self@.bool_at(name@),
    {
        match self.get(name) {
            Some(j) => j.as_bool(),
            None => None,
        }
    }
}

// ---------- Reading a document ----------

/// The document that a parsed `serde_json::Value` holds.
pub uninterp spec fn value_tree(v: serde_json::Value) -> JsonTree;

/// The message of a `serde_json::Error`.
pub uninterp spec fn error_text(e: serde_json::Error) -> Seq<char>;

/// What `serde_json::from_str` makes of a text as a `Value`: the document, or
/// the message that says why it is none.
pub uninterp spec fn json_text(text: Seq<char>) -> Result<JsonTree, Seq<char>>;

/// One level of a parsed document.
enum Shape<'a> {
    Null,
    Bool(bool),
    Number(Option<u64>),
    Text(&'a String),
    Array(&'a Vec<serde_json::Value>),
    Object(Vec<(&'a String, &'a serde_json::Value)>),
}

/// Calls `serde_json::from_str` for a `serde_json::Value`: the outcome depends
/// on the text alone.
#[verifier::external_body]
fn parse_value(text: &str) -> (r: Result<serde_json::Value, serde_json::Error>)
    ensures
        match r {
            Ok(v) => json_text(text@) == Ok::<JsonTree, Seq<char>>(value_tree(v)),
            Err(e) => json_text(text@) == Err::<JsonTree, Seq<char>>(error_text(e)),
        },
{
    serde_json::from_str::<serde_json::Value>(text)
}

/// Calls `to_string` of `serde_json::Error`: its message.
#[verifier::external_body]
fn error_message(e: &serde_json::Error) -> (r: String)
    ensures
        r@ == error_text(*e),
{
    e.to_string()
}

/// Tells the variants of `serde_json::Value` apart. A number is asked for
/// `as_u64`; the entries of an object are listed as its map lists them.
#[verifier::external_body]
fn shape_of(v: &serde_json::Value) -> (r: Shape<'_>)
    ensures
        match r {
            Shape::Null => value_tree(*v) == JsonTree::Null,
            Shape::Bool(b) => value_tree(*v) == JsonTree::Bool(b),
            Shape::Number(n) => value_tree(*v) == JsonTree::Number(n),
            Shape::Text(s) => value_tree(*v) == JsonTree::Text(s@),
            Shape::Array(items) => value_tree(*v) == JsonTree::Array(
                items@.map_values(|x: serde_json::Value| value_tree(x)),
            ),
            Shape::Object(fields) => value_tree(*v) == JsonTree::Object(
                fields@.map_values(|f: (&String, &serde_json::Value)| (f.0@, value_tree(*f.1))),
            ),
        },
{
    match v {
        serde_json::Value::Null => Shape::Null,
        serde_json::Value::Bool(b) => Shape::Bool(*b),
        serde_json::Value::Number(n) => Shape::Number(n.as_u64()),
        serde_json::Value::String(s) => Shape::Text(s),
        serde_json::Value::Array(items) => Shape::Array(items),
        serde_json::Value::Object(fields) => Shape::Object(fields.iter().collect()),
    }
}

/// The document that `v` holds.
fn decode(v: &serde_json::Value) -> (r: Json)
    ensures
        r@ == value_tree(*v),
    decreases value_tree(*v),
{
    match shape_of(v) {
        Shape::Null => Json::Null,
        Shape::Bool(b) => Json::Bool(b),
        Shape::Number(n) => Json::Number(n),
        Shape::Text(s) => Json::Text(s.clone()),
        Shape::Array(items) => {
            let ghost trees = items@.map_values(|x: serde_json::Value| value_tree(x));
            let mut out: Vec<Json> = Vec::new();
            let mut i: usize = 0;
            while i < items.len()
                invariant
                    i <= items@.len(),
                    trees == items@.map_values(|x: serde_json::Value| value_tree(x)),
                    value_tree(*v) == JsonTree::Array(trees),
                    item_trees(out@) == trees.take(i as int),
                decreases items@.len() - i,
            {
                assert(trees[i as int] == value_tree(items@[i as int]));
                assert(decreases_to!(value_tree(*v) => value_tree(*v)->Array_0));
                assert(decreases_to!(trees => trees[i as int]));
                let ghost before = out@;
                let j: Json = decode(&items[i]);
                out.push(j);
                assert(out@.drop_last() =~= before);
                i += 1;
                assert(trees.take(i as int) =~= trees.take(i - 1).push(trees[i - 1]));
            }
            assert(trees.take(i as int) =~= trees);
            Json::Array(out)
        },
        Shape::Object(fields) => {
            let ghost trees = fields@.map_values(
                |f: (&String, &serde_json::Value)| (f.0@, value_tree(*f.1)),
            );
            let mut out: Vec<(String, Json)> = Vec::new();
            let mut i: usize = 0;
            while i < fields.len()
                invariant
                    i <= fields@.len(),
                    trees == fields@.map_values(
                        |f: (&String, &serde_json::Value)| (f.0@, value_tree(*f.1)),
                    ),
                    value_tree(*v) == JsonTree::Object(trees),
                    field_trees(out@) == trees.take(i as int),
                decreases fields@.len() - i,
            {
                assert(trees[i as int] == (
                    fields@[i as int].0@,
                    value_tree(*fields@[i as int].1),
                ));
                assert(decreases_to!(value_tree(*v) => value_tree(*v)->Object_0));
                assert(decreases_to!(trees => trees[i as int]));
                assert(decreases_to!(trees[i as int] => trees[i as int].1));
                let ghost before = out@;
                let j: Json = decode(fields[i].1);
                out.push((fields[i].0.clone(), j));
                assert(out@.drop_last() =~= before);
                i += 1;
                assert(trees.take(i as int) =~= trees.take(i - 1).push(trees[i - 1]));
            }
            assert(trees.take(i as int) =~= trees);
            Json::Object(out)
        },
    }
}

// ---------- Counters ----------

/// What `serde_json::from_str` makes of a text as a map from names to unsigned
/// integers: the map, or the message that says why it is none.
pub uninterp spec fn counters_text(text: Seq<char>) -> Result<Map<Seq<char>, u64>, Seq<char>>;

/// `entries` lists `m`: each name once, with its value.
pub open spec fn lists(entries: Seq<(String, u64)>, m: Map<Seq<char>, u64>) -> bool {
    &&& forall|i: int|
        0 <= i < entries.len() ==> m.contains_pair((#[trigger] entries[i]).0@, entries[i].1)
    &&& forall|i: int, j: int|
        0 <= i < j < entries.len() ==> (#[trigger] entries[i]).0@ != (#[trigger] entries[j]).0@
    &&& forall|k: Seq<char>| #[trigger]
        m.contains_key(k) ==> exists|i: int|
            0 <= i < entries.len() && (#[trigger] entries[i]).0@ == k
}

/// Calls `serde_json::from_str` for a map from names to unsigned integers. The
/// map depends on the text alone; its entries come in no particular order.
#[verifier::external_body]
fn parse_counter_map(text: &str) -> (r: Result<Vec<(String, u64)>, serde_json::Error>)
    ensures
        match r {
            Ok(entries) => counters_text(text@) matches Ok(m) && lists(entries@, m),
            Err(e) => counters_text(text@) == Err::<Map<Seq<char>, u64>, Seq<char>>(error_text(e)),
        },
{
    serde_json::from_str::<std::collections::HashMap<String, u64>>(text).map(
        |m| m.into_iter().collect(),
    )
}

/// Reads `text` as an object of unsigned integers and lists it, in no
/// particular order; on failure, the reason in words.
pub fn parse_counters(text: &str) -> (r: Result<Vec<(String, u64)>, String>)
    ensures
        match r {
            Ok(entries) => counters_text(text@) matches Ok(m) && lists(entries@, m),
            Err(m) => counters_text(text@) == Err::<Map<Seq<char>, u64>, Seq<char>>(m@),
        },
{
    match parse_counter_map(text) {
        Ok(entries) => Ok(entries),
        Err(e) => Err(error_message(&e)),
    }
}

/// Reads `text` as a JSON document; on failure, the reason in words.
pub fn parse_json(text: &str) -> (r: Result<Json, String>)
    ensures
        match r {
            Ok(j) => json_text(text@) == Ok::<JsonTree, Seq<char>>(j@),
            Err(m) => json_text(text@) == Err::<JsonTree, Seq<char>>(m@),
        },
{
    match parse_value(text) {
        Ok(v) => Ok(decode(&v)),
        Err(e) => Err(error_message(&e)),
    }
}

} // verus!
