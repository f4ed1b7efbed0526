//! JSON documents, read through `serde_json`.
//!
//! A document is carried as a `serde_json::Value` and modelled as a tree of
//! plain values. The functions at the end of this file are the only ones that
//! look into a `Value`; each states, in terms of the tree, what the method of
//! `serde_json` that it calls returns.

use vstd::prelude::*;

verus! {

/// A JSON value as plain data.
pub enum JsonTree {
    /// `null`.
    Null,
    /// `true` or `false`.
    Bool(bool),
    /// A number: its value where it is written as an integer from 0 to
    /// `u64::MAX`, without sign, fraction or exponent; nothing for any other
    /// number.
    Number(Option<u64>),
    /// A string.
    Text(Seq<char>),
    /// An array, with its elements in order.
    Array(Seq<JsonTree>),
    /// An object, with the member of each name.
    Object(Map<Seq<char>, JsonTree>),
}

impl JsonTree {
    /// The member of an object under `key`; nothing where there is none or
    /// the value is no object.
    pub open spec fn member(self, key: Seq<char>) -> Option<JsonTree> {
        match self {
            JsonTree::Object(members) => if members.dom().contains(key) {
                Some(members[key])
            } else {
                None
            },
            _ => None,
        }
    }

    /// The value of a number that is an integer from 0 to `u64::MAX`.
    pub open spec fn natural(self) -> Option<u64> {
        match self {
            JsonTree::Number(n) => n,
            _ => None,
        }
    }

    /// The text of a string.
    pub open spec fn text(self) -> Option<Seq<char>> {
        match self {
            JsonTree::Text(t) => Some(t),
            _ => None,
        }
    }

    /// The elements of an array.
    pub open spec fn elements(self) -> Option<Seq<JsonTree>> {
        match self {
            JsonTree::Array(a) => Some(a),
            _ => None,
        }
    }
}

/// `serde_json::Value`, a JSON document: opaque here, and read only through
/// the functions of this file.
#[verifier::external_type_specification]
#[verifier::external_body]
pub struct ExValue(serde_json::Value);

/// The tree that a `serde_json::Value` holds: `null`, a boolean, a string, an
/// array and an object as they are, and a number by what `Value::as_u64`
/// makes of it.
pub uninterp spec fn json_tree(v: serde_json::Value) -> JsonTree;

/// The document that `serde_json::from_str` reads from a text: its tree where
/// the text is one JSON value and nothing else, nothing where it is not.
pub uninterp spec fn json_document(text: Seq<char>) -> Option<JsonTree>;

/// The trees of a list of values, in order.
pub open spec fn json_trees(list: Seq<serde_json::Value>) -> Seq<JsonTree> {
    Seq::new(list.len(), |i: int| json_tree(list[i]))
}

/// Calls `serde_json::from_str` for a `Value` and drops the error's detail.
/// What comes back is a function of the text alone: the document that the
/// text is, or nothing.
#[verifier::external_body]
pub(crate) fn parse(text: &str) -> (r: Option<serde_json::Value>)
    ensures
        r matches Some(v) ==> json_document(text@) == Some(json_tree(v)),
        r is None ==> json_document(text@) is None,
{
    serde_json::from_str::<serde_json::Value>(text).ok()
}

/// Calls `Value::get` with a string key: the member of that name where the
/// value is an object that has one, nothing otherwise.
#[verifier::external_body]
pub(crate) fn member<'a>(v: &'a serde_json::Value, key: &str) -> (r: Option<&'a serde_json::Value>)
    ensures
        r matches Some(m) ==> json_tree(*v).member(key@) == Some(json_tree(*m)),
        r is None ==> json_tree(*v).member(key@) is None,
{
    v.get(key)
}

/// Calls `Value::as_u64`: the number where the value is an integer from 0 to
/// `u64::MAX`, nothing otherwise.
#[verifier::external_body]
pub(crate) fn as_u64(v: &serde_json::Value) -> (r: Option<u64>)
    ensures
        r == json_tree(*v).natural(),
{
    v.as_u64()
}

/// Calls `Value::as_str`: the text where the value is a string, nothing otherwise.
#[verifier::external_body]
pub(crate) fn as_str<'a>(v: &'a serde_json::Value) -> (r: Option<&'a str>)
    ensures
        r matches Some(s) ==> json_tree(*v).text() == Some(s@),
        r is None ==> json_tree(*v).text() is None,
{
    v.as_str()
}

/// Calls `Value::as_array`: the elements where the value is an array, nothing otherwise.
#[verifier::external_body]
pub(crate) fn as_array<'a>(v: &'a serde_json::Value) -> (r: Option<&'a Vec<serde_json::Value>>)
    ensures
        r matches Some(a) ==> json_tree(*v).elements() == Some(json_trees(a@)),
        r is None ==> json_tree(*v).elements() is None,
{
    v.as_array()
}

/// Calls `Value::is_null`: whether the value is `null`.
#[verifier::external_body]
pub(crate) fn is_null(v: &serde_json::Value) -> (r: bool)
    ensures
        r == (json_tree(*v) is Null),
{
    v.is_null()
}

} // verus!
