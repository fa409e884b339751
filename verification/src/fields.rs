//! The fields of a record written as JSON: an object holds them by name, an
//! array by place.
use crate::json::{real_of, Json, JsonTree};
use crate::names::lookup;
use crate::number::Real;
use vstd::prelude::*;

verus! {

/// The field with a name and a place, where the value holds it.
pub open spec fn field(tree: JsonTree, place: int, name: Seq<char>) -> Option<JsonTree> {
    match tree {
        JsonTree::Object(members) => lookup(members, name),
        JsonTree::Array(items) => if 0 <= place < items.len() {
            Some(items[place])
        } else {
            None
        },
        _ => None,
    }
}

/// Whether the value can be a record of `count` fields. Members that are no
/// field of an object are passed over; items beyond the last field are not.
pub open spec fn is_record(tree: JsonTree, count: nat) -> bool {
    match tree {
        JsonTree::Object(_) => true,
        JsonTree::Array(items) => items.len() <= count,
        _ => false,
    }
}

/// The field with a name and a place that is neither absent nor `null`.
pub open spec fn optional_field(tree: JsonTree, place: int, name: Seq<char>) -> Option<JsonTree> {
    match field(tree, place, name) {
        Some(JsonTree::Null) => None,
        other => other,
    }
}

/// Reads a field.
pub(crate) fn get_field<'a>(json: &'a Json, place: usize, name: &str) -> (r: Option<&'a Json>)
    ensures
        r is Some == (field(json@, place as int, name@) is Some),
        r matches Some(v) ==> field(json@, place as int, name@) == Some(v@),
{
    broadcast use Json::lemma_tree;

    match json {
        Json::Object(o) => o.get(name),
        Json::Array(items) => if place < items.len() {
            Some(&items[place])
        } else {
            None
        },
        _ => None,
    }
}

/// Reads a field that may be absent or `null`.
pub(crate) fn get_optional<'a>(json: &'a Json, place: usize, name: &str) -> (r: Option<&'a Json>)
    ensures
        r is Some == (optional_field(json@, place as int, name@) is Some),
        r matches Some(v) ==> optional_field(json@, place as int, name@) == Some(v@),
{
    match get_field(json, place, name) {
        Some(v) => if v.is_null() {
            None
        } else {
            Some(v)
        },
        None => None,
    }
}

/// Whether a value can be a record of `count` fields.
pub(crate) fn fits(json: &Json, count: usize) -> (r: bool)
    ensures
        r == is_record(json@, count as nat),
{
    broadcast use Json::lemma_tree;

    match json {
        Json::Object(_) => true,
        Json::Array(items) => items.len() <= count,
        _ => false,
    }
}

/// Reads a field that holds a string.
pub(crate) fn text_at(json: &Json, place: usize, name: &str) -> (r: String)
    requires
        field(json@, place as int, name@) matches Some(JsonTree::String(_)),
    ensures
        field(json@, place as int, name@) == Some(JsonTree::String(r@)),
{
    match get_field(json, place, name) {
        Some(value) => match value.as_str() {
            Some(text) => text.to_owned(),
            None => String::new(),
        },
        None => String::new(),
    }
}

/// Reads a field that holds a number.
pub(crate) fn real_at(json: &Json, place: usize, name: &str) -> (r: Real)
    requires
        field(json@, place as int, name@) matches Some(JsonTree::Number(_)),
    ensures
        real_of(field(json@, place as int, name@)->0) == Some(r@),
{
    match get_field(json, place, name) {
        Some(value) => match value.as_real() {
            Some(x) => x,
            None => Real::zero(),
        },
        None => Real::zero(),
    }
}

/// A record holds a field by name where it is an object and by place where it
/// is an array; a `null` counts as a field, but not as an optional one.
pub proof fn law_fields_by_name_or_by_place(tree: JsonTree, place: int, name: Seq<char>)
    ensures
        tree matches JsonTree::Object(members) ==> field(tree, place, name) == lookup(
            members,
            name,
        ),
        tree matches JsonTree::Array(items) ==> 0 <= place < items.len() ==> field(
            tree,
            place,
            name,
        ) == Some(items[place]),
        tree matches JsonTree::Array(items) ==> place >= items.len() ==> field(tree, place, name)
            is None,
        !(tree is Object) && !(tree is Array) ==> field(tree, place, name) is None,
        field(tree, place, name) matches Some(value) ==> optional_field(tree, place, name)
            == if value is Null {
            None
        } else {
            Some(value)
        },
        field(tree, place, name) is None ==> optional_field(tree, place, name) is None,
{
}

} // verus!
