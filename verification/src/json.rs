//! JSON objects, as `serde_json` reads, holds and writes them.
//!
//! Nothing in this file is proved: it states what the library relies on from
//! `serde_json`, built with its `preserve_order` feature, so that an object
//! keeps its members in the order in which they were first inserted.

use vstd::prelude::*;
use serde_json::{Error, Value};

verus! {

/// `serde_json::Value`, a JSON value of any kind. The library hands such
/// values on and never looks inside.
#[verifier::external_type_specification]
#[verifier::external_body]
pub struct ExValue(Value);

/// `serde_json::Error`, what reading or writing JSON fails with.
#[verifier::external_type_specification]
#[verifier::external_body]
pub struct ExError(Error);

/// `serde_json::Map`, the members of a JSON object.
#[verifier::external_type_specification]
#[verifier::external_body]
#[verifier::reject_recursive_types(K)]
#[verifier::reject_recursive_types(V)]
pub struct ExMap<K, V>(serde_json::Map<K, V>);

/// The members of an object: each key with its value, in order.
pub type Members = Seq<(Seq<char>, Value)>;

/// What an object holds, in the order in which it walks its members.
pub uninterp spec fn members(object: serde_json::Map<String, Value>) -> Members;

/// What `serde_json::from_str` reads from a text as an object: the members,
/// or `None` where it reports an error.
pub uninterp spec fn parsed_object(text: Seq<char>) -> Option<Members>;

/// The JSON string value that `Value::from` makes of a text.
pub uninterp spec fn string_value(text: Seq<char>) -> Value;

/// What `serde_json::to_string_pretty` writes for an object with these
/// members, or `None` where it reports an error.
pub uninterp spec fn pretty_text(members: Members) -> Option<Seq<char>>;

/// Whether some member has this key.
pub open spec fn has_key(members: Members, key: Seq<char>) -> bool {
    exists|i: int| 0 <= i < members.len() && (#[trigger] members[i]).0 == key
}

/// The members after an insertion: a member with that key takes the new
/// value where it stands; without one, the new member comes last.
pub open spec fn put(members: Members, key: Seq<char>, value: Value) -> Members {
    if has_key(members, key) {
        Seq::new(
            members.len(),
            |i: int| if members[i].0 == key { (key, value) } else { members[i] },
        )
    } else {
        members.push((key, value))
    }
}

/// Trusted: `Map::new`, which makes an object without members.
#[verifier::external_body]
pub(crate) fn empty_object() -> (object: serde_json::Map<String, Value>)
    ensures
        members(object) == Seq::<(Seq<char>, Value)>::empty(),
{
    serde_json::Map::new()
}

/// Trusted: `serde_json::from_str` at the type of an object, which reports
/// an error on any text that is not one JSON object. What it returns
/// depends on the text alone; the contract names it.
#[verifier::external_body]
pub(crate) fn parse_object(text: &str) -> (r: Result<serde_json::Map<String, Value>, Error>)
    ensures
        match r {
            Ok(object) => parsed_object(text@) == Some(members(object)),
            Err(_) => parsed_object(text@).is_none(),
        },
{
    serde_json::from_str(text)
}

/// Trusted: `Value::from` on a string slice, which makes the JSON string of
/// that text.
#[verifier::external_body]
pub(crate) fn string_member(text: &str) -> (value: Value)
    ensures
        value == string_value(text@),
{
    Value::from(text)
}

/// Trusted: `Map::insert`, whose old value is dropped. With insertion order
/// preserved, a key that is present keeps its place and takes the new
/// value; a new key comes last.
#[verifier::external_body]
pub(crate) fn insert_member(object: &mut serde_json::Map<String, Value>, key: String, value: Value)
    ensures
        members(*final(object)) == put(members(*old(object)), key@, value),
{
    object.insert(key, value);
}

/// Trusted: `serde_json::to_string_pretty` on an object. The text depends on
/// the members alone; the contract names it.
#[verifier::external_body]
pub(crate) fn render_pretty(object: &serde_json::Map<String, Value>) -> (r: Result<String, Error>)
    ensures
        match r {
            Ok(text) => pretty_text(members(*object)) == Some(text@),
            Err(_) => pretty_text(members(*object)).is_none(),
        },
{
    serde_json::to_string_pretty(object)
}

} // verus!
