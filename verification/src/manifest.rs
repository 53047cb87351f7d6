//! The JSON manifest of a project, and the rewrite of its `name` member.

use vstd::prelude::*;
use crate::error::ScaffoldError;
use crate::json::{
    empty_object, has_key, insert_member, members, parse_object, parsed_object, pretty_text, put,
    render_pretty, string_member, string_value, Members,
};
use serde_json::Value;

verus! {

/// Key of the member that holds a project's name.
pub const NAME_KEY: &'static str = "name";

/// The members of a manifest once its name is set: the `name` member holds
/// the new name as a JSON string, and stands where it stood before or, if
/// there was none, after all the others.
pub open spec fn with_name(members: Members, name: Seq<char>) -> Members {
    put(members, NAME_KEY@, string_value(name))
}

/// The manifest that a text holds, if it is a well-formed JSON object.
pub open spec fn read_manifest(text: Seq<char>) -> Result<Members, ScaffoldError> {
    match parsed_object(text) {
        Some(members) => Ok(members),
        None => Err(ScaffoldError::Parse),
    }
}

/// The pretty-printed text of a manifest.
pub open spec fn written_manifest(members: Members) -> Result<Seq<char>, ScaffoldError> {
    match pretty_text(members) {
        Some(text) => Ok(text),
        None => Err(ScaffoldError::Serialize),
    }
}

/// The rewrite of a manifest's text for a project of the given name.
pub open spec fn transformed(text: Seq<char>, name: Seq<char>) -> Result<
    Seq<char>,
    ScaffoldError,
> {
    match read_manifest(text) {
        Ok(members) => written_manifest(with_name(members, name)),
        Err(e) => Err(e),
    }
}

/// Once the name is set, the `name` member is there and holds the new name
/// as a JSON string.
pub proof fn lemma_name_is_set(members: Members, name: Seq<char>)
    ensures
        has_key(with_name(members, name), NAME_KEY@),
        forall|i: int|
            0 <= i < with_name(members, name).len() && (#[trigger] with_name(members, name)[i]).0
                == NAME_KEY@ ==> with_name(members, name)[i].1 == string_value(name),
{
    let after = with_name(members, name);
    if has_key(members, NAME_KEY@) {
        let i = choose|i: int| 0 <= i < members.len() && (#[trigger] members[i]).0 == NAME_KEY@;
        assert(after[i].0 == NAME_KEY@);
    } else {
        assert(after[members.len() as int].0 == NAME_KEY@);
    }
}

/// Setting the name keeps every other member: each member under another
/// key is found in the same place, with the same value.
pub proof fn lemma_other_members_kept(members: Members, name: Seq<char>, i: int)
    requires
        0 <= i < members.len(),
        members[i].0 != NAME_KEY@,
    ensures
        i < with_name(members, name).len(),
        with_name(members, name)[i] == members[i],
{
}

/// Setting the name adds at most the `name` member: every member of the
/// result stood in the same place before, unless its key is `name`.
pub proof fn lemma_no_member_added(members: Members, name: Seq<char>, i: int)
    requires
        0 <= i < with_name(members, name).len(),
        with_name(members, name)[i].0 != NAME_KEY@,
    ensures
        i < members.len(),
        with_name(members, name)[i] == members[i],
{
}

/// Setting the same name a second time changes nothing.
pub proof fn lemma_set_name_twice(members: Members, name: Seq<char>)
    ensures
        with_name(with_name(members, name), name) == with_name(members, name),
{
    let once = with_name(members, name);
    lemma_name_is_set(members, name);
    assert(with_name(once, name) =~= once);
}

/// The rewrite of a well-formed manifest is the text of its members with
/// the name set, so that every member under another key is written out as
/// it was read.
pub proof fn lemma_transform_keeps_members(text: Seq<char>, name: Seq<char>, i: int)
    requires
        parsed_object(text) is Some,
        0 <= i < parsed_object(text)->0.len(),
        parsed_object(text)->0[i].0 != NAME_KEY@,
    ensures
        transformed(text, name) == written_manifest(with_name(parsed_object(text)->0, name)),
        i < with_name(parsed_object(text)->0, name).len(),
        with_name(parsed_object(text)->0, name)[i] == parsed_object(text)->0[i],
{
    lemma_other_members_kept(parsed_object(text)->0, name, i);
}

/// Rewriting the output of a rewrite for the same name gives that output
/// again, if the output reads back as the members it was written from.
pub proof fn lemma_transform_twice(text: Seq<char>, name: Seq<char>)
    requires
        transformed(text, name) is Ok,
        parsed_object(transformed(text, name)->Ok_0) == Some(
            with_name(parsed_object(text)->0, name),
        ),
    ensures
        transformed(transformed(text, name)->Ok_0, name) == transformed(text, name),
{
    lemma_set_name_twice(parsed_object(text)->0, name);
}

/// A JSON object that serves as a project manifest.
pub struct Manifest {
    object: serde_json::Map<String, Value>,
}

impl View for Manifest {
    type V = Members;

    closed spec fn view(&self) -> Members {
        members(self.object)
    }
}

impl Manifest {
    /// A manifest without members.
    pub fn empty() -> (manifest: Manifest)
        ensures
            manifest@ == Seq::<(Seq<char>, Value)>::empty(),
    {
        Manifest { object: empty_object() }
    }

    /// Reads a manifest from its text. Fails with `Parse` exactly on the
    /// texts that are not one well-formed JSON object.
    pub fn parse(text: &str) -> (r: Result<Manifest, ScaffoldError>)
        ensures
            match r {
                Ok(manifest) => read_manifest(text@) == Ok::<Members, ScaffoldError>(manifest@),
                Err(e) => read_manifest(text@) == Err::<Members, ScaffoldError>(e),
            },
    {
        match parse_object(text) {
            Ok(object) => Ok(Manifest { object }),
            Err(_) => Err(ScaffoldError::Parse),
        }
    }

    /// Sets the `name` member, inserting it if the manifest has none. No
    /// other member changes, and none moves.
    pub fn set_name(&mut self, name: &str)
        ensures
            final(self)@ == with_name(old(self)@, name@),
    {
        insert_member(&mut self.object, NAME_KEY.to_owned(), string_member(name));
    }

    /// Writes the manifest out, pretty-printed.
    pub fn render(&self) -> (r: Result<String, ScaffoldError>)
        ensures
            match r {
                Ok(text) => written_manifest(self@) == Ok::<Seq<char>, ScaffoldError>(text@),
                Err(e) => written_manifest(self@) == Err::<Seq<char>, ScaffoldError>(e),
            },
    {
        match render_pretty(&self.object) {
            Ok(text) => Ok(text),
            Err(_) => Err(ScaffoldError::Serialize),
        }
    }
}

/// Rewrites the text of a manifest so that its `name` member holds
/// `new_name`. Every other member is kept, in its place.
pub fn transform_manifest(manifest: &str, new_name: &str) -> (r: Result<String, ScaffoldError>)
    ensures
        match r {
            Ok(text) => transformed(manifest@, new_name@) == Ok::<Seq<char>, ScaffoldError>(text@),
            Err(e) => transformed(manifest@, new_name@) == Err::<Seq<char>, ScaffoldError>(e),
        },
{
    match Manifest::parse(manifest) {
        Ok(parsed) => {
            let mut renamed = parsed;
            renamed.set_name(new_name);
            renamed.render()
        },
        Err(e) => Err(e),
    }
}

} // verus!
