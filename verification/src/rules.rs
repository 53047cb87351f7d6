//! Which directory entries are left out of a copy, and which are rewritten
//! instead of copied.

use vstd::prelude::*;
use crate::text::same_text;

verus! {

/// Name of the manifest whose `name` field is rewritten for each project.
pub const PACKAGE_JSON: &'static str = "package.json";

/// Name of the workspace membership file written at a monorepo root.
pub const PNPM_WORKSPACE_YAML: &'static str = "pnpm-workspace.yaml";

/// Entry names that are never copied.
pub const IGNORE_FILES: [&'static str; 2] = ["node_modules", "pnpm-lock.yaml"];

/// The built-in denylist, as texts.
pub open spec fn denylist() -> Seq<Seq<char>> {
    seq!["node_modules"@, "pnpm-lock.yaml"@]
}

/// An entry name is left out exactly when it is a member of the denylist.
pub open spec fn on_denylist(name: Seq<char>) -> bool {
    denylist().contains(name)
}

/// Whether an entry of that name is left out of a copy, together with all
/// that lies below it.
pub fn should_ignore(file_name: &str) -> (ignored: bool)
    ensures
        ignored == on_denylist(file_name@),
{
    let mut i: usize = 0;
    while i < IGNORE_FILES.len()
        invariant
            i <= 2,
            forall|j: int| 0 <= j < i ==> denylist()[j] != file_name@,
        decreases 2 - i,
    {
        if same_text(file_name, IGNORE_FILES[i]) {
            return true;
        }
        i = i + 1;
    }
    false
}

/// The kinds of file whose content is rewritten on the way to the
/// destination.
#[derive(Clone, Copy, Debug, PartialEq, Eq, Structural)]
pub enum SpecialFile {
    /// The JSON manifest that carries the project's name.
    PackageJSON,
}

/// The kind of an entry by its name: only the manifest's name is special.
pub open spec fn special_kind(name: Seq<char>) -> Option<SpecialFile> {
    if name == PACKAGE_JSON@ {
        Some(SpecialFile::PackageJSON)
    } else {
        None
    }
}

/// Classifies a file by its name: `None` stands for a plain file, which is
/// copied byte for byte.
pub fn is_special_file(file_name: &str) -> (kind: Option<SpecialFile>)
    ensures
        kind == special_kind(file_name@),
{
    if same_text(file_name, PACKAGE_JSON) {
        Some(SpecialFile::PackageJSON)
    } else {
        None
    }
}

} // verus!
