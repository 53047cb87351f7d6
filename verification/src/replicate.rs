//! Copying a template tree: what is done with each entry of a directory,
//! and which directories are visited.
//!
//! The library does not read directories. A `Replicator` is handed the
//! entries of one directory at a time and answers with the files to copy or
//! rewrite; it keeps the list of directories that are still to be visited.
//! Paths are relative to the template's root, and to the destination's.

use vstd::prelude::*;
use crate::path::PathParts;
use crate::rules::{is_special_file, on_denylist, should_ignore, special_kind, SpecialFile};

verus! {

/// What is done with one entry of a directory.
#[derive(Clone, Copy, Debug, PartialEq, Eq, Structural)]
pub enum EntryAction {
    /// The entry is left out, with all that lies below it.
    Skip,
    /// The entry is a directory, which is visited in turn.
    Descend,
    /// The entry is a file whose content is rewritten.
    Rewrite(SpecialFile),
    /// The entry is a file that is copied byte for byte.
    Copy,
}

/// The action for an entry, by its name and by whether it is a directory.
/// The denylist comes first: a denylisted directory is not entered.
pub open spec fn action_for(name: Seq<char>, is_dir: bool) -> EntryAction {
    if on_denylist(name) {
        EntryAction::Skip
    } else if is_dir {
        EntryAction::Descend
    } else {
        match special_kind(name) {
            Some(kind) => EntryAction::Rewrite(kind),
            None => EntryAction::Copy,
        }
    }
}

/// Decides what is done with one entry.
pub fn plan_entry(name: &str, is_dir: bool) -> (action: EntryAction)
    ensures
        action == action_for(name@, is_dir),
{
    if should_ignore(name) {
        EntryAction::Skip
    } else if is_dir {
        EntryAction::Descend
    } else {
        match is_special_file(name) {
            Some(kind) => EntryAction::Rewrite(kind),
            None => EntryAction::Copy,
        }
    }
}

/// An entry, as contracts see it.
pub struct EntryView {
    pub name: Seq<char>,
    pub is_dir: bool,
}

/// One entry of a directory, as its listing gives it.
#[derive(Debug, PartialEq, Eq)]
pub struct ListedEntry {
    pub name: String,
    pub is_dir: bool,
}

impl View for ListedEntry {
    type V = EntryView;

    open spec fn view(&self) -> EntryView {
        EntryView { name: self.name@, is_dir: self.is_dir }
    }
}

/// The views of a listing, in order.
pub open spec fn entry_views(entries: Seq<ListedEntry>) -> Seq<EntryView> {
    Seq::new(entries.len(), |i: int| entries[i]@)
}

/// A file operation, as contracts see it.
pub enum FileOpView {
    Copy { path: Seq<Seq<char>> },
    Rewrite { path: Seq<Seq<char>>, kind: SpecialFile },
}

/// What is done with one file of the template. The path leads from the
/// template's root to the file, and from the destination's root to its copy.
#[derive(Debug, PartialEq, Eq)]
pub enum FileOp {
    /// Copy the file byte for byte.
    Copy { path: PathParts },
    /// Read the file, rewrite its content as its kind asks, and write the
    /// result.
    Rewrite { path: PathParts, kind: SpecialFile },
}

impl View for FileOp {
    type V = FileOpView;

    open spec fn view(&self) -> FileOpView {
        match *self {
            FileOp::Copy { path } => FileOpView::Copy { path: path@ },
            FileOp::Rewrite { path, kind } => FileOpView::Rewrite { path: path@, kind },
        }
    }
}

/// The views of a list of file operations, in order.
pub open spec fn op_views(ops: Seq<FileOp>) -> Seq<FileOpView> {
    Seq::new(ops.len(), |i: int| ops[i]@)
}

/// The views of a list of paths, in order.
pub open spec fn path_views(paths: Seq<PathParts>) -> Seq<Seq<Seq<char>>> {
    Seq::new(paths.len(), |i: int| paths[i]@)
}

/// The directories below `dir` that are visited: its entries that are
/// directories and not denylisted, in listing order.
pub open spec fn subdirectories(dir: Seq<Seq<char>>, entries: Seq<EntryView>) -> Seq<
    Seq<Seq<char>>,
>
    decreases entries.len(),
{
    if entries.len() == 0 {
        Seq::empty()
    } else {
        let rest = subdirectories(dir, entries.drop_last());
        let entry = entries.last();
        if action_for(entry.name, entry.is_dir) is Descend {
            rest.push(dir.push(entry.name))
        } else {
            rest
        }
    }
}

/// The file operations for the entries of `dir`: one for each file that is
/// not denylisted, in listing order.
pub open spec fn file_ops(dir: Seq<Seq<char>>, entries: Seq<EntryView>) -> Seq<FileOpView>
    decreases entries.len(),
{
    if entries.len() == 0 {
        Seq::empty()
    } else {
        let rest = file_ops(dir, entries.drop_last());
        let entry = entries.last();
        match action_for(entry.name, entry.is_dir) {
            EntryAction::Copy => rest.push(FileOpView::Copy { path: dir.push(entry.name) }),
            EntryAction::Rewrite(kind) => rest.push(
                FileOpView::Rewrite { path: dir.push(entry.name), kind },
            ),
            _ => rest,
        }
    }
}

/// The operation for a file of the given name in `dir`.
pub open spec fn op_for(dir: Seq<Seq<char>>, name: Seq<char>) -> FileOpView {
    match special_kind(name) {
        Some(kind) => FileOpView::Rewrite { path: dir.push(name), kind },
        None => FileOpView::Copy { path: dir.push(name) },
    }
}

/// The operations of a visit are those of the listed files that are not
/// denylisted, and no others.
pub proof fn lemma_file_ops_members(dir: Seq<Seq<char>>, entries: Seq<EntryView>, op: FileOpView)
    ensures
        file_ops(dir, entries).contains(op) <==> exists|i: int|
            0 <= i < entries.len() && !(#[trigger] entries[i]).is_dir && !on_denylist(
                entries[i].name,
            ) && op == op_for(dir, entries[i].name),
    decreases entries.len(),
{
    if entries.len() > 0 {
        let front = entries.drop_last();
        let entry = entries.last();
        let rest = file_ops(dir, front);
        lemma_file_ops_members(dir, front, op);
        let kept = !entry.is_dir && !on_denylist(entry.name);
        if kept {
            assert(file_ops(dir, entries) == rest.push(op_for(dir, entry.name)));
        } else {
            assert(file_ops(dir, entries) == rest);
        }
        if file_ops(dir, entries).contains(op) {
            if rest.contains(op) {
                let i = choose|i: int|
                    0 <= i < front.len() && !(#[trigger] front[i]).is_dir && !on_denylist(
                        front[i].name,
                    ) && op == op_for(dir, front[i].name);
                assert(entries[i] == front[i]);
            } else {
                let k = choose|k: int|
                    0 <= k < file_ops(dir, entries).len() && file_ops(dir, entries)[k] == op;
                assert(k == rest.len());
                assert(entries[entries.len() - 1] == entry);
            }
        }
        if exists|i: int|
            0 <= i < entries.len() && !(#[trigger] entries[i]).is_dir && !on_denylist(
                entries[i].name,
            ) && op == op_for(dir, entries[i].name) {
            let i = choose|i: int|
                0 <= i < entries.len() && !(#[trigger] entries[i]).is_dir && !on_denylist(
                    entries[i].name,
                ) && op == op_for(dir, entries[i].name);
            if i < front.len() {
                assert(front[i] == entries[i]);
                assert(rest.contains(op));
                let k = choose|k: int| 0 <= k < rest.len() && rest[k] == op;
                assert(file_ops(dir, entries)[k] == op);
            } else {
                assert(file_ops(dir, entries)[rest.len() as int] == op);
            }
        }
    }
}

/// The directories that a visit adds are the listed directories that are
/// not denylisted, and no others.
pub proof fn lemma_subdirectories_members(
    dir: Seq<Seq<char>>,
    entries: Seq<EntryView>,
    path: Seq<Seq<char>>,
)
    ensures
        subdirectories(dir, entries).contains(path) <==> exists|i: int|
            0 <= i < entries.len() && (#[trigger] entries[i]).is_dir && !on_denylist(
                entries[i].name,
            ) && path == dir.push(entries[i].name),
    decreases entries.len(),
{
    if entries.len() > 0 {
        let front = entries.drop_last();
        let entry = entries.last();
        let rest = subdirectories(dir, front);
        lemma_subdirectories_members(dir, front, path);
        let kept = entry.is_dir && !on_denylist(entry.name);
        if kept {
            assert(subdirectories(dir, entries) == rest.push(dir.push(entry.name)));
        } else {
            assert(subdirectories(dir, entries) == rest);
        }
        if subdirectories(dir, entries).contains(path) {
            if rest.contains(path) {
                let i = choose|i: int|
                    0 <= i < front.len() && (#[trigger] front[i]).is_dir && !on_denylist(
                        front[i].name,
                    ) && path == dir.push(front[i].name);
                assert(entries[i] == front[i]);
            } else {
                let k = choose|k: int|
                    0 <= k < subdirectories(dir, entries).len() && subdirectories(
                        dir,
                        entries,
                    )[k] == path;
                assert(k == rest.len());
                assert(entries[entries.len() - 1] == entry);
            }
        }
        if exists|i: int|
            0 <= i < entries.len() && (#[trigger] entries[i]).is_dir && !on_denylist(
                entries[i].name,
            ) && path == dir.push(entries[i].name) {
            let i = choose|i: int|
                0 <= i < entries.len() && (#[trigger] entries[i]).is_dir && !on_denylist(
                    entries[i].name,
                ) && path == dir.push(entries[i].name);
            if i < front.len() {
                assert(front[i] == entries[i]);
                assert(rest.contains(path));
                let k = choose|k: int| 0 <= k < rest.len() && rest[k] == path;
                assert(subdirectories(dir, entries)[k] == path);
            } else {
                assert(subdirectories(dir, entries)[rest.len() as int] == path);
            }
        }
    }
}

/// The directories of a template that are still to be visited.
pub struct Replicator {
    pending: Vec<PathParts>,
}

impl View for Replicator {
    type V = Seq<Seq<Seq<char>>>;

    closed spec fn view(&self) -> Seq<Seq<Seq<char>>> {
        path_views(self.pending@)
    }
}

impl Replicator {
    /// A replicator that has the template's root to visit.
    pub fn new() -> (replicator: Replicator)
        ensures
            replicator@ == seq![Seq::<Seq<char>>::empty()],
    {
        let mut pending: Vec<PathParts> = Vec::new();
        pending.push(PathParts::new());
        let replicator = Replicator { pending };
        assert(replicator@ =~= seq![Seq::<Seq<char>>::empty()]);
        replicator
    }

    /// Takes the directory to visit next: the one that was added last.
    /// `None` means that the copy is complete. The directory is to be
    /// created at the destination, and its entries handed to `visit`.
    pub fn next_directory(&mut self) -> (next: Option<PathParts>)
        ensures
            match next {
                Some(dir) => old(self)@.len() > 0 && dir@ == old(self)@.last() && final(self)@
                    == old(self)@.drop_last(),
                None => old(self)@.len() == 0 && final(self)@ == old(self)@,
            },
    {
        let next = self.pending.pop();
        proof {
            if next is Some {
                assert(self@ =~= old(self)@.drop_last());
            }
        }
        next
    }

    /// Takes in the entries of the directory `dir`. Returns the operations
    /// for its files, and adds its subdirectories to those that are still
    /// to be visited. Denylisted entries give rise to neither.
    pub fn visit(&mut self, dir: &PathParts, entries: &Vec<ListedEntry>) -> (ops: Vec<FileOp>)
        ensures
            op_views(ops@) == file_ops(dir@, entry_views(entries@)),
            final(self)@ == old(self)@ + subdirectories(dir@, entry_views(entries@)),
    {
        let ghost listing = entry_views(entries@);
        let mut ops: Vec<FileOp> = Vec::new();
        let mut i: usize = 0;
        assert(listing.take(0) =~= Seq::<EntryView>::empty());
        assert(op_views(ops@) =~= file_ops(dir@, listing.take(0)));
        assert(self@ =~= old(self)@ + subdirectories(dir@, listing.take(0)));
        while i < entries.len()
            invariant
                i <= entries.len(),
                listing == entry_views(entries@),
                op_views(ops@) == file_ops(dir@, listing.take(i as int)),
                self@ == old(self)@ + subdirectories(dir@, listing.take(i as int)),
            decreases entries.len() - i,
        {
            let entry = &entries[i];
            let ghost ops_before = op_views(ops@);
            let ghost pending_before = self@;
            proof {
                let next = listing.take(i + 1);
                assert(next.drop_last() =~= listing.take(i as int));
                assert(next.last() == entry@);
            }
            match plan_entry(entry.name.as_str(), entry.is_dir) {
                EntryAction::Skip => {},
                EntryAction::Descend => {
                    self.pending.push(dir.join(entry.name.as_str()));
                    assert(self@ =~= pending_before.push(dir@.push(entry@.name)));
                },
                EntryAction::Rewrite(kind) => {
                    ops.push(FileOp::Rewrite { path: dir.join(entry.name.as_str()), kind });
                    assert(op_views(ops@) =~= ops_before.push(
                        FileOpView::Rewrite { path: dir@.push(entry@.name), kind },
                    ));
                },
                EntryAction::Copy => {
                    ops.push(FileOp::Copy { path: dir.join(entry.name.as_str()) });
                    assert(op_views(ops@) =~= ops_before.push(
                        FileOpView::Copy { path: dir@.push(entry@.name) },
                    ));
                },
            }
            i = i + 1;
        }
        assert(listing.take(i as int) =~= listing);
        ops
    }
}

} // verus!
