//! The templates that a run can choose from: the directories directly
//! below the templates root.

use vstd::prelude::*;
use crate::path::PathParts;
use crate::replicate::{entry_views, EntryView, ListedEntry};

verus! {

/// The names of the listed entries that are directories, in listing order.
pub open spec fn directory_names(entries: Seq<EntryView>) -> Seq<Seq<char>>
    decreases entries.len(),
{
    if entries.len() == 0 {
        Seq::empty()
    } else {
        let rest = directory_names(entries.drop_last());
        if entries.last().is_dir {
            rest.push(entries.last().name)
        } else {
            rest
        }
    }
}

/// The available templates, from a listing of the templates root: files
/// are left out, and the order of the listing is kept.
pub fn list_templates(entries: &Vec<ListedEntry>) -> (names: Vec<String>)
    ensures
        names.deep_view() == directory_names(entry_views(entries@)),
{
    let ghost listing = entry_views(entries@);
    let mut names: Vec<String> = Vec::new();
    let mut i: usize = 0;
    assert(listing.take(0) =~= Seq::<EntryView>::empty());
    assert(names.deep_view() =~= directory_names(listing.take(0)));
    while i < entries.len()
        invariant
            i <= entries.len(),
            listing == entry_views(entries@),
            names.deep_view() == directory_names(listing.take(i as int)),
        decreases entries.len() - i,
    {
        let entry = &entries[i];
        let ghost before = names.deep_view();
        proof {
            let next = listing.take(i + 1);
            assert(next.drop_last() =~= listing.take(i as int));
            assert(next.last() == entry@);
        }
        if entry.is_dir {
            names.push(entry.name.clone());
            assert(names.deep_view() =~= before.push(entry@.name));
        }
        i = i + 1;
    }
    assert(listing.take(i as int) =~= listing);
    names
}

/// The path of a template: its name joined to the templates root. Whether
/// the template is still there is not looked at.
pub fn resolve(templates_root: &str, name: &str) -> (path: PathParts)
    ensures
        path@ == seq![templates_root@, name@],
{
    let path = PathParts::from_part(templates_root).join(name);
    assert(path@ =~= seq![templates_root@, name@]);
    path
}

/// A catalog, as contracts see it.
pub struct CatalogView {
    pub root: Seq<char>,
    pub names: Seq<Seq<char>>,
}

/// The templates root and the names of the templates below it, in the
/// order in which they were listed.
#[derive(Debug, PartialEq, Eq)]
pub struct TemplateCatalog {
    pub root: String,
    pub names: Vec<String>,
}

impl View for TemplateCatalog {
    type V = CatalogView;

    open spec fn view(&self) -> CatalogView {
        CatalogView { root: self.root@, names: self.names.deep_view() }
    }
}

impl TemplateCatalog {
    /// The catalog of a templates root, from a listing of it.
    pub fn from_listing(root: String, entries: &Vec<ListedEntry>) -> (catalog: TemplateCatalog)
        ensures
            catalog@.root == root@,
            catalog@.names == directory_names(entry_views(entries@)),
    {
        TemplateCatalog { root, names: list_templates(entries) }
    }

    /// The path of the template at the given place in the catalog, or
    /// `None` if the catalog has no such place.
    pub fn template_path(&self, index: usize) -> (path: Option<PathParts>)
        ensures
            match path {
                Some(path) => index < self@.names.len() && path@ == seq![
                    self@.root,
                    self@.names[index as int],
                ],
                None => index >= self@.names.len(),
            },
    {
        if index < self.names.len() {
            Some(resolve(self.root.as_str(), self.names[index].as_str()))
        } else {
            None
        }
    }
}

} // verus!
