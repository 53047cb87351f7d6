//! Paths, held as the parts that are joined to form them.

use vstd::prelude::*;

verus! {

/// A path in the file system: the first part joined with each of the
/// following ones, in order. The library never looks into the file system;
/// whoever performs a step joins the parts.
#[derive(Debug, PartialEq, Eq)]
pub struct PathParts {
    pub parts: Vec<String>,
}

impl View for PathParts {
    type V = Seq<Seq<char>>;

    open spec fn view(&self) -> Seq<Seq<char>> {
        self.parts.deep_view()
    }
}

impl Clone for PathParts {
    fn clone(&self) -> (copy: PathParts)
        ensures
            copy@ == self@,
    {
        let mut parts: Vec<String> = Vec::new();
        let mut i: usize = 0;
        while i < self.parts.len()
            invariant
                i <= self.parts.len(),
                parts.len() == i,
                forall|j: int| 0 <= j < i ==> parts[j]@ == self.parts[j]@,
            decreases self.parts.len() - i,
        {
            parts.push(self.parts[i].clone());
            i = i + 1;
        }
        assert(parts.deep_view() =~= self.parts.deep_view());
        PathParts { parts }
    }
}

impl PathParts {
    /// The path without parts, which stands for the directory that relative
    /// paths start from.
    pub fn new() -> (path: PathParts)
        ensures
            path@ == Seq::<Seq<char>>::empty(),
    {
        let path = PathParts { parts: Vec::new() };
        assert(path@ =~= Seq::<Seq<char>>::empty());
        path
    }

    /// The path of a single part.
    pub fn from_part(part: &str) -> (path: PathParts)
        ensures
            path@ == seq![part@],
    {
        let mut parts: Vec<String> = Vec::new();
        parts.push(part.to_owned());
        let path = PathParts { parts };
        assert(path@ =~= seq![part@]);
        path
    }

    /// This path with one more part joined to its end.
    pub fn join(&self, part: &str) -> (path: PathParts)
        ensures
            path@ == self@.push(part@),
    {
        let mut path = self.clone();
        path.parts.push(part.to_owned());
        assert(path@ =~= self@.push(part@));
        path
    }

    /// Whether two paths have the same parts.
    pub fn same_as(&self, other: &PathParts) -> (same: bool)
        ensures
            same == (self@ == other@),
    {
        if self.parts.len() != other.parts.len() {
            assert(self@.len() != other@.len());
            return false;
        }
        let mut i: usize = 0;
        while i < self.parts.len()
            invariant
                i <= self.parts.len(),
                self.parts.len() == other.parts.len(),
                forall|j: int| 0 <= j < i ==> self@[j] == other@[j],
            decreases self.parts.len() - i,
        {
            if self.parts[i] != other.parts[i] {
                assert(self@[i as int] != other@[i as int]);
                return false;
            }
            i = i + 1;
        }
        assert(self@ =~= other@);
        true
    }
}

} // verus!
