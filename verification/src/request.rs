//! What a run is asked to scaffold: the projects, and whether they share a
//! monorepo root.

use vstd::prelude::*;
use crate::path::PathParts;

verus! {

/// A project, as contracts see it.
pub struct ProjectView {
    pub name: Seq<char>,
    pub dst: Seq<Seq<char>>,
    pub template_path: Seq<Seq<char>>,
}

/// One scaffolding target: a template, the directory that receives its
/// copy, and the name that the copy's manifest is given.
#[derive(Debug, PartialEq, Eq)]
pub struct Project {
    pub name: String,
    pub dst: PathParts,
    pub template_path: PathParts,
}

impl View for Project {
    type V = ProjectView;

    open spec fn view(&self) -> ProjectView {
        ProjectView { name: self.name@, dst: self.dst@, template_path: self.template_path@ }
    }
}

impl Clone for Project {
    fn clone(&self) -> (copy: Project)
        ensures
            copy@ == self@,
    {
        Project {
            name: self.name.clone(),
            dst: self.dst.clone(),
            template_path: self.template_path.clone(),
        }
    }
}

impl Project {
    pub fn new(name: String, dst: PathParts, template_path: PathParts) -> (project: Project)
        ensures
            project.name == name,
            project.dst == dst,
            project.template_path == template_path,
    {
        Project { name, dst, template_path }
    }
}

/// Where a project of the given name is scaffolded: below the monorepo root
/// in a monorepo, else in a directory of its own name.
pub open spec fn destination_of(
    is_monorepo: bool,
    monorepo_name: Seq<char>,
    name: Seq<char>,
) -> Seq<Seq<char>> {
    if is_monorepo {
        seq![monorepo_name, name]
    } else {
        seq![name]
    }
}

/// Computes `destination_of`.
pub fn destination(is_monorepo: bool, monorepo_name: &str, name: &str) -> (dst: PathParts)
    ensures
        dst@ == destination_of(is_monorepo, monorepo_name@, name@),
{
    if is_monorepo {
        PathParts::from_part(monorepo_name).join(name)
    } else {
        PathParts::from_part(name)
    }
}

/// A request, as contracts see it.
pub struct RequestView {
    pub is_monorepo: bool,
    pub monorepo_name: Seq<char>,
    pub projects: Seq<ProjectView>,
}

/// The views of a list of projects, in order.
pub open spec fn project_views(projects: Seq<Project>) -> Seq<ProjectView> {
    Seq::new(projects.len(), |i: int| projects[i]@)
}

/// The names of a list of projects, in order.
pub open spec fn names_of(projects: Seq<ProjectView>) -> Seq<Seq<char>> {
    Seq::new(projects.len(), |i: int| projects[i].name)
}

/// No text occurs twice.
pub open spec fn distinct(names: Seq<Seq<char>>) -> bool {
    forall|i: int, j: int| 0 <= i < j < names.len() ==> names[i] != names[j]
}

/// A project fits a request if it has a name and lies where a project of
/// that name belongs.
pub open spec fn project_fits(
    is_monorepo: bool,
    monorepo_name: Seq<char>,
    project: ProjectView,
) -> bool {
    &&& project.name.len() > 0
    &&& project.dst == destination_of(is_monorepo, monorepo_name, project.name)
}

/// Every project of the list fits.
pub open spec fn all_fit(
    is_monorepo: bool,
    monorepo_name: Seq<char>,
    projects: Seq<ProjectView>,
) -> bool {
    forall|i: int|
        0 <= i < projects.len() ==> project_fits(is_monorepo, monorepo_name, #[trigger] projects[i])
}

/// The shape that a run needs. A monorepo has a name and any number of
/// projects, no two of the same name; otherwise there is exactly one
/// project. Each project fits.
pub open spec fn valid_request(request: RequestView) -> bool {
    &&& all_fit(request.is_monorepo, request.monorepo_name, request.projects)
    &&& if request.is_monorepo {
        request.monorepo_name.len() > 0 && distinct(names_of(request.projects))
    } else {
        request.projects.len() == 1
    }
}

/// One or many projects to scaffold, the many below a common monorepo root.
#[derive(Debug, PartialEq, Eq)]
pub struct GenerationRequest {
    pub is_monorepo: bool,
    pub monorepo_name: String,
    pub projects: Vec<Project>,
}

impl View for GenerationRequest {
    type V = RequestView;

    open spec fn view(&self) -> RequestView {
        RequestView {
            is_monorepo: self.is_monorepo,
            monorepo_name: self.monorepo_name@,
            projects: project_views(self.projects@),
        }
    }
}

/// Whether a name occurs among the first `count` projects.
fn name_taken(projects: &Vec<Project>, count: usize, name: &String) -> (taken: bool)
    requires
        count <= projects.len(),
    ensures
        taken == exists|i: int| 0 <= i < count && (#[trigger] projects[i]).name@ == name@,
{
    let mut i: usize = 0;
    while i < count
        invariant
            i <= count <= projects.len(),
            forall|j: int| 0 <= j < i ==> (#[trigger] projects[j]).name@ != name@,
        decreases count - i,
    {
        if projects[i].name == *name {
            return true;
        }
        i = i + 1;
    }
    false
}

impl GenerationRequest {
    /// Whether the request has the shape that a run needs.
    pub fn is_valid(&self) -> (ok: bool)
        ensures
            ok == valid_request(self@),
    {
        if self.is_monorepo {
            if self.monorepo_name.as_str().is_empty() {
                return false;
            }
        } else if self.projects.len() != 1 {
            return false;
        }
        let ghost views = self@.projects;
        let mut i: usize = 0;
        while i < self.projects.len()
            invariant
                i <= self.projects.len(),
                views == self@.projects,
                views.len() == self.projects.len(),
                forall|j: int|
                    0 <= j < i ==> project_fits(
                        self.is_monorepo,
                        self.monorepo_name@,
                        #[trigger] views[j],
                    ),
                self.is_monorepo ==> forall|j: int, k: int|
                    0 <= j < k < i ==> names_of(views)[j] != names_of(views)[k],
            decreases self.projects.len() - i,
        {
            let project = &self.projects[i];
            assert(views[i as int] == project@);
            if project.name.as_str().is_empty() {
                return false;
            }
            let expected = destination(
                self.is_monorepo,
                self.monorepo_name.as_str(),
                project.name.as_str(),
            );
            if !project.dst.same_as(&expected) {
                return false;
            }
            if self.is_monorepo && name_taken(&self.projects, i, &project.name) {
                let ghost j = choose|j: int|
                    0 <= j < i && (#[trigger] self.projects[j]).name@ == project.name@;
                assert(names_of(views)[j] == names_of(views)[i as int]);
                return false;
            }
            assert forall|j: int, k: int| 0 <= j < k < i + 1 && self.is_monorepo implies names_of(
                views,
            )[j] != names_of(views)[k] by {
                if k == i {
                    assert(self.projects[j].name@ != project.name@);
                }
            }
            i = i + 1;
        }
        true
    }
}

} // verus!
