//! The steps of a scaffolding run, from the request that asks for it.

use vstd::prelude::*;
use crate::error::ScaffoldError;
use crate::manifest::{with_name, written_manifest, Manifest};
use crate::path::PathParts;
use crate::request::{
    names_of, project_views, valid_request, GenerationRequest, Project, ProjectView, RequestView,
};
use crate::rules::{PACKAGE_JSON, PNPM_WORKSPACE_YAML};
use serde_json::Value;

verus! {

/// A step, as contracts see it.
pub enum StepView {
    Reset { path: Seq<Seq<char>> },
    Replicate { template: Seq<Seq<char>>, dst: Seq<Seq<char>>, name: Seq<char> },
    Write { path: Seq<Seq<char>>, content: Seq<char> },
}

/// One action on the file system. A run performs its steps in order.
#[derive(Debug, PartialEq, Eq)]
pub enum Step {
    /// Remove the directory and all below it, if it exists.
    Reset { path: PathParts },
    /// Copy the template's tree to the destination, for a project of that
    /// name.
    Replicate { template: PathParts, dst: PathParts, name: String },
    /// Write a file with the given content.
    Write { path: PathParts, content: String },
}

impl View for Step {
    type V = StepView;

    open spec fn view(&self) -> StepView {
        match *self {
            Step::Reset { path } => StepView::Reset { path: path@ },
            Step::Replicate { template, dst, name } => StepView::Replicate {
                template: template@,
                dst: dst@,
                name: name@,
            },
            Step::Write { path, content } => StepView::Write { path: path@, content: content@ },
        }
    }
}

impl Step {
    /// Whether the run ends when this step fails. A directory that cannot be
    /// removed is reported and the run goes on; any other failure ends it.
    pub fn failure_ends_run(&self) -> (ends: bool)
        ensures
            ends == !(self@ is Reset),
    {
        match self {
            Step::Reset { .. } => false,
            _ => true,
        }
    }
}

/// The views of a list of steps, in order.
pub open spec fn step_views(steps: Seq<Step>) -> Seq<StepView> {
    Seq::new(steps.len(), |i: int| steps[i]@)
}

/// The two steps that scaffold one project: its destination is reset, then
/// filled from its template.
pub open spec fn project_steps(project: ProjectView) -> Seq<StepView> {
    seq![
        StepView::Reset { path: project.dst },
        StepView::Replicate {
            template: project.template_path,
            dst: project.dst,
            name: project.name,
        },
    ]
}

/// The steps that scaffold the projects one after the other, in list order.
pub open spec fn steps_of_projects(projects: Seq<ProjectView>) -> Seq<StepView>
    decreases projects.len(),
{
    if projects.len() == 0 {
        Seq::empty()
    } else {
        steps_of_projects(projects.drop_last()) + project_steps(projects.last())
    }
}

/// One line of the workspace file for each name, in order.
pub open spec fn workspace_lines(names: Seq<Seq<char>>) -> Seq<char>
    decreases names.len(),
{
    if names.len() == 0 {
        Seq::empty()
    } else {
        workspace_lines(names.drop_last()) + "  - "@ + names.last() + "\n"@
    }
}

/// The workspace membership file: a header, then one line for each member.
/// Names are written as they are.
pub open spec fn workspace_text(names: Seq<Seq<char>>) -> Seq<char> {
    "packages:\n"@ + workspace_lines(names)
}

/// The root manifest of a monorepo: an object whose only member is the name.
pub open spec fn root_manifest_text(monorepo_name: Seq<char>) -> Result<Seq<char>, ScaffoldError> {
    written_manifest(with_name(Seq::<(Seq<char>, Value)>::empty(), monorepo_name))
}

/// The steps of a monorepo run, given the text of its root manifest.
pub open spec fn monorepo_steps(request: RequestView, manifest: Seq<char>) -> Seq<StepView> {
    seq![StepView::Reset { path: seq![request.monorepo_name] }] + steps_of_projects(
        request.projects,
    ) + seq![
        StepView::Write { path: seq![request.monorepo_name, PACKAGE_JSON@], content: manifest },
        StepView::Write {
            path: seq![request.monorepo_name, PNPM_WORKSPACE_YAML@],
            content: workspace_text(names_of(request.projects)),
        },
    ]
}

/// The run that a request asks for.
pub open spec fn planned(request: RequestView) -> Result<Seq<StepView>, ScaffoldError> {
    if !valid_request(request) {
        Err(ScaffoldError::InvalidRequest)
    } else if !request.is_monorepo {
        Ok(steps_of_projects(request.projects))
    } else {
        match root_manifest_text(request.monorepo_name) {
            Ok(manifest) => Ok(monorepo_steps(request, manifest)),
            Err(e) => Err(e),
        }
    }
}

/// The steps of the projects come in pairs, one pair for each project in
/// list order: the reset of its destination, then the copy into it.
pub proof fn lemma_project_steps_in_pairs(projects: Seq<ProjectView>, i: int)
    requires
        0 <= i < projects.len(),
    ensures
        steps_of_projects(projects).len() == 2 * projects.len(),
        steps_of_projects(projects)[2 * i] == (StepView::Reset { path: projects[i].dst }),
        steps_of_projects(projects)[2 * i + 1] == (StepView::Replicate {
            template: projects[i].template_path,
            dst: projects[i].dst,
            name: projects[i].name,
        }),
    decreases projects.len(),
{
    lemma_project_steps_count(projects.drop_last());
    if i < projects.len() - 1 {
        lemma_project_steps_in_pairs(projects.drop_last(), i);
    }
}

/// Each project accounts for two steps.
pub proof fn lemma_project_steps_count(projects: Seq<ProjectView>)
    ensures
        steps_of_projects(projects).len() == 2 * projects.len(),
    decreases projects.len(),
{
    if projects.len() > 0 {
        lemma_project_steps_count(projects.drop_last());
    }
}

/// In the run of any request, a template is copied only into a directory
/// that the step before has reset.
pub proof fn lemma_reset_before_replicate(request: RequestView, k: int)
    requires
        planned(request) is Ok,
        0 <= k < planned(request)->Ok_0.len(),
        planned(request)->Ok_0[k] is Replicate,
    ensures
        k > 0,
        planned(request)->Ok_0[k - 1] == (StepView::Reset {
            path: planned(request)->Ok_0[k]->dst,
        }),
{
    let steps = planned(request)->Ok_0;
    let inner = steps_of_projects(request.projects);
    lemma_project_steps_count(request.projects);
    let offset: int = if request.is_monorepo { 1 } else { 0 };
    assert(0 <= k - offset < inner.len() && steps[k] == inner[k - offset]) by {
        if request.is_monorepo {
            assert(k != 0);
            assert(k < 1 + inner.len());
        }
    }
    let j = k - offset;
    let i = j / 2;
    lemma_project_steps_in_pairs(request.projects, i);
    assert(j == 2 * i + 1);
    assert(steps[k - 1] == inner[2 * i]);
}

/// Writes the workspace membership file for the projects, in list order.
pub fn workspace_document(projects: &Vec<Project>) -> (text: String)
    ensures
        text@ == workspace_text(names_of(project_views(projects@))),
{
    let ghost names = names_of(project_views(projects@));
    let mut text = "packages:\n".to_owned();
    let mut i: usize = 0;
    while i < projects.len()
        invariant
            i <= projects.len(),
            names == names_of(project_views(projects@)),
            text@ == "packages:\n"@ + workspace_lines(names.take(i as int)),
        decreases projects.len() - i,
    {
        text.append("  - ");
        text.append(projects[i].name.as_str());
        text.append("\n");
        proof {
            let next = names.take(i + 1);
            assert(next.drop_last() =~= names.take(i as int));
            assert(next.last() == projects[i as int].name@);
        }
        i = i + 1;
    }
    assert(names.take(i as int) =~= names);
    text
}

/// Writes the root manifest of a monorepo.
pub fn root_manifest(monorepo_name: &str) -> (r: Result<String, ScaffoldError>)
    ensures
        match r {
            Ok(text) => root_manifest_text(monorepo_name@) == Ok::<Seq<char>, ScaffoldError>(
                text@,
            ),
            Err(e) => root_manifest_text(monorepo_name@) == Err::<Seq<char>, ScaffoldError>(e),
        },
{
    let mut manifest = Manifest::empty();
    manifest.set_name(monorepo_name);
    manifest.render()
}

/// Appends the two steps of each project, in list order.
fn push_project_steps(steps: &mut Vec<Step>, projects: &Vec<Project>)
    ensures
        step_views(final(steps)@) == step_views(old(steps)@) + steps_of_projects(
            project_views(projects@),
        ),
{
    let ghost before = step_views(steps@);
    let ghost views = project_views(projects@);
    let mut i: usize = 0;
    assert(views.take(0) =~= Seq::<ProjectView>::empty());
    assert(step_views(steps@) =~= before + steps_of_projects(views.take(0)));
    while i < projects.len()
        invariant
            i <= projects.len(),
            views == project_views(projects@),
            step_views(steps@) == before + steps_of_projects(views.take(i as int)),
        decreases projects.len() - i,
    {
        let project = &projects[i];
        let ghost so_far = step_views(steps@);
        steps.push(Step::Reset { path: project.dst.clone() });
        steps.push(
            Step::Replicate {
                template: project.template_path.clone(),
                dst: project.dst.clone(),
                name: project.name.clone(),
            },
        );
        proof {
            let next = views.take(i + 1);
            assert(next.drop_last() =~= views.take(i as int));
            assert(next.last() == project@);
            assert(step_views(steps@) =~= so_far + project_steps(project@));
            assert(before + steps_of_projects(views.take(i as int)) + project_steps(project@)
                =~= before + (steps_of_projects(views.take(i as int)) + project_steps(
                project@,
            )));
        }
        i = i + 1;
    }
    assert(views.take(i as int) =~= views);
}

/// Lays out the run for a request: which directories are reset, which
/// templates are copied where, and which files are written at a monorepo
/// root. Nothing is touched; whoever performs the steps does so in order.
///
/// Fails with `InvalidRequest` exactly when the request is not valid.
pub fn generate(request: &GenerationRequest) -> (r: Result<Vec<Step>, ScaffoldError>)
    ensures
        match r {
            Ok(steps) => planned(request@) == Ok::<Seq<StepView>, ScaffoldError>(
                step_views(steps@),
            ),
            Err(e) => planned(request@) == Err::<Seq<StepView>, ScaffoldError>(e),
        },
{
    if !request.is_valid() {
        return Err(ScaffoldError::InvalidRequest);
    }
    let mut steps: Vec<Step> = Vec::new();
    if !request.is_monorepo {
        push_project_steps(&mut steps, &request.projects);
        assert(step_views(steps@) =~= steps_of_projects(request@.projects));
        return Ok(steps);
    }
    let manifest = match root_manifest(request.monorepo_name.as_str()) {
        Ok(text) => text,
        Err(e) => { return Err(e); },
    };
    let root = PathParts::from_part(request.monorepo_name.as_str());
    steps.push(Step::Reset { path: root.clone() });
    assert(step_views(steps@) =~= seq![StepView::Reset { path: seq![request@.monorepo_name] }]);
    push_project_steps(&mut steps, &request.projects);
    let ghost middle = step_views(steps@);
    let workspace = workspace_document(&request.projects);
    let manifest_path = root.join(PACKAGE_JSON);
    let workspace_path = root.join(PNPM_WORKSPACE_YAML);
    assert(manifest_path@ =~= seq![request@.monorepo_name, PACKAGE_JSON@]);
    assert(workspace_path@ =~= seq![request@.monorepo_name, PNPM_WORKSPACE_YAML@]);
    let ghost written = seq![
        StepView::Write { path: manifest_path@, content: manifest@ },
        StepView::Write { path: workspace_path@, content: workspace@ },
    ];
    steps.push(Step::Write { path: manifest_path, content: manifest });
    steps.push(Step::Write { path: workspace_path, content: workspace });
    assert(step_views(steps@) =~= middle + written);
    Ok(steps)
}

} // verus!
