//! The questions that lead to a request, and what each answer does.
//!
//! A `Prompt` asks nothing itself. It says which question comes next, and
//! takes the answer as a value; whoever talks to the user puts the question
//! and hands the answer back.

use vstd::prelude::*;
use crate::catalog::{resolve, CatalogView, TemplateCatalog};
use crate::request::{
    all_fit, destination, destination_of, distinct, names_of, project_views, valid_request,
    GenerationRequest, Project, ProjectView, RequestView,
};
use crate::text::{lowercased, same_text, to_lowercase};

verus! {

/// The word that ends the list of a monorepo's projects, in lower case.
pub const EXIT: &'static str = "exit";

/// What is asked next.
#[derive(Clone, Copy, Debug, PartialEq, Eq, Structural)]
pub enum Question {
    /// Whether the projects share a monorepo root.
    IsMonorepo,
    /// The name of the monorepo.
    MonorepoName,
    /// Which template the project is made from.
    Template,
    /// The name of the project. With a default, an empty answer stands for
    /// the word that ends the list.
    ProjectName { with_default: bool },
    /// Nothing: the request is complete.
    Done,
}

/// An answer to one of the two questions about a project.
#[derive(Debug, PartialEq, Eq)]
pub enum ProjectAnswer {
    /// The place of the chosen template in the catalog.
    Template(usize),
    /// The name that was entered.
    Name(String),
}

/// How far the questions have come, as contracts see it.
pub enum StageView {
    IsMonorepo,
    MonorepoName,
    SingleTemplate,
    SingleName { template: usize },
    MemberName,
    MemberTemplate { name: Seq<char> },
    Done,
}

enum Stage {
    IsMonorepo,
    MonorepoName,
    SingleTemplate,
    SingleName { template: usize },
    MemberName,
    MemberTemplate { name: String },
    Done,
}

impl View for Stage {
    type V = StageView;

    closed spec fn view(&self) -> StageView {
        match *self {
            Stage::IsMonorepo => StageView::IsMonorepo,
            Stage::MonorepoName => StageView::MonorepoName,
            Stage::SingleTemplate => StageView::SingleTemplate,
            Stage::SingleName { template } => StageView::SingleName { template },
            Stage::MemberName => StageView::MemberName,
            Stage::MemberTemplate { name } => StageView::MemberTemplate { name: name@ },
            Stage::Done => StageView::Done,
        }
    }
}

/// A prompt, as contracts see it.
pub struct PromptView {
    pub catalog: CatalogView,
    pub stage: StageView,
    pub is_monorepo: bool,
    pub monorepo_name: Seq<char>,
    pub projects: Seq<ProjectView>,
}

/// The question that a stage asks. A single project is asked for its
/// template first and then for its name; a member of a monorepo for its
/// name first, since the name may end the list.
pub open spec fn question_at(stage: StageView) -> Question {
    match stage {
        StageView::IsMonorepo => Question::IsMonorepo,
        StageView::MonorepoName => Question::MonorepoName,
        StageView::SingleTemplate => Question::Template,
        StageView::SingleName { .. } => Question::ProjectName { with_default: false },
        StageView::MemberName => Question::ProjectName { with_default: true },
        StageView::MemberTemplate { .. } => Question::Template,
        StageView::Done => Question::Done,
    }
}

/// The prompt before the first question.
pub open spec fn start(catalog: CatalogView) -> PromptView {
    PromptView {
        catalog,
        stage: StageView::IsMonorepo,
        is_monorepo: false,
        monorepo_name: Seq::empty(),
        projects: Seq::empty(),
    }
}

/// The prompt after the answer to whether the projects share a monorepo.
pub open spec fn confirmed(prompt: PromptView, answer: bool) -> PromptView {
    if prompt.stage is IsMonorepo {
        PromptView {
            is_monorepo: answer,
            stage: if answer {
                StageView::MonorepoName
            } else {
                StageView::SingleTemplate
            },
            ..prompt
        }
    } else {
        prompt
    }
}

/// The prompt after the monorepo's name was entered. An empty name is not
/// taken: the question stays.
pub open spec fn monorepo_named(prompt: PromptView, name: Seq<char>) -> PromptView {
    if prompt.stage is MonorepoName && name.len() > 0 {
        PromptView { monorepo_name: name, stage: StageView::MemberName, ..prompt }
    } else {
        prompt
    }
}

/// The project of the given name, made from the template at `index`.
pub open spec fn project_for(prompt: PromptView, name: Seq<char>, index: usize) -> ProjectView {
    ProjectView {
        name,
        dst: destination_of(prompt.is_monorepo, prompt.monorepo_name, name),
        template_path: seq![prompt.catalog.root, prompt.catalog.names[index as int]],
    }
}

/// The prompt after a template was chosen. A place that the catalog does
/// not have is not taken: the question stays.
pub open spec fn template_chosen(prompt: PromptView, index: usize) -> PromptView {
    if index >= prompt.catalog.names.len() {
        prompt
    } else {
        match prompt.stage {
            StageView::SingleTemplate => PromptView {
                stage: StageView::SingleName { template: index },
                ..prompt
            },
            StageView::MemberTemplate { name } => PromptView {
                stage: StageView::MemberName,
                projects: prompt.projects.push(project_for(prompt, name, index)),
                ..prompt
            },
            _ => prompt,
        }
    }
}

/// The prompt after a project's name was entered; `lowered` is the name in
/// lower case. In a monorepo the word `exit`, in any case, ends the list.
/// An empty name, or one that a project of the monorepo has already, is not
/// taken: the question stays.
pub open spec fn project_named(prompt: PromptView, name: Seq<char>, lowered: Seq<char>) -> PromptView {
    match prompt.stage {
        StageView::SingleName { template } => if name.len() == 0 {
            prompt
        } else {
            PromptView {
                stage: StageView::Done,
                projects: prompt.projects.push(project_for(prompt, name, template)),
                ..prompt
            }
        },
        StageView::MemberName => if lowered == EXIT@ {
            PromptView { stage: StageView::Done, ..prompt }
        } else if name.len() == 0 || names_of(prompt.projects).contains(name) {
            prompt
        } else {
            PromptView { stage: StageView::MemberTemplate { name }, ..prompt }
        },
        _ => prompt,
    }
}

/// The request that the answers so far add up to.
pub open spec fn request_of(prompt: PromptView) -> RequestView {
    RequestView {
        is_monorepo: prompt.is_monorepo,
        monorepo_name: prompt.monorepo_name,
        projects: prompt.projects,
    }
}

/// What holds of a prompt at every stage: its projects fit the request, a
/// monorepo's projects differ in name, and the stage agrees with what has
/// been answered.
pub open spec fn coherent(prompt: PromptView) -> bool {
    &&& all_fit(prompt.is_monorepo, prompt.monorepo_name, prompt.projects)
    &&& prompt.is_monorepo ==> distinct(names_of(prompt.projects))
    &&& match prompt.stage {
        StageView::IsMonorepo => !prompt.is_monorepo && prompt.projects.len() == 0,
        StageView::MonorepoName => prompt.is_monorepo && prompt.projects.len() == 0,
        StageView::SingleTemplate => !prompt.is_monorepo && prompt.projects.len() == 0,
        StageView::SingleName { template } => !prompt.is_monorepo && prompt.projects.len() == 0
            && template < prompt.catalog.names.len(),
        StageView::MemberName => prompt.is_monorepo && prompt.monorepo_name.len() > 0,
        StageView::MemberTemplate { name } => prompt.is_monorepo && prompt.monorepo_name.len() > 0
            && name.len() > 0 && !names_of(prompt.projects).contains(name),
        StageView::Done => if prompt.is_monorepo {
            prompt.monorepo_name.len() > 0
        } else {
            prompt.projects.len() == 1
        },
    }
}

/// A prompt is coherent before the first question.
pub proof fn lemma_start_coherent(catalog: CatalogView)
    ensures
        coherent(start(catalog)),
{
}

/// No answer to the first question breaks coherence.
pub proof fn lemma_confirmed_coherent(prompt: PromptView, answer: bool)
    requires
        coherent(prompt),
    ensures
        coherent(confirmed(prompt, answer)),
{
}

/// No monorepo name breaks coherence.
pub proof fn lemma_monorepo_named_coherent(prompt: PromptView, name: Seq<char>)
    requires
        coherent(prompt),
    ensures
        coherent(monorepo_named(prompt, name)),
{
}

/// Adding a project that fits keeps the projects fitting, and keeps their
/// names distinct if the new name was not taken.
proof fn lemma_push_project(prompt: PromptView, name: Seq<char>, index: usize)
    requires
        all_fit(prompt.is_monorepo, prompt.monorepo_name, prompt.projects),
        prompt.is_monorepo ==> distinct(names_of(prompt.projects)),
        name.len() > 0,
        !names_of(prompt.projects).contains(name),
    ensures
        all_fit(
            prompt.is_monorepo,
            prompt.monorepo_name,
            prompt.projects.push(project_for(prompt, name, index)),
        ),
        prompt.is_monorepo ==> distinct(
            names_of(prompt.projects.push(project_for(prompt, name, index))),
        ),
{
    let added = prompt.projects.push(project_for(prompt, name, index));
    assert forall|i: int| 0 <= i < added.len() implies crate::request::project_fits(
        prompt.is_monorepo,
        prompt.monorepo_name,
        #[trigger] added[i],
    ) by {
        if i < prompt.projects.len() {
            assert(added[i] == prompt.projects[i]);
        }
    }
    if prompt.is_monorepo {
        let before = names_of(prompt.projects);
        assert forall|i: int, j: int| 0 <= i < j < added.len() implies names_of(added)[i]
            != names_of(added)[j] by {
            assert(names_of(added)[i] == before[i]);
            if j < prompt.projects.len() {
                assert(names_of(added)[j] == before[j]);
            } else {
                assert(names_of(added)[j] == name);
                assert(before.contains(before[i]));
            }
        }
    }
}

/// No choice of a template breaks coherence.
pub proof fn lemma_template_chosen_coherent(prompt: PromptView, index: usize)
    requires
        coherent(prompt),
    ensures
        coherent(template_chosen(prompt, index)),
{
    if index < prompt.catalog.names.len() {
        if let StageView::MemberTemplate { name } = prompt.stage {
            lemma_push_project(prompt, name, index);
        }
    }
}

/// No project name breaks coherence.
pub proof fn lemma_project_named_coherent(prompt: PromptView, name: Seq<char>, lowered: Seq<char>)
    requires
        coherent(prompt),
    ensures
        coherent(project_named(prompt, name, lowered)),
{
    if let StageView::SingleName { template } = prompt.stage {
        if name.len() > 0 {
            assert(names_of(prompt.projects) =~= Seq::<Seq<char>>::empty());
            lemma_push_project(prompt, name, template);
        }
    }
}

/// Once the questions are done, the answers add up to a valid request.
pub proof fn lemma_done_is_valid(prompt: PromptView)
    requires
        coherent(prompt),
        prompt.stage is Done,
    ensures
        valid_request(request_of(prompt)),
{
}

/// The answers given so far, and the question that comes next.
pub struct Prompt {
    catalog: TemplateCatalog,
    stage: Stage,
    is_monorepo: bool,
    monorepo_name: String,
    projects: Vec<Project>,
}

impl View for Prompt {
    type V = PromptView;

    closed spec fn view(&self) -> PromptView {
        PromptView {
            catalog: self.catalog@,
            stage: self.stage@,
            is_monorepo: self.is_monorepo,
            monorepo_name: self.monorepo_name@,
            projects: project_views(self.projects@),
        }
    }
}

impl Prompt {
    #[verifier::type_invariant]
    spec fn is_coherent(self) -> bool {
        coherent(self@)
    }

    /// A prompt over the templates found below `templates_path`, before the
    /// first question.
    pub fn new(templates_path: String, templates: Vec<String>) -> (prompt: Prompt)
        ensures
            prompt@ == start(
                CatalogView { root: templates_path@, names: templates.deep_view() },
            ),
    {
        let prompt = Prompt {
            catalog: TemplateCatalog { root: templates_path, names: templates },
            stage: Stage::IsMonorepo,
            is_monorepo: false,
            monorepo_name: String::new(),
            projects: Vec::new(),
        };
        assert(prompt@.projects =~= Seq::<ProjectView>::empty());
        prompt
    }

    /// The question to put next.
    pub fn next_question(&self) -> (question: Question)
        ensures
            question == question_at(self@.stage),
    {
        match &self.stage {
            Stage::IsMonorepo => Question::IsMonorepo,
            Stage::MonorepoName => Question::MonorepoName,
            Stage::SingleTemplate => Question::Template,
            Stage::SingleName { .. } => Question::ProjectName { with_default: false },
            Stage::MemberName => Question::ProjectName { with_default: true },
            Stage::MemberTemplate { .. } => Question::Template,
            Stage::Done => Question::Done,
        }
    }

    /// The names of the templates to choose from, in catalog order.
    pub fn templates(&self) -> (names: &Vec<String>)
        ensures
            names.deep_view() == self@.catalog.names,
    {
        &self.catalog.names
    }

    /// Whether the projects share a monorepo root, as answered so far.
    pub fn is_monorepo(&self) -> (answer: bool)
        ensures
            answer == self@.is_monorepo,
    {
        self.is_monorepo
    }

    /// The monorepo's name, empty until it is entered.
    pub fn monorepo_name(&self) -> (name: &String)
        ensures
            name@ == self@.monorepo_name,
    {
        &self.monorepo_name
    }

    /// The projects entered so far, in the order of entry.
    pub fn projects(&self) -> (projects: &Vec<Project>)
        ensures
            project_views(projects@) == self@.projects,
    {
        &self.projects
    }

    /// Takes the answer to whether the projects share a monorepo root.
    pub fn confirm_is_monorepo(self, answer: bool) -> (next: Prompt)
        ensures
            next@ == confirmed(self@, answer),
    {
        proof {
            use_type_invariant(&self);
            lemma_confirmed_coherent(self@, answer);
        }
        match self.stage {
            Stage::IsMonorepo => Prompt {
                catalog: self.catalog,
                stage: if answer {
                    Stage::MonorepoName
                } else {
                    Stage::SingleTemplate
                },
                is_monorepo: answer,
                monorepo_name: self.monorepo_name,
                projects: self.projects,
            },
            _ => self,
        }
    }

    /// Takes the monorepo's name.
    pub fn enter_monorepo_name(self, answer: String) -> (next: Prompt)
        ensures
            next@ == monorepo_named(self@, answer@),
    {
        proof {
            use_type_invariant(&self);
            lemma_monorepo_named_coherent(self@, answer@);
        }
        match self.stage {
            Stage::MonorepoName => {
                if answer.as_str().is_empty() {
                    self
                } else {
                    Prompt {
                        catalog: self.catalog,
                        stage: Stage::MemberName,
                        is_monorepo: self.is_monorepo,
                        monorepo_name: answer,
                        projects: self.projects,
                    }
                }
            },
            _ => self,
        }
    }

    /// Builds the project of the given name from the template at `index`.
    fn make_project(&self, name: &String, index: usize) -> (project: Project)
        requires
            index < self@.catalog.names.len(),
        ensures
            project@ == project_for(self@, name@, index),
    {
        let dst = destination(self.is_monorepo, self.monorepo_name.as_str(), name.as_str());
        let template_path = resolve(
            self.catalog.root.as_str(),
            self.catalog.names[index].as_str(),
        );
        Project::new(name.clone(), dst, template_path)
    }

    /// Takes the choice of a template, as its place in the catalog.
    pub fn choose_template(self, index: usize) -> (next: Prompt)
        ensures
            next@ == template_chosen(self@, index),
    {
        proof {
            use_type_invariant(&self);
            lemma_template_chosen_coherent(self@, index);
        }
        if index >= self.catalog.names.len() {
            return self;
        }
        match &self.stage {
            Stage::SingleTemplate => Prompt {
                catalog: self.catalog,
                stage: Stage::SingleName { template: index },
                is_monorepo: self.is_monorepo,
                monorepo_name: self.monorepo_name,
                projects: self.projects,
            },
            Stage::MemberTemplate { name } => {
                let project = self.make_project(name, index);
                let ghost before = self@.projects;
                let mut projects = self.projects;
                projects.push(project);
                assert(project_views(projects@) =~= before.push(project@));
                Prompt {
                    catalog: self.catalog,
                    stage: Stage::MemberName,
                    is_monorepo: self.is_monorepo,
                    monorepo_name: self.monorepo_name,
                    projects,
                }
            },
            _ => self,
        }
    }

    /// Whether a project of the prompt has the given name.
    fn has_project(&self, name: &String) -> (taken: bool)
        ensures
            taken == names_of(self@.projects).contains(name@),
    {
        let ghost names = names_of(self@.projects);
        let mut i: usize = 0;
        while i < self.projects.len()
            invariant
                i <= self.projects.len(),
                names == names_of(self@.projects),
                names.len() == self.projects.len(),
                forall|j: int| 0 <= j < i ==> names[j] != name@,
            decreases self.projects.len() - i,
        {
            assert(names[i as int] == self.projects[i as int].name@);
            if self.projects[i].name == *name {
                return true;
            }
            i = i + 1;
        }
        false
    }

    /// Takes a project's name, together with the same name in lower case.
    pub fn name_project(self, name: String, lowered: &str) -> (next: Prompt)
        ensures
            next@ == project_named(self@, name@, lowered@),
    {
        proof {
            use_type_invariant(&self);
            lemma_project_named_coherent(self@, name@, lowered@);
        }
        match &self.stage {
            Stage::SingleName { template } => {
                if name.as_str().is_empty() {
                    return self;
                }
                let project = self.make_project(&name, *template);
                let ghost before = self@.projects;
                let mut projects = self.projects;
                projects.push(project);
                assert(project_views(projects@) =~= before.push(project@));
                Prompt {
                    catalog: self.catalog,
                    stage: Stage::Done,
                    is_monorepo: self.is_monorepo,
                    monorepo_name: self.monorepo_name,
                    projects,
                }
            },
            Stage::MemberName => {
                if same_text(lowered, EXIT) {
                    Prompt {
                        catalog: self.catalog,
                        stage: Stage::Done,
                        is_monorepo: self.is_monorepo,
                        monorepo_name: self.monorepo_name,
                        projects: self.projects,
                    }
                } else if name.as_str().is_empty() || self.has_project(&name) {
                    self
                } else {
                    Prompt {
                        catalog: self.catalog,
                        stage: Stage::MemberTemplate { name },
                        is_monorepo: self.is_monorepo,
                        monorepo_name: self.monorepo_name,
                        projects: self.projects,
                    }
                }
            },
            _ => self,
        }
    }

    /// Takes an answer to one of the two questions about a project. A name
    /// is compared with the word that ends the list in lower case, as
    /// `str::to_lowercase` gives it.
    pub fn setup_projects(self, answer: ProjectAnswer) -> (next: Prompt)
        ensures
            next@ == match answer {
                ProjectAnswer::Template(index) => template_chosen(self@, index),
                ProjectAnswer::Name(name) => project_named(self@, name@, lowercased(name@)),
            },
    {
        match answer {
            ProjectAnswer::Template(index) => self.choose_template(index),
            ProjectAnswer::Name(name) => {
                let lowered = to_lowercase(name.as_str());
                self.name_project(name, lowered.as_str())
            },
        }
    }

    /// The request that the answers add up to. Once the questions are done
    /// it is valid.
    pub fn into_request(self) -> (request: GenerationRequest)
        ensures
            request@ == request_of(self@),
            self@.stage is Done ==> valid_request(request@),
    {
        proof {
            use_type_invariant(&self);
            if self@.stage is Done {
                lemma_done_is_valid(self@);
            }
        }
        GenerationRequest {
            is_monorepo: self.is_monorepo,
            monorepo_name: self.monorepo_name,
            projects: self.projects,
        }
    }
}

} // verus!
