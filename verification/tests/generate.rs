use genjp::error::ScaffoldError;
use genjp::generate::{generate, root_manifest, workspace_document, Step};
use genjp::path::PathParts;
use genjp::request::{destination, GenerationRequest, Project};

fn path(parts: &[&str]) -> PathParts {
    PathParts { parts: parts.iter().map(|p| p.to_string()).collect() }
}

fn member(monorepo: &str, name: &str) -> Project {
    Project::new(name.to_string(), path(&[monorepo, name]), path(&["/templates", name]))
}

fn monorepo(name: &str, projects: Vec<Project>) -> GenerationRequest {
    GenerationRequest { is_monorepo: true, monorepo_name: name.to_string(), projects }
}

fn single(project: Project) -> GenerationRequest {
    GenerationRequest { is_monorepo: false, monorepo_name: String::new(), projects: vec![project] }
}

#[test]
fn monorepo_run_writes_manifest_and_workspace() {
    let request = monorepo("acme", vec![member("acme", "api"), member("acme", "web")]);
    let steps = generate(&request).unwrap();
    assert_eq!(
        steps,
        vec![
            Step::Reset { path: path(&["acme"]) },
            Step::Reset { path: path(&["acme", "api"]) },
            Step::Replicate {
                template: path(&["/templates", "api"]),
                dst: path(&["acme", "api"]),
                name: "api".to_string(),
            },
            Step::Reset { path: path(&["acme", "web"]) },
            Step::Replicate {
                template: path(&["/templates", "web"]),
                dst: path(&["acme", "web"]),
                name: "web".to_string(),
            },
            Step::Write {
                path: path(&["acme", "package.json"]),
                content: "{\n  \"name\": \"acme\"\n}".to_string(),
            },
            Step::Write {
                path: path(&["acme", "pnpm-workspace.yaml"]),
                content: "packages:\n  - api\n  - web\n".to_string(),
            },
        ]
    );
}

#[test]
fn monorepo_manifest_parses_to_its_name() {
    let text = root_manifest("acme").unwrap();
    let value: serde_json::Value = serde_json::from_str(&text).unwrap();
    let object = value.as_object().unwrap();
    assert_eq!(object.len(), 1);
    assert_eq!(object.get("name"), Some(&serde_json::Value::from("acme")));
}

#[test]
fn single_project_run() {
    let project =
        Project::new("myapp".to_string(), path(&["myapp"]), path(&["/templates", "default"]));
    let steps = generate(&single(project)).unwrap();
    assert_eq!(
        steps,
        vec![
            Step::Reset { path: path(&["myapp"]) },
            Step::Replicate {
                template: path(&["/templates", "default"]),
                dst: path(&["myapp"]),
                name: "myapp".to_string(),
            },
        ]
    );
}

#[test]
fn destination_is_reset_before_it_is_filled() {
    let request = monorepo("acme", vec![member("acme", "a"), member("acme", "b"), member("acme", "c")]);
    let steps = generate(&request).unwrap();
    assert_eq!(steps[0], Step::Reset { path: path(&["acme"]) });
    for (i, step) in steps.iter().enumerate() {
        if let Step::Replicate { dst, .. } = step {
            assert_eq!(steps[i - 1], Step::Reset { path: dst.clone() });
        }
    }
}

#[test]
fn monorepo_without_projects() {
    let steps = generate(&monorepo("acme", vec![])).unwrap();
    assert_eq!(
        steps,
        vec![
            Step::Reset { path: path(&["acme"]) },
            Step::Write {
                path: path(&["acme", "package.json"]),
                content: "{\n  \"name\": \"acme\"\n}".to_string(),
            },
            Step::Write {
                path: path(&["acme", "pnpm-workspace.yaml"]),
                content: "packages:\n".to_string(),
            },
        ]
    );
}

#[test]
fn empty_project_name_is_rejected() {
    let project = Project::new(String::new(), path(&[""]), path(&["/templates", "default"]));
    assert_eq!(generate(&single(project)), Err(ScaffoldError::InvalidRequest));
    let request = monorepo("acme", vec![member("acme", "api"), member("acme", "")]);
    assert_eq!(generate(&request), Err(ScaffoldError::InvalidRequest));
}

#[test]
fn empty_monorepo_name_is_rejected() {
    assert_eq!(generate(&monorepo("", vec![])), Err(ScaffoldError::InvalidRequest));
    assert_eq!(generate(&monorepo("", vec![member("", "api")])), Err(ScaffoldError::InvalidRequest));
}

#[test]
fn single_run_needs_exactly_one_project() {
    let none = GenerationRequest { is_monorepo: false, monorepo_name: String::new(), projects: vec![] };
    assert_eq!(generate(&none), Err(ScaffoldError::InvalidRequest));
    let a = Project::new("a".to_string(), path(&["a"]), path(&["/t", "x"]));
    let b = Project::new("b".to_string(), path(&["b"]), path(&["/t", "x"]));
    let two = GenerationRequest { is_monorepo: false, monorepo_name: String::new(), projects: vec![a, b] };
    assert_eq!(generate(&two), Err(ScaffoldError::InvalidRequest));
}

#[test]
fn repeated_project_name_is_rejected() {
    let request = monorepo("acme", vec![member("acme", "api"), member("acme", "web"), member("acme", "api")]);
    assert!(!request.is_valid());
    assert_eq!(generate(&request), Err(ScaffoldError::InvalidRequest));
}

#[test]
fn misplaced_destination_is_rejected() {
    let stray = Project::new("api".to_string(), path(&["api"]), path(&["/t", "x"]));
    assert_eq!(generate(&monorepo("acme", vec![stray])), Err(ScaffoldError::InvalidRequest));
    let nested = Project::new("api".to_string(), path(&["acme", "api"]), path(&["/t", "x"]));
    assert_eq!(generate(&single(nested)), Err(ScaffoldError::InvalidRequest));
    let other = Project::new("api".to_string(), path(&["web"]), path(&["/t", "x"]));
    assert_eq!(generate(&single(other)), Err(ScaffoldError::InvalidRequest));
}

#[test]
fn monorepo_name_is_unused_in_a_single_run() {
    let project = Project::new("myapp".to_string(), path(&["myapp"]), path(&["/t", "x"]));
    let request = GenerationRequest {
        is_monorepo: false,
        monorepo_name: "ignored".to_string(),
        projects: vec![project],
    };
    assert!(request.is_valid());
    assert_eq!(generate(&request).unwrap().len(), 2);
}

#[test]
fn workspace_lists_names_as_they_are() {
    let projects = vec![member("m", "a: b"), member("m", "- c")];
    assert_eq!(workspace_document(&projects), "packages:\n  - a: b\n  - - c\n");
    assert_eq!(workspace_document(&vec![]), "packages:\n");
}

#[test]
fn only_a_failed_reset_lets_the_run_go_on() {
    assert!(!Step::Reset { path: path(&["a"]) }.failure_ends_run());
    assert!(Step::Replicate { template: path(&["t"]), dst: path(&["a"]), name: "a".to_string() }
        .failure_ends_run());
    assert!(Step::Write { path: path(&["a"]), content: String::new() }.failure_ends_run());
}

#[test]
fn destination_by_mode() {
    assert_eq!(destination(true, "acme", "api"), path(&["acme", "api"]));
    assert_eq!(destination(false, "acme", "api"), path(&["api"]));
}

#[test]
fn project_new_keeps_its_arguments() {
    let project = Project::new("n".to_string(), path(&["d"]), path(&["t", "u"]));
    assert_eq!(project.name, "n");
    assert_eq!(project.dst, path(&["d"]));
    assert_eq!(project.template_path, path(&["t", "u"]));
    assert_eq!(project.clone(), project);
}
