use genjp::catalog::{list_templates, resolve, TemplateCatalog};
use genjp::path::PathParts;
use genjp::replicate::{plan_entry, EntryAction, FileOp, ListedEntry, Replicator};
use genjp::rules::SpecialFile;

fn path(parts: &[&str]) -> PathParts {
    PathParts { parts: parts.iter().map(|p| p.to_string()).collect() }
}

fn file(name: &str) -> ListedEntry {
    ListedEntry { name: name.to_string(), is_dir: false }
}

fn dir(name: &str) -> ListedEntry {
    ListedEntry { name: name.to_string(), is_dir: true }
}

/// The entries of a small template, by directory.
fn template(at: &PathParts) -> Vec<ListedEntry> {
    let at: Vec<&str> = at.parts.iter().map(|p| p.as_str()).collect();
    match at.as_slice() {
        [] => vec![
            file("package.json"),
            dir("node_modules"),
            file("index.js"),
            dir("src"),
            file("pnpm-lock.yaml"),
            dir("public"),
        ],
        ["src"] => vec![file("main.js"), dir("node_modules"), dir("lib"), file("package.json")],
        ["src", "lib"] => vec![file("util.js")],
        ["public"] => vec![],
        other => panic!("a directory that is left out was visited: {:?}", other),
    }
}

#[test]
fn entries_by_name_and_kind() {
    assert_eq!(plan_entry("node_modules", true), EntryAction::Skip);
    assert_eq!(plan_entry("node_modules", false), EntryAction::Skip);
    assert_eq!(plan_entry("pnpm-lock.yaml", false), EntryAction::Skip);
    assert_eq!(plan_entry("pnpm-lock.yaml", true), EntryAction::Skip);
    assert_eq!(plan_entry("src", true), EntryAction::Descend);
    assert_eq!(plan_entry("package.json", true), EntryAction::Descend);
    assert_eq!(plan_entry("package.json", false), EntryAction::Rewrite(SpecialFile::PackageJSON));
    assert_eq!(plan_entry("index.js", false), EntryAction::Copy);
}

#[test]
fn a_new_replicator_visits_the_root_first() {
    let mut replicator = Replicator::new();
    assert_eq!(replicator.next_directory(), Some(PathParts::new()));
    assert_eq!(replicator.next_directory(), None);
    assert_eq!(replicator.next_directory(), None);
}

#[test]
fn visit_answers_with_the_files_and_keeps_the_directories() {
    let mut replicator = Replicator::new();
    let root = replicator.next_directory().unwrap();
    let ops = replicator.visit(&root, &template(&root));
    assert_eq!(
        ops,
        vec![
            FileOp::Rewrite { path: path(&["package.json"]), kind: SpecialFile::PackageJSON },
            FileOp::Copy { path: path(&["index.js"]) },
        ]
    );
    assert_eq!(replicator.next_directory(), Some(path(&["public"])));
    assert_eq!(replicator.next_directory(), Some(path(&["src"])));
    assert_eq!(replicator.next_directory(), None);
}

#[test]
fn replication_is_complete_but_for_the_denylist() {
    let mut replicator = Replicator::new();
    let mut visited = Vec::new();
    let mut ops = Vec::new();
    while let Some(dir) = replicator.next_directory() {
        ops.extend(replicator.visit(&dir, &template(&dir)));
        visited.push(dir);
    }
    visited.sort_by(|a, b| a.parts.cmp(&b.parts));
    ops.sort_by(|a, b| format!("{:?}", a).cmp(&format!("{:?}", b)));
    assert_eq!(
        visited,
        vec![path(&[]), path(&["public"]), path(&["src"]), path(&["src", "lib"])]
    );
    assert_eq!(
        ops,
        vec![
            FileOp::Copy { path: path(&["index.js"]) },
            FileOp::Copy { path: path(&["src", "lib", "util.js"]) },
            FileOp::Copy { path: path(&["src", "main.js"]) },
            FileOp::Rewrite { path: path(&["package.json"]), kind: SpecialFile::PackageJSON },
            FileOp::Rewrite { path: path(&["src", "package.json"]), kind: SpecialFile::PackageJSON },
        ]
    );
}

#[test]
fn single_project_template() {
    let mut replicator = Replicator::new();
    let root = replicator.next_directory().unwrap();
    let ops = replicator.visit(&root, &vec![file("package.json"), file("index.js")]);
    assert_eq!(
        ops,
        vec![
            FileOp::Rewrite { path: path(&["package.json"]), kind: SpecialFile::PackageJSON },
            FileOp::Copy { path: path(&["index.js"]) },
        ]
    );
    assert_eq!(replicator.next_directory(), None);
}

#[test]
fn an_empty_directory_gives_nothing() {
    let mut replicator = Replicator::new();
    let ops = replicator.visit(&path(&["a"]), &vec![]);
    assert_eq!(ops, vec![]);
    assert_eq!(replicator.next_directory(), Some(PathParts::new()));
    assert_eq!(replicator.next_directory(), None);
}

#[test]
fn templates_are_the_listed_directories() {
    let entries = vec![dir("react"), file("README.md"), dir("vue"), file("node_modules"), dir("node_modules")];
    assert_eq!(
        list_templates(&entries),
        vec!["react".to_string(), "vue".to_string(), "node_modules".to_string()]
    );
    assert_eq!(list_templates(&vec![]), Vec::<String>::new());
    assert_eq!(list_templates(&vec![file("a"), file("b")]), Vec::<String>::new());
}

#[test]
fn resolve_joins_root_and_name() {
    assert_eq!(resolve("/templates", "react"), path(&["/templates", "react"]));
    assert_eq!(resolve("", ""), path(&["", ""]));
}

#[test]
fn catalog_resolves_by_place() {
    let catalog = TemplateCatalog::from_listing(
        "/templates".to_string(),
        &vec![file("notes.txt"), dir("react"), dir("vue")],
    );
    assert_eq!(catalog.root, "/templates");
    assert_eq!(catalog.names, vec!["react".to_string(), "vue".to_string()]);
    assert_eq!(catalog.template_path(0), Some(path(&["/templates", "react"])));
    assert_eq!(catalog.template_path(1), Some(path(&["/templates", "vue"])));
    assert_eq!(catalog.template_path(2), None);
}
