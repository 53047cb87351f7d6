use genjp::rules::{
    is_special_file, should_ignore, SpecialFile, IGNORE_FILES, PACKAGE_JSON, PNPM_WORKSPACE_YAML,
};

#[test]
fn check_special_files() {
    assert_eq!(
        is_special_file(PACKAGE_JSON),
        Some(SpecialFile::PackageJSON)
    );
}

#[test]
fn ignore_files() {
    assert!(!should_ignore(PACKAGE_JSON));
    for item in IGNORE_FILES.iter() {
        assert!(should_ignore(item))
    }
}

#[test]
fn denylist_is_the_two_names() {
    assert_eq!(IGNORE_FILES, ["node_modules", "pnpm-lock.yaml"]);
    assert!(should_ignore("node_modules"));
    assert!(should_ignore("pnpm-lock.yaml"));
}

#[test]
fn names_off_the_denylist_are_kept() {
    assert!(!should_ignore(""));
    assert!(!should_ignore("index.js"));
    assert!(!should_ignore("src"));
    assert!(!should_ignore(PNPM_WORKSPACE_YAML));
}

#[test]
fn ignore_matches_whole_names_only() {
    assert!(!should_ignore("node_modules/"));
    assert!(!should_ignore("node_module"));
    assert!(!should_ignore("Node_Modules"));
    assert!(!should_ignore("a/node_modules"));
    assert!(!should_ignore("pnpm-lock.yaml.bak"));
}

#[test]
fn only_the_manifest_is_special() {
    assert_eq!(is_special_file("package.json"), Some(SpecialFile::PackageJSON));
    assert_eq!(is_special_file("index.js"), None);
    assert_eq!(is_special_file("Package.json"), None);
    assert_eq!(is_special_file("package.json5"), None);
    assert_eq!(is_special_file("package-lock.json"), None);
    assert_eq!(is_special_file(""), None);
    assert_eq!(is_special_file("node_modules"), None);
}
