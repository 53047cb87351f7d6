use genjp::path::PathParts;

#[test]
fn path_from_parts() {
    assert_eq!(PathParts::new().parts, Vec::<String>::new());
    assert_eq!(PathParts::from_part("a").parts, vec!["a".to_string()]);
    assert_eq!(
        PathParts::from_part("a").join("b").join("c").parts,
        vec!["a".to_string(), "b".to_string(), "c".to_string()]
    );
}

#[test]
fn join_leaves_the_shorter_path_alone() {
    let base = PathParts::from_part("a");
    let longer = base.join("b");
    assert_eq!(base.parts.len(), 1);
    assert_eq!(longer.parts.len(), 2);
}

#[test]
fn same_as_compares_part_by_part() {
    let a = PathParts::from_part("x").join("y");
    assert!(a.same_as(&a.clone()));
    assert!(!a.same_as(&PathParts::from_part("x")));
    assert!(!a.same_as(&PathParts::from_part("x").join("z")));
    assert!(!a.same_as(&PathParts::from_part("xy")));
    assert!(PathParts::new().same_as(&PathParts::new()));
}
