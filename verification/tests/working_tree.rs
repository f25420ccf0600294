use padu::working_tree::order_directory_children;

fn entries(items: &[(&str, bool)]) -> Vec<(String, bool)> {
    items.iter().map(|(n, d)| (n.to_string(), *d)).collect()
}

#[test]
fn directories_come_first_and_names_ignore_case() {
    let mut children = entries(&[
        ("zeta.rs", false),
        (".git", true),
        ("Src", true),
        ("README.md", false),
        ("apps", true),
        ("Cargo.toml", false),
        ("build.rs", false),
    ]);
    order_directory_children(&mut children);
    assert_eq!(
        children,
        entries(&[
            ("apps", true),
            ("Src", true),
            ("build.rs", false),
            ("Cargo.toml", false),
            ("README.md", false),
            ("zeta.rs", false),
        ])
    );
}

#[test]
fn children_that_compare_equal_keep_their_order() {
    let mut children = entries(&[("b", false), ("A", false), ("a", false), ("B", true), (".git", false)]);
    order_directory_children(&mut children);
    assert_eq!(children, entries(&[("B", true), ("A", false), ("a", false), ("b", false)]));
}

#[test]
fn an_empty_directory_stays_empty() {
    let mut children: Vec<(String, bool)> = Vec::new();
    order_directory_children(&mut children);
    assert!(children.is_empty());
}
