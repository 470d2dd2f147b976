use forge::ides::combine_active_files;

#[test]
fn answered_files_follow_a_header() {
    let reports = vec![
        Some(vec!["src/a.rs".to_string()]),
        None,
        Some(vec!["src/b.rs".to_string(), "README.md".to_string()]),
    ];
    assert_eq!(
        combine_active_files(&reports),
        vec!["The active files are:", "src/a.rs", "src/b.rs", "README.md"]
    );
}

#[test]
fn no_files_no_header() {
    assert!(combine_active_files(&vec![None, Some(vec![])]).is_empty());
    assert!(combine_active_files(&vec![]).is_empty());
}
