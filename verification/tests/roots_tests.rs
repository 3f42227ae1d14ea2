use file_gateway::roots::{get_allowed_dirs, is_allowed_under};
use std::io::Write;

#[test]
fn allowed_roots_are_at_most_three() {
    let roots = get_allowed_dirs();
    assert!(roots.len() <= 3);
}

#[test]
fn existing_file_inside_a_root_is_allowed() {
    let root = tempfile::tempdir().unwrap();
    let mut file = tempfile::Builder::new()
        .suffix(".json")
        .tempfile_in(root.path())
        .unwrap();
    file.write_all(b"{}").unwrap();
    let path = file.path().to_str().unwrap().to_owned();
    let roots = vec![root.path().to_str().unwrap().to_owned()];
    assert!(is_allowed_under(&path, &roots));
}

#[test]
fn new_file_whose_parent_is_inside_a_root_is_allowed() {
    let root = tempfile::tempdir().unwrap();
    let path = format!("{}/not_yet_created.json", root.path().to_str().unwrap());
    let roots = vec![root.path().to_str().unwrap().to_owned()];
    assert!(is_allowed_under(&path, &roots));
}

#[test]
fn new_file_whose_parent_is_outside_every_root_is_rejected() {
    let root = tempfile::tempdir().unwrap();
    let elsewhere = tempfile::tempdir().unwrap();
    let path = format!("{}/not_yet_created.json", elsewhere.path().to_str().unwrap());
    let roots = vec![root.path().to_str().unwrap().to_owned()];
    assert!(!is_allowed_under(&path, &roots));
}

#[test]
fn dot_dot_segments_resolving_outside_are_rejected() {
    let root = tempfile::tempdir().unwrap();
    let root_str = root.path().to_str().unwrap().to_owned();
    // A naive string-prefix check would accept both of these.
    let escape_existing = format!(
        "{}/../../../../../../../../../../etc/passwd",
        root_str
    );
    assert!(!is_allowed_under(&escape_existing, &vec![root_str.clone()]));
    let escape_new = format!("{}/../escape.json", root_str);
    assert!(!is_allowed_under(&escape_new, &vec![root_str]));
}

#[test]
fn sibling_directory_of_a_root_is_rejected() {
    let parent = tempfile::tempdir().unwrap();
    let downloads = tempfile::Builder::new()
        .prefix("Downloads")
        .rand_bytes(0)
        .tempdir_in(parent.path())
        .unwrap();
    let downloads2 = tempfile::Builder::new()
        .prefix("Downloads2")
        .rand_bytes(0)
        .tempdir_in(parent.path())
        .unwrap();
    let roots = vec![downloads.path().to_str().unwrap().to_owned()];
    let inside = format!("{}/out.json", downloads.path().to_str().unwrap());
    let sibling = format!("{}/out.json", downloads2.path().to_str().unwrap());
    assert!(is_allowed_under(&inside, &roots));
    assert!(!is_allowed_under(&sibling, &roots));
}

#[test]
fn unresolvable_path_is_rejected() {
    let root = tempfile::tempdir().unwrap();
    let roots = vec![root.path().to_str().unwrap().to_owned()];
    assert!(!is_allowed_under(
        "/no_such_directory_anywhere/deep/file.json",
        &roots
    ));
}

#[test]
fn with_no_roots_nothing_is_allowed() {
    let roots: Vec<String> = vec![];
    assert!(!is_allowed_under("/etc/passwd", &roots));
    assert!(!is_allowed_under("file.json", &roots));
}

#[test]
fn resolved_candidate_is_judged_against_each_canonical_root() {
    let resolved = Some("/home/u/Downloads/f.json".to_owned());
    let roots = vec!["/home/u/Desktop".to_owned(), "/home/u/Downloads".to_owned()];
    assert!(file_gateway::roots::is_allowed_resolved(&resolved, &roots));
    let sibling = Some("/home/u/Downloads2/f.json".to_owned());
    assert!(!file_gateway::roots::is_allowed_resolved(&sibling, &roots));
}

#[test]
fn unresolved_candidate_is_always_refused() {
    let roots = vec!["/home/u/Downloads".to_owned()];
    assert!(!file_gateway::roots::is_allowed_resolved(&None, &roots));
    assert!(!file_gateway::roots::is_allowed_resolved(&None, &vec![]));
}

#[test]
fn containment_fold_finds_any_matching_root() {
    let roots = vec!["/a".to_owned(), "/b".to_owned(), "/c".to_owned()];
    assert!(file_gateway::roots::roots_match("/b/x.json", &roots));
    assert!(!file_gateway::roots::roots_match("/d/x.json", &roots));
    assert!(!file_gateway::roots::roots_match("/b/x.json", &vec![]));
}
