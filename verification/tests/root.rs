use mustgather::root::{
    cluster_scoped_marker, find_must_gather_root, namespaces_marker, version_marker, DirProbe,
    RootError, RootSearch,
};

fn plain(subdirs: &[&str]) -> DirProbe {
    DirProbe {
        has_version_file: false,
        has_namespaces_dir: false,
        has_cluster_scoped_dir: false,
        subdirs: Some(subdirs.iter().map(|dir| String::from(*dir)).collect()),
    }
}

fn with_version_file(subdirs: &[&str]) -> DirProbe {
    DirProbe { has_version_file: true, ..plain(subdirs) }
}

fn with_both_directories() -> DirProbe {
    DirProbe {
        has_namespaces_dir: true,
        has_cluster_scoped_dir: true,
        ..plain(&["/mg/namespaces", "/mg/cluster-scoped-resources"])
    }
}

fn unreadable() -> DirProbe {
    DirProbe {
        has_version_file: false,
        has_namespaces_dir: false,
        has_cluster_scoped_dir: false,
        subdirs: None,
    }
}

fn found(path: &str) -> Result<RootSearch, RootError> {
    Ok(RootSearch::Found(String::from(path)))
}

fn unseen(path: &str) -> Result<RootSearch, RootError> {
    Ok(RootSearch::Unseen(String::from(path)))
}

#[test]
fn markers_stand_directly_in_the_directory() {
    assert_eq!(version_marker("/mg"), "/mg/version");
    assert_eq!(namespaces_marker("/mg"), "/mg/namespaces");
    assert_eq!(cluster_scoped_marker("/mg"), "/mg/cluster-scoped-resources");
}

#[test]
fn is_root_with_a_version_file() {
    assert!(with_version_file(&[]).is_root());
}

#[test]
fn is_root_with_both_marker_directories() {
    assert!(with_both_directories().is_root());
}

#[test]
fn is_no_root_with_one_marker_directory() {
    let namespaces_only = DirProbe { has_namespaces_dir: true, ..plain(&["/mg/namespaces"]) };
    let cluster_scoped_only =
        DirProbe { has_cluster_scoped_dir: true, ..plain(&["/mg/cluster-scoped-resources"]) };
    assert!(!namespaces_only.is_root());
    assert!(!cluster_scoped_only.is_root());
    assert!(!plain(&[]).is_root());
    assert!(!unreadable().is_root());
}

#[test]
fn search_asks_for_the_start_first() {
    assert_eq!(find_must_gather_root(String::from("/mg"), &Vec::new()), unseen("/mg"));
}

#[test]
fn search_stops_at_a_start_that_is_the_root() {
    assert_eq!(
        find_must_gather_root(String::from("/mg"), &vec![with_version_file(&["/mg/a", "/mg/b"])]),
        found("/mg")
    );
    assert_eq!(
        find_must_gather_root(String::from("/mg"), &vec![with_both_directories()]),
        found("/mg")
    );
}

#[test]
fn search_asks_for_the_single_subdirectory() {
    assert_eq!(
        find_must_gather_root(String::from("/wrap"), &vec![plain(&["/wrap/inner"])]),
        unseen("/wrap/inner")
    );
}

#[test]
fn search_unwraps_one_level() {
    let seen = vec![plain(&["/wrap/inner"]), with_version_file(&[])];
    assert_eq!(find_must_gather_root(String::from("/wrap"), &seen), found("/wrap/inner"));
}

#[test]
fn search_unwraps_several_levels() {
    let seen = vec![
        plain(&["/a/b"]),
        plain(&["/a/b/c"]),
        plain(&["/a/b/c/d"]),
        with_both_directories(),
    ];
    assert_eq!(find_must_gather_root(String::from("/a"), &seen), found("/a/b/c/d"));
}

#[test]
fn search_fails_on_two_subdirectories() {
    let seen = vec![plain(&["/mg/a", "/mg/b"])];
    assert_eq!(find_must_gather_root(String::from("/mg"), &seen), Err(RootError::RootNotFound));
}

#[test]
fn search_fails_on_many_subdirectories_even_if_one_is_a_root() {
    let seen = vec![plain(&["/mg/a", "/mg/b", "/mg/c"]), with_version_file(&[])];
    assert_eq!(find_must_gather_root(String::from("/mg"), &seen), Err(RootError::RootNotFound));
}

#[test]
fn search_fails_on_no_subdirectory() {
    let seen = vec![plain(&[])];
    assert_eq!(find_must_gather_root(String::from("/mg"), &seen), Err(RootError::RootNotFound));
}

#[test]
fn search_fails_below_the_start_too() {
    let seen = vec![plain(&["/wrap/inner"]), plain(&["/wrap/inner/a", "/wrap/inner/b"])];
    assert_eq!(find_must_gather_root(String::from("/wrap"), &seen), Err(RootError::RootNotFound));
}

#[test]
fn search_tells_an_unreadable_directory_from_an_ambiguous_one() {
    assert_eq!(
        find_must_gather_root(String::from("/nowhere"), &vec![unreadable()]),
        Err(RootError::InputUnreadable)
    );
    assert_eq!(
        find_must_gather_root(String::from("/wrap"), &vec![plain(&["/wrap/locked"]), unreadable()]),
        Err(RootError::InputUnreadable)
    );
    assert_ne!(RootError::InputUnreadable, RootError::RootNotFound);
}

#[test]
fn search_takes_a_root_that_cannot_be_listed() {
    let root = DirProbe { has_version_file: true, ..unreadable() };
    assert_eq!(find_must_gather_root(String::from("/mg"), &vec![root]), found("/mg"));
}

#[test]
fn search_is_idempotent() {
    let outer = plain(&["/wrap/inner"]);
    let inner = with_version_file(&["/wrap/inner/namespaces"]);
    let first = find_must_gather_root(String::from("/wrap"), &vec![outer, inner.clone()]);
    assert_eq!(first, found("/wrap/inner"));
    let again = find_must_gather_root(String::from("/wrap/inner"), &vec![inner]);
    assert_eq!(again, first);
}

#[test]
fn search_ignores_what_lies_past_the_root() {
    let seen = vec![with_version_file(&["/mg/sub"]), plain(&["/mg/sub/a", "/mg/sub/b"])];
    assert_eq!(find_must_gather_root(String::from("/mg"), &seen), found("/mg"));
}

#[test]
fn search_goes_step_by_step() {
    let mut seen: Vec<DirProbe> = Vec::new();
    assert_eq!(find_must_gather_root(String::from("/a"), &seen), unseen("/a"));
    seen.push(plain(&["/a/b"]));
    assert_eq!(find_must_gather_root(String::from("/a"), &seen), unseen("/a/b"));
    seen.push(plain(&["/a/b/c"]));
    assert_eq!(find_must_gather_root(String::from("/a"), &seen), unseen("/a/b/c"));
    seen.push(with_both_directories());
    assert_eq!(find_must_gather_root(String::from("/a"), &seen), found("/a/b/c"));
}

#[test]
fn errors_have_their_messages() {
    assert_eq!(RootError::RootNotFound.message(), "Cannot determine root of must-gather");
    assert_eq!(RootError::InputUnreadable.message(), "Cannot read must-gather directory");
}

#[test]
fn search_keeps_its_answer_once_it_has_failed() {
    let mut seen = vec![plain(&["/wrap/inner"]), plain(&[])];
    assert_eq!(find_must_gather_root(String::from("/wrap"), &seen), Err(RootError::RootNotFound));
    seen.push(with_version_file(&[]));
    assert_eq!(find_must_gather_root(String::from("/wrap"), &seen), Err(RootError::RootNotFound));
}

#[test]
fn search_goes_on_as_if_started_at_the_directory_it_asked_for() {
    let outer = vec![plain(&["/a/b"])];
    assert_eq!(find_must_gather_root(String::from("/a"), &outer), unseen("/a/b"));
    let rest = vec![plain(&["/a/b/c"]), with_version_file(&[])];
    let whole = vec![plain(&["/a/b"]), plain(&["/a/b/c"]), with_version_file(&[])];
    assert_eq!(
        find_must_gather_root(String::from("/a"), &whole),
        find_must_gather_root(String::from("/a/b"), &rest)
    );
    assert_eq!(find_must_gather_root(String::from("/a"), &whole), found("/a/b/c"));
}
