use rit::locate::{is_listed, metadata_dir_name};
use rit::{find_git_root, metadata_candidates, AbsolutePath, StoreError};

fn path(names: &[&str]) -> AbsolutePath {
    AbsolutePath { components: names.iter().map(|name| name.to_string()).collect() }
}

#[test]
fn metadata_directory_has_its_fixed_name() {
    assert_eq!(metadata_dir_name(), ".repo-meta");
}

#[test]
fn root_has_no_components_and_no_parent() {
    let root = AbsolutePath::root();
    assert!(root.components.is_empty());
    assert_eq!(root.parent(), None);
}

#[test]
fn join_goes_one_level_down_and_parent_comes_back() {
    let dir = AbsolutePath::root().join("a").join("b");
    assert_eq!(dir, path(&["a", "b"]));
    assert_eq!(dir.parent(), Some(path(&["a"])));
    assert_eq!(path(&["a"]).parent(), Some(AbsolutePath::root()));
    assert_eq!(dir.join("c").parent(), Some(dir));
}

#[test]
fn paths_are_rendered_with_slashes() {
    assert_eq!(AbsolutePath::root().render(), "/");
    assert_eq!(path(&["a"]).render(), "/a");
    assert_eq!(path(&["a", "b", "c"]).render(), "/a/b/c");
    assert_eq!(path(&["a", "b"]).join(metadata_dir_name()).render(), "/a/b/.repo-meta");
}

#[test]
fn paths_are_compared_by_their_components() {
    assert!(path(&["a", "b"]).same_as(&path(&["a", "b"])));
    assert!(AbsolutePath::root().same_as(&path(&[])));
    assert!(!path(&["a", "b"]).same_as(&path(&["a"])));
    assert!(!path(&["a", "b"]).same_as(&path(&["a", "c"])));
    assert!(!path(&["a", "b"]).same_as(&path(&["b", "a"])));
    assert!(!path(&["ab"]).same_as(&path(&["a", "b"])));
    assert_eq!(path(&["a", "b"]).clone(), path(&["a", "b"]));
}

#[test]
fn listing_knows_its_directories() {
    let dirs = vec![path(&["a"]), path(&["a", "b"])];
    assert!(is_listed(&dirs, &path(&["a", "b"])));
    assert!(is_listed(&dirs, &path(&["a"])));
    assert!(!is_listed(&dirs, &path(&["b"])));
    assert!(!is_listed(&dirs, &AbsolutePath::root()));
    assert!(!is_listed(&[], &path(&["a"])));
}

#[test]
fn candidates_go_from_the_start_up_to_the_root() {
    let meta = metadata_dir_name();
    assert_eq!(
        metadata_candidates(&path(&["a", "b"])),
        vec![path(&["a", "b", meta]), path(&["a", meta]), path(&[meta])]
    );
    assert_eq!(metadata_candidates(&AbsolutePath::root()), vec![path(&[meta])]);
}

#[test]
fn locator_finds_the_repository_above_the_start() {
    let meta = metadata_dir_name();
    let dirs = vec![
        path(&["a"]),
        path(&["a", "b"]),
        path(&["a", "b", "c"]),
        path(&["a", "b", meta]),
    ];
    assert_eq!(find_git_root(&path(&["a", "b", "c"]), &dirs), Ok(path(&["a", "b"])));
}

#[test]
fn locator_returns_the_directory_that_holds_the_metadata_directory() {
    let dirs = vec![
        AbsolutePath::root(),
        path(&["a"]),
        path(&["a", "b"]),
        path(&["a", "b", "c"]),
        path(&["a", "b", ".repo-meta"]),
    ];
    let found = find_git_root(&path(&["a", "b", "c"]), &dirs).unwrap();
    assert_eq!(found, path(&["a", "b"]));
    assert_eq!(found.render(), "/a/b");
}

#[test]
fn locator_passes_over_a_metadata_name_that_is_no_directory() {
    // `/a/b/c/.repo-meta` is a plain file, so it is not among the directories.
    let dirs = vec![
        AbsolutePath::root(),
        path(&["a"]),
        path(&["a", "b"]),
        path(&["a", "b", "c"]),
        path(&["a", "b", ".repo-meta"]),
    ];
    assert!(!dirs.contains(&path(&["a", "b", "c", ".repo-meta"])));
    assert_eq!(find_git_root(&path(&["a", "b", "c"]), &dirs), Ok(path(&["a", "b"])));
}

#[test]
fn locator_fails_when_nothing_up_to_the_root_is_a_repository() {
    let dirs = vec![path(&["a"])];
    assert_eq!(find_git_root(&path(&["a"]), &dirs), Err(StoreError::RepositoryNotFound));
    assert_eq!(find_git_root(&path(&["a"]), &[]), Err(StoreError::RepositoryNotFound));
    assert_eq!(find_git_root(&AbsolutePath::root(), &[]), Err(StoreError::RepositoryNotFound));
}

#[test]
fn locator_matches_the_start_itself() {
    let meta = metadata_dir_name();
    let dirs = vec![path(&["a", "b"]), path(&["a", "b", meta])];
    assert_eq!(find_git_root(&path(&["a", "b"]), &dirs), Ok(path(&["a", "b"])));
}

#[test]
fn locator_matches_the_filesystem_root() {
    let meta = metadata_dir_name();
    let dirs = vec![path(&[meta])];
    assert_eq!(find_git_root(&path(&["a", "b"]), &dirs), Ok(AbsolutePath::root()));
    assert_eq!(find_git_root(&AbsolutePath::root(), &dirs), Ok(AbsolutePath::root()));
}

#[test]
fn locator_takes_the_nearest_of_nested_repositories() {
    let meta = metadata_dir_name();
    let dirs = vec![path(&["a", meta]), path(&["a", "b", "c", meta]), path(&[meta])];
    assert_eq!(
        find_git_root(&path(&["a", "b", "c", "d"]), &dirs),
        Ok(path(&["a", "b", "c"]))
    );
    assert_eq!(find_git_root(&path(&["a", "b"]), &dirs), Ok(path(&["a"])));
    assert_eq!(find_git_root(&path(&["x"]), &dirs), Ok(AbsolutePath::root()));
}

#[test]
fn locator_started_inside_the_metadata_directory_still_matches() {
    let meta = metadata_dir_name();
    let dirs = vec![path(&["a", "b", meta]), path(&["a", "b", meta, "objects"])];
    assert_eq!(
        find_git_root(&path(&["a", "b", meta, "objects"]), &dirs),
        Ok(path(&["a", "b"]))
    );
    assert_eq!(find_git_root(&path(&["a", "b", meta]), &dirs), Ok(path(&["a", "b"])));
}

#[test]
fn locator_does_not_look_at_siblings_or_below() {
    let meta = metadata_dir_name();
    let dirs = vec![
        path(&["a", "sibling", meta]),
        path(&["a", "b", "below", meta]),
        path(&["a", "b"]),
    ];
    assert_eq!(find_git_root(&path(&["a", "b"]), &dirs), Err(StoreError::RepositoryNotFound));
}

#[test]
fn locator_wants_the_metadata_directory_by_its_exact_name() {
    let dirs = vec![
        path(&["a", ".repo-met"]),
        path(&["a", ".repo-meta2"]),
        path(&["a", "repo-meta"]),
        path(&["a", ".REPO-META"]),
        path(&["a", ".git"]),
    ];
    assert_eq!(find_git_root(&path(&["a"]), &dirs), Err(StoreError::RepositoryNotFound));
}

#[test]
fn errors_have_their_messages() {
    assert_eq!(StoreError::RepositoryNotFound.message(), "could not find git root");
    assert_eq!(StoreError::CompressionFailed.message(), "could not compress object");
}
