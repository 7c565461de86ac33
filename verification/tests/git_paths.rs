use project::git_store::changed_paths::{
    coalesce_repo_paths, process_updated_entries, ChangedPaths, RepositoryRoot,
};
use project::git_store::worktree_paths::{
    join_path, linked_git_dir, linked_worktree_short_name, next_managed_worktree_ancestor,
    path_components, shared_git_dir, worktrees_directory_for_repo, PathStyle, WorktreePathError,
};
use project::git_store::snapshot::RepositorySnapshot;
use project::git_store::{repo_identity_path, RepositoryId};
use project::rel_path::{RelPath, RepoPath};

fn repo_paths(paths: &[&str]) -> Vec<RepoPath> {
    paths.iter().map(|path| RelPath::from_unix_str(path)).collect()
}

fn path_strs(paths: &[RepoPath]) -> Vec<String> {
    paths.iter().map(|path| path.as_unix_str()).collect()
}

fn abs(path: &str) -> RelPath {
    RelPath::from_unix_str(path)
}

fn abs_str(path: &RelPath) -> String {
    format!("/{}", path.as_unix_str())
}

fn snapshot(work_directory: &str) -> RepositorySnapshot {
    RepositorySnapshot::empty(RepositoryId(1), abs(work_directory), None, None, None)
}

#[test]
fn test_new_worktree_path_uses_posix_style_for_remote_paths() {
    let work_dir = abs("/home/user/dev/lsp-tests");
    let directory =
        worktrees_directory_for_repo(&work_dir, "../worktrees", PathStyle::Posix).unwrap();
    let directory = join_path(&directory, "nimble-sky", PathStyle::Posix);
    let path = join_path(&directory, "lsp-tests", PathStyle::Posix);

    assert_eq!(
        abs_str(&path),
        "/home/user/dev/worktrees/lsp-tests/nimble-sky/lsp-tests"
    );
}

#[test]
fn coalesce_repo_paths_keeps_root_only() {
    let coalesced = coalesce_repo_paths(repo_paths(&["", "src", "src/lib.rs"]));
    assert_eq!(path_strs(&coalesced), path_strs(&repo_paths(&[""])));
}

#[test]
fn coalesce_repo_paths_keeps_existing_ancestors() {
    let coalesced = coalesce_repo_paths(repo_paths(&[
        "src",
        "src/lib.rs",
        "src/nested/file.rs",
        "tests/test.rs",
    ]));
    assert_eq!(
        path_strs(&coalesced),
        path_strs(&repo_paths(&["src", "tests/test.rs"]))
    );
}

#[test]
fn coalesce_repo_paths_does_not_invent_missing_parents() {
    let coalesced = coalesce_repo_paths(repo_paths(&[
        "submodule/a.txt",
        "submodule/nested/b.txt",
        "top_level.rs",
    ]));
    assert_eq!(
        path_strs(&coalesced),
        path_strs(&repo_paths(&[
            "submodule/a.txt",
            "submodule/nested/b.txt",
            "top_level.rs",
        ]))
    );
}

#[test]
fn coalescing_sorts_and_drops_repetitions() {
    let coalesced = coalesce_repo_paths(repo_paths(&["b", "a-b", "a", "b", "a/c"]));
    assert_eq!(path_strs(&coalesced), vec!["a", "a-b", "b"]);
    assert_eq!(coalesce_repo_paths(Vec::new()).len(), 0);
}

fn changes_of(changes: &[ChangedPaths], id: u64) -> Option<Vec<String>> {
    changes
        .iter()
        .find(|change| change.repository == RepositoryId(id))
        .map(|change| path_strs(&change.paths))
}

#[test]
fn changed_entries_go_to_the_innermost_repository() {
    let roots = vec![
        RepositoryRoot { id: RepositoryId(1), work_directory: abs("/project") },
        RepositoryRoot { id: RepositoryId(2), work_directory: abs("/project/vendor/lib") },
        RepositoryRoot { id: RepositoryId(3), work_directory: abs("/elsewhere") },
    ];
    let updated = vec![
        abs("src/main.rs"),
        abs("src"),
        abs("vendor/lib/lib.rs"),
        abs("vendor/lib2/x"),
    ];
    let changes = process_updated_entries(&roots, &abs("/project"), &updated);
    assert_eq!(
        changes_of(&changes, 1),
        Some(vec!["src".to_string(), "vendor/lib2/x".to_string()])
    );
    assert_eq!(changes_of(&changes, 2), Some(vec!["lib.rs".to_string()]));
    assert_eq!(changes_of(&changes, 3), None);
}

#[test]
fn identity_of_a_repository_is_its_project() {
    assert_eq!(abs_str(&repo_identity_path(&abs("/code/zed/.git"))), "/code/zed");
    assert_eq!(abs_str(&repo_identity_path(&abs("/code/zed/.bare"))), "/code/zed");
    assert_eq!(abs_str(&repo_identity_path(&abs("/code/zed.git"))), "/code/zed.git");
    assert_eq!(abs_str(&repo_identity_path(&abs("/"))), "/");
}

#[test]
fn worktree_directory_below_the_repository_keeps_its_name() {
    let directory =
        worktrees_directory_for_repo(&abs("/code/zed"), ".worktrees///", PathStyle::Posix).unwrap();
    assert_eq!(abs_str(&directory), "/code/zed/.worktrees");
}

#[test]
fn worktree_directory_next_to_the_repository_is_named_after_it() {
    let directory =
        worktrees_directory_for_repo(&abs("/code/zed"), "../trees", PathStyle::Posix).unwrap();
    assert_eq!(abs_str(&directory), "/code/trees/zed");
    let directory =
        worktrees_directory_for_repo(&abs("/code/zed"), "..\\trees", PathStyle::Windows).unwrap();
    assert_eq!(abs_str(&directory), "/code/trees/zed");
}

#[test]
fn worktree_directory_settings_are_refused() {
    let repo = abs("/code/zed");
    let refused = |setting: &str, style: PathStyle| {
        worktrees_directory_for_repo(&repo, setting, style).unwrap_err()
    };
    assert_eq!(refused("/tmp", PathStyle::Posix), WorktreePathError::NotRelative);
    assert_eq!(refused("///", PathStyle::Posix), WorktreePathError::NotRelative);
    assert_eq!(refused("\\tmp", PathStyle::Posix), WorktreePathError::NotRelative);
    assert_eq!(refused("C:\\tmp", PathStyle::Windows), WorktreePathError::NotRelative);
    assert_eq!(refused("", PathStyle::Posix), WorktreePathError::Empty);
    assert_eq!(refused("..", PathStyle::Posix), WorktreePathError::ParentDirectory);
    assert_eq!(refused("../", PathStyle::Posix), WorktreePathError::ParentDirectory);
    assert_eq!(refused("../../other", PathStyle::Posix), WorktreePathError::OutsideOfParent);
}

#[test]
fn new_worktrees_are_found_by_the_name_of_their_branch() {
    let repository = snapshot("/code/zed");
    let path = repository
        .path_for_new_linked_worktree("fix/crash", "../trees", PathStyle::Posix)
        .unwrap();
    assert_eq!(abs_str(&path), "/code/trees/zed/fix/crash/zed");
    assert_eq!(
        linked_worktree_short_name(&abs("/code/zed"), &path),
        Some("crash".to_string())
    );
}

#[test]
fn new_worktrees_need_a_name_and_a_relative_branch() {
    let repository = snapshot("/code/zed");
    assert_eq!(
        repository
            .path_for_new_linked_worktree("/branch", "../trees", PathStyle::Posix)
            .unwrap_err(),
        WorktreePathError::AbsoluteBranch
    );
    assert_eq!(
        repository
            .path_for_new_linked_worktree("branch", "", PathStyle::Posix)
            .unwrap_err(),
        WorktreePathError::Empty
    );
    assert_eq!(
        snapshot("/")
            .path_for_new_linked_worktree("branch", "trees", PathStyle::Posix)
            .unwrap_err(),
        WorktreePathError::NoDirectoryName
    );
}

#[test]
fn short_names_tell_worktrees_apart() {
    let main = abs("/code/zed");
    assert_eq!(linked_worktree_short_name(&main, &main), None);
    assert_eq!(
        linked_worktree_short_name(&main, &abs("/trees/feature")),
        Some("feature".to_string())
    );
    assert_eq!(
        linked_worktree_short_name(&main, &abs("/trees/feature/zed")),
        Some("feature".to_string())
    );
    assert_eq!(linked_worktree_short_name(&main, &abs("/zed")), None);
    assert_eq!(linked_worktree_short_name(&abs("/"), &abs("/zed")), None);
}

#[test]
fn only_directories_below_the_base_are_removed() {
    let base = abs("/code/trees/zed");
    let worktree = abs("/code/trees/zed/fix/crash/zed");
    let first = next_managed_worktree_ancestor(&worktree, &base).unwrap();
    assert_eq!(abs_str(&first), "/code/trees/zed/fix/crash");
    let second = next_managed_worktree_ancestor(&first, &base).unwrap();
    assert_eq!(abs_str(&second), "/code/trees/zed/fix");
    assert!(next_managed_worktree_ancestor(&second, &base).is_none());
    assert!(next_managed_worktree_ancestor(&abs("/tmp/x/y"), &base).is_none());
    assert!(next_managed_worktree_ancestor(&abs("/"), &base).is_none());
}

#[test]
fn pointers_to_git_directories_are_read() {
    assert_eq!(
        linked_git_dir("gitdir: /code/zed/.git/worktrees/x\n"),
        Some("/code/zed/.git/worktrees/x".to_string())
    );
    assert_eq!(linked_git_dir("gitdir:"), Some(String::new()));
    assert_eq!(linked_git_dir("worktree: x"), None);
    assert_eq!(linked_git_dir("git"), None);
    assert_eq!(shared_git_dir("../..\n"), "../..");
}

#[test]
fn components_depend_on_the_style() {
    assert_eq!(path_components("a/b\\c//d/", PathStyle::Posix), vec!["a", "b\\c", "d"]);
    assert_eq!(path_components("a/b\\c//d/", PathStyle::Windows), vec!["a", "b", "c", "d"]);
    assert_eq!(abs_str(&join_path(&abs("/a/b"), "./../../../c/.", PathStyle::Posix)), "/c");
}

#[test]
fn linked_worktrees_know_their_path() {
    let linked = RepositorySnapshot::empty(
        RepositoryId(2),
        abs("/trees/feature"),
        Some(abs("/code/zed/.git/worktrees/feature")),
        Some(abs("/trees/feature/.git")),
        Some(abs("/code/zed/.git")),
    );
    assert_eq!(
        linked.linked_worktree_path().map(|path| abs_str(&path)),
        Some("/trees/feature".to_string())
    );
    assert!(snapshot("/code/zed").linked_worktree_path().is_none());
    assert_eq!(abs_str(&linked.repository_anchor()), "/code/zed");
    assert!(snapshot("/code").contains_sub_repo(&snapshot("/code/zed")));
    assert!(!snapshot("/code/zed").contains_sub_repo(&snapshot("/code")));
}
