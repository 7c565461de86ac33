use std::collections::BTreeSet;

use project::git_store::checkpoints::{
    all_equal, CheckpointComparison, GitStoreCheckpoint, Restoration,
};
use project::git_store::registry::{GitStore, GitStoreEffect, UpdatedGitRepository};
use project::git_store::wire::Oid;
use project::git_store::worktree_events::{WorktreeResponse, WorktreeStoreEvent};
use project::git_store::{GitAccess, GitGraphEvent, JobsUpdated, RepositoryId};
use project::rel_path::RelPath;

fn path(text: &str) -> RelPath {
    RelPath::from_unix_str(text)
}

fn added(dir: &str) -> UpdatedGitRepository {
    moved(None, Some(dir))
}

fn moved(old: Option<&str>, new: Option<&str>) -> UpdatedGitRepository {
    UpdatedGitRepository {
        old_work_directory: old.map(path),
        new_work_directory: new.map(path),
        dot_git: new.map(|dir| path(dir).child(".git")),
        repository_dir: new.map(|dir| path(dir).child(".git")),
        common_dir: new.map(|dir| path(dir).child(".git")),
    }
}

fn store_with(dirs: &[&str]) -> GitStore {
    let mut store = GitStore::new();
    for dir in dirs {
        let updates = vec![added(dir)];
        store.update_repositories_from_worktree(1, &updates, true, false);
    }
    store
}

fn oid(n: u32) -> Oid {
    Oid { high: 0, middle: 0, low: n }
}

#[test]
fn repository_ids_survive_the_wire() {
    assert_eq!(RepositoryId::from_proto(RepositoryId(7).to_proto()), RepositoryId(7));
    assert_eq!(GitAccess::default(), GitAccess::Yes);
    assert_ne!(GitGraphEvent::CountUpdated(2), GitGraphEvent::FullyLoaded);
    let _ = JobsUpdated;
}

#[test]
fn first_repository_becomes_active() {
    let mut store = GitStore::new();
    let effects =
        store.update_repositories_from_worktree(1, &vec![added("a"), added("b")], true, true);
    assert_eq!(
        effects,
        vec![
            GitStoreEffect::OpenRepository { id: RepositoryId(1), is_trusted: true },
            GitStoreEffect::SendUpdate(RepositoryId(1)),
            GitStoreEffect::ScheduleScan(RepositoryId(1)),
            GitStoreEffect::RepositoryAdded,
            GitStoreEffect::ActiveRepositoryChanged(Some(RepositoryId(1))),
            GitStoreEffect::OpenRepository { id: RepositoryId(2), is_trusted: true },
            GitStoreEffect::SendUpdate(RepositoryId(2)),
            GitStoreEffect::ScheduleScan(RepositoryId(2)),
            GitStoreEffect::RepositoryAdded,
        ]
    );
    let (id, dirs) = store.active_repository().unwrap();
    assert_eq!(id, RepositoryId(1));
    assert_eq!(dirs.work_directory.as_unix_str(), "a");
}

#[test]
fn numbers_are_not_used_again() {
    let mut store = store_with(&["a"]);
    let gone = UpdatedGitRepository {
        old_work_directory: Some(path("a")),
        new_work_directory: None,
        dot_git: None,
        repository_dir: None,
        common_dir: None,
    };
    // The active repository goes, and the one that comes with it does not take its place.
    store.update_repositories_from_worktree(1, &vec![gone, added("b")], true, false);
    assert!(store.active_repository().is_none());
    assert!(!store.repositories.contains_key(&1));
    assert_eq!(store.repositories[&2].work_directory.as_unix_str(), "b");
    assert_eq!(store.worktree_ids[&2].iter().copied().collect::<Vec<_>>(), vec![1]);
    // The next one finds no active repository.
    store.update_repositories_from_worktree(4, &vec![added("a")], true, false);
    assert_eq!(store.active_repository().unwrap().0, RepositoryId(3));
    assert_eq!(store.worktree_ids[&3].iter().copied().collect::<Vec<_>>(), vec![4]);
}

#[test]
fn repositories_follow_the_worktrees() {
    let mut store = store_with(&["a"]);
    let scanned = WorktreeStoreEvent::UpdatedGitRepositories {
        worktree: 2,
        is_known: true,
        is_trusted: false,
        updates: vec![added("b")],
    };
    match store.on_worktree_store_event(&scanned, false) {
        WorktreeResponse::Repositories { effects, reload } => {
            assert_eq!(
                effects[0],
                GitStoreEffect::OpenRepository { id: RepositoryId(2), is_trusted: false }
            );
            assert_eq!(reload, vec![2]);
        }
        _ => panic!("a scan changes the repositories"),
    }
    let entries = WorktreeStoreEvent::UpdatedEntries {
        root: Some(path("b")),
        entries: vec![path("src/x.rs"), path("src")],
    };
    match store.on_worktree_store_event(&entries, false) {
        WorktreeResponse::LookAtPaths(changes) => {
            assert_eq!(changes.len(), 1);
            assert_eq!(changes[0].repository, RepositoryId(2));
            assert_eq!(changes[0].paths.len(), 1);
            assert_eq!(changes[0].paths[0].as_unix_str(), "src");
        }
        _ => panic!("changed entries are looked at"),
    }
    match store.on_worktree_store_event(&WorktreeStoreEvent::Removed(1), true) {
        WorktreeResponse::Repositories { effects, reload } => {
            assert_eq!(
                effects,
                vec![
                    GitStoreEffect::SendRemove(RepositoryId(1)),
                    GitStoreEffect::ActiveRepositoryChanged(Some(RepositoryId(2))),
                ]
            );
            assert!(reload.is_empty());
        }
        _ => panic!("a repository goes with its worktree"),
    }
    assert!(matches!(
        store.on_worktree_store_event(&WorktreeStoreEvent::Other, true),
        WorktreeResponse::Nothing
    ));
    let gone = WorktreeStoreEvent::UpdatedEntries { root: None, entries: vec![path("x")] };
    assert!(matches!(store.on_worktree_store_event(&gone, true), WorktreeResponse::Nothing));
}

#[test]
fn incomplete_reports_add_nothing() {
    let mut store = GitStore::new();
    let mut update = added("a");
    update.common_dir = None;
    assert_eq!(store.update_repositories_from_worktree(1, &vec![update], true, true).len(), 0);
    assert!(store.active_repository().is_none());
}

#[test]
fn moved_repository_is_opened_anew() {
    let mut store = store_with(&["a"]);
    let effects =
        store.update_repositories_from_worktree(1, &vec![moved(Some("a"), Some("b"))], false, false);
    assert_eq!(
        effects,
        vec![
            GitStoreEffect::ReinitializeBackend { id: RepositoryId(1), is_trusted: false },
            GitStoreEffect::ScheduleScan(RepositoryId(1)),
        ]
    );
    assert_eq!(store.active_repository().unwrap().1.work_directory.as_unix_str(), "b");
}

#[test]
fn repository_goes_with_its_last_worktree() {
    let mut store = store_with(&["a"]);
    store.update_repositories_from_worktree(2, &vec![moved(Some("a"), Some("a"))], true, false);
    let gone = vec![moved(Some("a"), None)];
    assert_eq!(store.update_repositories_from_worktree(1, &gone, true, true).len(), 0);
    assert!(store.active_repository().is_some());
    assert_eq!(
        store.update_repositories_from_worktree(2, &gone, true, true),
        vec![
            GitStoreEffect::ActiveRepositoryChanged(None),
            GitStoreEffect::SendRemove(RepositoryId(1)),
        ]
    );
    assert!(store.active_repository().is_none());
}

#[test]
fn removing_a_worktree_hands_activity_on() {
    let mut store = store_with(&["a"]);
    store.update_repositories_from_worktree(2, &vec![added("b")], true, false);
    let effects = store.remove_worktree(1, true);
    assert_eq!(
        effects,
        vec![
            GitStoreEffect::SendRemove(RepositoryId(1)),
            GitStoreEffect::ActiveRepositoryChanged(Some(RepositoryId(2))),
        ]
    );
    let effects = store.remove_worktree(2, false);
    assert_eq!(effects, vec![GitStoreEffect::ActiveRepositoryChanged(None)]);
}

#[test]
fn innermost_repository_holds_a_path() {
    let store = store_with(&["code", "code/vendor/lib"]);
    let (id, inside) =
        store.repository_and_path_for_project_path(&path("code/vendor/lib/src/a.rs")).unwrap();
    assert_eq!(id, RepositoryId(2));
    assert_eq!(inside.as_unix_str(), "src/a.rs");
    let (id, inside) = store.repository_and_path_for_project_path(&path("code/a.rs")).unwrap();
    assert_eq!(id, RepositoryId(1));
    assert_eq!(inside.as_unix_str(), "a.rs");
    assert!(store.repository_and_path_for_project_path(&path("other")).is_none());
}

#[test]
fn activity_follows_paths_and_worktrees() {
    let mut store = store_with(&["a", "b"]);
    assert!(store.set_active_repo_for_path(&path("b/x")));
    assert!(!store.set_active_repo_for_path(&path("b/y")));
    assert!(!store.set_active_repo_for_path(&path("c")));
    assert_eq!(store.active_repository().unwrap().0, RepositoryId(2));
    assert!(!store.set_active_repo_for_worktree(None));
    assert!(store.set_active_repo_for_worktree(Some(&path("a"))));
    assert!(store.set_active_repo_id(RepositoryId(2)));
    assert!(store.set_as_active_repository(RepositoryId(2)));
    assert!(!store.set_as_active_repository(RepositoryId(9)));
    assert_eq!(store.active_repository().unwrap().0, RepositoryId(2));
}

#[test]
fn trust_comes_from_worktrees() {
    let store = store_with(&["a"]);
    let trusted: BTreeSet<u64> = [1].into_iter().collect();
    let other: BTreeSet<u64> = [2].into_iter().collect();
    assert!(store.repository_is_trusted(RepositoryId(1), Some(&trusted)));
    assert!(!store.repository_is_trusted(RepositoryId(1), Some(&other)));
    assert!(!store.repository_is_trusted(RepositoryId(1), None));
    assert!(!store.repository_is_trusted(RepositoryId(5), Some(&trusted)));
    assert_eq!(store.repositories_of_worktrees(&trusted), vec![1]);
    assert_eq!(store.repositories_of_worktrees(&other), Vec::<u64>::new());
}

#[test]
fn reported_repositories_are_read_again() {
    let store = store_with(&["a", "b", "c"]);
    let changed = vec![moved(Some("a"), None), moved(None, Some("c"))];
    assert_eq!(store.local_worktree_git_repos_changed(&changed), vec![1, 3]);
}

#[test]
fn worktrees_know_the_main_checkout() {
    let mut store = GitStore::new();
    let linked = UpdatedGitRepository {
        old_work_directory: None,
        new_work_directory: Some(path("trees/x")),
        dot_git: Some(path("trees/x/.git")),
        repository_dir: Some(path("code/.git/worktrees/x")),
        common_dir: Some(path("code/.git")),
    };
    store.update_repositories_from_worktree(4, &vec![linked], true, false);
    assert_eq!(
        store.original_repo_path_for_worktree(4).map(|path| path.as_unix_str()),
        Some("code".to_string())
    );
    assert!(store.original_repo_path_for_worktree(5).is_none());
}

#[test]
fn checkpoints_are_taken_of_all_repositories() {
    let store = store_with(&["a", "b"]);
    let taken = store.checkpoint();
    assert_eq!(taken.len(), 2);
    assert_eq!(taken[1].0, RepositoryId(2));
    assert_eq!(taken[1].1.as_unix_str(), "b");
}

#[test]
fn checkpoint_restores_what_it_covers() {
    let store = store_with(&["a", "b"]);
    let checkpoint = GitStoreCheckpoint::collect(
        vec![path("b"), path("x"), path("a")],
        vec![oid(2), oid(9), oid(1)],
    );
    assert_eq!(
        store.restore_checkpoint(&checkpoint),
        vec![
            Restoration { repository: RepositoryId(2), checkpoint: oid(2) },
            Restoration { repository: RepositoryId(1), checkpoint: oid(1) },
        ]
    );
}

#[test]
fn checkpoints_without_a_counterpart_differ() {
    let store = store_with(&["a", "b"]);
    let left = GitStoreCheckpoint::collect(vec![path("a")], vec![oid(1)]);
    let right = GitStoreCheckpoint::collect(vec![path("a"), path("b")], vec![oid(1), oid(2)]);
    for (one, other) in [(&left, &right), (&right, &left)] {
        assert!(matches!(
            store.compare_checkpoints(one, other),
            CheckpointComparison::Different
        ));
    }
    let later = GitStoreCheckpoint::collect(vec![path("a")], vec![oid(3)]);
    match store.compare_checkpoints(&left, &later) {
        CheckpointComparison::Pairs(pairs) => {
            assert_eq!(pairs.len(), 1);
            assert_eq!((pairs[0].left, pairs[0].right), (oid(1), oid(3)));
        }
        CheckpointComparison::Different => panic!("both cover one directory"),
    }
    match store.compare_checkpoints(&right, &right) {
        CheckpointComparison::Pairs(pairs) => {
            assert!(pairs.iter().all(|pair| pair.left == pair.right));
        }
        CheckpointComparison::Different => panic!("a checkpoint covers itself"),
    }
    assert!(all_equal(&vec![true, true]));
    assert!(!all_equal(&vec![true, false]));
    assert!(all_equal(&Vec::new()));
}
