use std::collections::BTreeMap;

use project::git_store::commands::{GitCommand, OpenFile, ResetMode};
use project::git_store::diff_bases::{
    committed_text_change, BufferGitState, DiffBasesChange, DiffKind, OpenDiff,
};
use project::git_store::entry_staging::{StagingAction, StagingEvent};
use project::git_store::open_diffs::OpenDiffs;
use project::git_store::pending_ops::{JobOutcome, JobStatus, PendingGitStatus};
use project::git_store::queries::{Conflicts, NoRepository, PermalinkError, PermalinkSource};
use project::git_store::registry::{GitStore, RepositoryDirs, UpdatedGitRepository};
use project::git_store::repository::{JobStep, Repository};
use project::git_store::snapshot::RepositorySnapshot;
use project::git_store::status::{FileStatus, StatusCode, StatusEntry, TrackedStatus};
use project::git_store::status_scan::ReportedStatus;
use project::git_store::RepositoryId;
use project::rel_path::RelPath;

fn path(text: &str) -> RelPath {
    RelPath::from_unix_str(text)
}

fn dirs(work_directory: &str) -> RepositoryDirs {
    RepositoryDirs {
        work_directory: path(work_directory),
        dot_git: path(work_directory).child(".git"),
        repository_dir: path(work_directory).child(".git"),
        common_dir: path(work_directory).child(".git"),
    }
}

fn repository() -> Repository {
    Repository::local(RepositoryId(1), dirs("project"))
}

fn run(repository: &mut Repository) -> (u64, GitCommand) {
    match repository.next_job(70) {
        Some(JobStep::Run { id, command }) => (id, command),
        _ => panic!("the first job runs"),
    }
}

#[test]
fn jobs_run_in_the_order_in_which_they_were_sent() {
    let mut repository = repository();
    assert!(repository.next_job(70).is_none());
    let fetch = repository.fetch("--all".to_string());
    let reset = repository.reset("HEAD~1".to_string(), ResetMode::Soft);
    let barrier = repository.barrier();
    let (id, command) = run(&mut repository);
    assert_eq!(id, fetch);
    assert!(matches!(command, GitCommand::Fetch { options } if options == "--all"));
    let shown = repository.current_job().unwrap();
    assert_eq!((shown.start, shown.message.as_str()), (70, "git fetch"));
    repository.job_finished(fetch, true);
    assert!(repository.current_job().is_none());
    let (id, command) = run(&mut repository);
    assert_eq!(id, reset);
    assert!(matches!(command, GitCommand::Reset { commit, .. } if commit == "HEAD~1"));
    assert_eq!(run(&mut repository).0, barrier);
    assert!(repository.next_job(70).is_none());
}

#[test]
fn scans_that_wait_are_made_once() {
    let mut repository = repository();
    let first = repository.paths_changed(vec![path("b")]);
    let other = repository.branches();
    let second = repository.paths_changed(vec![path("a"), path("b")]);
    assert!(matches!(repository.next_job(70), Some(JobStep::Skipped(id)) if id == first));
    assert_eq!(run(&mut repository).0, other);
    assert_eq!(run(&mut repository).0, second);
    let changed = repository.take_changed_paths();
    let texts: Vec<String> = changed.iter().map(|path| path.as_unix_str()).collect();
    assert_eq!(texts, vec!["a", "b"]);
    assert!(repository.take_changed_paths().is_empty());
    let reported = vec![ReportedStatus { path: path("a"), status: FileStatus::Untracked }];
    assert_eq!(repository.statuses_read(&changed, vec![], &reported, &vec![]), (false, true));
    assert_eq!(repository.snapshot.scan_id, 1);
    assert_eq!(repository.statuses_read(&changed, vec![], &reported, &vec![]), (false, false));
    let first = repository.spawn_set_index_text_job(path("a"), Some("one".to_string()));
    let apart = repository.spawn_set_index_text_job(path("b"), None);
    let last = repository.spawn_set_index_text_job(path("a"), Some("two".to_string()));
    assert!(matches!(repository.next_job(70), Some(JobStep::Skipped(id)) if id == first));
    assert_eq!(run(&mut repository).0, apart);
    let (id, command) = run(&mut repository);
    assert_eq!(id, last);
    assert!(matches!(
        command,
        GitCommand::SetIndexText { content: Some(text), .. } if text == "two"
    ));
}

#[test]
fn commits_wait_for_their_hook() {
    let mut repository = repository();
    let (hook, commit) =
        repository.commit("message".to_string(), None, "--amend".to_string());
    let (id, command) = run(&mut repository);
    assert_eq!(id, hook);
    assert!(matches!(command, GitCommand::RunHook { hook } if hook == "pre-commit"));
    repository.job_finished(hook, true);
    let (id, command) = run(&mut repository);
    assert_eq!(id, commit);
    assert!(matches!(
        command,
        GitCommand::Commit { message, options, hook_job, .. }
            if message == "message" && options == "--amend" && hook_job == hook
    ));
}

#[test]
fn commits_are_refused_if_their_hook_failed() {
    let mut repository = repository();
    let (hook, commit) = repository.commit("first".to_string(), None, String::new());
    let (later, second) = repository.commit("second".to_string(), None, String::new());
    assert_eq!(run(&mut repository).0, hook);
    repository.job_finished(hook, false);
    assert!(matches!(repository.next_job(70), Some(JobStep::Refused(id)) if id == commit));
    assert!(repository.current_job().is_none());
    // The next commit has a hook of its own.
    assert_eq!(run(&mut repository).0, later);
    repository.job_finished(later, true);
    assert_eq!(run(&mut repository).0, second);
    // A hook that never ended did not succeed.
    let (hook, commit) = repository.commit("third".to_string(), None, String::new());
    assert_eq!(run(&mut repository).0, hook);
    assert!(matches!(repository.next_job(70), Some(JobStep::Refused(id)) if id == commit));
}

#[test]
fn reverted_files_are_marked_until_the_job_ends() {
    let mut repository = repository();
    let (started, _) =
        repository.checkout_files("HEAD".to_string(), vec![path("a"), path("b")]);
    assert_eq!(started.len(), 2);
    let ops = repository.pending_ops_for_path(&path("a")).unwrap();
    assert_eq!(ops[0].git_status, PendingGitStatus::Reverted);
    assert_eq!(ops[0].job_status, JobStatus::Running);
    repository.operations_ended(&started, JobOutcome::Canceled);
    let ops = repository.pending_ops_for_path(&path("b")).unwrap();
    assert_eq!(ops[0].job_status, JobStatus::Skipped);
    assert!(repository.pending_ops_for_path(&path("c")).is_none());
}

fn unsaved(buffer_id: u64) -> OpenFile {
    OpenFile::Open { buffer_id, exists_on_disk: true, has_unsaved_edits: true }
}

fn status_of(repository: &Repository, name: &str) -> JobStatus {
    repository.pending_ops_for_path(&path(name)).unwrap().last().unwrap().job_status
}

#[test]
fn staging_is_sent_once_buffers_are_saved() {
    let mut repository = repository();
    let files = vec![unsaved(4), OpenFile::NotOpen, unsaved(6)];
    let entries = vec![path("a"), path("b"), path("c")];
    let (mut staging, action) = repository.stage_entries(entries, &files);
    assert!(matches!(action, StagingAction::Save { buffers } if buffers == vec![4, 6]));
    let ops = repository.pending_ops_for_path(&path("b")).unwrap();
    assert_eq!(ops[0].git_status, PendingGitStatus::Staged);
    assert_eq!(ops[0].job_status, JobStatus::Running);
    let action = repository.advance_staging(&mut staging, StagingEvent::Saved);
    assert!(matches!(action, StagingAction::Nothing));
    assert!(repository.next_job(70).is_none());
    let action = repository.advance_staging(&mut staging, StagingEvent::Saved);
    let (ran, command) = run(&mut repository);
    assert!(matches!(action, StagingAction::AwaitJob { id } if id == ran));
    assert!(matches!(command, GitCommand::StageEntries { paths } if paths.len() == 3));
    assert_eq!(status_of(&repository, "a"), JobStatus::Running);
    let ended = StagingEvent::JobEnded(JobOutcome::Done);
    let action = repository.advance_staging(&mut staging, ended);
    assert!(matches!(action, StagingAction::Finish { failed: false }));
    assert_eq!(status_of(&repository, "a"), JobStatus::Finished);
    let action = repository.advance_staging(&mut staging, ended);
    assert!(matches!(action, StagingAction::Nothing));
}

#[test]
fn staging_of_nothing_does_nothing() {
    let mut repository = repository();
    let (_, action) = repository.unstage_entries(vec![], &vec![unsaved(4)]);
    assert!(matches!(action, StagingAction::Finish { failed: false }));
    assert!(repository.next_job(70).is_none());
}

#[test]
fn nothing_is_staged_where_a_buffer_is_not_saved() {
    let mut repository = repository();
    let files = vec![unsaved(4), unsaved(5)];
    let (mut staging, _) = repository.unstage_entries(vec![path("a"), path("b")], &files);
    repository.advance_staging(&mut staging, StagingEvent::Saved);
    let action = repository.advance_staging(&mut staging, StagingEvent::SaveFailed);
    assert!(matches!(action, StagingAction::Finish { failed: true }));
    assert_eq!(status_of(&repository, "a"), JobStatus::Error);
    assert!(repository.next_job(70).is_none());
    // Without unsaved edits the job is sent at once, and may fail or be left out.
    let saved = OpenFile::Open { buffer_id: 4, exists_on_disk: true, has_unsaved_edits: false };
    for (outcome, status) in [
        (JobOutcome::Failed, JobStatus::Error),
        (JobOutcome::Canceled, JobStatus::Skipped),
    ] {
        let (mut staging, action) = repository.unstage_entries(vec![path("a")], &vec![saved]);
        assert!(matches!(action, StagingAction::AwaitJob { .. }));
        let (_, command) = run(&mut repository);
        assert!(matches!(command, GitCommand::UnstageEntries { .. }));
        let action = repository.advance_staging(&mut staging, StagingEvent::JobEnded(outcome));
        let failed_job = outcome == JobOutcome::Failed;
        assert!(matches!(action, StagingAction::Finish { failed } if failed == failed_job));
        assert_eq!(status_of(&repository, "a"), status);
    }
}

#[test]
fn staged_hunks_are_written_once() {
    let mut repository = repository();
    let mut diffs = OpenDiffs::new();
    assert!(repository.write_hunks(&mut diffs, 4, path("a"), Some("t".to_string())).is_none());
    diffs.diffs.insert(4, BufferGitState::new());
    assert!(repository.write_hunks(&mut diffs, 4, path("a"), None).is_none());
    assert!(repository.next_job(70).is_none());
    let write =
        repository.write_hunks(&mut diffs, 4, path("a"), Some("t".to_string())).unwrap();
    assert_eq!((write.buffer_id, write.operation), (4, 1));
    let (job, command) = run(&mut repository);
    assert_eq!(job, write.job);
    assert!(matches!(command, GitCommand::SetIndexText { content: Some(text), .. } if text == "t"));
    let end = diffs.hunk_write_ended(write, JobOutcome::Failed);
    assert!(end.clear_pending_hunks && end.announce_error);
    assert_eq!(diffs.diffs[&4].hunk_staging_operation_count_as_of_write, 0);
    let end = diffs.hunk_write_ended(write, JobOutcome::Canceled);
    assert!(!end.clear_pending_hunks && !end.announce_error);
    diffs.hunk_write_ended(write, JobOutcome::Done);
    assert_eq!(diffs.diffs[&4].hunk_staging_operation_count_as_of_write, 1);
    assert_eq!(diffs.on_buffer_diff_event(4, &Some("t".to_string())), Some(2));
}

#[test]
fn a_restarted_worker_forgets_its_jobs() {
    let mut repository = repository();
    repository.fetch("--all".to_string());
    run(&mut repository);
    repository.branches();
    repository.reinitialize_local_backend(dirs("moved"));
    assert!(repository.next_job(70).is_none());
    assert!(repository.current_job().is_none());
    assert_eq!(repository.snapshot.dirs.work_directory.as_unix_str(), "moved");
    // Numbers are not used twice.
    assert_eq!(repository.branches(), 2);
}

#[test]
fn the_commit_buffer_is_opened_once() {
    let mut repository = repository();
    let job = repository.open_commit_buffer().unwrap_err();
    assert_eq!(run(&mut repository).0, job);
    repository.commit_message_buffer = Some(9);
    assert_eq!(repository.open_commit_buffer(), Ok(9));
}

fn added(dir: &str) -> UpdatedGitRepository {
    UpdatedGitRepository {
        old_work_directory: None,
        new_work_directory: Some(path(dir)),
        dot_git: Some(path(dir).child(".git")),
        repository_dir: Some(path(dir).child(".git")),
        common_dir: Some(path(dir).child(".git")),
    }
}

fn with_status(id: u64, dir: &str, file: &str, code: StatusCode) -> RepositorySnapshot {
    let mut snapshot = RepositorySnapshot::empty(RepositoryId(id), path(dir), None, None, None);
    snapshot.statuses_by_path.push(StatusEntry {
        repo_path: path(file),
        status: FileStatus::TrackedFile(TrackedStatus {
            index_status: StatusCode::Unmodified,
            worktree_status: code,
        }),
        diff_stat: None,
    });
    snapshot
}

#[test]
fn the_innermost_repository_says_the_status() {
    let mut store = GitStore::new();
    store.update_repositories_from_worktree(1, &vec![added("outer"), added("outer/inner")], true, false);
    let mut snapshots = BTreeMap::new();
    for (id, repository) in &store.repositories {
        let dir = repository.work_directory.as_unix_str();
        let snapshot = if dir == "outer" {
            with_status(*id, "outer", "inner/a.rs", StatusCode::Deleted)
        } else {
            with_status(*id, "outer/inner", "a.rs", StatusCode::Modified)
        };
        snapshots.insert(*id, snapshot);
    }
    let file = path("outer/inner/a.rs");
    let status = store.project_path_git_status(&snapshots, &file);
    assert!(matches!(
        status,
        Some(FileStatus::TrackedFile(TrackedStatus { worktree_status: StatusCode::Modified, .. }))
    ));
    assert_eq!(store.status_for_buffer_id(&snapshots, Some(&file)), status);
    assert_eq!(store.status_for_buffer_id(&snapshots, None), None);
    assert_eq!(store.project_path_git_status(&snapshots, &path("outer/b.rs")), None);
    assert_eq!(store.project_path_git_status(&snapshots, &path("other/a.rs")), None);
    let (_, inside) = store.repository_and_path_for_buffer_id(Some(&file)).unwrap();
    assert_eq!(inside.as_unix_str(), "a.rs");
    assert!(store.repository_and_path_for_buffer_id(None).is_none());
    let blame = store.blame_buffer(Some(&file), None, 5).unwrap();
    assert_eq!((blame.path.as_unix_str().as_str(), blame.version), ("a.rs", 5));
    assert_eq!(store.blame_buffer(Some(&file), Some(3), 5).unwrap().version, 3);
    assert!(matches!(store.blame_buffer(Some(&path("other/a.rs")), None, 5), Err(NoRepository)));
    assert!(store.blame_buffer(None, None, 5).is_err());
    assert_eq!(NoRepository.message(), "failed to find a git repository for buffer");
}

#[test]
fn permalinks_lead_to_the_remote_that_is_followed() {
    let mut store = GitStore::new();
    store.update_repositories_from_worktree(1, &vec![added("a"), added("b")], true, false);
    let mut remotes = BTreeMap::new();
    remotes.insert(2, "fork".to_string());
    let rust = "Rust".to_string();
    for (file, remote) in [("a/x.rs", "origin"), ("b/x.rs", "fork")] {
        match store.get_permalink_to_line(Some(&path(file)), None, &remotes) {
            Ok(PermalinkSource::Repository { path, remote: followed, .. }) => {
                assert_eq!(path.as_unix_str(), "x.rs");
                assert_eq!(followed, remote);
            }
            _ => panic!("a file in a repository is linked to there"),
        }
    }
    match store.get_permalink_to_line(Some(&path("c/x.rs")), Some(&rust), &remotes) {
        Ok(PermalinkSource::RustRegistry(path)) => assert_eq!(path.as_unix_str(), "c/x.rs"),
        _ => panic!("a Rust source may come from a package"),
    }
    assert!(matches!(
        store.get_permalink_to_line(Some(&path("c/x.rs")), None, &remotes),
        Err(PermalinkError::Unavailable)
    ));
    assert!(matches!(
        store.get_permalink_to_line(None, Some(&rust), &remotes),
        Err(PermalinkError::NoFile)
    ));
    assert_eq!(PermalinkError::NoFile.message(), "buffer has no file");
    assert_eq!(PermalinkError::Unavailable.message(), "no permalink available");
}

#[test]
fn conflicts_follow_the_repository() {
    let mut conflicts = Conflicts::new();
    assert!(!conflicts.open_conflict_set(1, false, false, 10));
    assert!(conflicts.open_conflict_set(2, false, true, 11));
    // What is shown already is not asked of the repository.
    assert!(conflicts.open_conflict_set(2, true, false, 12));
    assert_eq!(conflicts.sets[&2].waiting, vec![11, 12]);
    let reread = conflicts.on_repository_event(&vec![(1, true), (2, true), (3, true)], 13);
    assert_eq!(reread, vec![1]);
    assert_eq!(conflicts.sets[&1].waiting, vec![13]);
    assert!(conflicts.on_repository_event(&vec![(1, false), (2, false)], 14).is_empty());
    assert!(!conflicts.sets[&1].has_conflict);
    // A set that nobody shows any more is made anew.
    assert!(conflicts.open_conflict_set(1, false, true, 15));
}

#[test]
fn test_open_uncommitted_diff_skips_symlinks() {
    let mut store = GitStore::new();
    store.update_repositories_from_worktree(1, &vec![added("/project")], true, false);
    // git stores the symlink's target path as the blob for `agents.md`
    let blobs = BTreeMap::from([("agents.md", "target.txt"), ("target.txt", "rule one\n")]);
    let files = [("agents.md", None), ("target.txt", Some("rule one\nrule two\n"))];
    let mut diffs = OpenDiffs::new();
    let mut open_uncommitted_diff = |buffer_id: u64, name: &str| {
        let file = path("/project").child(name);
        let found = store.repository_and_path_for_project_path(&file);
        let is_symlink = files.iter().any(|(file, text)| *file == name && text.is_none());
        let texts = match diffs.open_uncommitted_diff(buffer_id, false, found.is_some(), is_symlink)
        {
            OpenDiff::Load { without_text: true } => DiffBasesChange::SetBoth(None),
            OpenDiff::Load { without_text: false } => {
                let blob = blobs.get(name).map(|blob| blob.to_string());
                committed_text_change(blob.clone(), blob)
            }
            _ => panic!("the comparison is opened"),
        };
        diffs.open_diff_internal(buffer_id, DiffKind::Uncommitted, Some(texts));
        diffs.diffs[&buffer_id].head_text.clone()
    };

    // symlink file should not produce a base diff
    let symlink_base = open_uncommitted_diff(1, "agents.md");
    assert!(symlink_base.is_none(), "symlinked buffer should not have a git diff base");

    // regular file should still produce a base diff
    let regular_base = open_uncommitted_diff(2, "target.txt");
    assert!(regular_base.is_some(), "regular file should have a git diff base");
}
