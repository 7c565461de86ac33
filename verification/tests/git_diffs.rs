use std::collections::BTreeMap;

use project::git_store::commit_data::{
    CommitDataReader, CommitDataState, CommitDataStore, FetchOutcome, ReaderAction, ReaderEvent,
};
use project::git_store::diff_bases::{
    committed_text_change, diff_bases_message, reload_buffer_diff_bases, reload_change,
    BufferGitState, DiffBasesChange, DiffBasesMode, DiffKind, LoadedTexts, OpenDiff,
    ReloadCandidate, UncommittedPlan,
};
use project::git_store::graph::{graph_survives, GraphChange, InitialGitGraphData};
use project::git_store::jobs::{
    format_job_key, ActiveJobs, GitJobKey, JobInfo, JobQueue, NextJob,
};
use project::git_store::open_diffs::{
    BufferConflicts, DiffBuffer, DiffHandles, OpenDiffs, RenamedTexts, Secondary,
};
use project::git_store::pending_ops::{
    job_status_for, stage_all, unstage_all, JobOutcome, JobStatus, PendingGitStatus, PendingOps,
    PendingSummary, StageStatus, StagingCandidate,
};
use project::git_store::registry::RepositoryDirs;
use project::git_store::repository::Repository;
use project::git_store::staging::{begin_staging_buffers, end_staging_buffers};
use project::git_store::wire::Oid;
use project::git_store::{GitGraphEvent, RepositoryId};
use project::rel_path::RelPath;

fn oid(n: u32) -> Oid {
    Oid { high: 0, middle: 0, low: n }
}

fn path(text: &str) -> RelPath {
    RelPath::from_unix_str(text)
}

fn text(text: &str) -> Option<String> {
    Some(text.to_string())
}

fn path_texts(paths: &[RelPath]) -> Vec<String> {
    paths.iter().map(|path| path.as_unix_str()).collect()
}

#[test]
fn equal_texts_are_set_as_one() {
    assert!(matches!(
        committed_text_change(text("a"), text("a")),
        DiffBasesChange::SetBoth(Some(both)) if both == "a"
    ));
    assert!(matches!(
        committed_text_change(text("a"), None),
        DiffBasesChange::SetEach { index: None, head: Some(head) } if head == "a"
    ));
}

#[test]
fn reload_says_what_changed() {
    let both = |index: Option<String>, head: Option<String>| {
        reload_change(&Some(text("i")), &Some(text("h")), index, head)
    };
    assert!(both(text("i"), text("h")).is_none());
    assert!(matches!(both(text("x"), text("h")), Some(DiffBasesChange::SetIndex(_))));
    assert!(matches!(both(text("i"), text("x")), Some(DiffBasesChange::SetHead(_))));
    assert!(matches!(both(text("x"), text("x")), Some(DiffBasesChange::SetBoth(_))));
    assert!(matches!(both(text("x"), text("y")), Some(DiffBasesChange::SetEach { .. })));
    assert!(reload_change(&None, &None, text("x"), text("y")).is_none());
    assert!(matches!(
        reload_change(&None, &Some(None), None, text("y")),
        Some(DiffBasesChange::SetHead(_))
    ));
}

#[test]
fn reload_tells_guests() {
    let candidates = vec![
        ReloadCandidate {
            buffer_id: 1,
            repo_path: path("a"),
            is_symlink: false,
            current_index: Some(text("old")),
            current_head: None,
        },
        ReloadCandidate {
            buffer_id: 2,
            repo_path: path("b"),
            is_symlink: true,
            current_index: Some(None),
            current_head: Some(text("old")),
        },
    ];
    assert_eq!(candidates[0].texts_to_load(), (true, false));
    assert_eq!(candidates[1].texts_to_load(), (false, false));
    let loaded = vec![
        LoadedTexts { index: text("new"), head: text("ignored") },
        LoadedTexts { index: text("ignored"), head: text("ignored") },
    ];
    let outcomes = reload_buffer_diff_bases(&candidates, &loaded, Some(7));
    let message = outcomes[0].message.as_ref().unwrap();
    assert_eq!(message.mode, DiffBasesMode::IndexOnly);
    assert_eq!(message.staged_text, text("new"));
    assert_eq!(message.project_id, 7);
    let message = outcomes[1].message.as_ref().unwrap();
    assert_eq!(message.mode, DiffBasesMode::HeadOnly);
    assert_eq!(message.committed_text, None);
    let outcomes = reload_buffer_diff_bases(&candidates, &loaded, None);
    assert!(outcomes[0].message.is_none());
    let both = diff_bases_message(&DiffBasesChange::SetBoth(text("t")), 1, 2);
    assert_eq!(both.mode, DiffBasesMode::IndexMatchesHead);
    assert_eq!((both.staged_text, both.committed_text), (None, text("t")));
    let each = diff_bases_message(
        &DiffBasesChange::SetEach { index: text("i"), head: text("h") },
        1,
        2,
    );
    assert_eq!(each.mode, DiffBasesMode::IndexAndHead);
}

#[test]
fn texts_are_kept_with_newlines() {
    let mut state = BufferGitState::new();
    state.diff_bases_changed(Some(DiffBasesChange::SetEach {
        index: text("a\r\nb\rc\n"),
        head: text("h\r\r\n"),
    }));
    assert_eq!(state.index_text, text("a\nb\nc\n"));
    assert_eq!(state.head_text, text("h\n\n"));
    assert!(state.index_changed && state.head_changed);
}

#[test]
fn recalculation_reuses_the_comparison_with_the_index() {
    let mut state = BufferGitState::new();
    state.diff_bases_changed(Some(DiffBasesChange::SetBoth(text("t"))));
    let plan = state.recalculate_diffs(true, true, &Vec::new());
    assert!(state.wait_for_recalculation());
    assert_eq!(plan.unstaged.unwrap().base_text, text("t"));
    assert!(matches!(plan.uncommitted, UncommittedPlan::ReuseUnstaged));
    state.diff_bases_changed(Some(DiffBasesChange::SetHead(text("t"))));
    let plan = state.recalculate_diffs(true, true, &Vec::new());
    assert!(matches!(plan.uncommitted, UncommittedPlan::Compute(task) if task.head_is("t")));
    let plan = state.recalculate_diffs(true, false, &Vec::new());
    assert!(matches!(plan.uncommitted, UncommittedPlan::Skip));
    state.finish_recalculation();
    assert!(!state.wait_for_recalculation());
    assert!(!state.index_changed && !state.head_changed);
}

trait HeadText {
    fn head_is(&self, text: &str) -> bool;
}

impl HeadText for project::git_store::diff_bases::DiffTask {
    fn head_is(&self, text: &str) -> bool {
        self.base_text.as_deref() == Some(text) && self.base_changed
    }
}

#[test]
fn dead_comparisons_with_commits_are_forgotten() {
    let mut state = BufferGitState::new();
    state.add_oid_diff(Some(oid(1)), text("one"));
    state.add_oid_diff(Some(oid(2)), text("two"));
    state.add_oid_diff(None, None);
    state.add_oid_diff(Some(oid(2)), text("2"));
    let plan = state.recalculate_diffs(false, false, &vec![false, true, true]);
    assert_eq!(state.oid_diffs, vec![Some(oid(2)), None]);
    assert_eq!(plan.oid_diffs.len(), 2);
    assert_eq!(plan.oid_diffs[0].base_text, text("2"));
    assert_eq!(plan.oid_diffs[1].base_text, None);
    assert!(plan.unstaged.is_none());
}

#[test]
fn hunk_operations_cancel_recalculations() {
    let mut state = BufferGitState::new();
    state.diff_bases_changed(Some(DiffBasesChange::SetIndex(text("a"))));
    let plan = state.recalculate_diffs(true, false, &Vec::new());
    assert_eq!(state.hunks_staged_or_unstaged(&text("a")), None);
    assert_eq!(state.hunks_staged_or_unstaged(&text("b")), Some(1));
    assert!(state.cancel_recalculation(plan.written_operations));
    assert!(!state.recalculating);
    state.index_written(1);
    let plan = state.recalculate_diffs(true, false, &Vec::new());
    assert!(!state.cancel_recalculation(plan.written_operations));
    let operation = state.begin_staging();
    assert!(state.end_staging(operation, false));
    assert!(!state.end_staging(operation, true));
    assert_eq!(state.hunk_staging_operation_count_as_of_write, 2);
    state.buffer_language_changed();
    assert!(state.language_changed);
}

#[test]
fn staging_several_buffers_counts_each() {
    let mut states: BTreeMap<u64, BufferGitState> = BTreeMap::new();
    states.insert(1, BufferGitState::new());
    states.insert(2, BufferGitState::new());
    let operations = begin_staging_buffers(&mut states, &vec![1, 9, 1]);
    assert_eq!(operations.get(&1), Some(&2));
    assert_eq!(operations.len(), 1);
    assert_eq!(states[&1].hunk_staging_operation_count, 2);
    assert_eq!(end_staging_buffers(&mut states, &operations, false), vec![1]);
    assert_eq!(end_staging_buffers(&mut states, &operations, true), Vec::<u64>::new());
    assert_eq!(states[&1].hunk_staging_operation_count_as_of_write, 2);
}

#[test]
fn diffs_are_opened_once() {
    let mut diffs = OpenDiffs::new();
    assert_eq!(
        diffs.open(1, DiffKind::Uncommitted, false, false, false),
        OpenDiff::NoRepository
    );
    assert_eq!(
        diffs.open(1, DiffKind::Uncommitted, false, true, true),
        OpenDiff::Load { without_text: true }
    );
    assert_eq!(
        diffs.open(1, DiffKind::Uncommitted, false, true, true),
        OpenDiff::JoinLoading
    );
    assert_eq!(
        diffs.open(1, DiffKind::Unstaged, false, true, false),
        OpenDiff::Load { without_text: false }
    );
    diffs.open_diff_internal(1, DiffKind::Unstaged, None);
    assert!(!diffs.diffs.contains_key(&1));
    assert_eq!(
        diffs.open(1, DiffKind::Unstaged, false, true, false),
        OpenDiff::Load { without_text: false }
    );
    diffs.open_diff_internal(
        1,
        DiffKind::Uncommitted,
        Some(DiffBasesChange::SetBoth(None)),
    );
    assert!(diffs.diffs[&1].language_changed);
    assert_eq!(diffs.open(1, DiffKind::Uncommitted, true, true, false), OpenDiff::Ready);
    diffs.diffs.get_mut(&1).unwrap().recalculating = true;
    assert_eq!(
        diffs.open(1, DiffKind::Uncommitted, true, true, false),
        OpenDiff::AfterRecalculation
    );
}

#[test]
fn diffs_since_commits_are_kept_with_their_text() {
    let mut diffs = OpenDiffs::new();
    assert_eq!(
        diffs.open_diff_since(4, Some(oid(1)), false),
        OpenDiff::Load { without_text: false }
    );
    assert_eq!(diffs.open_diff_since(4, Some(oid(1)), false), OpenDiff::JoinLoading);
    assert_eq!(diffs.open_diff_since(4, None, false), OpenDiff::Load { without_text: true });
    diffs.oid_diff_opened(4, Some(oid(1)), text("then"));
    assert_eq!(diffs.diffs[&4].oid_diffs, vec![Some(oid(1))]);
    assert_eq!(diffs.loading_diffs, vec![(4, DiffKind::SinceOid(None))]);
    assert!(diffs.buffer_language_changed(4));
    assert!(!diffs.buffer_language_changed(5));
    assert_eq!(diffs.recalculate_buffer_diffs(&vec![5, 4, 6]), vec![4]);
    assert_eq!(diffs.file_path_changed(4, true, false), RenamedTexts::Load);
    assert_eq!(diffs.file_path_changed(4, true, true), RenamedTexts::NoText);
    assert_eq!(diffs.file_path_changed(4, false, true), RenamedTexts::Keep);
    assert_eq!(diffs.file_path_changed(5, true, true), RenamedTexts::Keep);
    diffs.buffer_dropped(4);
    assert!(diffs.diffs.is_empty());
}

#[test]
fn uncommitted_diffs_come_with_unstaged_ones() {
    let mut handles = DiffHandles { unstaged: None, uncommitted: None };
    assert_eq!(handles.opened(true, 10, false, 11), Secondary::Created(11));
    assert_eq!(handles, DiffHandles { unstaged: Some(11), uncommitted: Some(10) });
    assert_eq!(handles.opened(false, 12, true, 13), Secondary::Nothing);
    assert_eq!(handles.unstaged, Some(11));
    assert_eq!(handles.opened(true, 14, true, 15), Secondary::Existing(11));
    assert_eq!(handles.opened(true, 16, false, 17), Secondary::Created(17));
    assert_eq!(handles, DiffHandles { unstaged: Some(17), uncommitted: Some(16) });
}

#[test]
fn conflict_markers_are_read_in_conflicts_only() {
    let mut conflicts = BufferConflicts::new(false);
    assert!(!conflicts.reparse_conflict_markers(1));
    assert!(conflicts.repository_updated(true));
    assert!(!conflicts.repository_updated(true));
    assert!(conflicts.reparse_conflict_markers(2));
    assert!(conflicts.reparse_conflict_markers(3));
    assert_eq!(conflicts.markers_parsed(), vec![2, 3]);
    assert_eq!(conflicts.markers_parsed(), Vec::<u64>::new());
}

#[test]
fn readable_commits_are_loaded_once_reads_are_drained() {
    let mut store: CommitDataStore<&str> = CommitDataStore::new();
    for n in [3, 1, 2, 1] {
        store.fetch_commit_data(oid(n), n == 2, true);
    }
    assert!(store.loaded_commit_data_for_test().is_empty());
    // The first one cannot be read.
    store.commit_data_received(oid(2), "two");
    store.fetch_commit_data(oid(2), true, true);
    store.commit_data_received(oid(1), "one");
    let mut loaded: Vec<&str> =
        store.loaded_commit_data_for_test().into_iter().map(|(_, data)| *data).collect();
    loaded.sort();
    assert_eq!(loaded, vec!["one", "two"]);
}

#[test]
fn buffers_of_a_repository_are_read_again() {
    let repository = Repository::local(
        RepositoryId(1),
        RepositoryDirs {
            work_directory: path("project"),
            dot_git: path("project/.git"),
            repository_dir: path("project/.git"),
            common_dir: path("project/.git"),
        },
    );
    let mut diffs = OpenDiffs::new();
    for id in [4, 2, 7, 9] {
        let mut state = BufferGitState::new();
        state.index_text = text("index");
        state.head_text = text("head");
        diffs.diffs.insert(id, state);
    }
    let buffer = |file: &str, has_uncommitted_diff: bool| DiffBuffer {
        abs_path: path(file),
        is_symlink: false,
        has_unstaged_diff: true,
        has_uncommitted_diff,
    };
    let buffers = BTreeMap::from([
        (4, buffer("project/src/a.rs", true)),
        (2, buffer("project/b.rs", false)),
        (7, buffer("elsewhere/c.rs", true)),
        (8, buffer("project/d.rs", true)),
    ]);
    let candidates = diffs.reload_candidates(&repository.snapshot, &buffers);
    let found: Vec<(u64, String)> = candidates
        .iter()
        .map(|candidate| (candidate.buffer_id, candidate.repo_path.as_unix_str()))
        .collect();
    assert_eq!(found, vec![(2, "b.rs".to_string()), (4, "src/a.rs".to_string())]);
    assert_eq!(candidates[0].current_index, Some(text("index")));
    assert_eq!(candidates[0].current_head, None);
    assert_eq!(candidates[1].current_head, Some(text("head")));
}

#[test]
fn commit_data_is_asked_for_once() {
    let mut store: CommitDataStore<&str> = CommitDataStore::new();
    assert_eq!(
        store.fetch_commit_data(oid(1), false, true),
        FetchOutcome { open_handler: true, send_request: true, is_loaded: false }
    );
    assert_eq!(
        store.fetch_commit_data(oid(1), true, true),
        FetchOutcome { open_handler: false, send_request: false, is_loaded: false }
    );
    assert_eq!(
        store.fetch_commit_data(oid(2), false, true),
        FetchOutcome { open_handler: false, send_request: true, is_loaded: false }
    );
    assert!(store.commit_data_received(oid(1), "one"));
    assert!(!store.commit_data_received(oid(2), "two"));
    store.fetch_commit_data(oid(3), true, true);
    assert_eq!(
        store.fetch_commit_data(oid(4), true, false),
        FetchOutcome { open_handler: false, send_request: false, is_loaded: false }
    );
    assert!(!store.commit_data.contains_key(&oid(4)));
    store.close_handler();
    assert!(store.handler.is_none());
    assert!(!store.commit_data.contains_key(&oid(3)));
    assert!(matches!(store.commit_data.get(&oid(1)), Some(CommitDataState::Loaded("one"))));
    assert_eq!(
        store.fetch_commit_data(oid(1), true, true),
        FetchOutcome { open_handler: false, send_request: false, is_loaded: true }
    );
}

#[test]
fn reader_stops_when_idle() {
    let mut reader = CommitDataReader::new();
    assert!(reader.times_out());
    assert_eq!(
        reader.local_commit_data_reader(ReaderEvent::Request(oid(1))),
        ReaderAction::StartReading(oid(1))
    );
    reader.local_commit_data_reader(ReaderEvent::Request(oid(2)));
    assert!(!reader.times_out());
    assert_eq!(reader.local_commit_data_reader(ReaderEvent::TimedOut), ReaderAction::Wait);
    assert_eq!(
        reader.local_commit_data_reader(ReaderEvent::Read { sha: oid(1), ok: true }),
        ReaderAction::Deliver(oid(1))
    );
    assert_eq!(
        reader.local_commit_data_reader(ReaderEvent::Read { sha: oid(2), ok: false }),
        ReaderAction::Wait
    );
    assert_eq!(reader.local_commit_data_reader(ReaderEvent::TimedOut), ReaderAction::Stop);
    assert_eq!(reader.local_commit_data_reader(ReaderEvent::ResultsRefused), ReaderAction::Stop);
}

#[test]
fn graphs_grow_while_they_load() {
    let mut graph = InitialGitGraphData::new();
    assert_eq!(
        graph.append_initial_graph_commits(&vec![oid(1), oid(2)]),
        GitGraphEvent::CountUpdated(2)
    );
    assert_eq!(
        graph.append_initial_graph_commits(&vec![oid(3)]),
        GitGraphEvent::CountUpdated(3)
    );
    assert_eq!(graph.commit_oid_to_index.get(&oid(3)), Some(&2));
    assert_eq!(graph.graph_data(1, 9).commits, vec![oid(2), oid(3)]);
    assert_eq!(graph.graph_data(9, 9).commits, vec![oid(3)]);
    assert!(graph.graph_data(0, 0).is_loading);
    assert_eq!(graph.loading_finished(text("broken")), GitGraphEvent::LoadingError);
    assert_eq!(graph.graph_data(0, 1).error, text("broken"));
    assert_eq!(graph.loading_finished(None), GitGraphEvent::FullyLoaded);
    assert!(!graph.graph_data(0, 1).is_loading);
}

#[test]
fn graphs_outlive_early_changes() {
    assert!(graph_survives(GraphChange::HeadChanged, 2, true));
    assert!(!graph_survives(GraphChange::HeadChanged, 3, false));
    assert!(!graph_survives(GraphChange::BranchListChanged, 3, false));
    assert!(graph_survives(GraphChange::StashEntriesChanged, 3, false));
    assert!(!graph_survives(GraphChange::StashEntriesChanged, 3, true));
    assert!(graph_survives(GraphChange::Other, 9, true));
}

#[test]
fn jobs_with_the_same_key_run_once() {
    let mut queue = JobQueue::new();
    queue.send_keyed_job(Some(GitJobKey::RefreshStatuses));
    queue.send_keyed_job(None);
    queue.send_keyed_job(Some(GitJobKey::RefreshStatuses));
    queue.send_keyed_job(Some(GitJobKey::WriteIndex(vec![path("a")])));
    queue.send_keyed_job(Some(GitJobKey::WriteIndex(vec![path("b")])));
    assert!(matches!(queue.next_job(), Some(NextJob::Skip(0))));
    assert!(matches!(queue.next_job(), Some(NextJob::Run(job)) if job.id == 1));
    assert!(matches!(queue.next_job(), Some(NextJob::Run(job)) if job.id == 2));
    assert!(matches!(queue.next_job(), Some(NextJob::Run(job)) if job.id == 3));
    assert!(matches!(queue.next_job(), Some(NextJob::Run(job)) if job.id == 4));
    assert!(queue.next_job().is_none());
}

#[test]
fn job_keys_are_shown() {
    assert_eq!(
        format_job_key(&GitJobKey::WriteIndex(vec![path("a/b"), path("c")])),
        "WriteIndex(a/b, c)"
    );
    assert_eq!(format_job_key(&GitJobKey::ReloadBufferDiffBases), "ReloadBufferDiffBases");
    assert_eq!(format_job_key(&GitJobKey::RefreshStatuses), "RefreshStatuses");
}

#[test]
fn running_jobs_show_their_message() {
    let mut jobs = ActiveJobs::new();
    assert!(jobs.current_job().is_none());
    jobs.started(1, 10, None);
    assert!(jobs.current_job().is_none());
    jobs.started(2, 20, text("git fetch"));
    let info = JobInfo { start: 20, message: "git fetch".to_string() };
    assert_eq!(jobs.current_job(), Some(&info));
    jobs.finished(2);
    assert!(jobs.current_job().is_none());
    jobs.started(3, 30, text("git push"));
    jobs.worker_respawned();
    assert!(jobs.current_job().is_none());
}

#[test]
fn pending_operations_are_numbered_per_path() {
    let mut ops = PendingOps::new();
    let started = ops.new_pending_ops_for_paths(
        &vec![path("a"), path("b"), path("a")],
        PendingGitStatus::Staged,
    );
    assert_eq!(started.iter().map(|op| op.id).collect::<Vec<_>>(), vec![1, 1, 1]);
    let again = ops.new_pending_ops_for_paths(&vec![path("a")], PendingGitStatus::Unstaged);
    assert_eq!(again[0].id, 2);
    ops.set_job_status(&started, job_status_for(JobOutcome::Failed));
    ops.set_job_status(&again, job_status_for(JobOutcome::Failed));
    let of_a = ops.ops.get(&path("a")).unwrap();
    assert!(of_a.iter().all(|op| op.job_status == JobStatus::Error));
    assert_eq!(job_status_for(JobOutcome::Done), JobStatus::Finished);
    assert_eq!(job_status_for(JobOutcome::Canceled), JobStatus::Skipped);
}

fn candidate(
    name: &str,
    staging: StageStatus,
    pending: Option<PendingSummary>,
) -> StagingCandidate {
    StagingCandidate { path: path(name), staging, pending }
}

#[test]
fn pending_operations_decide_what_is_staged() {
    let pending = |staging: bool, staged: bool, last_op_errored: bool| {
        Some(PendingSummary { staging, staged, last_op_errored })
    };
    let candidates = vec![
        candidate("staged", StageStatus::Staged, None),
        candidate("unstaged", StageStatus::Unstaged, None),
        candidate("partly", StageStatus::PartiallyStaged, None),
        candidate("being-staged", StageStatus::Unstaged, pending(true, false, false)),
        candidate("being-unstaged", StageStatus::Staged, pending(false, false, false)),
        candidate("failed", StageStatus::Staged, pending(false, false, true)),
    ];
    assert_eq!(
        path_texts(&stage_all(&candidates)),
        vec!["unstaged", "partly", "being-unstaged"]
    );
    assert_eq!(
        path_texts(&unstage_all(&candidates)),
        vec!["staged", "partly", "being-staged", "failed"]
    );
}
