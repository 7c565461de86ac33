//! Staging and unstaging of paths: their buffers are saved first, then git writes the index.
use vstd::prelude::*;

use crate::git_store::commands::{save_buffers, unsaved_buffers, GitCommand, OpenFile};
use crate::git_store::pending_ops::{
    max_id, status_of, JobOutcome, JobStatus, PendingGitStatus, TrackedOp,
};
use crate::git_store::repository::{has_started, have_ended, sent, Repository};
use crate::rel_path::RepoPath;

verus! {

/// How far the staging of some paths is.
#[derive(Debug)]
pub enum StagingProgress {
    /// So many buffers are not saved yet.
    Saving { started: Vec<TrackedOp>, left: usize },
    /// The job waits or runs.
    Queued { started: Vec<TrackedOp>, job: u64 },
    Ended,
}

/// Paths that are being staged or unstaged.
#[derive(Debug)]
pub struct Staging {
    pub stage: bool,
    /// The paths, until their job is sent.
    pub entries: Vec<RepoPath>,
    pub progress: StagingProgress,
}

/// What happened to paths that are being staged.
#[derive(Clone, Copy, Debug, PartialEq, Eq, Structural)]
pub enum StagingEvent {
    /// One of the buffers was saved.
    Saved,
    SaveFailed,
    /// The job ended.
    JobEnded(JobOutcome),
}

/// What to do next for paths that are being staged.
#[derive(Debug)]
pub enum StagingAction {
    Nothing,
    /// Save the buffers, and say what came of each.
    Save { buffers: Vec<u64> },
    /// The job was sent: say how it ended.
    AwaitJob { id: u64 },
    /// It is over, and failed or not.
    Finish { failed: bool },
}

/// The command that writes the index.
pub open spec fn staging_command(stage: bool, paths: Vec<RepoPath>) -> GitCommand {
    if stage {
        GitCommand::StageEntries { paths }
    } else {
        GitCommand::UnstageEntries { paths }
    }
}

/// The mark on paths that are being staged or unstaged.
pub open spec fn staging_mark(stage: bool) -> PendingGitStatus {
    if stage {
        PendingGitStatus::Staged
    } else {
        PendingGitStatus::Unstaged
    }
}

/// The operations that end together with a staging.
pub open spec fn started_of(progress: StagingProgress) -> Seq<TrackedOp> {
    match progress {
        StagingProgress::Saving { started, .. } => started@,
        StagingProgress::Queued { started, .. } => started@,
        StagingProgress::Ended => Seq::empty(),
    }
}

/// The staging of paths begins. For no paths nothing is done. Else an operation is started on
/// each, and the buffers with unsaved edits are saved; where there are none, the job is sent at
/// once.
pub open spec fn is_staging_start(
    before: Repository,
    after: Repository,
    stage: bool,
    entries: Vec<RepoPath>,
    files: Seq<OpenFile>,
    staging: Staging,
    action: StagingAction,
) -> bool {
    &&& staging.stage == stage
    &&& if entries@.len() == 0 {
        &&& after == before
        &&& staging.progress is Ended
        &&& action == StagingAction::Finish { failed: false }
    } else {
        let marked = Repository { pending_ops: after.pending_ops, ..before };
        &&& has_started(
            before.pending_ops,
            after.pending_ops,
            entries@,
            staging_mark(stage),
            started_of(staging.progress),
        )
        &&& if unsaved_buffers(files).len() > 0 {
            &&& after == marked
            &&& staging.entries == entries
            &&& staging.progress matches StagingProgress::Saving { left, .. } && left
                == unsaved_buffers(files).len()
            &&& action matches StagingAction::Save { buffers } && buffers@ == unsaved_buffers(files)
        } else {
            &&& staging.progress is Queued
            &&& sent(
                marked,
                after,
                staging.progress->job,
                staging_command(stage, entries),
            )
            &&& action == StagingAction::AwaitJob { id: staging.progress->job }
        }
    }
}

/// A step of the staging of paths. The job is sent when the last buffer is saved, and never
/// where one could not be. The operations end with the job, or with the buffer that could not
/// be saved. What does not fit the progress changes nothing.
pub open spec fn is_staging_step(
    before: Repository,
    after: Repository,
    staging_before: Staging,
    staging_after: Staging,
    event: StagingEvent,
    action: StagingAction,
) -> bool {
    &&& staging_after.stage == staging_before.stage
    &&& match (staging_before.progress, event) {
        (StagingProgress::Saving { started, left }, StagingEvent::Saved) => if left > 1 {
            &&& after == before
            &&& staging_after.entries == staging_before.entries
            &&& staging_after.progress == (StagingProgress::Saving {
                started,
                left: (left - 1) as usize,
            })
            &&& action is Nothing
        } else {
            &&& staging_after.progress matches StagingProgress::Queued { started: kept, job }
                && kept == started && sent(
                before,
                after,
                job,
                staging_command(staging_before.stage, staging_before.entries),
            ) && action == (StagingAction::AwaitJob { id: job })
        },
        (StagingProgress::Saving { started, .. }, StagingEvent::SaveFailed) => {
            &&& have_ended(before, after, started@, JobStatus::Error)
            &&& staging_after.progress is Ended
            &&& action == StagingAction::Finish { failed: true }
        },
        (StagingProgress::Queued { started, .. }, StagingEvent::JobEnded(outcome)) => {
            &&& have_ended(before, after, started@, status_of(outcome))
            &&& staging_after.progress is Ended
            &&& action == StagingAction::Finish { failed: outcome is Failed }
        },
        _ => {
            &&& after == before
            &&& staging_after == staging_before
            &&& action is Nothing
        },
    }
}

impl Repository {
    /// Begins to stage paths. The files of the paths are given with the buffers that show them.
    pub fn stage_entries(&mut self, entries: Vec<RepoPath>, files: &Vec<OpenFile>) -> (result: (
        Staging,
        StagingAction,
    ))
        requires
            old(self).can_send(),
            forall|path: Seq<Seq<char>>| #[trigger]
                max_id(old(self).pending_ops.at(path)) < u64::MAX,
        ensures
            final(self).well_formed(),
            is_staging_start(
                *old(self),
                *final(self),
                true,
                entries,
                files@,
                result.0,
                result.1,
            ),
    {
        self.stage_or_unstage_entries(true, entries, files)
    }

    /// Begins to unstage paths. The files of the paths are given with the buffers that show
    /// them.
    pub fn unstage_entries(&mut self, entries: Vec<RepoPath>, files: &Vec<OpenFile>) -> (result: (
        Staging,
        StagingAction,
    ))
        requires
            old(self).can_send(),
            forall|path: Seq<Seq<char>>| #[trigger]
                max_id(old(self).pending_ops.at(path)) < u64::MAX,
        ensures
            final(self).well_formed(),
            is_staging_start(
                *old(self),
                *final(self),
                false,
                entries,
                files@,
                result.0,
                result.1,
            ),
    {
        self.stage_or_unstage_entries(false, entries, files)
    }

    /// Begins to stage or unstage paths.
    pub fn stage_or_unstage_entries(
        &mut self,
        stage: bool,
        entries: Vec<RepoPath>,
        files: &Vec<OpenFile>,
    ) -> (result: (Staging, StagingAction))
        requires
            old(self).can_send(),
            forall|path: Seq<Seq<char>>| #[trigger]
                max_id(old(self).pending_ops.at(path)) < u64::MAX,
        ensures
            final(self).well_formed(),
            is_staging_start(
                *old(self),
                *final(self),
                stage,
                entries,
                files@,
                result.0,
                result.1,
            ),
    {
        if entries.len() == 0 {
            return (
                Staging { stage, entries, progress: StagingProgress::Ended },
                StagingAction::Finish { failed: false },
            );
        }
        let buffers: Vec<u64> = save_buffers(files);
        let git_status: PendingGitStatus = if stage {
            PendingGitStatus::Staged
        } else {
            PendingGitStatus::Unstaged
        };
        let started: Vec<TrackedOp> = self.pending_ops.new_pending_ops_for_paths(
            &entries,
            git_status,
        );
        if buffers.len() > 0 {
            let left: usize = buffers.len();
            (
                Staging { stage, entries, progress: StagingProgress::Saving { started, left } },
                StagingAction::Save { buffers },
            )
        } else {
            let job: u64 = self.send_staging(stage, entries);
            (
                Staging {
                    stage,
                    entries: Vec::new(),
                    progress: StagingProgress::Queued { started, job },
                },
                StagingAction::AwaitJob { id: job },
            )
        }
    }

    /// Sends the job that writes the index.
    fn send_staging(&mut self, stage: bool, paths: Vec<RepoPath>) -> (id: u64)
        requires
            old(self).can_send(),
        ensures
            final(self).well_formed(),
            sent(*old(self), *final(self), id, staging_command(stage, paths)),
    {
        if stage {
            self.send_job(GitCommand::StageEntries { paths })
        } else {
            self.send_job(GitCommand::UnstageEntries { paths })
        }
    }

    /// Takes a step in the staging of paths.
    pub fn advance_staging(&mut self, staging: &mut Staging, event: StagingEvent) -> (action:
        StagingAction)
        requires
            old(self).can_send(),
        ensures
            final(self).well_formed(),
            is_staging_step(
                *old(self),
                *final(self),
                *old(staging),
                *final(staging),
                event,
                action,
            ),
    {
        let mut progress: StagingProgress = StagingProgress::Ended;
        std::mem::swap(&mut progress, &mut staging.progress);
        match (progress, event) {
            (StagingProgress::Saving { started, left }, StagingEvent::Saved) => {
                if left > 1 {
                    staging.progress = StagingProgress::Saving { started, left: left - 1 };
                    StagingAction::Nothing
                } else {
                    let mut entries: Vec<RepoPath> = Vec::new();
                    std::mem::swap(&mut entries, &mut staging.entries);
                    let job: u64 = self.send_staging(staging.stage, entries);
                    staging.progress = StagingProgress::Queued { started, job };
                    StagingAction::AwaitJob { id: job }
                }
            },
            (StagingProgress::Saving { started, .. }, StagingEvent::SaveFailed) => {
                self.operations_ended(&started, JobOutcome::Failed);
                StagingAction::Finish { failed: true }
            },
            (StagingProgress::Queued { started, .. }, StagingEvent::JobEnded(outcome)) => {
                self.operations_ended(&started, outcome);
                StagingAction::Finish { failed: matches!(outcome, JobOutcome::Failed) }
            },
            (progress, _) => {
                staging.progress = progress;
                StagingAction::Nothing
            },
        }
    }
}

/// Where a buffer could not be saved, no job is sent, whatever the progress is.
pub proof fn failed_save_sends_no_job(
    before: Repository,
    after: Repository,
    staging_before: Staging,
    staging_after: Staging,
    action: StagingAction,
)
    requires
        is_staging_step(
            before,
            after,
            staging_before,
            staging_after,
            StagingEvent::SaveFailed,
            action,
        ),
    ensures
        after.jobs == before.jobs,
        after.commands == before.commands,
        !(action is AwaitJob),
{
}

/// While buffers are saved, the job is sent with the last save that is waited for, and with
/// nothing else.
pub proof fn job_is_sent_with_the_last_save(
    before: Repository,
    after: Repository,
    staging_before: Staging,
    staging_after: Staging,
    event: StagingEvent,
    action: StagingAction,
)
    requires
        is_staging_step(before, after, staging_before, staging_after, event, action),
        staging_before.progress is Saving,
    ensures
        action is AwaitJob <==> event is Saved && staging_before.progress->left <= 1,
        action is AwaitJob || after.jobs == before.jobs,
{
}

/// The file is on disk, and a buffer holds edits of it that are not.
pub open spec fn needs_saving(file: OpenFile) -> bool {
    file matches OpenFile::Open { exists_on_disk, has_unsaved_edits, .. } && exists_on_disk
        && has_unsaved_edits
}

/// Staging paths whose buffers are saved sends the job that stages them at once; unstaging sends
/// the one that unstages them. Paths of which buffers have unsaved edits wait until those are
/// saved. For no paths nothing is done.
pub proof fn saved_paths_are_staged_at_once(
    staging_in: &mut Repository,
    unstaging_in: &mut Repository,
    entries: Vec<RepoPath>,
    files: Vec<OpenFile>,
    staged: (Staging, StagingAction),
    unstaged: (Staging, StagingAction),
)
    requires
        call_ensures(Repository::stage_entries, (staging_in, entries, &files), staged),
        call_ensures(Repository::unstage_entries, (unstaging_in, entries, &files), unstaged),
        forall|i: int| 0 <= i < files@.len() ==> !needs_saving(
            #[trigger] files@[i],
        ),
    ensures
        staged.0.stage,
        !unstaged.0.stage,
        entries@.len() == 0 ==> *final(staging_in) == *old(staging_in) && staged.1 == (
        StagingAction::Finish { failed: false }) && *final(unstaging_in) == *old(unstaging_in)
            && unstaged.1 == (StagingAction::Finish { failed: false }),
        entries@.len() > 0 ==> (staged.1 matches StagingAction::AwaitJob { id } && final(staging_in).commands@.contains_key(id) && final(staging_in).commands@[id] == (
        GitCommand::StageEntries { paths: entries })),
        entries@.len() > 0 ==> (unstaged.1 matches StagingAction::AwaitJob { id } && final(unstaging_in).commands@.contains_key(id) && final(unstaging_in).commands@[id] == (
        GitCommand::UnstageEntries { paths: entries })),
{
    lemma_none_unsaved(files@);
}

proof fn lemma_none_unsaved(files: Seq<OpenFile>)
    requires
        forall|i: int| 0 <= i < files.len() ==> !needs_saving(
            #[trigger] files[i],
        ),
    ensures
        unsaved_buffers(files).len() == 0,
    decreases files.len(),
{
    if files.len() > 0 {
        assert(!needs_saving(files[files.len() - 1]));
        assert forall|i: int| 0 <= i < files.drop_last().len() implies !needs_saving(
            #[trigger] files.drop_last()[i],
        ) by {
            assert(!needs_saving(files[i]));
        }
        lemma_none_unsaved(files.drop_last());
    }
}

/// The job is sent when the last buffer was saved, and stages the paths that were given. A buffer
/// that could not be saved ends the staging, which failed. When the job ends, so does the
/// staging, and it failed just if the job did.
pub proof fn staging_follows_its_saves(
    repository: &mut Repository,
    staging: &mut Staging,
    event: StagingEvent,
    action: StagingAction,
)
    requires
        call_ensures(Repository::advance_staging, (repository, staging, event), action),
    ensures
        final(staging).stage == old(staging).stage,
        event is Saved ==> (old(staging).progress matches StagingProgress::Saving { started, left }
            ==> if left > 1 {
            &&& action is Nothing
            &&& *final(repository) == *old(repository)
            &&& final(staging).progress matches StagingProgress::Saving { left: more, .. } && more
                == left - 1
        } else {
            &&& action matches StagingAction::AwaitJob { id } && final(repository).commands@.contains_key(id) && final(repository).commands@[id] == (if old(staging).stage {
                GitCommand::StageEntries { paths: old(staging).entries }
            } else {
                GitCommand::UnstageEntries { paths: old(staging).entries }
            })
        }),
        event is SaveFailed && old(staging).progress is Saving ==> final(staging).progress is Ended
            && action == (StagingAction::Finish { failed: true }) && final(repository).jobs == old(repository).jobs,
        event matches StagingEvent::JobEnded(outcome) ==> (old(staging).progress is Queued
            ==> final(staging).progress is Ended && action == (StagingAction::Finish {
            failed: outcome is Failed,
        })),
        old(staging).progress is Ended ==> action is Nothing && *final(repository) == *old(repository),
{
}

} // verus!
