//! Staging and unstaging of single hunks: the new text of the index is written, and counted as
//! written once it is.
use vstd::prelude::*;

use crate::git_store::commands::GitCommand;
use crate::git_store::diff_bases::BufferGitState;
use crate::git_store::open_diffs::OpenDiffs;
use crate::git_store::pending_ops::JobOutcome;
use crate::git_store::repository::{sent, Repository};
use crate::ids::{map_put, map_take};
use crate::rel_path::RepoPath;
use crate::text::text_view;

verus! {

/// The text of an index that is being written because hunks of a buffer were staged or unstaged.
#[derive(Clone, Copy, Debug, PartialEq, Eq, Structural)]
pub struct HunkWrite {
    pub buffer_id: u64,
    /// The number of the operation on the hunks of the buffer.
    pub operation: usize,
    pub job: u64,
}

/// What is left to do when a write ended.
#[derive(Clone, Copy, Debug, PartialEq, Eq, Structural)]
pub struct HunkWriteEnd {
    /// The hunks that wait for the write are shown as they were.
    pub clear_pending_hunks: bool,
    /// It is announced that the index could not be written.
    pub announce_error: bool,
}

/// The number of the operation, if there is one: the buffer is compared with another text than
/// the new one.
pub open spec fn hunk_operation(
    diffs: Map<u64, BufferGitState>,
    buffer_id: u64,
    new_index_text: Option<Seq<char>>,
) -> Option<int> {
    if diffs.contains_key(buffer_id) && text_view(diffs[buffer_id].index_text) != new_index_text {
        Some(diffs[buffer_id].hunk_staging_operation_count + 1)
    } else {
        None
    }
}

/// The operation is counted, and nothing else changed.
pub open spec fn is_counted(
    before: OpenDiffs,
    after: OpenDiffs,
    buffer_id: u64,
    operation: usize,
) -> bool {
    &&& after.loading_diffs == before.loading_diffs
    &&& after.diffs@ == before.diffs@.insert(
        buffer_id,
        BufferGitState { hunk_staging_operation_count: operation, ..before.diffs@[buffer_id] },
    )
}

impl OpenDiffs {
    /// Hunks of a buffer were staged or unstaged, which makes `new_index_text` the text of the
    /// index. Returns the number under which it has to be written, if it has to be.
    pub fn on_buffer_diff_event(&mut self, buffer_id: u64, new_index_text: &Option<String>) -> (
    operation: Option<usize>)
        requires
            old(self).well_formed(),
            old(self).diffs@.contains_key(buffer_id) ==> old(
                self,
            ).diffs@[buffer_id].hunk_staging_operation_count < usize::MAX,
        ensures
            final(self).well_formed(),
            match hunk_operation(old(self).diffs@, buffer_id, text_view(*new_index_text)) {
                None => operation is None && final(self).diffs@ == old(self).diffs@
                    && final(self).loading_diffs == old(self).loading_diffs,
                Some(number) => operation matches Some(operation) && operation == number
                    && is_counted(*old(self), *final(self), buffer_id, operation),
            },
    {
        let ghost before = self.diffs@;
        match map_take(&mut self.diffs, buffer_id) {
            None => {
                assert(self.diffs@ =~= before);
                None
            },
            Some(state) => {
                let mut state: BufferGitState = state;
                let operation: Option<usize> = state.hunks_staged_or_unstaged(new_index_text);
                map_put(&mut self.diffs, buffer_id, state);
                assert(self.diffs@ =~= before.insert(buffer_id, state));
                assert(operation is None ==> self.diffs@ =~= before);
                operation
            },
        }
    }

    /// A write of hunks ended. One that succeeded counts as written. After one that failed the
    /// hunks that wait for it are cleared, and the failure is announced. One that a later write
    /// made unnecessary changes nothing.
    pub fn hunk_write_ended(&mut self, write: HunkWrite, outcome: JobOutcome) -> (end: HunkWriteEnd)
        requires
            old(self).well_formed(),
            old(self).diffs@.contains_key(write.buffer_id) ==> write.operation <= old(
                self,
            ).diffs@[write.buffer_id].hunk_staging_operation_count,
        ensures
            final(self).well_formed(),
            final(self).loading_diffs == old(self).loading_diffs,
            final(self).diffs@ == if outcome == JobOutcome::Done && old(
                self,
            ).diffs@.contains_key(write.buffer_id) {
                old(self).diffs@.insert(
                    write.buffer_id,
                    BufferGitState {
                        hunk_staging_operation_count_as_of_write: write.operation,
                        ..old(self).diffs@[write.buffer_id]
                    },
                )
            } else {
                old(self).diffs@
            },
            end.clear_pending_hunks == (outcome == JobOutcome::Failed),
            end.announce_error == (outcome == JobOutcome::Failed),
    {
        let ghost before = self.diffs@;
        if let JobOutcome::Done = outcome {
            if let Some(state) = map_take(&mut self.diffs, write.buffer_id) {
                let mut state: BufferGitState = state;
                state.index_written(write.operation);
                map_put(&mut self.diffs, write.buffer_id, state);
                assert(self.diffs@ =~= before.insert(write.buffer_id, state));
            } else {
                assert(self.diffs@ =~= before);
            }
        }
        let failed: bool = match outcome {
            JobOutcome::Failed => true,
            _ => false,
        };
        HunkWriteEnd { clear_pending_hunks: failed, announce_error: failed }
    }
}

impl Repository {
    /// Hunks of a buffer of the repository were staged or unstaged: counts the operation, and
    /// sends the job that writes the index. Nothing is done if the index has that text.
    pub fn write_hunks(
        &mut self,
        diffs: &mut OpenDiffs,
        buffer_id: u64,
        path: RepoPath,
        new_index_text: Option<String>,
    ) -> (write: Option<HunkWrite>)
        requires
            old(self).can_send(),
            old(diffs).well_formed(),
            old(diffs).diffs@.contains_key(buffer_id) ==> old(
                diffs,
            ).diffs@[buffer_id].hunk_staging_operation_count < usize::MAX,
        ensures
            final(self).well_formed(),
            final(diffs).well_formed(),
            match hunk_operation(old(diffs).diffs@, buffer_id, text_view(new_index_text)) {
                None => {
                    &&& write is None
                    &&& *final(self) == *old(self)
                    &&& final(diffs).diffs@ == old(diffs).diffs@
                    &&& final(diffs).loading_diffs == old(diffs).loading_diffs
                },
                Some(number) => {
                    &&& write matches Some(write)
                    &&& write.buffer_id == buffer_id
                    &&& write.operation == number
                    &&& is_counted(*old(diffs), *final(diffs), buffer_id, write.operation)
                    &&& sent(
                        *old(self),
                        *final(self),
                        write.job,
                        GitCommand::SetIndexText { path, content: new_index_text },
                    )
                },
            },
    {
        match diffs.on_buffer_diff_event(buffer_id, &new_index_text) {
            None => None,
            Some(operation) => {
                let job: u64 = self.spawn_set_index_text_job(path, new_index_text);
                Some(HunkWrite { buffer_id, operation, job })
            },
        }
    }
}

/// Hunks whose staging changes the text of the index are written: the operation is counted, and a
/// job is sent that sets the text of that path. Where the index has the text nothing is done.
pub proof fn changed_hunks_are_written(
    repository: &mut Repository,
    diffs: &mut OpenDiffs,
    buffer_id: u64,
    path: RepoPath,
    new_index_text: String,
    write: Option<HunkWrite>,
    other: u64,
)
    requires
        call_ensures(
            Repository::write_hunks,
            (repository, diffs, buffer_id, path, Some(new_index_text)),
            write,
        ),
        old(repository).can_send(),
        other != buffer_id,
    ensures
        write is Some <==> old(diffs).diffs@.contains_key(buffer_id) && (old(diffs).diffs@[buffer_id].index_text matches Some(text) ==> text@ != new_index_text@),
        write is None ==> *final(repository) == *old(repository) && final(diffs).diffs@ == old(diffs).diffs@,
        write matches Some(write) ==> {
            &&& write.buffer_id == buffer_id
            &&& write.operation == old(diffs).diffs@[buffer_id].hunk_staging_operation_count + 1
            &&& final(diffs).diffs@[buffer_id].hunk_staging_operation_count == write.operation
            &&& final(diffs).diffs@[buffer_id].index_text == old(diffs).diffs@[buffer_id].index_text
            &&& old(diffs).diffs@.contains_key(other) ==> final(diffs).diffs@[other] == old(diffs).diffs@[other]
            &&& final(repository).commands@.contains_key(write.job)
            &&& final(repository).commands@[write.job] == (GitCommand::SetIndexText {
                path,
                content: Some(new_index_text),
            })
            &&& final(repository).snapshot == old(repository).snapshot
        },
{
}

/// A write that was done counts as written. After one that failed hunks are cleared and the
/// failure is announced. One that was made unnecessary changes nothing.
pub proof fn writes_end_as_their_jobs_do(
    done: &mut OpenDiffs,
    failed: &mut OpenDiffs,
    skipped: &mut OpenDiffs,
    buffer_id: u64,
    operation: usize,
    job: u64,
    done_end: HunkWriteEnd,
    failed_end: HunkWriteEnd,
    skipped_end: HunkWriteEnd,
)
    requires
        call_ensures(
            OpenDiffs::hunk_write_ended,
            (done, HunkWrite { buffer_id, operation, job }, JobOutcome::Done),
            done_end,
        ),
        call_ensures(
            OpenDiffs::hunk_write_ended,
            (failed, HunkWrite { buffer_id, operation, job }, JobOutcome::Failed),
            failed_end,
        ),
        call_ensures(
            OpenDiffs::hunk_write_ended,
            (skipped, HunkWrite { buffer_id, operation, job }, JobOutcome::Canceled),
            skipped_end,
        ),
    ensures
        old(done).diffs@.contains_key(buffer_id) ==> final(done).diffs@.contains_key(buffer_id)
            && final(done).diffs@[buffer_id].hunk_staging_operation_count_as_of_write == operation
            && final(done).diffs@[buffer_id].index_text == old(done).diffs@[buffer_id].index_text,
        !done_end.clear_pending_hunks && !done_end.announce_error,
        final(failed).diffs@ == old(failed).diffs@,
        failed_end.clear_pending_hunks && failed_end.announce_error,
        final(skipped).diffs@ == old(skipped).diffs@,
        !skipped_end.clear_pending_hunks && !skipped_end.announce_error,
{
}

} // verus!
