//! A repository: what is known of it, and the jobs that ask git for more.
use std::collections::BTreeMap;
use vstd::prelude::*;

use crate::git_store::changed_paths::views;
use crate::git_store::commands::{
    command_key, remotes_query, status_text, GitCommand, PushOptions, RefEdit, RemotesQuery,
    ResetMode,
};
use crate::git_store::jobs::{
    job_views, superseded, ActiveJobs, JobInfo, JobQueue, JobView, NextJob,
};
use crate::git_store::pending_ops::{
    ended_ops, job_status_for, max_id, started_ops, status_of, JobOutcome, JobStatus,
    PendingGitStatus, PendingOp, PendingOps, TrackedOp,
};
use crate::git_store::registry::RepositoryDirs;
use crate::git_store::snapshot::RepositorySnapshot;
use crate::git_store::status_scan::{
    is_scanned, reported_in_order, ReportedDiffStat, ReportedStatus, StatusRefresh,
};
use crate::git_store::wire::{stash_views, Oid, StashEntry};
use crate::git_store::RepositoryId;
use crate::ids::{map_get, map_put, map_take};
use crate::rel_path::RepoPath;

verus! {

/// A repository of the project.
#[derive(Debug)]
pub struct Repository {
    pub snapshot: RepositorySnapshot,
    pub pending_ops: PendingOps,
    /// The jobs that wait to run, and what each of them asks for.
    pub jobs: JobQueue,
    pub commands: BTreeMap<u64, GitCommand>,
    /// The jobs of hooks that a commit waits for, and whether they succeeded.
    pub hooks: BTreeMap<u64, bool>,
    pub active_jobs: ActiveJobs,
    /// The buffer in which the message of the next commit is written.
    pub commit_message_buffer: Option<u64>,
    pub status_refresh: StatusRefresh,
}

/// What came of the first job that waits.
#[derive(Debug)]
pub enum JobStep {
    /// A later job does the same work.
    Skipped(u64),
    /// It is a commit, and its hook did not succeed.
    Refused(u64),
    Run { id: u64, command: GitCommand },
}

/// A command may run: it is no commit, or its hook succeeded.
pub open spec fn may_run(hooks: Map<u64, bool>, command: GitCommand) -> bool {
    match command {
        GitCommand::Commit { hook_job, .. } => hooks.contains_key(hook_job) && hooks[hook_job],
        _ => true,
    }
}

/// The hooks that are still waited for when a command was taken.
pub open spec fn hooks_after(hooks: Map<u64, bool>, command: GitCommand) -> Map<u64, bool> {
    match command {
        GitCommand::Commit { hook_job, .. } => hooks.remove(hook_job),
        _ => hooks,
    }
}

/// A command was queued under a number of its own.
pub open spec fn queued(before: Repository, after: Repository, id: u64, command: GitCommand) -> bool {
    &&& id == before.jobs.next_id
    &&& after.jobs.next_id == id + 1
    &&& job_views(after.jobs.jobs@) == job_views(before.jobs.jobs@).push(
        JobView { id, key: command_key(command) },
    )
    &&& after.commands@ == before.commands@.insert(id, command)
    &&& after.hooks == before.hooks
    &&& after.active_jobs == before.active_jobs
}

/// A command was queued; nothing else changed.
pub open spec fn sent(before: Repository, after: Repository, id: u64, command: GitCommand) -> bool {
    queued(before, after, id, command) && after.same_but_jobs(before)
}

/// What is shown of the running jobs, with one more that started at some time.
pub open spec fn shown_with(
    after: Map<u64, JobInfo>,
    before: Map<u64, JobInfo>,
    id: u64,
    start: u64,
    command: GitCommand,
) -> bool {
    match status_text(command) {
        Some(text) => {
            &&& after.dom() == before.dom().insert(id)
            &&& after[id].start == start
            &&& after[id].message@ == text
            &&& forall|other: u64|
                other != id && #[trigger] before.contains_key(other) ==> after[other]
                    == before[other]
        },
        None => after == before,
    }
}

impl Repository {
    /// Every job that waits has its command, and they wait in the order in which they were sent.
    pub open spec fn well_formed(&self) -> bool {
        &&& self.status_refresh.well_formed()
        &&& forall|i: int|
            0 <= i < self.jobs.jobs@.len() ==> (#[trigger] self.jobs.jobs@[i]).id
                < self.jobs.next_id && self.commands@.contains_key(self.jobs.jobs@[i].id)
        &&& forall|i: int, j: int|
            0 <= i < j < self.jobs.jobs@.len() ==> (#[trigger] self.jobs.jobs@[i]).id < (
            #[trigger] self.jobs.jobs@[j]).id
    }

    /// There is a number left for one more job.
    pub open spec fn can_send(&self) -> bool {
        self.well_formed() && self.jobs.next_id < u64::MAX
    }

    pub open spec fn same_but_jobs(self, other: Repository) -> bool {
        self.snapshot == other.snapshot && self.pending_ops == other.pending_ops
            && self.commit_message_buffer == other.commit_message_buffer && self.status_refresh
            == other.status_refresh
    }

    /// A repository of which nothing but its directories is known.
    pub fn local(id: RepositoryId, dirs: RepositoryDirs) -> (repository: Self)
        ensures
            repository.well_formed(),
            repository.snapshot.id == id,
            repository.snapshot.dirs@ == dirs@,
            repository.snapshot.is_unread(),
            repository.jobs.jobs@.len() == 0,
            repository.jobs.next_id == 0,
            repository.commands@ == Map::<u64, GitCommand>::empty(),
            repository.hooks@ == Map::<u64, bool>::empty(),
            repository.active_jobs.jobs@ == Map::<u64, JobInfo>::empty(),
            repository.commit_message_buffer is None,
            repository.status_refresh.paths_needing_status_update@.len() == 0,
            repository.pending_ops.ops@ == Map::<Seq<Seq<char>>, Vec<PendingOp>>::empty(),
    {
        Repository {
            snapshot: RepositorySnapshot::empty(
                id,
                dirs.work_directory,
                Some(dirs.repository_dir),
                Some(dirs.dot_git),
                Some(dirs.common_dir),
            ),
            pending_ops: PendingOps::new(),
            jobs: JobQueue::new(),
            commands: BTreeMap::new(),
            hooks: BTreeMap::new(),
            active_jobs: ActiveJobs::new(),
            commit_message_buffer: None,
            status_refresh: StatusRefresh::new(),
        }
    }

    /// The worker of the repository is started anew: what waited or ran does not any more.
    pub fn respawn_local_worker(&mut self)
        requires
            old(self).well_formed(),
        ensures
            final(self).well_formed(),
            final(self).same_but_jobs(*old(self)),
            final(self).jobs.jobs@.len() == 0,
            final(self).jobs.next_id == old(self).jobs.next_id,
            final(self).commands@ == Map::<u64, GitCommand>::empty(),
            final(self).hooks@ == Map::<u64, bool>::empty(),
            final(self).active_jobs.jobs@ == Map::<u64, JobInfo>::empty(),
    {
        self.jobs.jobs = Vec::new();
        self.commands = BTreeMap::new();
        self.hooks = BTreeMap::new();
        self.active_jobs.worker_respawned();
    }

    /// The directories of the repository moved.
    pub fn reinitialize_local_backend(&mut self, dirs: RepositoryDirs)
        requires
            old(self).well_formed(),
        ensures
            final(self).well_formed(),
            final(self).snapshot == (RepositorySnapshot { dirs, ..old(self).snapshot }),
            final(self).pending_ops == old(self).pending_ops,
            final(self).commit_message_buffer == old(self).commit_message_buffer,
            final(self).status_refresh == old(self).status_refresh,
            final(self).jobs.jobs@.len() == 0,
            final(self).jobs.next_id == old(self).jobs.next_id,
            final(self).commands@ == Map::<u64, GitCommand>::empty(),
            final(self).hooks@ == Map::<u64, bool>::empty(),
            final(self).active_jobs.jobs@ == Map::<u64, JobInfo>::empty(),
    {
        self.snapshot.dirs = dirs;
        self.respawn_local_worker();
    }

    /// Queues a command, and returns the number of its job.
    pub fn send_job(&mut self, command: GitCommand) -> (id: u64)
        requires
            old(self).can_send(),
        ensures
            final(self).well_formed(),
            sent(*old(self), *final(self), id, command),
    {
        let key = command.key();
        let ghost before = self.jobs.jobs@;
        let id: u64 = self.jobs.send_keyed_job(key);
        map_put(&mut self.commands, id, command);
        proof {
            assert(job_views(self.jobs.jobs@) =~= job_views(before).push(
                JobView { id, key: command_key(command) },
            ));
            assert forall|i: int| 0 <= i < self.jobs.jobs@.len() implies (
            #[trigger] self.jobs.jobs@[i]).id < self.jobs.next_id && self.commands@.contains_key(
                self.jobs.jobs@[i].id,
            ) by {
                if i < before.len() {
                    assert(self.jobs.jobs@[i] == before[i]);
                }
            }
            assert forall|i: int, j: int| 0 <= i < j < self.jobs.jobs@.len() implies (
            #[trigger] self.jobs.jobs@[i]).id < (#[trigger] self.jobs.jobs@[j]).id by {
                assert(self.jobs.jobs@[i] == before[i]);
                if j < before.len() {
                    assert(self.jobs.jobs@[j] == before[j]);
                }
            }
        }
        id
    }

    /// Takes the first job that waits. One that runs is shown from now on, if it says what it
    /// does. A commit runs only if its hook succeeded.
    pub fn next_job(&mut self, now: u64) -> (step: Option<JobStep>)
        requires
            old(self).well_formed(),
        ensures
            final(self).well_formed(),
            final(self).same_but_jobs(*old(self)),
            final(self).jobs.next_id == old(self).jobs.next_id,
            match step {
                None => {
                    &&& old(self).jobs.jobs@.len() == 0
                    &&& final(self).jobs.jobs@.len() == 0
                    &&& final(self).commands == old(self).commands
                    &&& final(self).hooks == old(self).hooks
                    &&& final(self).active_jobs == old(self).active_jobs
                },
                Some(JobStep::Skipped(id)) => {
                    &&& old(self).jobs.jobs@.len() > 0
                    &&& superseded(job_views(old(self).jobs.jobs@), 0)
                    &&& id == old(self).jobs.jobs@[0].id
                    &&& final(self).hooks == old(self).hooks
                    &&& final(self).active_jobs == old(self).active_jobs
                },
                Some(JobStep::Refused(id)) => {
                    &&& old(self).jobs.jobs@.len() > 0
                    &&& !superseded(job_views(old(self).jobs.jobs@), 0)
                    &&& id == old(self).jobs.jobs@[0].id
                    &&& !may_run(old(self).hooks@, old(self).commands@[id])
                    &&& final(self).hooks@ == hooks_after(
                        old(self).hooks@,
                        old(self).commands@[id],
                    )
                    &&& final(self).active_jobs == old(self).active_jobs
                },
                Some(JobStep::Run { id, command }) => {
                    &&& old(self).jobs.jobs@.len() > 0
                    &&& !superseded(job_views(old(self).jobs.jobs@), 0)
                    &&& id == old(self).jobs.jobs@[0].id
                    &&& command == old(self).commands@[id]
                    &&& may_run(old(self).hooks@, command)
                    &&& final(self).hooks@ == hooks_after(old(self).hooks@, command)
                    &&& shown_with(
                        final(self).active_jobs.jobs@,
                        old(self).active_jobs.jobs@,
                        id,
                        now,
                        command,
                    )
                },
            },
            step is Some ==> {
                &&& final(self).jobs.jobs@ == old(self).jobs.jobs@.drop_first()
                &&& final(self).commands@ == old(self).commands@.remove(
                    old(self).jobs.jobs@[0].id,
                )
            },
    {
        let ghost jobs = self.jobs.jobs@;
        match self.jobs.next_job() {
            None => None,
            Some(NextJob::Skip(id)) => {
                let _ = map_take(&mut self.commands, id);
                proof {
                    self.lemma_rest_is_well_formed(*old(self));
                }
                Some(JobStep::Skipped(id))
            },
            Some(NextJob::Run(job)) => {
                let id: u64 = job.id;
                let command: Option<GitCommand> = map_take(&mut self.commands, id);
                assert(jobs[0].id == id);
                assert(command is Some);
                proof {
                    self.lemma_rest_is_well_formed(*old(self));
                }
                match command {
                    Some(command) => {
                        if let GitCommand::Commit { hook_job, .. } = &command {
                            let succeeded: Option<bool> = map_take(&mut self.hooks, *hook_job);
                            if !matches!(succeeded, Some(true)) {
                                return Some(JobStep::Refused(id));
                            }
                        }
                        let ghost shown = self.active_jobs.jobs@;
                        self.active_jobs.started(id, now, command.status());
                        proof {
                            assert(shown_with(self.active_jobs.jobs@, shown, id, now, command)) by {
                                if status_text(command) is Some {
                                    assert(self.active_jobs.jobs@.dom() =~= shown.dom().insert(
                                        id,
                                    ));
                                }
                            }
                        }
                        Some(JobStep::Run { id, command })
                    },
                    None => None,
                }
            },
        }
    }

    /// What is left when the first job was taken is well formed.
    proof fn lemma_rest_is_well_formed(self, before: Repository)
        requires
            before.well_formed(),
            before.jobs.jobs@.len() > 0,
            self.jobs.jobs@ == before.jobs.jobs@.drop_first(),
            self.jobs.next_id == before.jobs.next_id,
            self.commands@ == before.commands@.remove(before.jobs.jobs@[0].id),
            self.status_refresh == before.status_refresh,
        ensures
            self.well_formed(),
    {
        let rest = self.jobs.jobs@;
        let all = before.jobs.jobs@;
        assert forall|i: int| 0 <= i < rest.len() implies (#[trigger] rest[i]).id
            < self.jobs.next_id && self.commands@.contains_key(rest[i].id) by {
            assert(rest[i] == all[i + 1]);
            assert(all[0].id < all[i + 1].id);
        }
        assert forall|i: int, j: int| 0 <= i < j < rest.len() implies (#[trigger] rest[i]).id < (
        #[trigger] rest[j]).id by {
            assert(rest[i] == all[i + 1]);
            assert(rest[j] == all[j + 1]);
        }
    }

    /// A git command that runs, and when it started.
    pub fn current_job(&self) -> (job: Option<&JobInfo>)
        ensures
            job is Some <==> self.active_jobs.jobs@ != Map::<u64, JobInfo>::empty(),
            job matches Some(job) ==> exists|id: u64| #[trigger]
                self.active_jobs.jobs@.contains_key(id) && self.active_jobs.jobs@[id] == *job,
    {
        self.active_jobs.current_job()
    }

    /// A job ended, and is not shown any more. A commit that waits for it learns whether it
    /// succeeded.
    pub fn job_finished(&mut self, id: u64, succeeded: bool)
        requires
            old(self).well_formed(),
        ensures
            final(self).well_formed(),
            final(self).same_but_jobs(*old(self)),
            final(self).jobs == old(self).jobs,
            final(self).commands == old(self).commands,
            final(self).hooks@ == if old(self).hooks@.contains_key(id) {
                old(self).hooks@.insert(id, succeeded)
            } else {
                old(self).hooks@
            },
            final(self).active_jobs.jobs@ == old(self).active_jobs.jobs@.remove(id),
    {
        if map_get(&self.hooks, id).is_some() {
            map_put(&mut self.hooks, id, succeeded);
        }
        self.active_jobs.finished(id);
    }

    /// Commits what is staged, after the hook that has to agree. Returns the jobs of the hook
    /// and of the commit.
    pub fn commit(
        &mut self,
        message: String,
        name_and_email: Option<(String, String)>,
        options: String,
    ) -> (ids: (u64, u64))
        requires
            old(self).well_formed(),
            old(self).jobs.next_id < u64::MAX - 1,
        ensures
            final(self).well_formed(),
            ids.0 == old(self).jobs.next_id,
            ids.1 == ids.0 + 1,
            final(self).jobs.next_id == ids.1 + 1,
            job_views(final(self).jobs.jobs@) == job_views(old(self).jobs.jobs@).push(
                JobView { id: ids.0, key: None },
            ).push(JobView { id: ids.1, key: None }),
            final(self).commands@[ids.0] matches GitCommand::RunHook { hook } && hook@
                == "pre-commit"@,
            final(self).commands@ == old(self).commands@.insert(
                ids.0,
                final(self).commands@[ids.0],
            ).insert(
                ids.1,
                GitCommand::Commit { message, name_and_email, options, hook_job: ids.0 },
            ),
            final(self).hooks@ == old(self).hooks@.insert(ids.0, false),
            final(self).active_jobs == old(self).active_jobs,
            final(self).same_but_jobs(*old(self)),
    {
        let hook_job: u64 = self.run_hook("pre-commit".to_owned());
        map_put(&mut self.hooks, hook_job, false);
        let id: u64 = self.send_job(
            GitCommand::Commit { message, name_and_email, options, hook_job },
        );
        (hook_job, id)
    }

    /// Brings files back to a commit. Each of them is marked as being reverted until the job
    /// ended.
    pub fn checkout_files(&mut self, commit: String, paths: Vec<RepoPath>) -> (result: (
        Vec<TrackedOp>,
        u64,
    ))
        requires
            old(self).can_send(),
            forall|path: Seq<Seq<char>>| #[trigger]
                max_id(old(self).pending_ops.at(path)) < u64::MAX,
        ensures
            final(self).well_formed(),
            has_started(
                old(self).pending_ops,
                final(self).pending_ops,
                paths@,
                PendingGitStatus::Reverted,
                result.0@,
            ),
            queued(
                *old(self),
                *final(self),
                result.1,
                GitCommand::CheckoutFiles { commit, paths },
            ),
            final(self).same_but_jobs(
                Repository { pending_ops: final(self).pending_ops, ..*old(self) },
            ),
    {
        let started: Vec<TrackedOp> = self.pending_ops.new_pending_ops_for_paths(
            &paths,
            PendingGitStatus::Reverted,
        );
        let id: u64 = self.send_job(GitCommand::CheckoutFiles { commit, paths });
        (started, id)
    }

    /// The job that operations waited for ended.
    pub fn operations_ended(&mut self, started: &Vec<TrackedOp>, outcome: JobOutcome)
        requires
            old(self).well_formed(),
        ensures
            final(self).well_formed(),
            have_ended(*old(self), *final(self), started@, status_of(outcome)),
    {
        self.pending_ops.set_job_status(started, job_status_for(outcome));
    }

    /// The operations on a path, if there ever were any.
    pub fn pending_ops_for_path(&self, path: &RepoPath) -> (ops: Option<&Vec<PendingOp>>)
        ensures
            ops is Some <==> self.pending_ops.ops@.contains_key(path@),
            ops matches Some(ops) ==> ops@ == self.pending_ops.at(path@),
    {
        self.pending_ops.ops.get(path)
    }

    /// Asks for the remotes of a branch, or for all.
    pub fn get_remotes(&mut self, branch_name: Option<String>, is_push: bool) -> (id: u64)
        requires
            old(self).can_send(),
        ensures
            final(self).well_formed(),
            sent(
                *old(self),
                *final(self),
                id,
                GitCommand::GetRemotes(
                    match branch_name {
                        Some(branch) => if is_push {
                            RemotesQuery::PushRemote(branch)
                        } else {
                            RemotesQuery::BranchRemote(branch)
                        },
                        None => RemotesQuery::All,
                    },
                ),
            ),
    {
        self.send_job(GitCommand::GetRemotes(remotes_query(branch_name, is_push)))
    }

    /// The buffer for the message of the next commit: the one that there is, or one that a job
    /// opens.
    pub fn open_commit_buffer(&mut self) -> (buffer: Result<u64, u64>)
        requires
            old(self).can_send(),
        ensures
            final(self).well_formed(),
            match old(self).commit_message_buffer {
                Some(open) => buffer == Ok::<u64, u64>(open) && *final(self) == *old(self),
                None => buffer is Err && sent(
                    *old(self),
                    *final(self),
                    buffer->Err_0,
                    GitCommand::OpenCommitBuffer,
                ),
            },
    {
        match self.commit_message_buffer {
            Some(buffer) => Ok(buffer),
            None => Err(self.send_job(GitCommand::OpenCommitBuffer)),
        }
    }

    /// Runs a hook of the repository.
    pub fn run_hook(&mut self, hook: String) -> (id: u64)
        requires
            old(self).can_send(),
        ensures
            final(self).well_formed(),
            sent(*old(self), *final(self), id, GitCommand::RunHook { hook }),
    {
        self.send_job(GitCommand::RunHook { hook })
    }

    /// Fetches from the remotes.
    pub fn fetch(&mut self, options: String) -> (id: u64)
        requires
            old(self).can_send(),
        ensures
            final(self).well_formed(),
            sent(*old(self), *final(self), id, GitCommand::Fetch { options }),
    {
        self.send_job(GitCommand::Fetch { options })
    }

    /// Pushes a branch to a branch of a remote.
    pub fn push(
        &mut self,
        branch: String,
        remote_branch: String,
        remote: String,
        options: Option<PushOptions>,
    ) -> (id: u64)
        requires
            old(self).can_send(),
        ensures
            final(self).well_formed(),
            sent(
                *old(self),
                *final(self),
                id,
                GitCommand::Push { branch, remote_branch, remote, options },
            ),
    {
        self.send_job(GitCommand::Push { branch, remote_branch, remote, options })
    }

    /// Pulls from a remote.
    pub fn pull(&mut self, branch: Option<String>, remote: String, rebase: bool) -> (id: u64)
        requires
            old(self).can_send(),
        ensures
            final(self).well_formed(),
            sent(*old(self), *final(self), id, GitCommand::Pull { branch, remote, rebase }),
    {
        self.send_job(GitCommand::Pull { branch, remote, rebase })
    }

    /// Moves the head to a commit.
    pub fn reset(&mut self, commit: String, mode: ResetMode) -> (id: u64)
        requires
            old(self).can_send(),
        ensures
            final(self).well_formed(),
            sent(*old(self), *final(self), id, GitCommand::Reset { commit, mode }),
    {
        self.send_job(GitCommand::Reset { commit, mode })
    }

    /// Asks for the details of a commit.
    pub fn show(&mut self, commit: String) -> (id: u64)
        requires
            old(self).can_send(),
        ensures
            final(self).well_formed(),
            sent(*old(self), *final(self), id, GitCommand::Show { commit }),
    {
        self.send_job(GitCommand::Show { commit })
    }

    /// Asks for the changes of a commit.
    pub fn load_commit_diff(&mut self, commit: String) -> (id: u64)
        requires
            old(self).can_send(),
        ensures
            final(self).well_formed(),
            sent(*old(self), *final(self), id, GitCommand::LoadCommitDiff { commit }),
    {
        self.send_job(GitCommand::LoadCommitDiff { commit })
    }

    /// Asks which files the latest commits of some paths changed.
    pub fn file_history_changed_files(
        &mut self,
        paths: Vec<RepoPath>,
        commit_limit: usize,
    ) -> (id: u64)
        requires
            old(self).can_send(),
        ensures
            final(self).well_formed(),
            sent(
                *old(self),
                *final(self),
                id,
                GitCommand::FileHistoryChangedFiles { paths, commit_limit },
            ),
    {
        self.send_job(GitCommand::FileHistoryChangedFiles { paths, commit_limit })
    }

    /// Puts the changes of some paths away.
    pub fn stash_entries(&mut self, paths: Vec<RepoPath>) -> (id: u64)
        requires
            old(self).can_send(),
        ensures
            final(self).well_formed(),
            sent(*old(self), *final(self), id, GitCommand::StashEntries { paths }),
    {
        self.send_job(GitCommand::StashEntries { paths })
    }

    /// Brings changes back that were put away, and forgets them.
    pub fn stash_pop(&mut self, index: Option<usize>) -> (id: u64)
        requires
            old(self).can_send(),
        ensures
            final(self).well_formed(),
            sent(*old(self), *final(self), id, GitCommand::StashPop { index }),
    {
        self.send_job(GitCommand::StashPop { index })
    }

    /// Brings changes back that were put away.
    pub fn stash_apply(&mut self, index: Option<usize>) -> (id: u64)
        requires
            old(self).can_send(),
        ensures
            final(self).well_formed(),
            sent(*old(self), *final(self), id, GitCommand::StashApply { index }),
    {
        self.send_job(GitCommand::StashApply { index })
    }

    /// Forgets changes that were put away.
    pub fn stash_drop(&mut self, index: Option<usize>) -> (id: u64)
        requires
            old(self).can_send(),
        ensures
            final(self).well_formed(),
            sent(*old(self), *final(self), id, GitCommand::StashDrop { index }),
    {
        self.send_job(GitCommand::StashDrop { index })
    }

    /// Adds a path to the ignore file at the root.
    pub fn add_path_to_gitignore(&mut self, path: RepoPath, is_dir: bool) -> (id: u64)
        requires
            old(self).can_send(),
        ensures
            final(self).well_formed(),
            sent(*old(self), *final(self), id, GitCommand::AddPathToGitignore { path, is_dir }),
    {
        self.send_job(GitCommand::AddPathToGitignore { path, is_dir })
    }

    /// Adds a remote.
    pub fn create_remote(&mut self, remote_name: String, remote_url: String) -> (id: u64)
        requires
            old(self).can_send(),
        ensures
            final(self).well_formed(),
            sent(
                *old(self),
                *final(self),
                id,
                GitCommand::CreateRemote { remote_name, remote_url },
            ),
    {
        self.send_job(GitCommand::CreateRemote { remote_name, remote_url })
    }

    /// Removes a remote.
    pub fn remove_remote(&mut self, remote_name: String) -> (id: u64)
        requires
            old(self).can_send(),
        ensures
            final(self).well_formed(),
            sent(*old(self), *final(self), id, GitCommand::RemoveRemote { remote_name }),
    {
        self.send_job(GitCommand::RemoveRemote { remote_name })
    }

    /// Asks for the branches.
    pub fn branches(&mut self) -> (id: u64)
        requires
            old(self).can_send(),
        ensures
            final(self).well_formed(),
            sent(*old(self), *final(self), id, GitCommand::Branches),
    {
        self.send_job(GitCommand::Branches)
    }

    /// Asks for the worktrees.
    pub fn worktrees(&mut self) -> (id: u64)
        requires
            old(self).can_send(),
        ensures
            final(self).well_formed(),
            sent(*old(self), *final(self), id, GitCommand::Worktrees),
    {
        self.send_job(GitCommand::Worktrees)
    }

    /// Adds a worktree, detached if no branch is given.
    pub fn create_worktree(
        &mut self,
        branch_name: Option<String>,
        base_sha: Option<String>,
        path: String,
    ) -> (id: u64)
        requires
            old(self).can_send(),
        ensures
            final(self).well_formed(),
            sent(
                *old(self),
                *final(self),
                id,
                GitCommand::CreateWorktree { branch_name, base_sha, path },
            ),
    {
        self.send_job(GitCommand::CreateWorktree { branch_name, base_sha, path })
    }

    /// Adds a detached worktree at a commit.
    pub fn create_worktree_detached(&mut self, path: String, commit: String) -> (id: u64)
        requires
            old(self).can_send(),
        ensures
            final(self).well_formed(),
            sent(
                *old(self),
                *final(self),
                id,
                GitCommand::CreateWorktree { branch_name: None, base_sha: Some(commit), path },
            ),
    {
        self.send_job(
            GitCommand::CreateWorktree { branch_name: None, base_sha: Some(commit), path },
        )
    }

    /// Checks a branch out in a worktree, and makes it first if asked to.
    pub fn checkout_branch_in_worktree(
        &mut self,
        branch_name: String,
        worktree_path: String,
        create: bool,
    ) -> (id: u64)
        requires
            old(self).can_send(),
        ensures
            final(self).well_formed(),
            sent(
                *old(self),
                *final(self),
                id,
                GitCommand::CheckoutBranchInWorktree { branch_name, worktree_path, create },
            ),
    {
        self.send_job(GitCommand::CheckoutBranchInWorktree { branch_name, worktree_path, create })
    }

    /// Asks for the commit at the head.
    pub fn head_sha(&mut self) -> (id: u64)
        requires
            old(self).can_send(),
        ensures
            final(self).well_formed(),
            sent(*old(self), *final(self), id, GitCommand::HeadSha),
    {
        self.send_job(GitCommand::HeadSha)
    }

    /// Points a reference to a commit.
    pub fn update_ref(&mut self, ref_name: String, commit: String) -> (id: u64)
        requires
            old(self).can_send(),
        ensures
            final(self).well_formed(),
            sent(
                *old(self),
                *final(self),
                id,
                GitCommand::EditRef(RefEdit::Update { ref_name, commit }),
            ),
    {
        self.send_job(GitCommand::EditRef(RefEdit::Update { ref_name, commit }))
    }

    /// Deletes a reference.
    pub fn delete_ref(&mut self, ref_name: String) -> (id: u64)
        requires
            old(self).can_send(),
        ensures
            final(self).well_formed(),
            sent(*old(self), *final(self), id, GitCommand::EditRef(RefEdit::Delete { ref_name })),
    {
        self.send_job(GitCommand::EditRef(RefEdit::Delete { ref_name }))
    }

    /// Repairs the links between worktrees.
    pub fn repair_worktrees(&mut self) -> (id: u64)
        requires
            old(self).can_send(),
        ensures
            final(self).well_formed(),
            sent(*old(self), *final(self), id, GitCommand::RepairWorktrees),
    {
        self.send_job(GitCommand::RepairWorktrees)
    }

    /// Records the index and the files for an archive.
    pub fn create_archive_checkpoint(&mut self) -> (id: u64)
        requires
            old(self).can_send(),
        ensures
            final(self).well_formed(),
            sent(*old(self), *final(self), id, GitCommand::CreateArchiveCheckpoint),
    {
        self.send_job(GitCommand::CreateArchiveCheckpoint)
    }

    /// Brings the index and the files of an archive back.
    pub fn restore_archive_checkpoint(
        &mut self,
        staged_sha: String,
        unstaged_sha: String,
    ) -> (id: u64)
        requires
            old(self).can_send(),
        ensures
            final(self).well_formed(),
            sent(
                *old(self),
                *final(self),
                id,
                GitCommand::RestoreArchiveCheckpoint { staged_sha, unstaged_sha },
            ),
    {
        self.send_job(GitCommand::RestoreArchiveCheckpoint { staged_sha, unstaged_sha })
    }

    /// Removes a worktree, with its changes if forced to.
    pub fn remove_worktree(&mut self, path: String, force: bool) -> (id: u64)
        requires
            old(self).can_send(),
        ensures
            final(self).well_formed(),
            sent(*old(self), *final(self), id, GitCommand::RemoveWorktree { path, force }),
    {
        self.send_job(GitCommand::RemoveWorktree { path, force })
    }

    /// Moves a worktree.
    pub fn rename_worktree(&mut self, old_path: String, new_path: String) -> (id: u64)
        requires
            old(self).can_send(),
        ensures
            final(self).well_formed(),
            sent(*old(self), *final(self), id, GitCommand::RenameWorktree { old_path, new_path }),
    {
        self.send_job(GitCommand::RenameWorktree { old_path, new_path })
    }

    /// Asks for the default branch.
    pub fn default_branch(&mut self, include_remote_name: bool) -> (id: u64)
        requires
            old(self).can_send(),
        ensures
            final(self).well_formed(),
            sent(*old(self), *final(self), id, GitCommand::DefaultBranch { include_remote_name }),
    {
        self.send_job(GitCommand::DefaultBranch { include_remote_name })
    }

    /// Asks for the files that differ between two trees.
    pub fn diff_tree(&mut self, diff_type: String) -> (id: u64)
        requires
            old(self).can_send(),
        ensures
            final(self).well_formed(),
            sent(*old(self), *final(self), id, GitCommand::DiffTree { diff_type }),
    {
        self.send_job(GitCommand::DiffTree { diff_type })
    }

    /// Asks for a diff.
    pub fn diff(&mut self, diff_type: String) -> (id: u64)
        requires
            old(self).can_send(),
        ensures
            final(self).well_formed(),
            sent(*old(self), *final(self), id, GitCommand::Diff { diff_type }),
    {
        self.send_job(GitCommand::Diff { diff_type })
    }

    /// Makes a branch, and switches to it.
    pub fn create_branch(&mut self, branch_name: String, base_branch: Option<String>) -> (id: u64)
        requires
            old(self).can_send(),
        ensures
            final(self).well_formed(),
            sent(
                *old(self),
                *final(self),
                id,
                GitCommand::CreateBranch { branch_name, base_branch },
            ),
    {
        self.send_job(GitCommand::CreateBranch { branch_name, base_branch })
    }

    /// Switches to a branch.
    pub fn change_branch(&mut self, branch_name: String) -> (id: u64)
        requires
            old(self).can_send(),
        ensures
            final(self).well_formed(),
            sent(*old(self), *final(self), id, GitCommand::ChangeBranch { branch_name }),
    {
        self.send_job(GitCommand::ChangeBranch { branch_name })
    }

    /// Deletes a branch.
    pub fn delete_branch(&mut self, flag: String, branch_name: String) -> (id: u64)
        requires
            old(self).can_send(),
        ensures
            final(self).well_formed(),
            sent(*old(self), *final(self), id, GitCommand::DeleteBranch { flag, branch_name }),
    {
        self.send_job(GitCommand::DeleteBranch { flag, branch_name })
    }

    /// Renames a branch.
    pub fn rename_branch(&mut self, branch: String, new_name: String) -> (id: u64)
        requires
            old(self).can_send(),
        ensures
            final(self).well_formed(),
            sent(*old(self), *final(self), id, GitCommand::RenameBranch { branch, new_name }),
    {
        self.send_job(GitCommand::RenameBranch { branch, new_name })
    }

    /// Asks which remote branches have the head.
    pub fn check_for_pushed_commits(&mut self) -> (id: u64)
        requires
            old(self).can_send(),
        ensures
            final(self).well_formed(),
            sent(*old(self), *final(self), id, GitCommand::CheckForPushedCommits),
    {
        self.send_job(GitCommand::CheckForPushedCommits)
    }

    /// Records the state of the files.
    pub fn checkpoint(&mut self) -> (id: u64)
        requires
            old(self).can_send(),
        ensures
            final(self).well_formed(),
            sent(*old(self), *final(self), id, GitCommand::Checkpoint),
    {
        self.send_job(GitCommand::Checkpoint)
    }

    /// Brings the files back to a recorded state.
    pub fn restore_checkpoint(&mut self, checkpoint: Oid) -> (id: u64)
        requires
            old(self).can_send(),
        ensures
            final(self).well_formed(),
            sent(*old(self), *final(self), id, GitCommand::RestoreCheckpoint { checkpoint }),
    {
        self.send_job(GitCommand::RestoreCheckpoint { checkpoint })
    }

    /// Compares two recorded states.
    pub fn compare_checkpoints(&mut self, left: Oid, right: Oid) -> (id: u64)
        requires
            old(self).can_send(),
        ensures
            final(self).well_formed(),
            sent(*old(self), *final(self), id, GitCommand::CompareCheckpoints { left, right }),
    {
        self.send_job(GitCommand::CompareCheckpoints { left, right })
    }

    /// Asks for the difference of two recorded states.
    pub fn diff_checkpoints(&mut self, base_checkpoint: Oid, target_checkpoint: Oid) -> (id: u64)
        requires
            old(self).can_send(),
        ensures
            final(self).well_formed(),
            sent(
                *old(self),
                *final(self),
                id,
                GitCommand::DiffCheckpoints { base_checkpoint, target_checkpoint },
            ),
    {
        self.send_job(GitCommand::DiffCheckpoints { base_checkpoint, target_checkpoint })
    }

    /// Asks for the text of a path in the index.
    pub fn load_staged_text(&mut self, path: RepoPath) -> (id: u64)
        requires
            old(self).can_send(),
        ensures
            final(self).well_formed(),
            sent(*old(self), *final(self), id, GitCommand::LoadStagedText { path }),
    {
        self.send_job(GitCommand::LoadStagedText { path })
    }

    /// Asks for the text of a path at the head, and in the index.
    pub fn load_committed_text(&mut self, path: RepoPath) -> (id: u64)
        requires
            old(self).can_send(),
        ensures
            final(self).well_formed(),
            sent(*old(self), *final(self), id, GitCommand::LoadCommittedText { path }),
    {
        self.send_job(GitCommand::LoadCommittedText { path })
    }

    /// Asks for the template of commit messages.
    pub fn load_commit_template_text(&mut self) -> (id: u64)
        requires
            old(self).can_send(),
        ensures
            final(self).well_formed(),
            sent(*old(self), *final(self), id, GitCommand::LoadCommitTemplateText),
    {
        self.send_job(GitCommand::LoadCommitTemplateText)
    }

    /// Asks for the content of an object.
    pub fn load_blob_content(&mut self, oid: Oid) -> (id: u64)
        requires
            old(self).can_send(),
        ensures
            final(self).well_formed(),
            sent(*old(self), *final(self), id, GitCommand::LoadBlobContent { oid }),
    {
        self.send_job(GitCommand::LoadBlobContent { oid })
    }

    /// Has the texts that buffers are compared with loaded again.
    pub fn reload_buffer_diff_bases(&mut self) -> (id: u64)
        requires
            old(self).can_send(),
        ensures
            final(self).well_formed(),
            sent(*old(self), *final(self), id, GitCommand::ReloadBufferDiffBases),
    {
        self.send_job(GitCommand::ReloadBufferDiffBases)
    }

    /// Paths changed on disk: their statuses are read again, together with those of paths that
    /// still wait for it.
    pub fn paths_changed(&mut self, paths: Vec<RepoPath>) -> (id: u64)
        requires
            old(self).can_send(),
        ensures
            final(self).well_formed(),
            queued(*old(self), *final(self), id, GitCommand::PathsChanged),
            final(self).same_but_jobs(
                Repository { status_refresh: final(self).status_refresh, ..*old(self) },
            ),
            forall|p: Seq<Seq<char>>| #[trigger]
                views(final(self).status_refresh.paths_needing_status_update@).contains(p)
                    <==> views(old(self).status_refresh.paths_needing_status_update@).contains(p)
                    || views(paths@).contains(p),
    {
        self.status_refresh.paths_changed(paths);
        self.send_job(GitCommand::PathsChanged)
    }

    /// The statuses are read now: takes the paths that changed since the last time, in
    /// ascending order and each once. There is nothing to read where there are none.
    pub fn take_changed_paths(&mut self) -> (paths: Vec<RepoPath>)
        requires
            old(self).well_formed(),
        ensures
            final(self).well_formed(),
            paths@ == old(self).status_refresh.paths_needing_status_update@,
            final(self).status_refresh.paths_needing_status_update@.len() == 0,
            *final(self) == (Repository {
                status_refresh: final(self).status_refresh,
                ..*old(self)
            }),
    {
        self.status_refresh.take()
    }

    /// The statuses of paths that changed were read, and the stash with them. Says whether the
    /// stash and whether any status is another one than before.
    pub fn statuses_read(
        &mut self,
        changed_paths: &Vec<RepoPath>,
        stash_entries: Vec<StashEntry>,
        reported: &Vec<ReportedStatus>,
        diff_stats: &Vec<ReportedDiffStat>,
    ) -> (changed: (bool, bool))
        requires
            old(self).well_formed(),
            old(self).snapshot.well_formed(),
            reported_in_order(reported@),
            old(self).snapshot.scan_id < u64::MAX,
        ensures
            final(self).well_formed(),
            final(self).snapshot.well_formed(),
            changed.0 == (stash_views(old(self).snapshot.stash_entries@) != stash_views(
                stash_entries@,
            )),
            is_scanned(
                RepositorySnapshot { stash_entries, ..old(self).snapshot },
                views(changed_paths@),
                reported@,
                diff_stats@,
                final(self).snapshot,
                changed.1,
            ),
            *final(self) == (Repository { snapshot: final(self).snapshot, ..*old(self) }),
    {
        let stash_changed: bool = self.snapshot.stash_read(stash_entries);
        let statuses_changed: bool = self.snapshot.apply_status_scan(
            changed_paths,
            reported,
            diff_stats,
        );
        (stash_changed, statuses_changed)
    }

    /// Writes the text of a path into the index.
    pub fn spawn_set_index_text_job(&mut self, path: RepoPath, content: Option<String>) -> (id: u64)
        requires
            old(self).can_send(),
        ensures
            final(self).well_formed(),
            sent(*old(self), *final(self), id, GitCommand::SetIndexText { path, content }),
    {
        self.send_job(GitCommand::SetIndexText { path, content })
    }

    /// Asks whether git answers at all.
    pub fn access(&mut self) -> (id: u64)
        requires
            old(self).can_send(),
        ensures
            final(self).well_formed(),
            sent(*old(self), *final(self), id, GitCommand::Access),
    {
        self.send_job(GitCommand::Access)
    }

    /// Waits until everything before it is done.
    pub fn barrier(&mut self) -> (id: u64)
        requires
            old(self).can_send(),
        ensures
            final(self).well_formed(),
            sent(*old(self), *final(self), id, GitCommand::Barrier),
    {
        self.send_job(GitCommand::Barrier)
    }
}

/// An operation was started on each of the paths.
pub open spec fn has_started(
    before: PendingOps,
    after: PendingOps,
    paths: Seq<RepoPath>,
    git_status: PendingGitStatus,
    started: Seq<TrackedOp>,
) -> bool {
    &&& forall|path: Seq<Seq<char>>| #[trigger]
        after.at(path) == if views(paths).contains(path) {
            started_ops(before, path, git_status)
        } else {
            before.at(path)
        }
    &&& forall|path: Seq<Seq<char>>| #[trigger]
        after.ops@.contains_key(path) <==> before.ops@.contains_key(path) || views(paths).contains(
            path,
        )
    &&& started.len() == paths.len()
    &&& forall|i: int|
        0 <= i < started.len() ==> (#[trigger] started[i]).path@ == paths[i]@ && started[i].id
            == max_id(before.at(paths[i]@)) + 1
}

/// Operations that were started have ended; nothing else changed.
pub open spec fn have_ended(
    before: Repository,
    after: Repository,
    started: Seq<TrackedOp>,
    job_status: JobStatus,
) -> bool {
    &&& after == (Repository { pending_ops: after.pending_ops, ..before })
    &&& forall|path: Seq<Seq<char>>| #[trigger]
        after.pending_ops.at(path) == ended_ops(
            before.pending_ops.at(path),
            path,
            started,
            job_status,
        )
    &&& after.pending_ops.ops@.dom() == before.pending_ops.ops@.dom()
}

/// A commit runs just if the job of its hook ended, and succeeded: what `job_finished` enters
/// for the hook decides, whatever happened to other jobs.
pub proof fn hooks_decide_commits(hooks: Map<u64, bool>, command: GitCommand, other: u64)
    requires
        command is Commit,
        other != command->Commit_hook_job,
    ensures
        may_run(hooks.insert(command->Commit_hook_job, true), command),
        !may_run(hooks.insert(command->Commit_hook_job, false), command),
        forall|succeeded: bool| #[trigger]
            may_run(hooks.insert(other, succeeded), command) == may_run(hooks, command),
        !may_run(hooks_after(hooks, command), command),
{
}

/// Jobs are taken in the order in which they were sent.
pub proof fn jobs_are_taken_in_order(repository: Repository, i: int)
    requires
        repository.well_formed(),
        0 < i < repository.jobs.jobs@.len(),
    ensures
        repository.jobs.jobs@[0].id < repository.jobs.jobs@[i].id,
{
}

/// A command waits behind all that were queued, under the next number, and nothing else of the
/// repository changed.
pub open spec fn waits_last(before: Repository, after: Repository, id: u64, command: GitCommand) -> bool {
    &&& id == before.jobs.next_id
    &&& after.jobs.next_id == id + 1
    &&& after.commands@.contains_key(id)
    &&& after.commands@[id] == command
    &&& forall|other: u64|
        other != id && #[trigger] before.commands@.contains_key(other)
            ==> after.commands@.contains_key(other) && after.commands@[other]
            == before.commands@[other]
    &&& after.jobs.jobs@.len() == before.jobs.jobs@.len() + 1
    &&& after.jobs.jobs@.last().id == id
    &&& after.snapshot == before.snapshot
    &&& after.pending_ops == before.pending_ops
    &&& after.hooks == before.hooks
    &&& after.active_jobs == before.active_jobs
    &&& after.commit_message_buffer == before.commit_message_buffer
    &&& after.status_refresh == before.status_refresh
}

proof fn lemma_waits_last(before: Repository, after: Repository, id: u64, command: GitCommand)
    requires
        sent(before, after, id, command),
    ensures
        waits_last(before, after, id, command),
{
    let seen = job_views(after.jobs.jobs@);
    assert(seen.len() == after.jobs.jobs@.len());
    assert(job_views(before.jobs.jobs@).len() == before.jobs.jobs@.len());
    assert(seen[seen.len() - 1] == after.jobs.jobs@[after.jobs.jobs@.len() - 1]@);
}

/// Fetching, pushing and pulling ask git for just what was named: the local branch is pushed to the
/// remote branch of the remote, and pulled with or without a rebase.
pub proof fn remotes_are_asked_as_named(
    fetch_in: &mut Repository,
    push_in: &mut Repository,
    pull_in: &mut Repository,
    create_remote_in: &mut Repository,
    remove_remote_in: &mut Repository,
    options: String,
    fetch_id: u64,
    branch: String,
    remote_branch: String,
    remote: String,
    push_options: Option<PushOptions>,
    push_id: u64,
    pulled: Option<String>,
    from: String,
    rebase: bool,
    pull_id: u64,
    remote_name: String,
    remote_url: String,
    create_remote_id: u64,
    removed: String,
    remove_remote_id: u64,
)
    requires
        call_ensures(Repository::fetch, (fetch_in, options), fetch_id),
        call_ensures(Repository::push, (push_in, branch, remote_branch, remote, push_options), push_id),
        call_ensures(Repository::pull, (pull_in, pulled, from, rebase), pull_id),
        call_ensures(Repository::create_remote, (create_remote_in, remote_name, remote_url), create_remote_id),
        call_ensures(Repository::remove_remote, (remove_remote_in, removed), remove_remote_id),
    ensures
        waits_last(*old(fetch_in), *final(fetch_in), fetch_id, (GitCommand::Fetch { options })),
        waits_last(*old(push_in), *final(push_in), push_id, (GitCommand::Push { branch, remote_branch, remote, options: push_options })),
        waits_last(*old(pull_in), *final(pull_in), pull_id, (GitCommand::Pull { branch: pulled, remote: from, rebase })),
        waits_last(*old(create_remote_in), *final(create_remote_in), create_remote_id, (GitCommand::CreateRemote { remote_name, remote_url })),
        waits_last(*old(remove_remote_in), *final(remove_remote_in), remove_remote_id, (GitCommand::RemoveRemote { remote_name: removed })),
{
    lemma_waits_last(*old(fetch_in), *final(fetch_in), fetch_id, GitCommand::Fetch { options });
    lemma_waits_last(*old(push_in), *final(push_in), push_id, GitCommand::Push { branch, remote_branch, remote, options: push_options });
    lemma_waits_last(*old(pull_in), *final(pull_in), pull_id, GitCommand::Pull { branch: pulled, remote: from, rebase });
    lemma_waits_last(*old(create_remote_in), *final(create_remote_in), create_remote_id, GitCommand::CreateRemote { remote_name, remote_url });
    lemma_waits_last(*old(remove_remote_in), *final(remove_remote_in), remove_remote_id, GitCommand::RemoveRemote { remote_name: removed });
}

/// A reset moves the head to the commit that was named, and commits are shown and compared by their
/// own names.
pub proof fn commits_are_asked_as_named(
    reset_in: &mut Repository,
    show_in: &mut Repository,
    load_commit_diff_in: &mut Repository,
    file_history_changed_files_in: &mut Repository,
    head_sha_in: &mut Repository,
    commit: String,
    mode: ResetMode,
    reset_id: u64,
    shown: String,
    show_id: u64,
    compared: String,
    load_commit_diff_id: u64,
    paths: Vec<RepoPath>,
    commit_limit: usize,
    file_history_changed_files_id: u64,
    head_sha_id: u64,
)
    requires
        call_ensures(Repository::reset, (reset_in, commit, mode), reset_id),
        call_ensures(Repository::show, (show_in, shown), show_id),
        call_ensures(Repository::load_commit_diff, (load_commit_diff_in, compared), load_commit_diff_id),
        call_ensures(Repository::file_history_changed_files, (file_history_changed_files_in, paths, commit_limit), file_history_changed_files_id),
        call_ensures(Repository::head_sha, (head_sha_in,), head_sha_id),
    ensures
        waits_last(*old(reset_in), *final(reset_in), reset_id, (GitCommand::Reset { commit, mode })),
        waits_last(*old(show_in), *final(show_in), show_id, (GitCommand::Show { commit: shown })),
        waits_last(*old(load_commit_diff_in), *final(load_commit_diff_in), load_commit_diff_id, (GitCommand::LoadCommitDiff { commit: compared })),
        waits_last(*old(file_history_changed_files_in), *final(file_history_changed_files_in), file_history_changed_files_id, (GitCommand::FileHistoryChangedFiles { paths, commit_limit })),
        waits_last(*old(head_sha_in), *final(head_sha_in), head_sha_id, GitCommand::HeadSha),
{
    lemma_waits_last(*old(reset_in), *final(reset_in), reset_id, GitCommand::Reset { commit, mode });
    lemma_waits_last(*old(show_in), *final(show_in), show_id, GitCommand::Show { commit: shown });
    lemma_waits_last(*old(load_commit_diff_in), *final(load_commit_diff_in), load_commit_diff_id, GitCommand::LoadCommitDiff { commit: compared });
    lemma_waits_last(*old(file_history_changed_files_in), *final(file_history_changed_files_in), file_history_changed_files_id, GitCommand::FileHistoryChangedFiles { paths, commit_limit });
    lemma_waits_last(*old(head_sha_in), *final(head_sha_in), head_sha_id, GitCommand::HeadSha);
}

/// Stashing puts away the paths that were named; popping, applying and dropping are three things, and
/// each is done to the entry that was named.
pub proof fn stashes_are_asked_as_named(
    stash_entries_in: &mut Repository,
    stash_pop_in: &mut Repository,
    stash_apply_in: &mut Repository,
    stash_drop_in: &mut Repository,
    add_path_to_gitignore_in: &mut Repository,
    paths: Vec<RepoPath>,
    stash_entries_id: u64,
    popped: Option<usize>,
    stash_pop_id: u64,
    applied: Option<usize>,
    stash_apply_id: u64,
    dropped: Option<usize>,
    stash_drop_id: u64,
    path: RepoPath,
    is_dir: bool,
    add_path_to_gitignore_id: u64,
)
    requires
        call_ensures(Repository::stash_entries, (stash_entries_in, paths), stash_entries_id),
        call_ensures(Repository::stash_pop, (stash_pop_in, popped), stash_pop_id),
        call_ensures(Repository::stash_apply, (stash_apply_in, applied), stash_apply_id),
        call_ensures(Repository::stash_drop, (stash_drop_in, dropped), stash_drop_id),
        call_ensures(Repository::add_path_to_gitignore, (add_path_to_gitignore_in, path, is_dir), add_path_to_gitignore_id),
    ensures
        waits_last(*old(stash_entries_in), *final(stash_entries_in), stash_entries_id, (GitCommand::StashEntries { paths })),
        waits_last(*old(stash_pop_in), *final(stash_pop_in), stash_pop_id, (GitCommand::StashPop { index: popped })),
        waits_last(*old(stash_apply_in), *final(stash_apply_in), stash_apply_id, (GitCommand::StashApply { index: applied })),
        waits_last(*old(stash_drop_in), *final(stash_drop_in), stash_drop_id, (GitCommand::StashDrop { index: dropped })),
        waits_last(*old(add_path_to_gitignore_in), *final(add_path_to_gitignore_in), add_path_to_gitignore_id, (GitCommand::AddPathToGitignore { path, is_dir })),
{
    lemma_waits_last(*old(stash_entries_in), *final(stash_entries_in), stash_entries_id, GitCommand::StashEntries { paths });
    lemma_waits_last(*old(stash_pop_in), *final(stash_pop_in), stash_pop_id, GitCommand::StashPop { index: popped });
    lemma_waits_last(*old(stash_apply_in), *final(stash_apply_in), stash_apply_id, GitCommand::StashApply { index: applied });
    lemma_waits_last(*old(stash_drop_in), *final(stash_drop_in), stash_drop_id, GitCommand::StashDrop { index: dropped });
    lemma_waits_last(*old(add_path_to_gitignore_in), *final(add_path_to_gitignore_in), add_path_to_gitignore_id, GitCommand::AddPathToGitignore { path, is_dir });
}

/// A worktree is added for the branch and commit that were named, at the path that was named;
/// without a branch it is detached. Moving a worktree takes it from the old path to the new one.
pub proof fn worktrees_are_asked_as_named(
    worktrees_in: &mut Repository,
    create_worktree_in: &mut Repository,
    create_worktree_detached_in: &mut Repository,
    checkout_branch_in_worktree_in: &mut Repository,
    remove_worktree_in: &mut Repository,
    rename_worktree_in: &mut Repository,
    repair_worktrees_in: &mut Repository,
    worktrees_id: u64,
    branch_name: Option<String>,
    base_sha: Option<String>,
    path: String,
    create_worktree_id: u64,
    detached_path: String,
    commit: String,
    create_worktree_detached_id: u64,
    checked_out: String,
    worktree_path: String,
    create: bool,
    checkout_branch_in_worktree_id: u64,
    removed: String,
    force: bool,
    remove_worktree_id: u64,
    old_path: String,
    new_path: String,
    rename_worktree_id: u64,
    repair_worktrees_id: u64,
)
    requires
        call_ensures(Repository::worktrees, (worktrees_in,), worktrees_id),
        call_ensures(Repository::create_worktree, (create_worktree_in, branch_name, base_sha, path), create_worktree_id),
        call_ensures(Repository::create_worktree_detached, (create_worktree_detached_in, detached_path, commit), create_worktree_detached_id),
        call_ensures(Repository::checkout_branch_in_worktree, (checkout_branch_in_worktree_in, checked_out, worktree_path, create), checkout_branch_in_worktree_id),
        call_ensures(Repository::remove_worktree, (remove_worktree_in, removed, force), remove_worktree_id),
        call_ensures(Repository::rename_worktree, (rename_worktree_in, old_path, new_path), rename_worktree_id),
        call_ensures(Repository::repair_worktrees, (repair_worktrees_in,), repair_worktrees_id),
    ensures
        waits_last(*old(worktrees_in), *final(worktrees_in), worktrees_id, GitCommand::Worktrees),
        waits_last(*old(create_worktree_in), *final(create_worktree_in), create_worktree_id, (GitCommand::CreateWorktree { branch_name, base_sha, path })),
        waits_last(*old(create_worktree_detached_in), *final(create_worktree_detached_in), create_worktree_detached_id, (GitCommand::CreateWorktree {
            branch_name: None,
            base_sha: Some(commit),
            path: detached_path,
        })),
        waits_last(*old(checkout_branch_in_worktree_in), *final(checkout_branch_in_worktree_in), checkout_branch_in_worktree_id, (GitCommand::CheckoutBranchInWorktree {
            branch_name: checked_out,
            worktree_path,
            create,
        })),
        waits_last(*old(remove_worktree_in), *final(remove_worktree_in), remove_worktree_id, (GitCommand::RemoveWorktree { path: removed, force })),
        waits_last(*old(rename_worktree_in), *final(rename_worktree_in), rename_worktree_id, (GitCommand::RenameWorktree { old_path, new_path })),
        waits_last(*old(repair_worktrees_in), *final(repair_worktrees_in), repair_worktrees_id, GitCommand::RepairWorktrees),
{
    lemma_waits_last(*old(worktrees_in), *final(worktrees_in), worktrees_id, GitCommand::Worktrees);
    lemma_waits_last(*old(create_worktree_in), *final(create_worktree_in), create_worktree_id, GitCommand::CreateWorktree { branch_name, base_sha, path });
    lemma_waits_last(*old(create_worktree_detached_in), *final(create_worktree_detached_in), create_worktree_detached_id, GitCommand::CreateWorktree {
            branch_name: None,
            base_sha: Some(commit),
            path: detached_path,
        });
    lemma_waits_last(*old(checkout_branch_in_worktree_in), *final(checkout_branch_in_worktree_in), checkout_branch_in_worktree_id, GitCommand::CheckoutBranchInWorktree {
            branch_name: checked_out,
            worktree_path,
            create,
        });
    lemma_waits_last(*old(remove_worktree_in), *final(remove_worktree_in), remove_worktree_id, GitCommand::RemoveWorktree { path: removed, force });
    lemma_waits_last(*old(rename_worktree_in), *final(rename_worktree_in), rename_worktree_id, GitCommand::RenameWorktree { old_path, new_path });
    lemma_waits_last(*old(repair_worktrees_in), *final(repair_worktrees_in), repair_worktrees_id, GitCommand::RepairWorktrees);
}

/// A branch is made from the base that was named, switched to, deleted or renamed by its own name,
/// and a reference is set to the commit that was named or deleted.
pub proof fn branches_are_asked_as_named(
    branches_in: &mut Repository,
    create_branch_in: &mut Repository,
    change_branch_in: &mut Repository,
    delete_branch_in: &mut Repository,
    rename_branch_in: &mut Repository,
    default_branch_in: &mut Repository,
    update_ref_in: &mut Repository,
    delete_ref_in: &mut Repository,
    branches_id: u64,
    branch_name: String,
    base_branch: Option<String>,
    create_branch_id: u64,
    changed_to: String,
    change_branch_id: u64,
    flag: String,
    deleted: String,
    delete_branch_id: u64,
    branch: String,
    new_name: String,
    rename_branch_id: u64,
    include_remote_name: bool,
    default_branch_id: u64,
    ref_name: String,
    commit: String,
    update_ref_id: u64,
    deleted_ref: String,
    delete_ref_id: u64,
)
    requires
        call_ensures(Repository::branches, (branches_in,), branches_id),
        call_ensures(Repository::create_branch, (create_branch_in, branch_name, base_branch), create_branch_id),
        call_ensures(Repository::change_branch, (change_branch_in, changed_to), change_branch_id),
        call_ensures(Repository::delete_branch, (delete_branch_in, flag, deleted), delete_branch_id),
        call_ensures(Repository::rename_branch, (rename_branch_in, branch, new_name), rename_branch_id),
        call_ensures(Repository::default_branch, (default_branch_in, include_remote_name), default_branch_id),
        call_ensures(Repository::update_ref, (update_ref_in, ref_name, commit), update_ref_id),
        call_ensures(Repository::delete_ref, (delete_ref_in, deleted_ref), delete_ref_id),
    ensures
        waits_last(*old(branches_in), *final(branches_in), branches_id, GitCommand::Branches),
        waits_last(*old(create_branch_in), *final(create_branch_in), create_branch_id, (GitCommand::CreateBranch { branch_name, base_branch })),
        waits_last(*old(change_branch_in), *final(change_branch_in), change_branch_id, (GitCommand::ChangeBranch { branch_name: changed_to })),
        waits_last(*old(delete_branch_in), *final(delete_branch_in), delete_branch_id, (GitCommand::DeleteBranch { flag, branch_name: deleted })),
        waits_last(*old(rename_branch_in), *final(rename_branch_in), rename_branch_id, (GitCommand::RenameBranch { branch, new_name })),
        waits_last(*old(default_branch_in), *final(default_branch_in), default_branch_id, (GitCommand::DefaultBranch { include_remote_name })),
        waits_last(*old(update_ref_in), *final(update_ref_in), update_ref_id, GitCommand::EditRef(RefEdit::Update { ref_name, commit })),
        waits_last(*old(delete_ref_in), *final(delete_ref_in), delete_ref_id, GitCommand::EditRef(RefEdit::Delete { ref_name: deleted_ref })),
{
    lemma_waits_last(*old(branches_in), *final(branches_in), branches_id, GitCommand::Branches);
    lemma_waits_last(*old(create_branch_in), *final(create_branch_in), create_branch_id, GitCommand::CreateBranch { branch_name, base_branch });
    lemma_waits_last(*old(change_branch_in), *final(change_branch_in), change_branch_id, GitCommand::ChangeBranch { branch_name: changed_to });
    lemma_waits_last(*old(delete_branch_in), *final(delete_branch_in), delete_branch_id, GitCommand::DeleteBranch { flag, branch_name: deleted });
    lemma_waits_last(*old(rename_branch_in), *final(rename_branch_in), rename_branch_id, GitCommand::RenameBranch { branch, new_name });
    lemma_waits_last(*old(default_branch_in), *final(default_branch_in), default_branch_id, GitCommand::DefaultBranch { include_remote_name });
    lemma_waits_last(*old(update_ref_in), *final(update_ref_in), update_ref_id, GitCommand::EditRef(RefEdit::Update { ref_name, commit }));
    lemma_waits_last(*old(delete_ref_in), *final(delete_ref_in), delete_ref_id, GitCommand::EditRef(RefEdit::Delete { ref_name: deleted_ref }));
}

/// Recorded states are made, brought back and compared as they were named, the base before the
/// target.
pub proof fn states_are_asked_as_named(
    create_archive_checkpoint_in: &mut Repository,
    restore_archive_checkpoint_in: &mut Repository,
    checkpoint_in: &mut Repository,
    restore_checkpoint_in: &mut Repository,
    compare_checkpoints_in: &mut Repository,
    diff_checkpoints_in: &mut Repository,
    create_archive_checkpoint_id: u64,
    staged_sha: String,
    unstaged_sha: String,
    restore_archive_checkpoint_id: u64,
    checkpoint_id: u64,
    restored: Oid,
    restore_checkpoint_id: u64,
    left: Oid,
    right: Oid,
    compare_checkpoints_id: u64,
    base_checkpoint: Oid,
    target_checkpoint: Oid,
    diff_checkpoints_id: u64,
)
    requires
        call_ensures(Repository::create_archive_checkpoint, (create_archive_checkpoint_in,), create_archive_checkpoint_id),
        call_ensures(Repository::restore_archive_checkpoint, (restore_archive_checkpoint_in, staged_sha, unstaged_sha), restore_archive_checkpoint_id),
        call_ensures(Repository::checkpoint, (checkpoint_in,), checkpoint_id),
        call_ensures(Repository::restore_checkpoint, (restore_checkpoint_in, restored), restore_checkpoint_id),
        call_ensures(Repository::compare_checkpoints, (compare_checkpoints_in, left, right), compare_checkpoints_id),
        call_ensures(Repository::diff_checkpoints, (diff_checkpoints_in, base_checkpoint, target_checkpoint), diff_checkpoints_id),
    ensures
        waits_last(*old(create_archive_checkpoint_in), *final(create_archive_checkpoint_in), create_archive_checkpoint_id, GitCommand::CreateArchiveCheckpoint),
        waits_last(*old(restore_archive_checkpoint_in), *final(restore_archive_checkpoint_in), restore_archive_checkpoint_id, (GitCommand::RestoreArchiveCheckpoint { staged_sha, unstaged_sha })),
        waits_last(*old(checkpoint_in), *final(checkpoint_in), checkpoint_id, GitCommand::Checkpoint),
        waits_last(*old(restore_checkpoint_in), *final(restore_checkpoint_in), restore_checkpoint_id, (GitCommand::RestoreCheckpoint { checkpoint: restored })),
        waits_last(*old(compare_checkpoints_in), *final(compare_checkpoints_in), compare_checkpoints_id, (GitCommand::CompareCheckpoints { left, right })),
        waits_last(*old(diff_checkpoints_in), *final(diff_checkpoints_in), diff_checkpoints_id, (GitCommand::DiffCheckpoints { base_checkpoint, target_checkpoint })),
{
    lemma_waits_last(*old(create_archive_checkpoint_in), *final(create_archive_checkpoint_in), create_archive_checkpoint_id, GitCommand::CreateArchiveCheckpoint);
    lemma_waits_last(*old(restore_archive_checkpoint_in), *final(restore_archive_checkpoint_in), restore_archive_checkpoint_id, GitCommand::RestoreArchiveCheckpoint { staged_sha, unstaged_sha });
    lemma_waits_last(*old(checkpoint_in), *final(checkpoint_in), checkpoint_id, GitCommand::Checkpoint);
    lemma_waits_last(*old(restore_checkpoint_in), *final(restore_checkpoint_in), restore_checkpoint_id, GitCommand::RestoreCheckpoint { checkpoint: restored });
    lemma_waits_last(*old(compare_checkpoints_in), *final(compare_checkpoints_in), compare_checkpoints_id, GitCommand::CompareCheckpoints { left, right });
    lemma_waits_last(*old(diff_checkpoints_in), *final(diff_checkpoints_in), diff_checkpoints_id, GitCommand::DiffCheckpoints { base_checkpoint, target_checkpoint });
}

/// The text of a path in the index and at the head are two things, and are asked for by their own
/// names, as are diffs, objects and templates.
pub proof fn texts_are_asked_as_named(
    load_staged_text_in: &mut Repository,
    load_committed_text_in: &mut Repository,
    load_commit_template_text_in: &mut Repository,
    load_blob_content_in: &mut Repository,
    diff_tree_in: &mut Repository,
    diff_in: &mut Repository,
    spawn_set_index_text_job_in: &mut Repository,
    staged: RepoPath,
    load_staged_text_id: u64,
    committed: RepoPath,
    load_committed_text_id: u64,
    load_commit_template_text_id: u64,
    oid: Oid,
    load_blob_content_id: u64,
    trees: String,
    diff_tree_id: u64,
    files: String,
    diff_id: u64,
    path: RepoPath,
    content: Option<String>,
    spawn_set_index_text_job_id: u64,
)
    requires
        call_ensures(Repository::load_staged_text, (load_staged_text_in, staged), load_staged_text_id),
        call_ensures(Repository::load_committed_text, (load_committed_text_in, committed), load_committed_text_id),
        call_ensures(Repository::load_commit_template_text, (load_commit_template_text_in,), load_commit_template_text_id),
        call_ensures(Repository::load_blob_content, (load_blob_content_in, oid), load_blob_content_id),
        call_ensures(Repository::diff_tree, (diff_tree_in, trees), diff_tree_id),
        call_ensures(Repository::diff, (diff_in, files), diff_id),
        call_ensures(Repository::spawn_set_index_text_job, (spawn_set_index_text_job_in, path, content), spawn_set_index_text_job_id),
    ensures
        waits_last(*old(load_staged_text_in), *final(load_staged_text_in), load_staged_text_id, (GitCommand::LoadStagedText { path: staged })),
        waits_last(*old(load_committed_text_in), *final(load_committed_text_in), load_committed_text_id, (GitCommand::LoadCommittedText { path: committed })),
        waits_last(*old(load_commit_template_text_in), *final(load_commit_template_text_in), load_commit_template_text_id, GitCommand::LoadCommitTemplateText),
        waits_last(*old(load_blob_content_in), *final(load_blob_content_in), load_blob_content_id, (GitCommand::LoadBlobContent { oid })),
        waits_last(*old(diff_tree_in), *final(diff_tree_in), diff_tree_id, (GitCommand::DiffTree { diff_type: trees })),
        waits_last(*old(diff_in), *final(diff_in), diff_id, (GitCommand::Diff { diff_type: files })),
        waits_last(*old(spawn_set_index_text_job_in), *final(spawn_set_index_text_job_in), spawn_set_index_text_job_id, (GitCommand::SetIndexText { path, content })),
{
    lemma_waits_last(*old(load_staged_text_in), *final(load_staged_text_in), load_staged_text_id, GitCommand::LoadStagedText { path: staged });
    lemma_waits_last(*old(load_committed_text_in), *final(load_committed_text_in), load_committed_text_id, GitCommand::LoadCommittedText { path: committed });
    lemma_waits_last(*old(load_commit_template_text_in), *final(load_commit_template_text_in), load_commit_template_text_id, GitCommand::LoadCommitTemplateText);
    lemma_waits_last(*old(load_blob_content_in), *final(load_blob_content_in), load_blob_content_id, GitCommand::LoadBlobContent { oid });
    lemma_waits_last(*old(diff_tree_in), *final(diff_tree_in), diff_tree_id, GitCommand::DiffTree { diff_type: trees });
    lemma_waits_last(*old(diff_in), *final(diff_in), diff_id, GitCommand::Diff { diff_type: files });
    lemma_waits_last(*old(spawn_set_index_text_job_in), *final(spawn_set_index_text_job_in), spawn_set_index_text_job_id, GitCommand::SetIndexText { path, content });
}

/// Hooks run by their names, and git is asked whether it answers, which branches have the head, for
/// the texts of buffers, or for nothing but its turn.
pub proof fn other_questions_are_asked_as_named(
    run_hook_in: &mut Repository,
    check_for_pushed_commits_in: &mut Repository,
    reload_buffer_diff_bases_in: &mut Repository,
    access_in: &mut Repository,
    barrier_in: &mut Repository,
    hook: String,
    run_hook_id: u64,
    check_for_pushed_commits_id: u64,
    reload_buffer_diff_bases_id: u64,
    access_id: u64,
    barrier_id: u64,
)
    requires
        call_ensures(Repository::run_hook, (run_hook_in, hook), run_hook_id),
        call_ensures(Repository::check_for_pushed_commits, (check_for_pushed_commits_in,), check_for_pushed_commits_id),
        call_ensures(Repository::reload_buffer_diff_bases, (reload_buffer_diff_bases_in,), reload_buffer_diff_bases_id),
        call_ensures(Repository::access, (access_in,), access_id),
        call_ensures(Repository::barrier, (barrier_in,), barrier_id),
    ensures
        waits_last(*old(run_hook_in), *final(run_hook_in), run_hook_id, (GitCommand::RunHook { hook })),
        waits_last(*old(check_for_pushed_commits_in), *final(check_for_pushed_commits_in), check_for_pushed_commits_id, GitCommand::CheckForPushedCommits),
        waits_last(*old(reload_buffer_diff_bases_in), *final(reload_buffer_diff_bases_in), reload_buffer_diff_bases_id, GitCommand::ReloadBufferDiffBases),
        waits_last(*old(access_in), *final(access_in), access_id, GitCommand::Access),
        waits_last(*old(barrier_in), *final(barrier_in), barrier_id, GitCommand::Barrier),
{
    lemma_waits_last(*old(run_hook_in), *final(run_hook_in), run_hook_id, GitCommand::RunHook { hook });
    lemma_waits_last(*old(check_for_pushed_commits_in), *final(check_for_pushed_commits_in), check_for_pushed_commits_id, GitCommand::CheckForPushedCommits);
    lemma_waits_last(*old(reload_buffer_diff_bases_in), *final(reload_buffer_diff_bases_in), reload_buffer_diff_bases_id, GitCommand::ReloadBufferDiffBases);
    lemma_waits_last(*old(access_in), *final(access_in), access_id, GitCommand::Access);
    lemma_waits_last(*old(barrier_in), *final(barrier_in), barrier_id, GitCommand::Barrier);
}

/// A commit waits behind the hook that has to agree, which is the one before commits, and names it.
pub proof fn commits_follow_their_hook(
    repository: &mut Repository,
    message: String,
    name_and_email: Option<(String, String)>,
    options: String,
    ids: (u64, u64),
)
    requires
        call_ensures(Repository::commit, (repository, message, name_and_email, options), ids),
    ensures
        ids.0 == old(repository).jobs.next_id,
        ids.1 == ids.0 + 1,
        final(repository).jobs.next_id == ids.1 + 1,
        final(repository).commands@[ids.0] matches GitCommand::RunHook { hook } && hook@
            == "pre-commit"@,
        final(repository).commands@[ids.1] == (GitCommand::Commit {
            message,
            name_and_email,
            options,
            hook_job: ids.0,
        }),
        final(repository).jobs.jobs@.len() == old(repository).jobs.jobs@.len() + 2,
        final(repository).jobs.jobs@[old(repository).jobs.jobs@.len() as int].id == ids.0,
        final(repository).jobs.jobs@.last().id == ids.1,
        final(repository).hooks@.contains_key(ids.0) && !final(repository).hooks@[ids.0],
        final(repository).snapshot == old(repository).snapshot,
{
    let seen = job_views(final(repository).jobs.jobs@);
    let before = job_views(old(repository).jobs.jobs@);
    assert(seen.len() == final(repository).jobs.jobs@.len());
    assert(before.len() == old(repository).jobs.jobs@.len());
    assert(seen[before.len() as int] == final(repository).jobs.jobs@[before.len() as int]@);
    assert(seen[seen.len() - 1] == final(repository).jobs.jobs@[seen.len() - 1]@);
}

/// A hook that a commit waits for is noted as it ended, other jobs are not, and no job is shown
/// once it ended.
pub proof fn hooks_are_noted_as_they_end(
    repository: &mut Repository,
    id: u64,
    succeeded: bool,
    other: u64,
)
    requires
        call_ensures(Repository::job_finished, (repository, id, succeeded), ()),
        other != id,
    ensures
        old(repository).hooks@.contains_key(id) ==> final(repository).hooks@.contains_key(id)
            && final(repository).hooks@[id] == succeeded,
        !old(repository).hooks@.contains_key(id) ==> !final(repository).hooks@.contains_key(id),
        old(repository).hooks@.contains_key(other) ==> final(repository).hooks@.contains_key(other)
            && final(repository).hooks@[other] == old(repository).hooks@[other],
        !final(repository).active_jobs.jobs@.contains_key(id),
        final(repository).active_jobs.jobs@.contains_key(other) <==> old(repository).active_jobs.jobs@.contains_key(other),
        final(repository).jobs == old(repository).jobs,
        final(repository).commands == old(repository).commands,
{
}

/// The job that has waited longest is taken out with its command. A commit whose hook did not
/// succeed is refused, one whose hook did runs, and any other command that no later one repeats
/// runs.
pub proof fn waiting_commands_run(
    repository: &mut Repository,
    now: u64,
    step: Option<JobStep>,
)
    requires
        call_ensures(Repository::next_job, (repository, now), step),
        old(repository).well_formed(),
    ensures
        step is None <==> old(repository).jobs.jobs@.len() == 0,
        step is Some ==> ({
            let id = old(repository).jobs.jobs@[0].id;
            let command = old(repository).commands@[id];
            &&& final(repository).jobs.jobs@ == old(repository).jobs.jobs@.skip(1)
            &&& !final(repository).commands@.contains_key(id)
            &&& match step->0 {
                JobStep::Skipped(taken) => taken == id && old(repository).jobs.jobs@[0].key is Some
                    && final(repository).active_jobs == old(repository).active_jobs,
                JobStep::Refused(taken) => taken == id && (command matches GitCommand::Commit {
                    hook_job,
                    ..
                } && (old(repository).hooks@.contains_key(hook_job) ==> !old(repository).hooks@[hook_job])) && final(repository).active_jobs == old(repository).active_jobs,
                JobStep::Run { id: taken, command: run } => taken == id && run == command && (
                command matches GitCommand::Commit { hook_job, .. } ==> old(repository).hooks@.contains_key(hook_job) && old(repository).hooks@[hook_job]) && (
                command is Fetch ==> final(repository).active_jobs.jobs@.contains_key(id)
                    && final(repository).active_jobs.jobs@[id].start == now && final(
                    repository).active_jobs.jobs@[id].message@ == "git fetch"@),
            }
        }),
        final(repository).snapshot == old(repository).snapshot,
        final(repository).pending_ops == old(repository).pending_ops,
{
    if step is Some {
        assert(old(repository).jobs.jobs@.drop_first() =~= old(repository).jobs.jobs@.skip(1));
        let seen = job_views(old(repository).jobs.jobs@);
        assert(seen[0] == old(repository).jobs.jobs@[0]@);
    }
}

/// The buffer for the message of the next commit is opened once.
pub proof fn commit_buffers_are_opened_once(repository: &mut Repository, buffer: Result<u64, u64>)
    requires
        call_ensures(Repository::open_commit_buffer, (repository,), buffer),
    ensures
        old(repository).commit_message_buffer matches Some(open) ==> buffer == Ok::<u64, u64>(open)
            && *final(repository) == *old(repository),
        old(repository).commit_message_buffer is None ==> (buffer matches Err(id) && waits_last(
            *old(repository),
            *final(repository),
            id,
            GitCommand::OpenCommitBuffer,
        )),
{
    if old(repository).commit_message_buffer is None {
        lemma_waits_last(
            *old(repository),
            *final(repository),
            buffer->Err_0,
            GitCommand::OpenCommitBuffer,
        );
    }
}

/// The remote that a branch is pushed to and the one that it follows are two things; without a
/// branch all remotes are asked for.
pub proof fn remotes_are_asked_for_a_use(
    pushing: &mut Repository,
    following: &mut Repository,
    any: &mut Repository,
    branch: String,
    is_push: bool,
    push_id: u64,
    follow_id: u64,
    any_id: u64,
)
    requires
        call_ensures(Repository::get_remotes, (pushing, Some(branch), true), push_id),
        call_ensures(Repository::get_remotes, (following, Some(branch), false), follow_id),
        call_ensures(Repository::get_remotes, (any, None::<String>, is_push), any_id),
    ensures
        waits_last(
            *old(pushing),
            *final(pushing),
            push_id,
            GitCommand::GetRemotes(RemotesQuery::PushRemote(branch)),
        ),
        waits_last(
            *old(following),
            *final(following),
            follow_id,
            GitCommand::GetRemotes(RemotesQuery::BranchRemote(branch)),
        ),
        waits_last(*old(any), *final(any), any_id, GitCommand::GetRemotes(RemotesQuery::All)),
{
    lemma_waits_last(
        *old(pushing),
        *final(pushing),
        push_id,
        GitCommand::GetRemotes(RemotesQuery::PushRemote(branch)),
    );
    lemma_waits_last(
        *old(following),
        *final(following),
        follow_id,
        GitCommand::GetRemotes(RemotesQuery::BranchRemote(branch)),
    );
    lemma_waits_last(*old(any), *final(any), any_id, GitCommand::GetRemotes(RemotesQuery::All));
}

/// Files that are brought back to a commit are marked as being reverted, and the job names the
/// commit and the files.
pub proof fn files_are_brought_back(
    repository: &mut Repository,
    commit: String,
    paths: Vec<RepoPath>,
    result: (Vec<TrackedOp>, u64),
    i: int,
)
    requires
        call_ensures(Repository::checkout_files, (repository, commit, paths), result),
        0 <= i < paths@.len(),
    ensures
        final(repository).commands@.contains_key(result.1),
        final(repository).commands@[result.1] == (GitCommand::CheckoutFiles { commit, paths }),
        result.0@.len() == paths@.len(),
        result.0@[i].path@ == paths@[i]@,
        ({
            let ops = final(repository).pending_ops.at(paths@[i]@);
            &&& ops.len() == old(repository).pending_ops.at(paths@[i]@).len() + 1
            &&& ops.last().git_status is Reverted
            &&& ops.last().job_status is Running
        }),
        final(repository).snapshot == old(repository).snapshot,
{
    let all = views(paths@);
    assert(all[i] == paths@[i]@);
    assert(all.contains(paths@[i]@));
    assert(final(repository).pending_ops.at(paths@[i]@) == started_ops(
        old(repository).pending_ops,
        paths@[i]@,
        PendingGitStatus::Reverted,
    ));
}

/// A new worker has nothing to do and shows nothing. Where the directories moved, the snapshot has
/// the new ones, and all else that was known stays.
pub proof fn workers_begin_anew(
    restarted: &mut Repository,
    moved: &mut Repository,
    dirs: RepositoryDirs,
)
    requires
        call_ensures(Repository::respawn_local_worker, (restarted,), ()),
        call_ensures(Repository::reinitialize_local_backend, (moved, dirs), ()),
    ensures
        final(restarted).jobs.jobs@.len() == 0,
        final(restarted).snapshot == old(restarted).snapshot,
        final(restarted).pending_ops == old(restarted).pending_ops,
        final(restarted).jobs.next_id == old(restarted).jobs.next_id,
        final(moved).jobs.jobs@.len() == 0,
        final(moved).snapshot.dirs == dirs,
        final(moved).snapshot.id == old(moved).snapshot.id,
        final(moved).snapshot.statuses_by_path == old(moved).snapshot.statuses_by_path,
        final(moved).snapshot.branch == old(moved).snapshot.branch,
        final(moved).snapshot.scan_id == old(moved).snapshot.scan_id,
        final(moved).pending_ops == old(moved).pending_ops,
        final(moved).jobs.next_id == old(moved).jobs.next_id,
{
}

/// Paths that changed are read with the next refresh of the statuses, which is queued.
pub proof fn changed_paths_are_refreshed(
    repository: &mut Repository,
    paths: Vec<RepoPath>,
    id: u64,
    taking: &mut Repository,
    taken: Vec<RepoPath>,
    i: int,
)
    requires
        call_ensures(Repository::paths_changed, (repository, paths), id),
        *old(taking) == *final(repository),
        call_ensures(Repository::take_changed_paths, (taking,), taken),
        0 <= i < paths@.len(),
    ensures
        final(repository).commands@.contains_key(id),
        final(repository).commands@[id] is PathsChanged,
        exists|at: int| 0 <= at < taken@.len() && (#[trigger] taken@[at])@ == paths@[i]@,
        final(taking).status_refresh.paths_needing_status_update@.len() == 0,
        final(taking).snapshot == old(repository).snapshot,
        final(taking).jobs == final(repository).jobs,
{
    let asked = views(taken@);
    assert(views(paths@)[i] == paths@[i]@);
    assert(views(paths@).contains(paths@[i]@));
    assert(asked.contains(paths@[i]@));
    let at = choose|at: int| 0 <= at < asked.len() && asked[at] == paths@[i]@;
    assert(taken@[at]@ == paths@[i]@);
}

/// When statuses were read, the stash that came with them is taken over as it is, and it is said
/// whether it is another one.
pub proof fn read_stashes_are_taken_over(
    repository: &mut Repository,
    changed_paths: Vec<RepoPath>,
    stash_entries: Vec<StashEntry>,
    reported: Vec<ReportedStatus>,
    diff_stats: Vec<ReportedDiffStat>,
    changed: (bool, bool),
)
    requires
        call_ensures(
            Repository::statuses_read,
            (repository, &changed_paths, stash_entries, &reported, &diff_stats),
            changed,
        ),
        old(repository).snapshot.scan_id < u64::MAX,
    ensures
        final(repository).snapshot.stash_entries == stash_entries,
        old(repository).snapshot.stash_entries@ == stash_entries@ ==> !changed.0,
        old(repository).snapshot.stash_entries@.len() != stash_entries@.len() ==> changed.0,
        changed.1 ==> final(repository).snapshot.scan_id == old(repository).snapshot.scan_id + 1,
        !changed.1 ==> final(repository).snapshot.scan_id == old(repository).snapshot.scan_id,
        final(repository).jobs == old(repository).jobs,
        final(repository).pending_ops == old(repository).pending_ops,
{
    assert(stash_views(stash_entries@).len() == stash_entries@.len());
    assert(stash_views(old(repository).snapshot.stash_entries@).len() == old(repository).snapshot.stash_entries@.len());
}

} // verus!
