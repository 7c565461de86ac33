//! Staging operations that are under way, per path.
use vstd::prelude::*;

use crate::git_store::changed_paths::views;
use crate::list_map::ListMap;
use crate::rel_path::{RelPath, RepoPath};

verus! {

/// What an operation makes of a path.
#[derive(Clone, Copy, Debug, PartialEq, Eq, Structural)]
pub enum PendingGitStatus {
    Staged,
    Unstaged,
    Reverted,
    Unchanged,
}

#[derive(Clone, Copy, Debug, PartialEq, Eq, Structural)]
pub enum JobStatus {
    Running,
    Finished,
    Skipped,
    Error,
}

#[derive(Clone, Copy, Debug, PartialEq, Eq, Structural)]
pub struct PendingOp {
    pub id: u64,
    pub git_status: PendingGitStatus,
    pub job_status: JobStatus,
}

/// The highest number of an operation, or zero.
pub open spec fn max_id(ops: Seq<PendingOp>) -> u64
    decreases ops.len(),
{
    if ops.len() == 0 {
        0
    } else {
        let before = max_id(ops.drop_last());
        if before < ops.last().id {
            ops.last().id
        } else {
            before
        }
    }
}

proof fn lemma_max_id(ops: Seq<PendingOp>, i: int)
    requires
        0 <= i < ops.len(),
    ensures
        ops[i].id <= max_id(ops),
    decreases ops.len(),
{
    if i < ops.len() - 1 {
        lemma_max_id(ops.drop_last(), i);
    }
}

/// A new operation has a number that no earlier operation on the path has.
pub proof fn new_operation_is_fresh(ops: Seq<PendingOp>, i: int)
    requires
        0 <= i < ops.len(),
    ensures
        ops[i].id < max_id(ops) + 1,
{
    lemma_max_id(ops, i);
}

/// The operations with the job of one of them set.
pub open spec fn with_job_status(
    ops: Seq<PendingOp>,
    id: u64,
    job_status: JobStatus,
) -> Seq<PendingOp> {
    ops.map_values(
        |op: PendingOp|
            if op.id == id {
                PendingOp { job_status, ..op }
            } else {
                op
            },
    )
}

/// An operation on a path.
#[derive(Debug)]
pub struct TrackedOp {
    pub id: u64,
    pub path: RepoPath,
}

/// The operations of all paths.
#[derive(Debug)]
pub struct PendingOps {
    pub ops: ListMap<RelPath, Vec<PendingOp>>,
}

/// How a job ended.
#[derive(Clone, Copy, Debug, PartialEq, Eq, Structural)]
pub enum JobOutcome {
    Done,
    Canceled,
    Failed,
}

/// What the end of a job means for its operations.
pub open spec fn status_of(outcome: JobOutcome) -> JobStatus {
    match outcome {
        JobOutcome::Done => JobStatus::Finished,
        JobOutcome::Canceled => JobStatus::Skipped,
        JobOutcome::Failed => JobStatus::Error,
    }
}

/// What the end of a job means for its operations.
pub fn job_status_for(outcome: JobOutcome) -> (status: JobStatus)
    ensures
        status == status_of(outcome),
{
    match outcome {
        JobOutcome::Done => JobStatus::Finished,
        JobOutcome::Canceled => JobStatus::Skipped,
        JobOutcome::Failed => JobStatus::Error,
    }
}

fn find_max_id(ops: &Vec<PendingOp>) -> (id: u64)
    ensures
        id == max_id(ops@),
{
    let mut id: u64 = 0;
    let mut i: usize = 0;
    assert(ops@.take(0) =~= Seq::<PendingOp>::empty());
    while i < ops.len()
        invariant
            i <= ops@.len(),
            id == max_id(ops@.take(i as int)),
        decreases ops@.len() - i,
    {
        assert(ops@.take(i + 1).drop_last() =~= ops@.take(i as int));
        if id < ops[i].id {
            id = ops[i].id;
        }
        i += 1;
    }
    assert(ops@.take(i as int) =~= ops@);
    id
}

fn clone_ops(ops: &Vec<PendingOp>) -> (copy: Vec<PendingOp>)
    ensures
        copy@ == ops@,
{
    let mut copy: Vec<PendingOp> = Vec::new();
    let mut i: usize = 0;
    while i < ops.len()
        invariant
            i <= ops@.len(),
            copy@ == ops@.take(i as int),
        decreases ops@.len() - i,
    {
        copy.push(ops[i]);
        i += 1;
        assert(copy@ =~= ops@.take(i as int));
    }
    assert(ops@.take(i as int) =~= ops@);
    copy
}

impl PendingOps {
    /// The operations on a path.
    pub open spec fn at(&self, path: Seq<Seq<char>>) -> Seq<PendingOp> {
        if self.ops@.contains_key(path) {
            self.ops@[path]@
        } else {
            Seq::empty()
        }
    }

    /// No operations.
    pub fn new() -> (ops: Self)
        ensures
            ops.ops@ == Map::<Seq<Seq<char>>, Vec<PendingOp>>::empty(),
            forall|path: Seq<Seq<char>>| #[trigger] ops.at(path) == Seq::<PendingOp>::empty(),
    {
        PendingOps { ops: ListMap::new() }
    }

    /// Starts an operation on each of the paths.
    pub fn new_pending_ops_for_paths(
        &mut self,
        paths: &Vec<RepoPath>,
        git_status: PendingGitStatus,
    ) -> (started: Vec<TrackedOp>)
        requires
            forall|path: Seq<Seq<char>>| #[trigger] max_id(old(self).at(path)) < u64::MAX,
        ensures
            forall|path: Seq<Seq<char>>| #[trigger]
                final(self).at(path) == (if views(paths@).contains(path) {
                    old(self).at(path).push(
                        PendingOp {
                            id: (max_id(old(self).at(path)) + 1) as u64,
                            git_status,
                            job_status: JobStatus::Running,
                        },
                    )
                } else {
                    old(self).at(path)
                }),
            forall|path: Seq<Seq<char>>| #[trigger]
                final(self).ops@.contains_key(path) <==> old(self).ops@.contains_key(path)
                    || views(paths@).contains(path),
            started@.len() == paths@.len(),
            forall|i: int|
                0 <= i < started@.len() ==> (#[trigger] started@[i]).path@ == paths@[i]@
                    && started@[i].id == max_id(old(self).at(paths@[i]@)) + 1,
    {
        let mut started: Vec<TrackedOp> = Vec::new();
        let mut edits: Vec<Vec<PendingOp>> = Vec::new();
        let mut i: usize = 0;
        while i < paths.len()
            invariant
                i <= paths@.len(),
                *self == *old(self),
                forall|path: Seq<Seq<char>>| #[trigger] max_id(old(self).at(path)) < u64::MAX,
                started@.len() == i,
                edits@.len() == i,
                forall|k: int|
                    0 <= k < i ==> (#[trigger] started@[k]).path@ == paths@[k]@ && started@[k].id
                        == max_id(old(self).at(paths@[k]@)) + 1,
                forall|k: int|
                    0 <= k < i ==> (#[trigger] edits@[k])@ == started_ops(
                        *old(self),
                        paths@[k]@,
                        git_status,
                    ),
            decreases paths@.len() - i,
        {
            let mut ops: Vec<PendingOp> = match self.ops.get(&paths[i]) {
                Some(ops) => clone_ops(ops),
                None => Vec::new(),
            };
            assert(ops@ == old(self).at(paths@[i as int]@));
            assert(max_id(old(self).at(paths@[i as int]@)) < u64::MAX);
            let id: u64 = find_max_id(&ops) + 1;
            ops.push(PendingOp { id, git_status, job_status: JobStatus::Running });
            edits.push(ops);
            started.push(TrackedOp { id, path: paths[i].clone() });
            i += 1;
        }
        let ghost all = edits@;
        let mut n: usize = paths.len();
        proof {
            let done = views(paths@).skip(n as int);
            assert forall|path: Seq<Seq<char>>| #[trigger] self.at(path) == (if done.contains(
                path,
            ) {
                started_ops(*old(self), path, git_status)
            } else {
                old(self).at(path)
            }) by {}
        }
        while n > 0
            invariant
                n <= paths@.len(),
                all.len() == paths@.len(),
                edits@ == all.take(n as int),
                forall|k: int|
                    0 <= k < all.len() ==> (#[trigger] all[k])@ == started_ops(
                        *old(self),
                        paths@[k]@,
                        git_status,
                    ),
                forall|path: Seq<Seq<char>>| #[trigger]
                    self.at(path) == (if views(paths@).skip(n as int).contains(path) {
                        started_ops(*old(self), path, git_status)
                    } else {
                        old(self).at(path)
                    }),
                forall|path: Seq<Seq<char>>| #[trigger]
                    self.ops@.contains_key(path) <==> old(self).ops@.contains_key(path) || views(
                        paths@,
                    ).skip(n as int).contains(path),
            decreases n,
        {
            let ghost before = *self;
            let ghost seen = views(paths@).skip(n as int);
            n -= 1;
            let ops: Vec<PendingOp> = edits.pop().unwrap();
            assert(ops == all[n as int]);
            assert(edits@ =~= all.take(n as int));
            self.ops.insert(paths[n].clone(), ops);
            proof {
                let next = views(paths@).skip(n as int);
                let p = paths@[n as int]@;
                assert(next[0] == p);
                assert(next.skip(1) =~= seen);
                assert forall|path: Seq<Seq<char>>| #[trigger]
                    self.ops@.contains_key(path) <==> old(self).ops@.contains_key(path)
                        || next.contains(path) by {
                    assert(before.ops@.contains_key(path) <==> old(self).ops@.contains_key(path)
                        || seen.contains(path));
                    if seen.contains(path) {
                        let k = choose|k: int| 0 <= k < seen.len() && seen[k] == path;
                        assert(next[k + 1] == path);
                    }
                    if next.contains(path) && path != p {
                        let k = choose|k: int| 0 <= k < next.len() && next[k] == path;
                        assert(seen[k - 1] == path);
                    }
                }
                assert forall|path: Seq<Seq<char>>| #[trigger]
                    self.at(path) == (if next.contains(path) {
                        started_ops(*old(self), path, git_status)
                    } else {
                        old(self).at(path)
                    }) by {
                    assert(before.at(path) == (if seen.contains(path) {
                        started_ops(*old(self), path, git_status)
                    } else {
                        old(self).at(path)
                    }));
                    if seen.contains(path) {
                        let k = choose|k: int| 0 <= k < seen.len() && seen[k] == path;
                        assert(next[k + 1] == path);
                    }
                    if next.contains(path) && path != p {
                        let k = choose|k: int| 0 <= k < next.len() && next[k] == path;
                        assert(seen[k - 1] == path);
                    }
                }
            }
        }
        assert(views(paths@).skip(0) =~= views(paths@));
        started
    }

    /// Notes how the job of some operations ended.
    pub fn set_job_status(&mut self, started: &Vec<TrackedOp>, job_status: JobStatus)
        ensures
            forall|path: Seq<Seq<char>>| #[trigger]
                final(self).at(path) == ended_ops(
                    old(self).at(path),
                    path,
                    started@,
                    job_status,
                ),
            final(self).ops@.dom() == old(self).ops@.dom(),
    {
        let mut i: usize = 0;
        assert(started@.take(0) =~= Seq::<TrackedOp>::empty());
        while i < started.len()
            invariant
                i <= started@.len(),
                forall|path: Seq<Seq<char>>| #[trigger]
                    self.at(path) == ended_ops(
                        old(self).at(path),
                        path,
                        started@.take(i as int),
                        job_status,
                    ),
                self.ops@.dom() == old(self).ops@.dom(),
            decreases started@.len() - i,
        {
            let ghost before = *self;
            let ghost p = started@[i as int].path@;
            let id: u64 = started[i].id;
            if let Some(ops) = self.ops.get(&started[i].path) {
                let mut changed: Vec<PendingOp> = Vec::new();
                let mut k: usize = 0;
                while k < ops.len()
                    invariant
                        k <= ops@.len(),
                        changed@ == with_job_status(ops@, id, job_status).take(k as int),
                    decreases ops@.len() - k,
                {
                    let op: PendingOp = ops[k];
                    changed.push(
                        if op.id == id {
                            PendingOp { id: op.id, git_status: op.git_status, job_status }
                        } else {
                            op
                        },
                    );
                    k += 1;
                    assert(changed@ =~= with_job_status(ops@, id, job_status).take(k as int));
                }
                assert(changed@ =~= with_job_status(ops@, id, job_status));
                self.ops.insert(started[i].path.clone(), changed);
                assert(self.ops@.dom() =~= before.ops@.dom());
            } else {
                assert(with_job_status(before.at(p), id, job_status) =~= before.at(p));
            }
            proof {
                let next = started@.take(i + 1);
                assert(next.drop_last() =~= started@.take(i as int));
                assert(next.last() == started@[i as int]);
                assert forall|path: Seq<Seq<char>>| #[trigger]
                    self.at(path) == ended_ops(
                        old(self).at(path),
                        path,
                        next,
                        job_status,
                    ) by {
                    assert(before.at(path) == ended_ops(
                        old(self).at(path),
                        path,
                        started@.take(i as int),
                        job_status,
                    ));
                }
            }
            i += 1;
        }
        assert(started@.take(i as int) =~= started@);
    }
}

/// The operations on a path with a new one.
pub open spec fn started_ops(
    ops: PendingOps,
    path: Seq<Seq<char>>,
    git_status: PendingGitStatus,
) -> Seq<PendingOp> {
    ops.at(path).push(
        PendingOp {
            id: (max_id(ops.at(path)) + 1) as u64,
            git_status,
            job_status: JobStatus::Running,
        },
    )
}

/// The operations on a path after the jobs of some operations ended.
pub open spec fn ended_ops(
    ops: Seq<PendingOp>,
    path: Seq<Seq<char>>,
    ended: Seq<TrackedOp>,
    job_status: JobStatus,
) -> Seq<PendingOp>
    decreases ended.len(),
{
    if ended.len() == 0 {
        ops
    } else {
        let before = ended_ops(ops, path, ended.drop_last(), job_status);
        if ended.last().path@ == path {
            with_job_status(before, ended.last().id, job_status)
        } else {
            before
        }
    }
}

/// How much of a file is staged.
#[derive(Clone, Copy, Debug, PartialEq, Eq, Structural)]
pub enum StageStatus {
    Staged,
    Unstaged,
    PartiallyStaged,
}

/// What the operations on a path come down to.
#[derive(Clone, Copy, Debug, PartialEq, Eq, Structural)]
pub struct PendingSummary {
    pub staging: bool,
    pub staged: bool,
    pub last_op_errored: bool,
}

/// A path that may have to be staged or unstaged.
#[derive(Debug)]
pub struct StagingCandidate {
    pub path: RepoPath,
    pub staging: StageStatus,
    pub pending: Option<PendingSummary>,
}

/// A path is staged or about to be: its operations decide, unless the last one
/// failed; otherwise its status does.
pub open spec fn counts_as_staged(candidate: StagingCandidate) -> bool {
    match candidate.pending {
        Some(ops) if !ops.last_op_errored => ops.staging || ops.staged,
        _ => candidate.staging == StageStatus::Staged,
    }
}

/// A path is unstaged and not about to be staged.
pub open spec fn counts_as_unstaged(candidate: StagingCandidate) -> bool {
    match candidate.pending {
        Some(ops) if !ops.last_op_errored => !ops.staging && !ops.staged,
        _ => candidate.staging == StageStatus::Unstaged,
    }
}

/// The paths of the candidates that are left over.
pub open spec fn candidates_to_change(
    candidates: Seq<StagingCandidate>,
    stage: bool,
) -> Seq<Seq<Seq<char>>>
    decreases candidates.len(),
{
    if candidates.len() == 0 {
        Seq::empty()
    } else {
        let before = candidates_to_change(candidates.drop_last(), stage);
        let done = if stage {
            counts_as_staged(candidates.last())
        } else {
            counts_as_unstaged(candidates.last())
        };
        if done {
            before
        } else {
            before.push(candidates.last().path@)
        }
    }
}

fn select_candidates(candidates: &Vec<StagingCandidate>, stage: bool) -> (paths: Vec<RepoPath>)
    ensures
        views(paths@) == candidates_to_change(candidates@, stage),
{
    let mut paths: Vec<RepoPath> = Vec::new();
    let mut i: usize = 0;
    assert(candidates@.take(0) =~= Seq::<StagingCandidate>::empty());
    assert(views(paths@) =~= Seq::<Seq<Seq<char>>>::empty());
    while i < candidates.len()
        invariant
            i <= candidates@.len(),
            views(paths@) == candidates_to_change(candidates@.take(i as int), stage),
        decreases candidates@.len() - i,
    {
        let ghost before = views(paths@);
        assert(candidates@.take(i + 1).drop_last() =~= candidates@.take(i as int));
        let candidate = &candidates[i];
        let done: bool = match candidate.pending {
            Some(ops) if !ops.last_op_errored => (ops.staging || ops.staged) == stage,
            _ => if stage {
                candidate.staging == StageStatus::Staged
            } else {
                candidate.staging == StageStatus::Unstaged
            },
        };
        if !done {
            let path = candidate.path.clone();
            paths.push(path);
            assert(views(paths@) =~= before.push(candidates@[i as int].path@));
        }
        i += 1;
    }
    assert(candidates@.take(i as int) =~= candidates@);
    paths
}

/// The paths that have to be staged so that everything is.
pub fn stage_all(candidates: &Vec<StagingCandidate>) -> (paths: Vec<RepoPath>)
    ensures
        views(paths@) == candidates_to_change(candidates@, true),
{
    select_candidates(candidates, true)
}

/// The paths that have to be unstaged so that nothing is staged.
pub fn unstage_all(candidates: &Vec<StagingCandidate>) -> (paths: Vec<RepoPath>)
    ensures
        views(paths@) == candidates_to_change(candidates@, false),
{
    select_candidates(candidates, false)
}

/// A job that was done is finished, one that was cancelled was skipped, and one that failed
/// leaves an error.
pub proof fn outcomes_end_jobs(outcome: JobOutcome, status: JobStatus)
    requires
        call_ensures(job_status_for, (outcome,), status),
    ensures
        outcome is Done <==> status is Finished,
        outcome is Canceled <==> status is Skipped,
        outcome is Failed <==> status is Error,
        !(status is Running),
{
}

/// An operation that is started on a path runs, stands behind those that were there, and has a
/// number of its own on that path, under which it is told. Other paths have the operations that
/// they had.
pub proof fn started_operations_run(
    pending: &mut PendingOps,
    paths: Vec<RepoPath>,
    git_status: PendingGitStatus,
    started: Vec<TrackedOp>,
    i: int,
    k: int,
    other: Seq<Seq<char>>,
)
    requires
        call_ensures(
            PendingOps::new_pending_ops_for_paths,
            (pending, &paths, git_status),
            started,
        ),
        forall|path: Seq<Seq<char>>| #[trigger] max_id(old(pending).at(path)) < u64::MAX,
        0 <= i < paths@.len(),
        forall|j: int| 0 <= j < paths@.len() ==> (#[trigger] paths@[j])@ != other,
    ensures
        ({
            let before = old(pending).at(paths@[i]@);
            let after = final(pending).at(paths@[i]@);
            &&& started@.len() == paths@.len()
            &&& started@[i].path@ == paths@[i]@
            &&& after.len() == before.len() + 1
            &&& after.last().id == started@[i].id
            &&& after.last().git_status == git_status
            &&& after.last().job_status is Running
            &&& 0 <= k < before.len() ==> after[k] == before[k] && before[k].id < started@[i].id
        }),
        final(pending).at(other) == old(pending).at(other),
{
    let all = views(paths@);
    assert(all[i] == paths@[i]@);
    assert(all.contains(paths@[i]@));
    assert(max_id(old(pending).at(paths@[i]@)) < u64::MAX);
    if 0 <= k < old(pending).at(paths@[i]@).len() {
        new_operation_is_fresh(old(pending).at(paths@[i]@), k);
    }
    assert(!all.contains(other)) by {
        if all.contains(other) {
            let j = choose|j: int| 0 <= j < all.len() && all[j] == other;
            assert(paths@[j]@ == other);
        }
    }
}

proof fn lemma_ended(
    ops: Seq<PendingOp>,
    path: Seq<Seq<char>>,
    ended: Seq<TrackedOp>,
    job_status: JobStatus,
    k: int,
)
    requires
        0 <= k < ops.len(),
    ensures
        ended_ops(ops, path, ended, job_status).len() == ops.len(),
        ended_ops(ops, path, ended, job_status)[k].id == ops[k].id,
        ended_ops(ops, path, ended, job_status)[k].git_status == ops[k].git_status,
        ended_ops(ops, path, ended, job_status)[k].job_status == (if exists|j: int|
            0 <= j < ended.len() && (#[trigger] ended[j]).path@ == path && ended[j].id
                == ops[k].id {
            job_status
        } else {
            ops[k].job_status
        }),
    decreases ended.len(),
{
    if ended.len() > 0 {
        let earlier = ended.drop_last();
        lemma_ended(ops, path, earlier, job_status, k);
        assert(forall|j: int|
            0 <= j < earlier.len() ==> #[trigger] earlier[j] == ended[j]);
        if exists|j: int|
            0 <= j < ended.len() && (#[trigger] ended[j]).path@ == path && ended[j].id
                == ops[k].id {
            let j = choose|j: int|
                0 <= j < ended.len() && (#[trigger] ended[j]).path@ == path && ended[j].id
                    == ops[k].id;
            if j < earlier.len() {
                assert(earlier[j].path@ == path && earlier[j].id == ops[k].id);
            }
        }
        if ended.last().path@ == path && ended.last().id == ops[k].id {
            assert(ended[ended.len() - 1].path@ == path);
        }
    }
}

/// When the job of some operations ended, just those operations have its status; what they are to
/// make of their paths, their numbers and all other operations stay.
pub proof fn ended_operations_have_the_status_of_their_job(
    pending: &mut PendingOps,
    started: Vec<TrackedOp>,
    job_status: JobStatus,
    path: Seq<Seq<char>>,
    k: int,
)
    requires
        call_ensures(PendingOps::set_job_status, (pending, &started, job_status), ()),
        0 <= k < old(pending).at(path).len(),
    ensures
        ({
            let before = old(pending).at(path);
            let after = final(pending).at(path);
            &&& after.len() == before.len()
            &&& after[k].id == before[k].id
            &&& after[k].git_status == before[k].git_status
            &&& after[k].job_status == (if exists|j: int|
                0 <= j < started@.len() && (#[trigger] started@[j]).path@ == path
                    && started@[j].id == before[k].id {
                job_status
            } else {
                before[k].job_status
            })
        }),
{
    lemma_ended(old(pending).at(path), path, started@, job_status, k);
}

proof fn lemma_candidate(candidates: Seq<StagingCandidate>, stage: bool, i: int)
    requires
        0 <= i < candidates.len(),
    ensures
        !(if stage {
            counts_as_staged(candidates[i])
        } else {
            counts_as_unstaged(candidates[i])
        }) ==> candidates_to_change(candidates, stage).contains(candidates[i].path@),
    decreases candidates.len(),
{
    let before = candidates_to_change(candidates.drop_last(), stage);
    let all = candidates_to_change(candidates, stage);
    if i < candidates.len() - 1 {
        lemma_candidate(candidates.drop_last(), stage, i);
        if before.contains(candidates[i].path@) {
            let at = choose|at: int| 0 <= at < before.len() && before[at] == candidates[i].path@;
            assert(all[at] == candidates[i].path@);
        }
    } else if all.len() > before.len() {
        assert(all[all.len() - 1] == candidates[i].path@);
    }
}

proof fn lemma_candidate_from(candidates: Seq<StagingCandidate>, stage: bool, at: int)
    requires
        0 <= at < candidates_to_change(candidates, stage).len(),
    ensures
        exists|i: int|
            0 <= i < candidates.len() && (#[trigger] candidates[i]).path@ == candidates_to_change(
                candidates,
                stage,
            )[at] && !(if stage {
                counts_as_staged(candidates[i])
            } else {
                counts_as_unstaged(candidates[i])
            }),
    decreases candidates.len(),
{
    let before = candidates_to_change(candidates.drop_last(), stage);
    if at < before.len() {
        lemma_candidate_from(candidates.drop_last(), stage, at);
        let i = choose|i: int|
            0 <= i < candidates.drop_last().len() && (
            #[trigger] candidates.drop_last()[i]).path@ == before[at] && !(if stage {
                counts_as_staged(candidates.drop_last()[i])
            } else {
                counts_as_unstaged(candidates.drop_last()[i])
            });
        assert(candidates[i] == candidates.drop_last()[i]);
    } else {
        assert(candidates[candidates.len() - 1].path@ == candidates_to_change(candidates, stage)[at]);
    }
}

/// To stage everything, a path is staged unless it is staged in full, or, where operations on it
/// are under way that did not fail, unless they stage it. To unstage everything, a path is
/// unstaged unless nothing of it is staged, or unless such operations leave it unstaged.
pub proof fn all_is_staged_or_unstaged(
    candidates: Vec<StagingCandidate>,
    to_stage: Vec<RepoPath>,
    to_unstage: Vec<RepoPath>,
    i: int,
)
    requires
        call_ensures(stage_all, (&candidates,), to_stage),
        call_ensures(unstage_all, (&candidates,), to_unstage),
        0 <= i < candidates@.len(),
        forall|j: int|
            0 <= j < candidates@.len() && j != i ==> (#[trigger] candidates@[j]).path@
                != candidates@[i].path@,
    ensures
        ({
            let candidate = candidates@[i];
            let staged = exists|at: int|
                0 <= at < to_stage@.len() && (#[trigger] to_stage@[at])@ == candidate.path@;
            let unstaged = exists|at: int|
                0 <= at < to_unstage@.len() && (#[trigger] to_unstage@[at])@ == candidate.path@;
            &&& candidate.pending is None ==> (staged <==> candidate.staging
                != StageStatus::Staged) && (unstaged <==> candidate.staging
                != StageStatus::Unstaged)
            &&& candidate.pending matches Some(ops) ==> if ops.last_op_errored {
                (staged <==> candidate.staging != StageStatus::Staged) && (unstaged
                    <==> candidate.staging != StageStatus::Unstaged)
            } else {
                (staged <==> !ops.staging && !ops.staged) && (unstaged <==> ops.staging
                    || ops.staged)
            }
        }),
{
    let path = candidates@[i].path@;
    lemma_candidate(candidates@, true, i);
    lemma_candidate(candidates@, false, i);
    let all = views(to_stage@);
    let none = views(to_unstage@);
    if all.contains(path) {
        let at = choose|at: int| 0 <= at < all.len() && all[at] == path;
        assert(to_stage@[at]@ == path);
        lemma_candidate_from(candidates@, true, at);
    }
    if none.contains(path) {
        let at = choose|at: int| 0 <= at < none.len() && none[at] == path;
        assert(to_unstage@[at]@ == path);
        lemma_candidate_from(candidates@, false, at);
    }
    if exists|at: int| 0 <= at < to_stage@.len() && (#[trigger] to_stage@[at])@ == path {
        let at = choose|at: int| 0 <= at < to_stage@.len() && (#[trigger] to_stage@[at])@ == path;
        assert(all[at] == path);
        assert(all.contains(path));
    }
    if exists|at: int| 0 <= at < to_unstage@.len() && (#[trigger] to_unstage@[at])@ == path {
        let at = choose|at: int|
            0 <= at < to_unstage@.len() && (#[trigger] to_unstage@[at])@ == path;
        assert(none[at] == path);
        assert(none.contains(path));
    }
}

} // verus!
