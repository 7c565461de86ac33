//! The queue of git jobs of a repository.
use std::collections::BTreeMap;
use vstd::prelude::*;

use crate::git_store::changed_paths::views;
use crate::ids::{map_get, map_keys, map_put, map_take};
use crate::rel_path::{join_slashes, RepoPath};
use crate::text::{join_texts, joined, wrap_text};

verus! {

/// Jobs with the same key do the same work, so that only the last one has to run.
#[derive(Debug)]
pub enum GitJobKey {
    WriteIndex(Vec<RepoPath>),
    ReloadBufferDiffBases,
    RefreshStatuses,
}

pub enum KeyView {
    WriteIndex(Seq<Seq<Seq<char>>>),
    ReloadBufferDiffBases,
    RefreshStatuses,
}

impl View for GitJobKey {
    type V = KeyView;

    open spec fn view(&self) -> KeyView {
        match self {
            GitJobKey::WriteIndex(paths) => KeyView::WriteIndex(views(paths@)),
            GitJobKey::ReloadBufferDiffBases => KeyView::ReloadBufferDiffBases,
            GitJobKey::RefreshStatuses => KeyView::RefreshStatuses,
        }
    }
}

/// Whether two lists of paths are the same.
fn same_paths(a: &Vec<RepoPath>, b: &Vec<RepoPath>) -> (same: bool)
    ensures
        same == (views(a@) == views(b@)),
{
    if a.len() != b.len() {
        assert(views(a@).len() != views(b@).len());
        return false;
    }
    let mut i: usize = 0;
    while i < a.len()
        invariant
            i <= a@.len(),
            a@.len() == b@.len(),
            forall|k: int| 0 <= k < i ==> views(a@)[k] == views(b@)[k],
        decreases a@.len() - i,
    {
        if !a[i].same_as(&b[i]) {
            assert(views(a@)[i as int] != views(b@)[i as int]);
            return false;
        }
        i += 1;
    }
    assert(views(a@) =~= views(b@));
    true
}

impl GitJobKey {
    /// Whether two keys are the same.
    pub fn same_as(&self, other: &Self) -> (same: bool)
        ensures
            same == (self@ == other@),
    {
        match (self, other) {
            (GitJobKey::WriteIndex(a), GitJobKey::WriteIndex(b)) => same_paths(a, b),
            (GitJobKey::ReloadBufferDiffBases, GitJobKey::ReloadBufferDiffBases) => true,
            (GitJobKey::RefreshStatuses, GitJobKey::RefreshStatuses) => true,
            _ => false,
        }
    }
}

/// A key as it is shown.
pub open spec fn key_label(key: KeyView) -> Seq<char> {
    match key {
        KeyView::WriteIndex(paths) => "WriteIndex("@ + joined(
            paths.map_values(|path: Seq<Seq<char>>| join_slashes(path)),
            ", "@,
        ) + ")"@,
        KeyView::ReloadBufferDiffBases => "ReloadBufferDiffBases"@,
        KeyView::RefreshStatuses => "RefreshStatuses"@,
    }
}

/// The texts of paths.
pub fn path_texts(paths: &Vec<RepoPath>) -> (texts: Vec<String>)
    ensures
        texts@.map_values(|s: String| s@) == views(paths@).map_values(
            |path: Seq<Seq<char>>| join_slashes(path),
        ),
{
    let mut texts: Vec<String> = Vec::new();
    let mut i: usize = 0;
    while i < paths.len()
        invariant
            i <= paths@.len(),
            texts@.len() == i,
            forall|k: int| 0 <= k < i ==> (#[trigger] texts@[k])@ == join_slashes(paths@[k]@),
        decreases paths@.len() - i,
    {
        texts.push(paths[i].as_unix_str());
        i += 1;
    }
    assert(texts@.map_values(|s: String| s@) =~= views(paths@).map_values(
        |path: Seq<Seq<char>>| join_slashes(path),
    ));
    texts
}

/// Shows a key.
pub fn format_job_key(key: &GitJobKey) -> (label: String)
    ensures
        label@ == key_label(key@),
{
    match key {
        GitJobKey::WriteIndex(paths) => {
            let texts: Vec<String> = path_texts(paths);
            wrap_text("WriteIndex(", join_texts(&texts, ", ").as_str(), ")")
        },
        GitJobKey::ReloadBufferDiffBases => "ReloadBufferDiffBases".to_owned(),
        GitJobKey::RefreshStatuses => "RefreshStatuses".to_owned(),
    }
}

/// A job that waits to run.
#[derive(Debug)]
pub struct GitJob {
    pub id: u64,
    pub key: Option<GitJobKey>,
}

pub struct JobView {
    pub id: u64,
    pub key: Option<KeyView>,
}

impl View for GitJob {
    type V = JobView;

    open spec fn view(&self) -> JobView {
        JobView {
            id: self.id,
            key: match self.key {
                Some(key) => Some(key@),
                None => None,
            },
        }
    }
}

pub open spec fn job_views(jobs: Seq<GitJob>) -> Seq<JobView> {
    jobs.map_values(|job: GitJob| job@)
}

/// A later job of the queue does the work of the one at position `i`.
pub open spec fn superseded(jobs: Seq<JobView>, i: int) -> bool {
    jobs[i].key is Some && exists|j: int|
        i < j < jobs.len() && (#[trigger] jobs[j]).key == jobs[i].key
}

/// A job that does not run is made up for: a later one with the same key does.
pub proof fn superseded_job_is_made_up_for(jobs: Seq<JobView>, i: int) -> (j: int)
    requires
        0 <= i < jobs.len(),
        superseded(jobs, i),
    ensures
        i < j < jobs.len(),
        jobs[j].key == jobs[i].key,
        !superseded(jobs, j),
    decreases jobs.len() - i,
{
    let j = choose|j: int| i < j < jobs.len() && (#[trigger] jobs[j]).key == jobs[i].key;
    if superseded(jobs, j) {
        superseded_job_is_made_up_for(jobs, j)
    } else {
        j
    }
}

/// A job without a key is never skipped.
pub proof fn job_without_key_runs(jobs: Seq<JobView>, i: int)
    requires
        0 <= i < jobs.len(),
        jobs[i].key is None,
    ensures
        !superseded(jobs, i),
{
}

/// What the worker does next.
#[derive(Debug)]
pub enum NextJob {
    Run(GitJob),
    /// A later job does the same work.
    Skip(u64),
}

/// The jobs of a repository that wait to run.
#[derive(Debug)]
pub struct JobQueue {
    pub jobs: Vec<GitJob>,
    pub next_id: u64,
}

impl JobQueue {
    /// An empty queue.
    pub fn new() -> (queue: Self)
        ensures
            queue.jobs@.len() == 0,
            queue.next_id == 0,
    {
        JobQueue { jobs: Vec::new(), next_id: 0 }
    }

    /// Queues a job under a fresh number.
    pub fn send_keyed_job(&mut self, key: Option<GitJobKey>) -> (id: u64)
        requires
            old(self).next_id < u64::MAX,
        ensures
            id == old(self).next_id,
            final(self).next_id == old(self).next_id + 1,
            final(self).jobs@ == old(self).jobs@.push(GitJob { id, key }),
    {
        let id: u64 = self.next_id;
        self.next_id = id + 1;
        self.jobs.push(GitJob { id, key });
        id
    }

    /// Takes the first job out, and says whether it has to run.
    pub fn next_job(&mut self) -> (next: Option<NextJob>)
        ensures
            final(self).next_id == old(self).next_id,
            match next {
                None => old(self).jobs@.len() == 0 && final(self).jobs@ == old(self).jobs@,
                Some(NextJob::Run(job)) => old(self).jobs@.len() > 0 && !superseded(
                    job_views(old(self).jobs@),
                    0,
                ) && job == old(self).jobs@[0] && final(self).jobs@
                    == old(self).jobs@.drop_first(),
                Some(NextJob::Skip(id)) => old(self).jobs@.len() > 0 && superseded(
                    job_views(old(self).jobs@),
                    0,
                ) && id == old(self).jobs@[0].id && final(self).jobs@
                    == old(self).jobs@.drop_first(),
            },
    {
        if self.jobs.len() == 0 {
            return None;
        }
        let ghost before = job_views(self.jobs@);
        let mut skip: bool = false;
        if let Some(key) = &self.jobs[0].key {
            let mut j: usize = 1;
            while j < self.jobs.len()
                invariant
                    1 <= j <= self.jobs@.len(),
                    before == job_views(self.jobs@),
                    before[0].key == Some(key@),
                    skip == exists|k: int| 0 < k < j && (#[trigger] before[k]).key == before[0].key,
                decreases self.jobs@.len() - j,
            {
                assert(before[j as int] == self.jobs@[j as int]@);
                if let Some(other) = &self.jobs[j].key {
                    if other.same_as(key) {
                        skip = true;
                        assert(before[j as int].key == before[0].key);
                    }
                }
                j += 1;
            }
        }
        let job = self.jobs.remove(0);
        assert(self.jobs@ =~= old(self).jobs@.drop_first());
        assert(before[0] == job@);
        if skip {
            Some(NextJob::Skip(job.id))
        } else {
            Some(NextJob::Run(job))
        }
    }
}

/// What is shown of a job that runs.
#[derive(Clone, Debug, PartialEq, Eq)]
pub struct JobInfo {
    /// When it started, in milliseconds.
    pub start: u64,
    pub message: String,
}

/// The jobs that run and show what they do.
#[derive(Debug)]
pub struct ActiveJobs {
    pub jobs: BTreeMap<u64, JobInfo>,
}

impl ActiveJobs {
    pub fn new() -> (jobs: Self)
        ensures
            jobs.jobs@ == Map::<u64, JobInfo>::empty(),
    {
        ActiveJobs { jobs: BTreeMap::new() }
    }

    /// A job started. One without a message is not shown.
    pub fn started(&mut self, id: u64, start: u64, message: Option<String>)
        ensures
            final(self).jobs@ == match message {
                Some(message) => old(self).jobs@.insert(id, JobInfo { start, message }),
                None => old(self).jobs@,
            },
    {
        if let Some(message) = message {
            map_put(&mut self.jobs, id, JobInfo { start, message });
        }
    }

    /// A job ended.
    pub fn finished(&mut self, id: u64)
        ensures
            final(self).jobs@ == old(self).jobs@.remove(id),
    {
        let _ = map_take(&mut self.jobs, id);
    }

    /// The worker was started anew: whatever ran does not any more.
    pub fn worker_respawned(&mut self)
        ensures
            final(self).jobs@ == Map::<u64, JobInfo>::empty(),
    {
        self.jobs = BTreeMap::new();
    }

    /// A job that runs, if any does, and when it started.
    pub fn current_job(&self) -> (job: Option<&JobInfo>)
        ensures
            job is Some <==> self.jobs@ != Map::<u64, JobInfo>::empty(),
            job matches Some(job) ==> exists|id: u64| #[trigger]
                self.jobs@.contains_key(id) && self.jobs@[id] == *job,
    {
        let keys: Vec<u64> = map_keys(&self.jobs);
        if keys.len() > 0 {
            assert(keys@.contains(keys@[0]));
            map_get(&self.jobs, keys[0])
        } else {
            assert(self.jobs@ =~= Map::<u64, JobInfo>::empty()) by {
                assert forall|id: u64| !self.jobs@.contains_key(id) by {
                    assert(!keys@.contains(id));
                }
            }
            None
        }
    }
}

/// A job that ended is not shown any more, whatever else runs.
pub proof fn ended_jobs_are_not_shown(jobs: Map<u64, JobInfo>, id: u64, info: JobInfo)
    requires
        !jobs.contains_key(id),
    ensures
        jobs.insert(id, info).remove(id) == jobs,
{
    assert(jobs.insert(id, info).remove(id) =~= jobs);
}

/// Two keys are the same just if they are of one sort, and, of jobs that write the index, speak
/// of the same paths in the same order.
pub proof fn keys_are_the_same_for_the_same_work(
    a: Vec<RepoPath>,
    b: Vec<RepoPath>,
    writes: bool,
    other: bool,
    reload: bool,
    i: int,
)
    requires
        call_ensures(
            GitJobKey::same_as,
            (&GitJobKey::WriteIndex(a), &GitJobKey::WriteIndex(b)),
            writes,
        ),
        call_ensures(
            GitJobKey::same_as,
            (&GitJobKey::ReloadBufferDiffBases, &GitJobKey::RefreshStatuses),
            other,
        ),
        call_ensures(
            GitJobKey::same_as,
            (&GitJobKey::ReloadBufferDiffBases, &GitJobKey::ReloadBufferDiffBases),
            reload,
        ),
    ensures
        writes ==> a@.len() == b@.len() && (0 <= i < a@.len() ==> a@[i]@ == b@[i]@),
        a@.len() == b@.len() && (forall|k: int|
            0 <= k < a@.len() ==> (#[trigger] a@[k])@ == b@[k]@) ==> writes,
        !other,
        reload,
{
    assert(views(a@).len() == a@.len() && views(b@).len() == b@.len());
    if writes && 0 <= i < a@.len() {
        assert(views(a@)[i] == a@[i]@ && views(b@)[i] == b@[i]@);
    }
    if a@.len() == b@.len() && (forall|k: int|
        0 <= k < a@.len() ==> (#[trigger] a@[k])@ == b@[k]@) {
        assert(views(a@) =~= views(b@));
    }
}

/// Jobs get ascending numbers and wait behind those that were queued before.
pub proof fn jobs_wait_in_line(queue: &mut JobQueue, key: Option<GitJobKey>, id: u64, i: int)
    requires
        call_ensures(JobQueue::send_keyed_job, (queue, key), id),
    ensures
        id == old(queue).next_id,
        final(queue).next_id == id + 1,
        final(queue).jobs@.len() == old(queue).jobs@.len() + 1,
        final(queue).jobs@.last().id == id,
        final(queue).jobs@.last().key == key,
        0 <= i < old(queue).jobs@.len() ==> final(queue).jobs@[i] == old(queue).jobs@[i],
{
}

/// The job that has waited longest is taken, and no other. It is skipped just if a job with the
/// same key waits behind it.
pub proof fn jobs_run_unless_repeated(queue: &mut JobQueue, next: Option<NextJob>, i: int)
    requires
        call_ensures(JobQueue::next_job, (queue,), next),
    ensures
        next is None <==> old(queue).jobs@.len() == 0,
        next is None ==> final(queue).jobs@ == old(queue).jobs@,
        next is Some ==> final(queue).jobs@ == old(queue).jobs@.skip(1),
        next matches Some(NextJob::Run(job)) ==> job == old(queue).jobs@[0] && (job.key is None || (
        1 <= i < old(queue).jobs@.len() ==> !(old(queue).jobs@[i].key is Some && old(
            queue,
        ).jobs@[i].key->0@ == job.key->0@))),
        next matches Some(NextJob::Skip(id)) ==> id == old(queue).jobs@[0].id && old(
            queue,
        ).jobs@[0].key is Some && exists|j: int|
            1 <= j < old(queue).jobs@.len() && (#[trigger] old(queue).jobs@[j]).key is Some && old(
                queue,
            ).jobs@[j].key->0@ == old(queue).jobs@[0].key->0@,
{
    let jobs = old(queue).jobs@;
    let seen = job_views(jobs);
    if next is Some {
        assert(jobs.drop_first() =~= jobs.skip(1));
        assert(seen[0] == jobs[0]@);
    }
    if next is Some && next->0 is Run && 1 <= i < jobs.len() {
        assert(seen[i] == jobs[i]@);
        if jobs[0].key is Some && jobs[i].key is Some && jobs[i].key->0@ == jobs[0].key->0@ {
            assert(seen[i].key == seen[0].key);
            assert(superseded(seen, 0));
        }
    }
    if next is Some && next->0 is Skip {
        let j = choose|j: int| 0 < j < seen.len() && (#[trigger] seen[j]).key == seen[0].key;
        assert(seen[j] == jobs[j]@);
    }
}

/// A job that started is shown with its message from its start until it ends. One without a
/// message is not shown, and a new worker shows nothing.
pub proof fn running_jobs_are_shown(
    active: &mut ActiveJobs,
    silent: &mut ActiveJobs,
    over: &mut ActiveJobs,
    anew: &mut ActiveJobs,
    id: u64,
    start: u64,
    message: String,
    other: u64,
)
    requires
        call_ensures(ActiveJobs::started, (active, id, start, Some(message)), ()),
        call_ensures(ActiveJobs::started, (silent, id, start, None::<String>), ()),
        call_ensures(ActiveJobs::finished, (over, id), ()),
        call_ensures(ActiveJobs::worker_respawned, (anew,), ()),
        other != id,
    ensures
        final(active).jobs@.contains_key(id),
        final(active).jobs@[id].start == start,
        final(active).jobs@[id].message == message,
        final(active).jobs@.contains_key(other) <==> old(active).jobs@.contains_key(other),
        final(active).jobs@.contains_key(other) ==> final(active).jobs@[other]
            == old(active).jobs@[other],
        final(silent).jobs@ == old(silent).jobs@,
        !final(over).jobs@.contains_key(id),
        final(over).jobs@.contains_key(other) <==> old(over).jobs@.contains_key(other),
        !final(anew).jobs@.contains_key(id),
{
}

} // verus!
