//! Branches, commits, stashes and worktrees in the wire format.
use vstd::prelude::*;

use crate::rel_path::RelPath;
use crate::text::{same_text, text_view};

verus! {

/// The identifier of a git object: twenty bytes.
#[derive(Clone, Copy, Debug, PartialEq, Eq, Hash, Structural)]
pub struct Oid {
    pub high: u64,
    pub middle: u64,
    pub low: u32,
}

#[derive(Debug)]
pub struct CommitSummary {
    pub sha: String,
    pub subject: String,
    pub commit_timestamp: i64,
    pub author_name: String,
}

impl Clone for CommitSummary {
    fn clone(&self) -> (copy: Self)
        ensures
            copy == *self,
    {
        CommitSummary {
            sha: self.sha.clone(),
            subject: self.subject.clone(),
            commit_timestamp: self.commit_timestamp,
            author_name: self.author_name.clone(),
        }
    }
}

/// How far a branch is ahead of its upstream and behind it.
#[derive(Clone, Copy, Debug, PartialEq, Eq, Structural)]
pub struct UpstreamTrackingStatus {
    pub ahead: u32,
    pub behind: u32,
}

/// The upstream of a branch. It has no tracking status when it is gone.
#[derive(Debug)]
pub struct Upstream {
    pub ref_name: String,
    pub tracking: Option<UpstreamTrackingStatus>,
}

#[derive(Debug)]
pub struct Branch {
    pub is_head: bool,
    pub ref_name: String,
    pub upstream: Option<Upstream>,
    pub most_recent_commit: Option<CommitSummary>,
}

#[derive(Clone, Copy, Debug, PartialEq, Eq, Structural)]
pub struct ProtoUpstreamTracking {
    pub ahead: u64,
    pub behind: u64,
}

#[derive(Debug)]
pub struct ProtoUpstream {
    pub ref_name: String,
    pub tracking: Option<ProtoUpstreamTracking>,
}

#[derive(Debug)]
pub struct ProtoBranch {
    pub is_head: bool,
    pub ref_name: String,
    pub unix_timestamp: Option<u64>,
    pub upstream: Option<ProtoUpstream>,
    pub most_recent_commit: Option<CommitSummary>,
}

/// A branch in the wire format.
pub open spec fn wire_branch(branch: Branch) -> ProtoBranch {
    ProtoBranch {
        is_head: branch.is_head,
        ref_name: branch.ref_name,
        unix_timestamp: match branch.most_recent_commit {
            Some(commit) => Some(commit.commit_timestamp as u64),
            None => None,
        },
        upstream: match branch.upstream {
            Some(upstream) => Some(
                ProtoUpstream {
                    ref_name: upstream.ref_name,
                    tracking: match upstream.tracking {
                        Some(status) => Some(
                            ProtoUpstreamTracking {
                                ahead: status.ahead as u64,
                                behind: status.behind as u64,
                            },
                        ),
                        None => None,
                    },
                },
            ),
            None => None,
        },
        most_recent_commit: branch.most_recent_commit,
    }
}

impl Branch {
    /// A copy of the branch.
    pub fn copy(&self) -> (copy: Branch)
        ensures
            copy == *self,
    {
        Branch {
            is_head: self.is_head,
            ref_name: self.ref_name.clone(),
            upstream: match &self.upstream {
                Some(upstream) => Some(
                    Upstream { ref_name: upstream.ref_name.clone(), tracking: upstream.tracking },
                ),
                None => None,
            },
            most_recent_commit: match &self.most_recent_commit {
                Some(commit) => Some(commit.clone()),
                None => None,
            },
        }
    }
}

/// A branch by its contents.
#[verifier::ext_equal]
pub ghost struct BranchView {
    pub is_head: bool,
    pub ref_name: Seq<char>,
    pub upstream: Option<(Seq<char>, Option<UpstreamTrackingStatus>)>,
    pub most_recent_commit: Option<(Seq<char>, Seq<char>, i64, Seq<char>)>,
}

impl View for Branch {
    type V = BranchView;

    open spec fn view(&self) -> BranchView {
        BranchView {
            is_head: self.is_head,
            ref_name: self.ref_name@,
            upstream: match self.upstream {
                Some(upstream) => Some((upstream.ref_name@, upstream.tracking)),
                None => None,
            },
            most_recent_commit: match self.most_recent_commit {
                Some(commit) => Some(
                    (
                        commit.sha@,
                        commit.subject@,
                        commit.commit_timestamp,
                        commit.author_name@,
                    ),
                ),
                None => None,
            },
        }
    }
}

pub open spec fn branch_views(branches: Seq<Branch>) -> Seq<BranchView> {
    branches.map_values(|branch: Branch| branch@)
}

fn same_upstream(a: &Option<Upstream>, b: &Option<Upstream>) -> (same: bool)
    ensures
        same == match (*a, *b) {
            (Some(a), Some(b)) => a.ref_name@ == b.ref_name@ && a.tracking == b.tracking,
            (None, None) => true,
            _ => false,
        },
{
    match (a, b) {
        (Some(a), Some(b)) => {
            let same_tracking: bool = match (a.tracking, b.tracking) {
                (Some(a), Some(b)) => a == b,
                (None, None) => true,
                _ => false,
            };
            same_tracking && same_text(a.ref_name.as_str(), b.ref_name.as_str())
        },
        (None, None) => true,
        _ => false,
    }
}

fn same_commit(a: &Option<CommitSummary>, b: &Option<CommitSummary>) -> (same: bool)
    ensures
        same == match (*a, *b) {
            (Some(a), Some(b)) => a.sha@ == b.sha@ && a.subject@ == b.subject@
                && a.commit_timestamp == b.commit_timestamp && a.author_name@ == b.author_name@,
            (None, None) => true,
            _ => false,
        },
{
    match (a, b) {
        (Some(a), Some(b)) => a.commit_timestamp == b.commit_timestamp && same_text(
            a.sha.as_str(),
            b.sha.as_str(),
        ) && same_text(a.subject.as_str(), b.subject.as_str()) && same_text(
            a.author_name.as_str(),
            b.author_name.as_str(),
        ),
        (None, None) => true,
        _ => false,
    }
}

/// Whether two lists hold the same branches.
pub fn same_branches(a: &Vec<Branch>, b: &Vec<Branch>) -> (same: bool)
    ensures
        same == (branch_views(a@) == branch_views(b@)),
{
    if a.len() != b.len() {
        assert(branch_views(a@).len() != branch_views(b@).len());
        return false;
    }
    let mut i: usize = 0;
    while i < a.len()
        invariant
            i <= a@.len(),
            a@.len() == b@.len(),
            forall|k: int| 0 <= k < i ==> (#[trigger] a@[k])@ == b@[k]@,
        decreases a@.len() - i,
    {
        let same: bool = a[i].is_head == b[i].is_head && same_text(
            a[i].ref_name.as_str(),
            b[i].ref_name.as_str(),
        ) && same_upstream(&a[i].upstream, &b[i].upstream) && same_commit(
            &a[i].most_recent_commit,
            &b[i].most_recent_commit,
        );
        if !same {
            assert(branch_views(a@)[i as int] != branch_views(b@)[i as int]);
            return false;
        }
        i += 1;
    }
    assert(branch_views(a@) =~= branch_views(b@));
    true
}

/// The wire format of a branch.
pub fn branch_to_proto(branch: &Branch) -> (wire: ProtoBranch)
    ensures
        wire == wire_branch(*branch),
{
    let (unix_timestamp, most_recent_commit) = match &branch.most_recent_commit {
        Some(commit) => (Some(#[verifier::truncate] (commit.commit_timestamp as u64)), Some(commit.clone())),
        None => (None, None),
    };
    let upstream = match &branch.upstream {
        Some(upstream) => Some(
            ProtoUpstream {
                ref_name: upstream.ref_name.clone(),
                tracking: match upstream.tracking {
                    Some(status) => Some(
                        ProtoUpstreamTracking {
                            ahead: status.ahead as u64,
                            behind: status.behind as u64,
                        },
                    ),
                    None => None,
                },
            },
        ),
        None => None,
    };
    ProtoBranch {
        is_head: branch.is_head,
        ref_name: branch.ref_name.clone(),
        unix_timestamp,
        upstream,
        most_recent_commit,
    }
}

#[derive(Debug)]
pub struct CommitDetails {
    pub sha: String,
    pub message: String,
    pub commit_timestamp: i64,
    pub author_email: String,
    pub author_name: String,
}

/// The wire format of the details of a commit, which has the same fields.
pub fn commit_details_to_proto(commit: &CommitDetails) -> (wire: CommitDetails)
    ensures
        wire == *commit,
{
    CommitDetails {
        sha: commit.sha.clone(),
        message: commit.message.clone(),
        commit_timestamp: commit.commit_timestamp,
        author_email: commit.author_email.clone(),
        author_name: commit.author_name.clone(),
    }
}

/// A worktree of a repository.
#[derive(Debug)]
pub struct GitWorktree {
    pub path: RelPath,
    pub ref_name: Option<String>,
    pub sha: String,
    pub is_main: bool,
    pub is_bare: bool,
}

#[derive(Debug)]
pub struct ProtoWorktree {
    pub path: RelPath,
    pub ref_name: String,
    pub sha: String,
    pub is_main: bool,
    pub is_bare: bool,
}

/// `wire` is the worktree in the wire format, where a missing reference is empty.
pub open spec fn is_wire_worktree(wire: ProtoWorktree, worktree: GitWorktree) -> bool {
    &&& wire.path@ == worktree.path@
    &&& wire.ref_name@ == (match worktree.ref_name {
        Some(ref_name) => ref_name@,
        None => Seq::<char>::empty(),
    })
    &&& wire.sha == worktree.sha
    &&& wire.is_main == worktree.is_main
    &&& wire.is_bare == worktree.is_bare
}

/// The wire format of a worktree.
pub fn worktree_to_proto(worktree: &GitWorktree) -> (wire: ProtoWorktree)
    ensures
        is_wire_worktree(wire, *worktree),
{
    ProtoWorktree {
        path: worktree.path.clone(),
        ref_name: match &worktree.ref_name {
            Some(ref_name) => ref_name.clone(),
            None => String::new(),
        },
        sha: worktree.sha.clone(),
        is_main: worktree.is_main,
        is_bare: worktree.is_bare,
    }
}

#[derive(Debug)]
pub struct StashEntry {
    pub oid: Oid,
    pub message: String,
    pub branch: Option<String>,
    pub index: usize,
    pub timestamp: i64,
}

/// A stash entry by its contents.
#[verifier::ext_equal]
pub ghost struct StashView {
    pub oid: Oid,
    pub message: Seq<char>,
    pub branch: Option<Seq<char>>,
    pub index: usize,
    pub timestamp: i64,
}

impl View for StashEntry {
    type V = StashView;

    open spec fn view(&self) -> StashView {
        StashView {
            oid: self.oid,
            message: self.message@,
            branch: text_view(self.branch),
            index: self.index,
            timestamp: self.timestamp,
        }
    }
}

pub open spec fn stash_views(entries: Seq<StashEntry>) -> Seq<StashView> {
    entries.map_values(|entry: StashEntry| entry@)
}

/// Whether two lists hold the same stash entries.
pub fn same_stashes(a: &Vec<StashEntry>, b: &Vec<StashEntry>) -> (same: bool)
    ensures
        same == (stash_views(a@) == stash_views(b@)),
{
    if a.len() != b.len() {
        assert(stash_views(a@).len() != stash_views(b@).len());
        return false;
    }
    let mut i: usize = 0;
    while i < a.len()
        invariant
            i <= a@.len(),
            a@.len() == b@.len(),
            forall|k: int| 0 <= k < i ==> (#[trigger] a@[k])@ == b@[k]@,
        decreases a@.len() - i,
    {
        let same_branch: bool = match (&a[i].branch, &b[i].branch) {
            (Some(a), Some(b)) => same_text(a.as_str(), b.as_str()),
            (None, None) => true,
            _ => false,
        };
        let same: bool = same_branch && a[i].oid == b[i].oid && a[i].index == b[i].index
            && a[i].timestamp == b[i].timestamp && same_text(
            a[i].message.as_str(),
            b[i].message.as_str(),
        );
        if !same {
            assert(stash_views(a@)[i as int] != stash_views(b@)[i as int]);
            return false;
        }
        i += 1;
    }
    assert(stash_views(a@) =~= stash_views(b@));
    true
}

/// A stash entry in the wire format. Bytes that are no object identifier are `None`.
#[derive(Debug)]
pub struct ProtoStashEntry {
    pub oid: Option<Oid>,
    pub message: String,
    pub branch: Option<String>,
    pub index: u64,
    pub timestamp: i64,
}

/// A received stash entry has no object identifier.
#[derive(Clone, Copy, Debug, PartialEq, Eq, Structural)]
pub struct InvalidOid;

pub open spec fn wire_stash(entry: StashEntry) -> ProtoStashEntry {
    ProtoStashEntry {
        oid: Some(entry.oid),
        message: entry.message,
        branch: entry.branch,
        index: entry.index as u64,
        timestamp: entry.timestamp,
    }
}

pub open spec fn read_stash(entry: ProtoStashEntry) -> Result<StashEntry, InvalidOid> {
    match entry.oid {
        Some(oid) => Ok(
            StashEntry {
                oid,
                message: entry.message,
                branch: entry.branch,
                index: entry.index as usize,
                timestamp: entry.timestamp,
            },
        ),
        None => Err(InvalidOid),
    }
}

/// A stash entry survives the wire.
pub proof fn stash_round_trip(entry: StashEntry)
    ensures
        read_stash(wire_stash(entry)) == Ok::<StashEntry, InvalidOid>(entry),
{
}

fn clone_opt(text: &Option<String>) -> (copy: Option<String>)
    ensures
        copy == *text,
{
    match text {
        Some(text) => Some(text.clone()),
        None => None,
    }
}

/// The wire format of a stash entry.
pub fn stash_to_proto(entry: &StashEntry) -> (wire: ProtoStashEntry)
    ensures
        wire == wire_stash(*entry),
{
    ProtoStashEntry {
        oid: Some(entry.oid),
        message: entry.message.clone(),
        branch: clone_opt(&entry.branch),
        index: entry.index as u64,
        timestamp: entry.timestamp,
    }
}

/// Reads a received stash entry.
pub fn proto_to_stash(entry: &ProtoStashEntry) -> (result: Result<StashEntry, InvalidOid>)
    ensures
        result == read_stash(*entry),
{
    match entry.oid {
        Some(oid) => Ok(
            StashEntry {
                oid,
                message: entry.message.clone(),
                branch: clone_opt(&entry.branch),
                index: #[verifier::truncate] (entry.index as usize),
                timestamp: entry.timestamp,
            },
        ),
        None => Err(InvalidOid),
    }
}

/// A branch travels with its reference, its upstream and its last commit, and with the time of
/// that commit. How far it is ahead of its upstream and behind it travel each in its own place.
pub proof fn branches_travel_in_full(branch: Branch, wire: ProtoBranch)
    requires
        call_ensures(branch_to_proto, (&branch,), wire),
    ensures
        wire.is_head == branch.is_head,
        wire.ref_name == branch.ref_name,
        wire.most_recent_commit == branch.most_recent_commit,
        wire.unix_timestamp is Some <==> branch.most_recent_commit is Some,
        branch.most_recent_commit matches Some(commit) ==> commit.commit_timestamp >= 0
            ==> wire.unix_timestamp->0 == commit.commit_timestamp,
        wire.upstream is Some <==> branch.upstream is Some,
        branch.upstream matches Some(upstream) ==> {
            &&& wire.upstream->0.ref_name == upstream.ref_name
            &&& (wire.upstream->0.tracking is Some <==> upstream.tracking is Some)
            &&& (upstream.tracking matches Some(status) ==> wire.upstream->0.tracking->0.ahead
                == status.ahead && wire.upstream->0.tracking->0.behind == status.behind)
        },
{
}

/// A commit and a worktree travel with all their fields; a worktree that is on no reference
/// travels with an empty one.
pub proof fn commits_and_worktrees_travel_in_full(
    commit: CommitDetails,
    wire_commit: CommitDetails,
    worktree: GitWorktree,
    wire: ProtoWorktree,
)
    requires
        call_ensures(commit_details_to_proto, (&commit,), wire_commit),
        call_ensures(worktree_to_proto, (&worktree,), wire),
    ensures
        wire_commit.sha == commit.sha,
        wire_commit.message == commit.message,
        wire_commit.commit_timestamp == commit.commit_timestamp,
        wire_commit.author_email == commit.author_email,
        wire_commit.author_name == commit.author_name,
        wire.path@ == worktree.path@,
        worktree.ref_name matches Some(ref_name) ==> wire.ref_name@ == ref_name@,
        worktree.ref_name is None ==> wire.ref_name@.len() == 0,
        wire.sha == worktree.sha,
        wire.is_main == worktree.is_main,
        wire.is_bare == worktree.is_bare,
{
}

/// A stash entry that is sent is read as the same entry, and one without an object identifier is
/// not read.
pub proof fn stashes_travel_unchanged(
    entry: StashEntry,
    wire: ProtoStashEntry,
    read: Result<StashEntry, InvalidOid>,
    nameless: ProtoStashEntry,
    refused: Result<StashEntry, InvalidOid>,
)
    requires
        call_ensures(stash_to_proto, (&entry,), wire),
        call_ensures(proto_to_stash, (&wire,), read),
        nameless.oid is None,
        call_ensures(proto_to_stash, (&nameless,), refused),
    ensures
        wire.oid == Some(entry.oid),
        wire.message == entry.message,
        wire.branch == entry.branch,
        wire.index == entry.index,
        wire.timestamp == entry.timestamp,
        read == Ok::<StashEntry, InvalidOid>(entry),
        refused is Err,
{
    stash_round_trip(entry);
}

/// Two lists of branches are the same just if they are as long and the branches agree in all that
/// they say, in their order.
pub proof fn branch_lists_are_compared_in_full(a: Vec<Branch>, b: Vec<Branch>, same: bool, i: int)
    requires
        call_ensures(same_branches, (&a, &b), same),
    ensures
        same && 0 <= i < a@.len() ==> ({
            &&& a@.len() == b@.len()
            &&& a@[i].is_head == b@[i].is_head
            &&& a@[i].ref_name@ == b@[i].ref_name@
            &&& (a@[i].upstream is Some <==> b@[i].upstream is Some)
            &&& (a@[i].upstream is Some ==> a@[i].upstream->0.ref_name@
                == b@[i].upstream->0.ref_name@ && a@[i].upstream->0.tracking
                == b@[i].upstream->0.tracking)
            &&& (a@[i].most_recent_commit is Some <==> b@[i].most_recent_commit is Some)
            &&& (a@[i].most_recent_commit is Some ==> a@[i].most_recent_commit->0.sha@
                == b@[i].most_recent_commit->0.sha@ && a@[i].most_recent_commit->0.subject@
                == b@[i].most_recent_commit->0.subject@
                && a@[i].most_recent_commit->0.commit_timestamp
                == b@[i].most_recent_commit->0.commit_timestamp
                && a@[i].most_recent_commit->0.author_name@
                == b@[i].most_recent_commit->0.author_name@)
        }),
        a@ == b@ ==> same,
        a@.len() != b@.len() ==> !same,
{
    assert(branch_views(a@).len() == a@.len());
    assert(branch_views(b@).len() == b@.len());
    if same && 0 <= i < a@.len() {
        assert(branch_views(a@)[i] == a@[i]@);
        assert(branch_views(b@)[i] == b@[i]@);
    }
}

/// Two lists of stash entries are the same just if they are as long and the entries agree in all
/// that they say, in their order.
pub proof fn stash_lists_are_compared_in_full(
    a: Vec<StashEntry>,
    b: Vec<StashEntry>,
    same: bool,
    i: int,
)
    requires
        call_ensures(same_stashes, (&a, &b), same),
    ensures
        same && 0 <= i < a@.len() ==> ({
            &&& a@.len() == b@.len()
            &&& a@[i].oid == b@[i].oid
            &&& a@[i].message@ == b@[i].message@
            &&& (a@[i].branch is Some <==> b@[i].branch is Some)
            &&& (a@[i].branch is Some ==> a@[i].branch->0@ == b@[i].branch->0@)
            &&& a@[i].index == b@[i].index
            &&& a@[i].timestamp == b@[i].timestamp
        }),
        a@ == b@ ==> same,
        a@.len() != b@.len() ==> !same,
{
    assert(stash_views(a@).len() == a@.len());
    assert(stash_views(b@).len() == b@.len());
    if same && 0 <= i < a@.len() {
        assert(stash_views(a@)[i] == a@[i]@);
        assert(stash_views(b@)[i] == b@[i]@);
    }
}

} // verus!
