//! What is known about a repository at one moment, how two such moments differ, and
//! how a status scan moves from one to the next.
use vstd::prelude::*;

use crate::git_store::changed_paths::views;
use crate::git_store::registry::{main_worktree, opt_view, RepositoryDirs};
use crate::git_store::status::{
    wire_entry, DiffStat, FileStatus, ProtoStatusEntry, ProtoStatusView, StatusEntry, StatusView,
};
use crate::git_store::wire::{
    branch_to_proto, commit_details_to_proto, is_wire_worktree, stash_to_proto, wire_branch,
    wire_stash, worktree_to_proto, Branch, CommitDetails, GitWorktree, ProtoBranch,
    ProtoStashEntry, ProtoWorktree, StashEntry,
};
use crate::git_store::RepositoryId;
use crate::rel_path::{
    has_file_name, has_prefix, path_lt, path_lt_total, path_lt_transitive, RelPath, RepoPath,
};
use crate::text::Order;

verus! {

/// The status entries as plain values.
pub open spec fn entry_views(entries: Seq<StatusEntry>) -> Seq<StatusView> {
    entries.map_values(|entry: StatusEntry| entry@)
}

/// The entries stand in ascending order of their paths, with one entry per path.
pub open spec fn by_path(entries: Seq<StatusView>) -> bool {
    forall|i: int, j: int|
        0 <= i < j < entries.len() ==> path_lt(
            (#[trigger] entries[i]).repo_path,
            (#[trigger] entries[j]).repo_path,
        )
}

/// Some entry speaks of the path.
pub open spec fn lists(entries: Seq<StatusView>, path: Seq<Seq<char>>) -> bool {
    exists|i: int| 0 <= i < entries.len() && (#[trigger] entries[i]).repo_path == path
}

/// The position of the entry that speaks of the path.
pub open spec fn position(entries: Seq<StatusView>, path: Seq<Seq<char>>) -> int {
    choose|i: int| 0 <= i < entries.len() && (#[trigger] entries[i]).repo_path == path
}

/// What the entries say of the path.
pub open spec fn status_at(entries: Seq<StatusView>, path: Seq<Seq<char>>) -> Option<StatusView> {
    if lists(entries, path) {
        Some(entries[position(entries, path)])
    } else {
        None
    }
}

proof fn lemma_position(entries: Seq<StatusView>, i: int)
    requires
        by_path(entries),
        0 <= i < entries.len(),
    ensures
        lists(entries, entries[i].repo_path),
        position(entries, entries[i].repo_path) == i,
        status_at(entries, entries[i].repo_path) == Some(entries[i]),
{
    let path = entries[i].repo_path;
    let j = position(entries, path);
    assert(lists(entries, path));
    if j < i {
        path_lt_total(entries[j].repo_path, entries[i].repo_path);
    }
    if i < j {
        path_lt_total(entries[i].repo_path, entries[j].repo_path);
    }
}

/// The entry is listed.
pub proof fn lemma_contains(entries: Seq<StatusView>, entry: StatusView)
    requires
        by_path(entries),
    ensures
        entries.contains(entry) <==> status_at(entries, entry.repo_path) == Some(entry),
{
    if entries.contains(entry) {
        let i = choose|i: int| 0 <= i < entries.len() && entries[i] == entry;
        lemma_position(entries, i);
    }
    if status_at(entries, entry.repo_path) == Some(entry) {
        let i = position(entries, entry.repo_path);
        assert(0 <= i < entries.len() && entries[i] == entry);
    }
}

/// What changed between two lists of statuses: which entries are new or different,
/// and which paths have no entry any more.
pub open spec fn is_delta(
    old: Seq<StatusView>,
    new: Seq<StatusView>,
    updated: Seq<StatusView>,
    removed: Seq<Seq<Seq<char>>>,
) -> bool {
    &&& by_path(updated)
    &&& forall|i: int, j: int|
        0 <= i < j < removed.len() ==> path_lt(#[trigger] removed[i], #[trigger] removed[j])
    &&& forall|entry: StatusView| #[trigger]
        updated.contains(entry) <==> new.contains(entry) && !old.contains(entry)
    &&& forall|path: Seq<Seq<char>>| #[trigger]
        removed.contains(path) <==> lists(old, path) && !lists(new, path)
}

/// The difference between two lists of statuses turns the old one into the new one:
/// what is removed goes, what is updated replaces what was there, the rest stays.
pub proof fn delta_restores(
    old: Seq<StatusView>,
    new: Seq<StatusView>,
    updated: Seq<StatusView>,
    removed: Seq<Seq<Seq<char>>>,
    path: Seq<Seq<char>>,
)
    requires
        by_path(old),
        by_path(new),
        is_delta(old, new, updated, removed),
    ensures
        status_at(new, path) == (if lists(updated, path) {
            status_at(updated, path)
        } else if removed.contains(path) {
            None
        } else {
            status_at(old, path)
        }),
{
    if lists(updated, path) {
        let entry = updated[position(updated, path)];
        assert(updated.contains(entry));
        assert(new.contains(entry));
        lemma_contains(new, entry);
    } else if removed.contains(path) {
    } else if lists(new, path) {
        let entry = new[position(new, path)];
        assert(new.contains(entry));
        if !old.contains(entry) {
            assert(updated.contains(entry));
            let i = choose|i: int| 0 <= i < updated.len() && updated[i] == entry;
            assert(updated[i].repo_path == path);
            assert(false);
        }
        lemma_contains(old, entry);
    }
}

/// The wire format of status entries.
pub open spec fn wire_entries(entries: Seq<StatusView>) -> Seq<ProtoStatusView> {
    entries.map_values(|entry: StatusView| wire_entry(entry))
}

pub open spec fn proto_views(entries: Seq<ProtoStatusEntry>) -> Seq<ProtoStatusView> {
    entries.map_values(|entry: ProtoStatusEntry| entry@)
}

/// Whether two entries say the same.
pub fn same_status(a: &StatusEntry, status: FileStatus, diff_stat: Option<DiffStat>) -> (same: bool)
    ensures
        same == (a.status == status && a.diff_stat == diff_stat),
{
    if a.status != status {
        return false;
    }
    match (a.diff_stat, diff_stat) {
        (Some(a), Some(b)) => a == b,
        (None, None) => true,
        _ => false,
    }
}

/// The difference between two lists of statuses.
pub fn status_delta(old: &Vec<StatusEntry>, new: &Vec<StatusEntry>) -> (delta: (
    Vec<StatusEntry>,
    Vec<RepoPath>,
))
    requires
        by_path(entry_views(old@)),
        by_path(entry_views(new@)),
    ensures
        is_delta(
            entry_views(old@),
            entry_views(new@),
            entry_views(delta.0@),
            views(delta.1@),
        ),
{
    let ghost o = entry_views(old@);
    let ghost n = entry_views(new@);
    let mut updated: Vec<StatusEntry> = Vec::new();
    let mut removed: Vec<RepoPath> = Vec::new();
    let mut i: usize = 0;
    let mut j: usize = 0;
    while i < new.len() || j < old.len()
        invariant
            i <= n.len(),
            j <= o.len(),
            o == entry_views(old@),
            n == entry_views(new@),
            by_path(o),
            by_path(n),
            forall|a: int, b: int|
                0 <= a < i && j <= b < o.len() ==> path_lt(
                    (#[trigger] n[a]).repo_path,
                    (#[trigger] o[b]).repo_path,
                ),
            forall|a: int, b: int|
                i <= a < n.len() && 0 <= b < j ==> path_lt(
                    (#[trigger] o[b]).repo_path,
                    (#[trigger] n[a]).repo_path,
                ),
            by_path(entry_views(updated@)),
            forall|k: int|
                0 <= k < updated@.len() ==> is_update(o, n, i as int, (#[trigger] updated@[k])@),
            forall|a: int|
                0 <= a < i && !o.contains(#[trigger] n[a]) ==> entry_views(updated@).contains(n[a]),
            forall|x: int, y: int|
                0 <= x < y < removed@.len() ==> path_lt(
                    (#[trigger] removed@[x])@,
                    (#[trigger] removed@[y])@,
                ),
            forall|k: int|
                0 <= k < removed@.len() ==> is_removal(o, n, j as int, (#[trigger] removed@[k])@),
            forall|b: int|
                0 <= b < j && !lists(n, (#[trigger] o[b]).repo_path) ==> views(removed@).contains(
                    o[b].repo_path,
                ),
        decreases n.len() - i + o.len() - j,
    {
        let order: Order = if i < new.len() && j < old.len() {
            new[i].repo_path.compare(&old[j].repo_path)
        } else if i < new.len() {
            Order::Less
        } else {
            Order::Greater
        };
        let ghost updated_before = updated@;
        let ghost removed_before = removed@;
        let ghost i_before = i as int;
        let ghost j_before = j as int;
        proof {
            if i < n.len() {
                assert(n[i as int] == new@[i as int]@);
            }
            if j < o.len() {
                assert(o[j as int] == old@[j as int]@);
            }
        }
        match order {
            Order::Less => {
                proof {
                    // Nothing of the old list has this path.
                    assert forall|b: int| 0 <= b < o.len() implies (#[trigger] o[b]).repo_path
                        != n[i as int].repo_path by {
                        path_lt_total(o[b].repo_path, n[i as int].repo_path);
                        if b > j {
                            path_lt_transitive(
                                n[i as int].repo_path,
                                o[j as int].repo_path,
                                o[b].repo_path,
                            );
                        }
                        path_lt_total(n[i as int].repo_path, o[b].repo_path);
                    }
                    if o.contains(n[i as int]) {
                        let b = choose|b: int| 0 <= b < o.len() && o[b] == n[i as int];
                        assert(o[b].repo_path == n[i as int].repo_path);
                    }
                    if j < o.len() {
                        assert forall|b: int| j <= b < o.len() implies path_lt(
                            n[i as int].repo_path,
                            (#[trigger] o[b]).repo_path,
                        ) by {
                            if b > j {
                                path_lt_transitive(
                                    n[i as int].repo_path,
                                    o[j as int].repo_path,
                                    o[b].repo_path,
                                );
                            }
                        }
                    }
                }
                updated.push(new[i].clone());
                proof {
                    lemma_push_update(o, n, i as int, updated_before, updated@);
                }
                i += 1;
            },
            Order::Equal => {
                proof {
                    lemma_position(o, j as int);
                    lemma_contains(o, n[i as int]);
                    assert forall|b: int| j + 1 <= b < o.len() implies path_lt(
                        n[i as int].repo_path,
                        (#[trigger] o[b]).repo_path,
                    ) by {
                        assert(path_lt(o[j as int].repo_path, o[b].repo_path));
                    }
                    assert forall|a: int| i + 1 <= a < n.len() implies path_lt(
                        o[j as int].repo_path,
                        (#[trigger] n[a]).repo_path,
                    ) by {
                        assert(path_lt(n[i as int].repo_path, n[a].repo_path));
                    }
                    assert(n[i as int].repo_path == o[j as int].repo_path);
                    assert(lists(n, o[j as int].repo_path));
                }
                if !same_status(&old[j], new[i].status, new[i].diff_stat) {
                    updated.push(new[i].clone());
                    proof {
                        lemma_push_update(o, n, i as int, updated_before, updated@);
                    }
                }
                i += 1;
                j += 1;
            },
            Order::Greater => {
                proof {
                    // Nothing of the new list has this path.
                    assert forall|a: int| 0 <= a < n.len() implies (#[trigger] n[a]).repo_path
                        != o[j as int].repo_path by {
                        path_lt_total(n[a].repo_path, o[j as int].repo_path);
                        if a > i {
                            path_lt_transitive(
                                o[j as int].repo_path,
                                n[i as int].repo_path,
                                n[a].repo_path,
                            );
                        }
                        path_lt_total(o[j as int].repo_path, n[a].repo_path);
                    }
                    assert forall|a: int| i <= a < n.len() implies path_lt(
                        o[j as int].repo_path,
                        (#[trigger] n[a]).repo_path,
                    ) by {
                        if a > i {
                            path_lt_transitive(
                                o[j as int].repo_path,
                                n[i as int].repo_path,
                                n[a].repo_path,
                            );
                        }
                    }
                    assert(!lists(n, o[j as int].repo_path));
                }
                removed.push(old[j].repo_path.clone());
                proof {
                    lemma_push_removal(o, n, j as int, removed_before, removed@);
                }
                j += 1;
            },
        }
        proof {
            assert forall|k: int| 0 <= k < updated@.len() implies is_update(
                o,
                n,
                i as int,
                (#[trigger] updated@[k])@,
            ) by {
                if k < updated_before.len() {
                    assert(updated@[k] == updated_before[k]);
                    assert(is_update(o, n, i_before, updated_before[k]@));
                }
            }
            assert forall|k: int| 0 <= k < removed@.len() implies is_removal(
                o,
                n,
                j as int,
                (#[trigger] removed@[k])@,
            ) by {
                if k < removed_before.len() {
                    assert(removed@[k] == removed_before[k]);
                    assert(is_removal(o, n, j_before, removed_before[k]@));
                }
            }
            assert forall|a: int|
                0 <= a < i && !o.contains(#[trigger] n[a]) implies entry_views(updated@).contains(
                n[a],
            ) by {
                if a < i_before {
                    let k = choose|k: int|
                        0 <= k < entry_views(updated_before).len() && entry_views(updated_before)[k]
                            == n[a];
                    assert(entry_views(updated@)[k] == n[a]);
                } else {
                    assert(entry_views(updated@)[updated_before.len() as int] == n[a]);
                }
            }
            assert forall|b: int|
                0 <= b < j && !lists(n, (#[trigger] o[b]).repo_path) implies views(
                removed@,
            ).contains(o[b].repo_path) by {
                if b < j_before {
                    let path = o[b].repo_path;
                    let k = choose|k: int|
                        0 <= k < views(removed_before).len() && views(removed_before)[k] == path;
                    assert(views(removed@)[k] == path);
                } else {
                    assert(views(removed@)[removed_before.len() as int] == o[b].repo_path);
                }
            }
        }
    }
    proof {
        let u = entry_views(updated@);
        let r = views(removed@);
        assert forall|entry: StatusView| #[trigger]
            u.contains(entry) <==> n.contains(entry) && !o.contains(entry) by {
            if u.contains(entry) {
                let k = choose|k: int| 0 <= k < u.len() && u[k] == entry;
                assert(is_update(o, n, i as int, updated@[k]@));
            }
            if n.contains(entry) && !o.contains(entry) {
                let a = choose|a: int| 0 <= a < n.len() && n[a] == entry;
                assert(u.contains(n[a]));
            }
        }
        assert forall|path: Seq<Seq<char>>| #[trigger]
            r.contains(path) <==> lists(o, path) && !lists(n, path) by {
            if r.contains(path) {
                let k = choose|k: int| 0 <= k < r.len() && r[k] == path;
                assert(is_removal(o, n, j as int, removed@[k]@));
            }
            if lists(o, path) && !lists(n, path) {
                let b = choose|b: int| 0 <= b < o.len() && (#[trigger] o[b]).repo_path == path;
                assert(r.contains(o[b].repo_path));
            }
        }
        assert forall|x: int, y: int| 0 <= x < y < r.len() implies path_lt(
            #[trigger] r[x],
            #[trigger] r[y],
        ) by {
            assert(path_lt(removed@[x]@, removed@[y]@));
        }
    }
    (updated, removed)
}

/// The entry is one of the first `upto` new ones and not among the old ones.
spec fn is_update(
    old: Seq<StatusView>,
    new: Seq<StatusView>,
    upto: int,
    entry: StatusView,
) -> bool {
    exists|a: int| 0 <= a < upto && #[trigger] new[a] == entry && new.contains(entry) && !old.contains(entry)
}

/// The path is that of one of the first `upto` old entries and of no new one.
spec fn is_removal(
    old: Seq<StatusView>,
    new: Seq<StatusView>,
    upto: int,
    path: Seq<Seq<char>>,
) -> bool {
    exists|b: int|
        0 <= b < upto && (#[trigger] old[b]).repo_path == path && lists(old, path) && !lists(
            new,
            path,
        )
}

proof fn lemma_push_update(
    old: Seq<StatusView>,
    new: Seq<StatusView>,
    i: int,
    before: Seq<StatusEntry>,
    after: Seq<StatusEntry>,
)
    requires
        by_path(new),
        0 <= i < new.len(),
        !old.contains(new[i]),
        by_path(entry_views(before)),
        forall|k: int| 0 <= k < before.len() ==> is_update(old, new, i, (#[trigger] before[k])@),
        after.len() == before.len() + 1,
        forall|k: int| 0 <= k < before.len() ==> after[k] == before[k],
        after[before.len() as int]@ == new[i],
    ensures
        by_path(entry_views(after)),
        is_update(old, new, i + 1, after[before.len() as int]@),
{
    assert(new.contains(new[i]));
    let v = entry_views(after);
    assert forall|x: int, y: int| 0 <= x < y < v.len() implies path_lt(
        (#[trigger] v[x]).repo_path,
        (#[trigger] v[y]).repo_path,
    ) by {
        assert(after[x] == before[x]);
        assert(entry_views(before)[x] == v[x]);
        if y < before.len() {
            assert(after[y] == before[y]);
            assert(entry_views(before)[y] == v[y]);
        } else {
            assert(is_update(old, new, i, before[x]@));
            let a = choose|a: int|
                0 <= a < i && #[trigger] new[a] == before[x]@ && new.contains(before[x]@)
                    && !old.contains(before[x]@);
            assert(path_lt(new[a].repo_path, new[i].repo_path));
        }
    }
}

proof fn lemma_push_removal(
    old: Seq<StatusView>,
    new: Seq<StatusView>,
    j: int,
    before: Seq<RelPath>,
    after: Seq<RelPath>,
)
    requires
        by_path(old),
        0 <= j < old.len(),
        !lists(new, old[j].repo_path),
        forall|x: int, y: int|
            0 <= x < y < before.len() ==> path_lt(
                (#[trigger] before[x])@,
                (#[trigger] before[y])@,
            ),
        forall|k: int| 0 <= k < before.len() ==> is_removal(old, new, j, (#[trigger] before[k])@),
        after.len() == before.len() + 1,
        forall|k: int| 0 <= k < before.len() ==> after[k] == before[k],
        after[before.len() as int]@ == old[j].repo_path,
    ensures
        forall|x: int, y: int|
            0 <= x < y < after.len() ==> path_lt((#[trigger] after[x])@, (#[trigger] after[y])@),
        is_removal(old, new, j + 1, after[before.len() as int]@),
{
    assert(lists(old, old[j].repo_path));
    assert forall|x: int, y: int| 0 <= x < y < after.len() implies path_lt(
        (#[trigger] after[x])@,
        (#[trigger] after[y])@,
    ) by {
        assert(after[x] == before[x]);
        if y < before.len() {
            assert(after[y] == before[y]);
        } else {
            assert(is_removal(old, new, j, before[x]@));
            let b = choose|b: int|
                0 <= b < j && (#[trigger] old[b]).repo_path == before[x]@ && lists(
                    old,
                    before[x]@,
                ) && !lists(new, before[x]@);
            assert(path_lt(old[b].repo_path, old[j].repo_path));
        }
    }
}

/// The heads that were merged when a path was last seen in conflict.
#[derive(Debug)]
pub struct MergeDetails {
    pub conflicted_paths: Vec<RepoPath>,
    pub message: Option<String>,
}

/// What is known about a repository at one moment.
#[derive(Debug)]
pub struct RepositorySnapshot {
    pub id: RepositoryId,
    pub statuses_by_path: Vec<StatusEntry>,
    pub dirs: RepositoryDirs,
    pub branch: Option<Branch>,
    pub branch_list: Vec<Branch>,
    pub branch_list_error: Option<String>,
    pub head_commit: Option<CommitDetails>,
    pub scan_id: u64,
    pub merge: MergeDetails,
    pub remote_origin_url: Option<String>,
    pub remote_upstream_url: Option<String>,
    pub stash_entries: Vec<StashEntry>,
    pub linked_worktrees: Vec<GitWorktree>,
}

/// A message that brings whom a project is shared with up to date about a repository.
#[derive(Debug)]
pub struct UpdateRepository {
    pub project_id: u64,
    pub id: u64,
    pub abs_path: RelPath,
    pub entry_ids: Vec<u64>,
    pub updated_statuses: Vec<ProtoStatusEntry>,
    pub removed_statuses: Vec<RepoPath>,
    pub scan_id: u64,
    pub is_last_update: bool,
    pub branch_summary: Option<ProtoBranch>,
    pub branch_list: Vec<ProtoBranch>,
    pub branch_list_error: Option<String>,
    pub head_commit_details: Option<CommitDetails>,
    pub current_merge_conflicts: Vec<RepoPath>,
    pub merge_message: Option<String>,
    pub remote_upstream_url: Option<String>,
    pub remote_origin_url: Option<String>,
    pub stash_entries: Vec<ProtoStashEntry>,
    pub repository_dir_abs_path: RelPath,
    pub common_dir_abs_path: RelPath,
    pub linked_worktrees: Vec<ProtoWorktree>,
}

/// All that a message says about a repository except for its statuses.
pub open spec fn describes(
    update: UpdateRepository,
    snapshot: RepositorySnapshot,
    project_id: u64,
) -> bool {
    &&& update.project_id == project_id
    &&& update.id == snapshot.id.0
    &&& update.abs_path@ == snapshot.dirs.work_directory@
    &&& update.scan_id == snapshot.scan_id
    &&& update.is_last_update
    &&& update.branch_summary == (match snapshot.branch {
        Some(branch) => Some(wire_branch(branch)),
        None => None,
    })
    &&& update.branch_list@ == snapshot.branch_list@.map_values(|b: Branch| wire_branch(b))
    &&& update.branch_list_error == snapshot.branch_list_error
    &&& update.head_commit_details == snapshot.head_commit
    &&& views(update.current_merge_conflicts@) == views(snapshot.merge.conflicted_paths@)
    &&& update.merge_message == snapshot.merge.message
    &&& update.remote_upstream_url == snapshot.remote_upstream_url
    &&& update.remote_origin_url == snapshot.remote_origin_url
    &&& update.stash_entries@ == snapshot.stash_entries@.map_values(|e: StashEntry| wire_stash(e))
    &&& update.repository_dir_abs_path@ == snapshot.dirs.repository_dir@
    &&& update.common_dir_abs_path@ == snapshot.dirs.common_dir@
    &&& update.linked_worktrees@.len() == snapshot.linked_worktrees@.len()
    &&& forall|i: int|
        0 <= i < update.linked_worktrees@.len() ==> is_wire_worktree(
            #[trigger] update.linked_worktrees@[i],
            snapshot.linked_worktrees@[i],
        )
}

fn clone_opt(text: &Option<String>) -> (copy: Option<String>)
    ensures
        copy == *text,
{
    match text {
        Some(text) => Some(text.clone()),
        None => None,
    }
}

/// Copies a list of paths.
pub fn clone_paths(paths: &Vec<RelPath>) -> (copy: Vec<RelPath>)
    ensures
        views(copy@) == views(paths@),
{
    let mut copy: Vec<RelPath> = Vec::new();
    let mut i: usize = 0;
    while i < paths.len()
        invariant
            i <= paths@.len(),
            copy@.len() == i,
            forall|k: int| 0 <= k < i ==> (#[trigger] copy@[k])@ == paths@[k]@,
        decreases paths@.len() - i,
    {
        copy.push(paths[i].clone());
        i += 1;
    }
    assert(views(copy@) =~= views(paths@));
    copy
}

fn branches_to_proto(branches: &Vec<Branch>) -> (wire: Vec<ProtoBranch>)
    ensures
        wire@ == branches@.map_values(|b: Branch| wire_branch(b)),
{
    let mut wire: Vec<ProtoBranch> = Vec::new();
    let mut i: usize = 0;
    while i < branches.len()
        invariant
            i <= branches@.len(),
            wire@.len() == i,
            forall|k: int| 0 <= k < i ==> #[trigger] wire@[k] == wire_branch(branches@[k]),
        decreases branches@.len() - i,
    {
        wire.push(branch_to_proto(&branches[i]));
        i += 1;
    }
    assert(wire@ =~= branches@.map_values(|b: Branch| wire_branch(b)));
    wire
}

fn stashes_to_proto(entries: &Vec<StashEntry>) -> (wire: Vec<ProtoStashEntry>)
    ensures
        wire@ == entries@.map_values(|e: StashEntry| wire_stash(e)),
{
    let mut wire: Vec<ProtoStashEntry> = Vec::new();
    let mut i: usize = 0;
    while i < entries.len()
        invariant
            i <= entries@.len(),
            wire@.len() == i,
            forall|k: int| 0 <= k < i ==> #[trigger] wire@[k] == wire_stash(entries@[k]),
        decreases entries@.len() - i,
    {
        wire.push(stash_to_proto(&entries[i]));
        i += 1;
    }
    assert(wire@ =~= entries@.map_values(|e: StashEntry| wire_stash(e)));
    wire
}

fn worktrees_to_proto(worktrees: &Vec<GitWorktree>) -> (wire: Vec<ProtoWorktree>)
    ensures
        wire@.len() == worktrees@.len(),
        forall|i: int|
            0 <= i < wire@.len() ==> is_wire_worktree(#[trigger] wire@[i], worktrees@[i]),
{
    let mut wire: Vec<ProtoWorktree> = Vec::new();
    let mut i: usize = 0;
    while i < worktrees.len()
        invariant
            i <= worktrees@.len(),
            wire@.len() == i,
            forall|k: int| 0 <= k < i ==> is_wire_worktree(#[trigger] wire@[k], worktrees@[k]),
        decreases worktrees@.len() - i,
    {
        wire.push(worktree_to_proto(&worktrees[i]));
        i += 1;
    }
    wire
}

fn statuses_to_proto(entries: &Vec<StatusEntry>) -> (wire: Vec<ProtoStatusEntry>)
    ensures
        proto_views(wire@) == wire_entries(entry_views(entries@)),
{
    let mut wire: Vec<ProtoStatusEntry> = Vec::new();
    let mut i: usize = 0;
    while i < entries.len()
        invariant
            i <= entries@.len(),
            wire@.len() == i,
            forall|k: int| 0 <= k < i ==> (#[trigger] wire@[k])@ == wire_entry(entries@[k]@),
        decreases entries@.len() - i,
    {
        wire.push(entries[i].to_proto());
        i += 1;
    }
    assert(proto_views(wire@) =~= wire_entries(entry_views(entries@)));
    wire
}

impl RepositorySnapshot {
    /// The statuses are in order.
    pub open spec fn well_formed(&self) -> bool {
        by_path(entry_views(self.statuses_by_path@))
    }

    /// Nothing was read of the repository yet.
    pub open spec fn is_unread(&self) -> bool {
        &&& self.statuses_by_path@.len() == 0
        &&& self.branch is None
        &&& self.branch_list@.len() == 0
        &&& self.branch_list_error is None
        &&& self.head_commit is None
        &&& self.scan_id == 0
        &&& self.merge.conflicted_paths@.len() == 0
        &&& self.merge.message is None
        &&& self.remote_origin_url is None
        &&& self.remote_upstream_url is None
        &&& self.stash_entries@.len() == 0
        &&& self.linked_worktrees@.len() == 0
    }

    /// A snapshot of a repository that has not been scanned yet. Directories that
    /// are not given are those of an ordinary checkout.
    pub fn empty(
        id: RepositoryId,
        work_directory: RelPath,
        repository_dir: Option<RelPath>,
        dot_git: Option<RelPath>,
        common_dir: Option<RelPath>,
    ) -> (snapshot: Self)
        ensures
            snapshot.well_formed(),
            snapshot.id == id,
            snapshot.is_unread(),
            snapshot.dirs.work_directory@ == work_directory@,
            snapshot.dirs.repository_dir@ == (match repository_dir {
                Some(path) => path@,
                None => work_directory@.push(".git"@),
            }),
            snapshot.dirs.dot_git@ == (match dot_git {
                Some(path) => path@,
                None => work_directory@.push(".git"@),
            }),
            snapshot.dirs.common_dir@ == (match common_dir {
                Some(path) => path@,
                None => snapshot.dirs.repository_dir@,
            }),
    {
        let repository_dir = match repository_dir {
            Some(path) => path,
            None => work_directory.child(".git"),
        };
        let dot_git = match dot_git {
            Some(path) => path,
            None => work_directory.child(".git"),
        };
        let common_dir = match common_dir {
            Some(path) => path,
            None => repository_dir.clone(),
        };
        RepositorySnapshot {
            id,
            statuses_by_path: Vec::new(),
            dirs: RepositoryDirs { work_directory, dot_git, repository_dir, common_dir },
            branch: None,
            branch_list: Vec::new(),
            branch_list_error: None,
            head_commit: None,
            scan_id: 0,
            merge: MergeDetails { conflicted_paths: Vec::new(), message: None },
            remote_origin_url: None,
            remote_upstream_url: None,
            stash_entries: Vec::new(),
            linked_worktrees: Vec::new(),
        }
    }

    fn update_with(
        &self,
        project_id: u64,
        entry_ids: Vec<u64>,
        updated_statuses: Vec<ProtoStatusEntry>,
        removed_statuses: Vec<RepoPath>,
    ) -> (update: UpdateRepository)
        ensures
            describes(update, *self, project_id),
            update.entry_ids == entry_ids,
            update.updated_statuses == updated_statuses,
            update.removed_statuses == removed_statuses,
    {
        UpdateRepository {
            project_id,
            id: self.id.to_proto(),
            abs_path: self.dirs.work_directory.clone(),
            entry_ids,
            updated_statuses,
            removed_statuses,
            scan_id: self.scan_id,
            is_last_update: true,
            branch_summary: match &self.branch {
                Some(branch) => Some(branch_to_proto(branch)),
                None => None,
            },
            branch_list: branches_to_proto(&self.branch_list),
            branch_list_error: clone_opt(&self.branch_list_error),
            head_commit_details: match &self.head_commit {
                Some(commit) => Some(commit_details_to_proto(commit)),
                None => None,
            },
            current_merge_conflicts: clone_paths(&self.merge.conflicted_paths),
            merge_message: clone_opt(&self.merge.message),
            remote_upstream_url: clone_opt(&self.remote_upstream_url),
            remote_origin_url: clone_opt(&self.remote_origin_url),
            stash_entries: stashes_to_proto(&self.stash_entries),
            repository_dir_abs_path: self.dirs.repository_dir.clone(),
            common_dir_abs_path: self.dirs.common_dir.clone(),
            linked_worktrees: worktrees_to_proto(&self.linked_worktrees),
        }
    }

    /// The first message about a repository: it lists all statuses.
    pub fn initial_update(&self, project_id: u64) -> (update: UpdateRepository)
        ensures
            describes(update, *self, project_id),
            update.entry_ids@ == seq![self.id.0],
            proto_views(update.updated_statuses@) == wire_entries(
                entry_views(self.statuses_by_path@),
            ),
            update.removed_statuses@.len() == 0,
    {
        let mut entry_ids: Vec<u64> = Vec::new();
        entry_ids.push(self.id.to_proto());
        self.update_with(
            project_id,
            entry_ids,
            statuses_to_proto(&self.statuses_by_path),
            Vec::new(),
        )
    }

    /// A later message about a repository: it lists the statuses that changed.
    pub fn build_update(&self, old: &Self, project_id: u64) -> (update: UpdateRepository)
        requires
            self.well_formed(),
            old.well_formed(),
        ensures
            describes(update, *self, project_id),
            update.entry_ids@.len() == 0,
            exists|updated: Seq<StatusView>| #[trigger]
                wire_entries(updated) == proto_views(update.updated_statuses@) && is_delta(
                    entry_views(old.statuses_by_path@),
                    entry_views(self.statuses_by_path@),
                    updated,
                    views(update.removed_statuses@),
                ),
    {
        let (updated, removed) = status_delta(&old.statuses_by_path, &self.statuses_by_path);
        let update = self.update_with(
            project_id,
            Vec::new(),
            statuses_to_proto(&updated),
            removed,
        );
        assert(wire_entries(entry_views(updated@)) == proto_views(update.updated_statuses@));
        update
    }

    /// What is known about the status of a path.
    pub fn status_for_path(&self, path: &RepoPath) -> (entry: Option<StatusEntry>)
        requires
            self.well_formed(),
        ensures
            match entry {
                Some(entry) => status_at(entry_views(self.statuses_by_path@), path@) == Some(
                    entry@,
                ),
                None => !lists(entry_views(self.statuses_by_path@), path@),
            },
    {
        match find_entry(&self.statuses_by_path, path) {
            Some(i) => Some(self.statuses_by_path[i].clone()),
            None => None,
        }
    }

    /// How many lines of a path changed, if that is known.
    pub fn diff_stat_for_path(&self, path: &RepoPath) -> (stat: Option<DiffStat>)
        requires
            self.well_formed(),
        ensures
            stat == (match status_at(entry_views(self.statuses_by_path@), path@) {
                Some(entry) => entry.diff_stat,
                None => None,
            }),
    {
        match find_entry(&self.statuses_by_path, path) {
            Some(i) => self.statuses_by_path[i].diff_stat,
            None => None,
        }
    }

    /// Whether another repository lies inside this one.
    pub fn contains_sub_repo(&self, other: &Self) -> (result: bool)
        ensures
            result == has_prefix(other.dirs.work_directory@, self.dirs.work_directory@),
    {
        other.dirs.work_directory.starts_with(&self.dirs.work_directory)
    }

    /// The path inside the repository of an absolute path, if it lies inside.
    pub fn abs_path_to_repo_path(&self, abs_path: &RelPath) -> (path: Option<RepoPath>)
        ensures
            path is Some <==> has_prefix(abs_path@, self.dirs.work_directory@),
            path matches Some(path) ==> self.dirs.work_directory@ + path@ == abs_path@,
    {
        let path = abs_path.strip_prefix(&self.dirs.work_directory);
        proof {
            if path is Some {
                let n = self.dirs.work_directory@.len() as int;
                assert(abs_path@.take(n) + abs_path@.skip(n) =~= abs_path@);
            }
        }
        path
    }

    /// The absolute path of a path inside the repository.
    pub fn repo_path_to_abs_path(&self, repo_path: &RepoPath) -> (path: RelPath)
        ensures
            path@ == self.dirs.work_directory@ + repo_path@,
    {
        self.dirs.work_directory.join(repo_path)
    }

    /// Whether a path was in conflict when the merged heads last changed.
    pub fn had_conflict_on_last_merge_head_change(&self, repo_path: &RepoPath) -> (result: bool)
        ensures
            result == views(self.merge.conflicted_paths@).contains(repo_path@),
    {
        let ghost conflicted = views(self.merge.conflicted_paths@);
        let mut i: usize = 0;
        while i < self.merge.conflicted_paths.len()
            invariant
                i <= self.merge.conflicted_paths@.len(),
                conflicted == views(self.merge.conflicted_paths@),
                forall|k: int| 0 <= k < i ==> #[trigger] conflicted[k] != repo_path@,
            decreases self.merge.conflicted_paths@.len() - i,
        {
            assert(conflicted[i as int] == self.merge.conflicted_paths@[i as int]@);
            if self.merge.conflicted_paths[i].same_as(repo_path) {
                return true;
            }
            i += 1;
        }
        false
    }

    /// Whether a path is in conflict or was when the merged heads last changed.
    pub fn has_conflict(&self, repo_path: &RepoPath) -> (result: bool)
        requires
            self.well_formed(),
        ensures
            result == (views(self.merge.conflicted_paths@).contains(repo_path@) || (status_at(
                entry_views(self.statuses_by_path@),
                repo_path@,
            ) matches Some(entry) && entry.status is Unmerged)),
    {
        if self.had_conflict_on_last_merge_head_change(repo_path) {
            return true;
        }
        match find_entry(&self.statuses_by_path, repo_path) {
            Some(i) => self.statuses_by_path[i].status.is_conflicted(),
            None => false,
        }
    }

    /// The name of the repository in lists: the last component of its work directory.
    pub fn display_name(&self) -> (name: String)
        ensures
            name@ == (if has_file_name(self.dirs.work_directory@) {
                self.dirs.work_directory@.last()
            } else {
                Seq::<char>::empty()
            }),
    {
        match self.dirs.work_directory.file_name() {
            Some(name) => name,
            None => String::new(),
        }
    }

    /// Whether this is the original checkout or a submodule.
    pub fn is_main_worktree(&self) -> (result: bool)
        ensures
            result == (self.dirs.repository_dir@ == self.dirs.common_dir@),
    {
        self.dirs.is_main_worktree()
    }

    /// Whether this worktree was created from another one.
    pub fn is_linked_worktree(&self) -> (result: bool)
        ensures
            result == (self.dirs.repository_dir@ != self.dirs.common_dir@),
    {
        self.dirs.is_linked_worktree()
    }

    /// The path of the main worktree, if there is one.
    pub fn main_worktree_abs_path(&self) -> (path: Option<RelPath>)
        ensures
            opt_view(path) == main_worktree(self.dirs@),
    {
        self.dirs.main_worktree_abs_path()
    }

    /// The worktrees that were created from this repository.
    pub fn linked_worktrees(&self) -> (worktrees: &Vec<GitWorktree>)
        ensures
            *worktrees == self.linked_worktrees,
    {
        &self.linked_worktrees
    }

    /// The remote that stands for the repository: the upstream, or else the origin.
    pub fn default_remote_url(&self) -> (url: Option<String>)
        ensures
            url == (if self.remote_upstream_url is Some {
                self.remote_upstream_url
            } else {
                self.remote_origin_url
            }),
    {
        match &self.remote_upstream_url {
            Some(url) => Some(url.clone()),
            None => clone_opt(&self.remote_origin_url),
        }
    }
}

/// A message about what changed carries whom a project is shared with from the old
/// statuses to the new ones: for each path, what the message updates counts, what it
/// removes is gone, and the rest stays.
pub proof fn build_update_restores(
    old: RepositorySnapshot,
    new: RepositorySnapshot,
    updated: Seq<StatusView>,
    removed: Seq<Seq<Seq<char>>>,
    path: Seq<Seq<char>>,
)
    requires
        old.well_formed(),
        new.well_formed(),
        is_delta(
            entry_views(old.statuses_by_path@),
            entry_views(new.statuses_by_path@),
            updated,
            removed,
        ),
    ensures
        status_at(entry_views(new.statuses_by_path@), path) == (if lists(updated, path) {
            status_at(updated, path)
        } else if removed.contains(path) {
            None
        } else {
            status_at(entry_views(old.statuses_by_path@), path)
        }),
{
    delta_restores(
        entry_views(old.statuses_by_path@),
        entry_views(new.statuses_by_path@),
        updated,
        removed,
        path,
    );
}

/// The position of the entry for a path.
pub fn find_entry(entries: &Vec<StatusEntry>, path: &RepoPath) -> (found: Option<usize>)
    requires
        by_path(entry_views(entries@)),
    ensures
        match found {
            Some(i) => i < entries@.len() && status_at(entry_views(entries@), path@) == Some(
                entries@[i as int]@,
            ) && entries@[i as int]@.repo_path == path@,
            None => !lists(entry_views(entries@), path@),
        },
{
    let ghost all = entry_views(entries@);
    let mut i: usize = 0;
    while i < entries.len()
        invariant
            i <= entries@.len(),
            all == entry_views(entries@),
            by_path(all),
            forall|k: int| 0 <= k < i ==> (#[trigger] all[k]).repo_path != path@,
        decreases entries@.len() - i,
    {
        assert(all[i as int] == entries@[i as int]@);
        if entries[i].repo_path.same_as(path) {
            proof {
                lemma_position(all, i as int);
            }
            return Some(i);
        }
        i += 1;
    }
    None
}

/// What is known about a path is what the entry with that path says, and nothing is known about
/// a path without an entry.
pub proof fn entries_speak_of_their_paths(
    snapshot: RepositorySnapshot,
    path: RepoPath,
    entry: Option<StatusEntry>,
    stat: Option<DiffStat>,
    i: int,
)
    requires
        call_ensures(RepositorySnapshot::status_for_path, (&snapshot, &path), entry),
        call_ensures(RepositorySnapshot::diff_stat_for_path, (&snapshot, &path), stat),
        snapshot.well_formed(),
        0 <= i < snapshot.statuses_by_path@.len(),
    ensures
        snapshot.statuses_by_path@[i].repo_path@ == path@ ==> {
            &&& entry matches Some(entry) && entry.repo_path@ == path@ && entry.status
                == snapshot.statuses_by_path@[i].status && entry.diff_stat
                == snapshot.statuses_by_path@[i].diff_stat
            &&& stat == snapshot.statuses_by_path@[i].diff_stat
        },
        entry matches Some(entry) ==> entry.repo_path@ == path@ && exists|j: int|
            0 <= j < snapshot.statuses_by_path@.len() && (#[trigger] snapshot.statuses_by_path@[j])@
                == entry@,
        entry is None ==> stat is None,
{
    let entries = entry_views(snapshot.statuses_by_path@);
    assert(entries[i] == snapshot.statuses_by_path@[i]@);
    assert(entries.contains(entries[i]));
    lemma_contains(entries, entries[i]);
    if let Some(found) = entry {
        assert(lists(entries, path@));
        let j = position(entries, path@);
        assert(entries[j] == snapshot.statuses_by_path@[j]@);
    }
}

/// A snapshot of an ordinary checkout has its git directory in its work directory. Directories
/// that are given are kept as they are.
pub proof fn snapshots_begin_in_their_directories(
    id: RepositoryId,
    work_directory: RelPath,
    repository_dir: RelPath,
    dot_git: RelPath,
    common_dir: RelPath,
    ordinary: RepositorySnapshot,
    given: RepositorySnapshot,
)
    requires
        call_ensures(
            RepositorySnapshot::empty,
            (id, work_directory, None::<RelPath>, None::<RelPath>, None::<RelPath>),
            ordinary,
        ),
        call_ensures(
            RepositorySnapshot::empty,
            (id, work_directory, Some(repository_dir), Some(dot_git), Some(common_dir)),
            given,
        ),
    ensures
        ordinary.id == id,
        ordinary.dirs.work_directory@ == work_directory@,
        ordinary.dirs.repository_dir@ == work_directory@.push(seq!['.', 'g', 'i', 't']),
        ordinary.dirs.dot_git@ == work_directory@.push(seq!['.', 'g', 'i', 't']),
        ordinary.dirs.common_dir@ == work_directory@.push(seq!['.', 'g', 'i', 't']),
        ordinary.statuses_by_path@.len() == 0,
        ordinary.branch is None,
        ordinary.head_commit is None,
        ordinary.scan_id == 0,
        ordinary.merge.conflicted_paths@.len() == 0,
        ordinary.stash_entries@.len() == 0,
        ordinary.linked_worktrees@.len() == 0,
        given.id == id,
        given.dirs.work_directory@ == work_directory@,
        given.dirs.repository_dir@ == repository_dir@,
        given.dirs.dot_git@ == dot_git@,
        given.dirs.common_dir@ == common_dir@,
        given.scan_id == 0,
{
    reveal_strlit(".git");
    assert(".git"@ =~= seq!['.', 'g', 'i', 't']);
}

/// The messages about a repository say the same about all but its statuses: each field stands for
/// the one of the snapshot with that meaning. The first message names the repository as new.
pub proof fn messages_describe_the_repository(
    snapshot: RepositorySnapshot,
    earlier: RepositorySnapshot,
    project_id: u64,
    first: UpdateRepository,
    later: UpdateRepository,
)
    requires
        call_ensures(RepositorySnapshot::initial_update, (&snapshot, project_id), first),
        call_ensures(RepositorySnapshot::build_update, (&snapshot, &earlier, project_id), later),
    ensures
        first.entry_ids@ == seq![snapshot.id.0],
        later.entry_ids@.len() == 0,
        first.project_id == project_id,
        later.project_id == project_id,
        first.id == snapshot.id.0,
        later.id == snapshot.id.0,
        first.abs_path@ == snapshot.dirs.work_directory@,
        later.abs_path@ == snapshot.dirs.work_directory@,
        first.repository_dir_abs_path@ == snapshot.dirs.repository_dir@,
        later.repository_dir_abs_path@ == snapshot.dirs.repository_dir@,
        first.common_dir_abs_path@ == snapshot.dirs.common_dir@,
        later.common_dir_abs_path@ == snapshot.dirs.common_dir@,
        first.scan_id == snapshot.scan_id,
        later.scan_id == snapshot.scan_id,
        first.is_last_update,
        later.is_last_update,
        first.branch_summary is Some <==> snapshot.branch is Some,
        later.branch_summary is Some <==> snapshot.branch is Some,
        first.branch_list@.len() == snapshot.branch_list@.len(),
        later.branch_list@.len() == snapshot.branch_list@.len(),
        first.branch_list_error == snapshot.branch_list_error,
        later.branch_list_error == snapshot.branch_list_error,
        first.head_commit_details == snapshot.head_commit,
        later.head_commit_details == snapshot.head_commit,
        first.merge_message == snapshot.merge.message,
        later.merge_message == snapshot.merge.message,
        first.remote_upstream_url == snapshot.remote_upstream_url,
        later.remote_upstream_url == snapshot.remote_upstream_url,
        first.remote_origin_url == snapshot.remote_origin_url,
        later.remote_origin_url == snapshot.remote_origin_url,
        first.stash_entries@.len() == snapshot.stash_entries@.len(),
        later.stash_entries@.len() == snapshot.stash_entries@.len(),
        first.linked_worktrees@.len() == snapshot.linked_worktrees@.len(),
        later.linked_worktrees@.len() == snapshot.linked_worktrees@.len(),
        first.current_merge_conflicts@.len() == snapshot.merge.conflicted_paths@.len(),
        later.current_merge_conflicts@.len() == snapshot.merge.conflicted_paths@.len(),
        first.updated_statuses@.len() == snapshot.statuses_by_path@.len(),
        first.removed_statuses@.len() == 0,
{
    assert(views(first.current_merge_conflicts@).len() == first.current_merge_conflicts@.len());
    assert(views(later.current_merge_conflicts@).len() == later.current_merge_conflicts@.len());
    assert(views(snapshot.merge.conflicted_paths@).len()
        == snapshot.merge.conflicted_paths@.len());
    assert(proto_views(first.updated_statuses@).len() == first.updated_statuses@.len());
    assert(wire_entries(entry_views(snapshot.statuses_by_path@)).len()
        == snapshot.statuses_by_path@.len());
}

/// A later message names a status that was not there before or was another one, and no status
/// that stayed; it names as removed the paths whose statuses are gone, and no others.
pub proof fn messages_name_what_changed(
    snapshot: RepositorySnapshot,
    earlier: RepositorySnapshot,
    project_id: u64,
    update: UpdateRepository,
    i: int,
    k: int,
)
    requires
        call_ensures(RepositorySnapshot::build_update, (&snapshot, &earlier, project_id), update),
        snapshot.well_formed(),
        earlier.well_formed(),
    ensures
        0 <= i < snapshot.statuses_by_path@.len() && (forall|j: int|
            0 <= j < earlier.statuses_by_path@.len() ==> (#[trigger] earlier.statuses_by_path@[j])@
                != snapshot.statuses_by_path@[i]@) ==> exists|at: int|
            0 <= at < update.updated_statuses@.len() && (#[trigger] update.updated_statuses@[at])@
                == wire_entry(snapshot.statuses_by_path@[i]@),
        0 <= k < update.removed_statuses@.len() ==> (exists|j: int|
            0 <= j < earlier.statuses_by_path@.len() && (
            #[trigger] earlier.statuses_by_path@[j]).repo_path@ == update.removed_statuses@[k]@) && (
        forall|j: int|
            0 <= j < snapshot.statuses_by_path@.len() ==> (
            #[trigger] snapshot.statuses_by_path@[j]).repo_path@ != update.removed_statuses@[k]@),
        0 <= k < update.updated_statuses@.len() ==> exists|at: int|
            0 <= at < snapshot.statuses_by_path@.len() && update.updated_statuses@[k]@ == wire_entry(
                (#[trigger] snapshot.statuses_by_path@[at])@,
            ) && forall|j: int|
                0 <= j < earlier.statuses_by_path@.len() ==> (
                #[trigger] earlier.statuses_by_path@[j])@ != snapshot.statuses_by_path@[at]@,
{
    let old_entries = entry_views(earlier.statuses_by_path@);
    let new_entries = entry_views(snapshot.statuses_by_path@);
    let updated = choose|updated: Seq<StatusView>| #[trigger]
        wire_entries(updated) == proto_views(update.updated_statuses@) && is_delta(
            old_entries,
            new_entries,
            updated,
            views(update.removed_statuses@),
        );
    let removed = views(update.removed_statuses@);
    assert(wire_entries(updated).len() == updated.len());
    assert(proto_views(update.updated_statuses@).len() == update.updated_statuses@.len());
    if 0 <= i < snapshot.statuses_by_path@.len() {
        let entry = snapshot.statuses_by_path@[i]@;
        assert(new_entries[i] == entry);
        assert(new_entries.contains(entry));
        if forall|j: int|
            0 <= j < earlier.statuses_by_path@.len() ==> (#[trigger] earlier.statuses_by_path@[j])@
                != entry {
            assert(!old_entries.contains(entry)) by {
                if old_entries.contains(entry) {
                    let j = choose|j: int| 0 <= j < old_entries.len() && old_entries[j] == entry;
                    assert(earlier.statuses_by_path@[j]@ == entry);
                }
            }
            assert(updated.contains(entry));
            let at = choose|at: int| 0 <= at < updated.len() && updated[at] == entry;
            assert(wire_entries(updated)[at] == wire_entry(entry));
            assert(proto_views(update.updated_statuses@)[at] == update.updated_statuses@[at]@);
        }
    }
    if 0 <= k < update.removed_statuses@.len() {
        let path = update.removed_statuses@[k]@;
        assert(removed[k] == path);
        assert(removed.contains(path));
        assert(lists(old_entries, path) && !lists(new_entries, path));
        let j = position(old_entries, path);
        assert(earlier.statuses_by_path@[j].repo_path@ == path);
        assert forall|j: int| 0 <= j < snapshot.statuses_by_path@.len() implies (
        #[trigger] snapshot.statuses_by_path@[j]).repo_path@ != path by {
            assert(new_entries[j] == snapshot.statuses_by_path@[j]@);
        }
    }
    if 0 <= k < update.updated_statuses@.len() {
        assert(wire_entries(updated)[k] == wire_entry(updated[k]));
        assert(proto_views(update.updated_statuses@)[k] == update.updated_statuses@[k]@);
        assert(updated.contains(updated[k]));
        let at = choose|at: int| 0 <= at < new_entries.len() && new_entries[at] == updated[k];
        assert(new_entries[at] == snapshot.statuses_by_path@[at]@);
        assert forall|j: int| 0 <= j < earlier.statuses_by_path@.len() implies (
        #[trigger] earlier.statuses_by_path@[j])@ != snapshot.statuses_by_path@[at]@ by {
            assert(old_entries[j] == earlier.statuses_by_path@[j]@);
        }
    }
}

/// The path inside a repository of an absolute path is what follows the work directory, and leads
/// back to the absolute path. A path that does not begin with the work directory has none.
pub proof fn paths_lead_into_repositories_and_back(
    snapshot: RepositorySnapshot,
    repo_path: RepoPath,
    abs_path: RelPath,
    back: Option<RepoPath>,
    other: RelPath,
    inside: Option<RepoPath>,
)
    requires
        call_ensures(RepositorySnapshot::repo_path_to_abs_path, (&snapshot, &repo_path), abs_path),
        call_ensures(RepositorySnapshot::abs_path_to_repo_path, (&snapshot, &abs_path), back),
        call_ensures(RepositorySnapshot::abs_path_to_repo_path, (&snapshot, &other), inside),
    ensures
        abs_path@ == snapshot.dirs.work_directory@ + repo_path@,
        back matches Some(path) && path@ == repo_path@,
        inside matches Some(path) ==> snapshot.dirs.work_directory@ + path@ == other@,
        inside is None ==> other@.len() < snapshot.dirs.work_directory@.len() || other@.take(
            snapshot.dirs.work_directory@.len() as int,
        ) != snapshot.dirs.work_directory@,
{
    let base = snapshot.dirs.work_directory@;
    assert(abs_path@.take(base.len() as int) =~= base);
    if let Some(path) = back {
        assert(path@ =~= abs_path@.skip(base.len() as int));
        assert(repo_path@ =~= abs_path@.skip(base.len() as int));
        assert((base + path@).skip(base.len() as int) =~= path@);
    }
}

/// A path is in conflict if git could not merge it, or if it was in conflict when the merged heads
/// last changed.
pub proof fn conflicts_are_known(
    snapshot: RepositorySnapshot,
    path: RepoPath,
    had: bool,
    has: bool,
    i: int,
)
    requires
        call_ensures(
            RepositorySnapshot::had_conflict_on_last_merge_head_change,
            (&snapshot, &path),
            had,
        ),
        call_ensures(RepositorySnapshot::has_conflict, (&snapshot, &path), has),
        snapshot.well_formed(),
    ensures
        0 <= i < snapshot.merge.conflicted_paths@.len() && snapshot.merge.conflicted_paths@[i]@
            == path@ ==> had,
        had ==> exists|j: int|
            0 <= j < snapshot.merge.conflicted_paths@.len() && (
            #[trigger] snapshot.merge.conflicted_paths@[j])@ == path@,
        had ==> has,
        0 <= i < snapshot.statuses_by_path@.len() && snapshot.statuses_by_path@[i].repo_path@
            == path@ ==> (has <==> had || snapshot.statuses_by_path@[i].status is Unmerged),
{
    let conflicted = views(snapshot.merge.conflicted_paths@);
    if 0 <= i < snapshot.merge.conflicted_paths@.len() {
        assert(conflicted[i] == snapshot.merge.conflicted_paths@[i]@);
    }
    if had {
        let j = choose|j: int| 0 <= j < conflicted.len() && conflicted[j] == path@;
        assert(conflicted[j] == snapshot.merge.conflicted_paths@[j]@);
    }
    let entries = entry_views(snapshot.statuses_by_path@);
    if 0 <= i < snapshot.statuses_by_path@.len() {
        assert(entries[i] == snapshot.statuses_by_path@[i]@);
        assert(entries.contains(entries[i]));
        lemma_contains(entries, entries[i]);
    }
}

/// A repository lies inside another just if its work directory begins with that of the other. It
/// is called by the last component of its work directory. It is a main worktree just if its git
/// directory is the common one, else a linked one. Its default remote is the upstream, or the
/// origin where there is no upstream.
pub proof fn repositories_are_told_apart(
    snapshot: RepositorySnapshot,
    other: RepositorySnapshot,
    contains: bool,
    name: String,
    main: bool,
    linked: bool,
    url: Option<String>,
)
    requires
        call_ensures(RepositorySnapshot::contains_sub_repo, (&snapshot, &other), contains),
        call_ensures(RepositorySnapshot::display_name, (&snapshot,), name),
        call_ensures(RepositorySnapshot::is_main_worktree, (&snapshot,), main),
        call_ensures(RepositorySnapshot::is_linked_worktree, (&snapshot,), linked),
        call_ensures(RepositorySnapshot::default_remote_url, (&snapshot,), url),
    ensures
        ({
            let outer = snapshot.dirs.work_directory@;
            let inner = other.dirs.work_directory@;
            contains <==> inner.len() >= outer.len() && inner.take(outer.len() as int) == outer
        }),
        snapshot.dirs.work_directory@.len() > 0 && snapshot.dirs.work_directory@.last() != seq![
            '.',
            '.',
        ] ==> name@ == snapshot.dirs.work_directory@.last(),
        snapshot.dirs.work_directory@.len() == 0 ==> name@.len() == 0,
        main <==> snapshot.dirs.repository_dir@ == snapshot.dirs.common_dir@,
        linked <==> !main,
        snapshot.remote_upstream_url is Some ==> url == snapshot.remote_upstream_url,
        snapshot.remote_upstream_url is None ==> url == snapshot.remote_origin_url,
{
    reveal_strlit("..");
    assert(".."@ =~= seq!['.', '.']);
}

} // verus!
