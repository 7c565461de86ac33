//! Bringing the statuses of a snapshot up to date with what git reports about the
//! paths that changed.
use vstd::prelude::*;

use crate::git_store::changed_paths::views;
use crate::git_store::snapshot::{
    by_path, entry_views, find_entry, lemma_contains, lists, position, same_status, status_at,
    RepositorySnapshot,
};
use crate::git_store::status::{DiffStat, FileStatus, StatusEntry, StatusView};
use crate::rel_path::{path_lt, path_lt_total, path_lt_transitive, RepoPath};
use crate::text::Order;

verus! {

/// The status that git reports for a path.
#[derive(Debug)]
pub struct ReportedStatus {
    pub path: RepoPath,
    pub status: FileStatus,
}

/// The line counts that git reports for a path.
#[derive(Debug)]
pub struct ReportedDiffStat {
    pub path: RepoPath,
    pub stat: DiffStat,
}

/// The reported statuses stand in ascending order of their paths, one per path.
pub open spec fn reported_in_order(reported: Seq<ReportedStatus>) -> bool {
    forall|i: int, j: int|
        0 <= i < j < reported.len() ==> path_lt(
            (#[trigger] reported[i]).path@,
            (#[trigger] reported[j]).path@,
        )
}

/// A status was reported for the path.
pub open spec fn is_reported(reported: Seq<ReportedStatus>, path: Seq<Seq<char>>) -> bool {
    exists|i: int| 0 <= i < reported.len() && (#[trigger] reported[i]).path@ == path
}

/// The status that was reported for the path.
pub open spec fn reported_status(
    reported: Seq<ReportedStatus>,
    path: Seq<Seq<char>>,
) -> FileStatus {
    reported[choose|i: int|
        0 <= i < reported.len() && (#[trigger] reported[i]).path@ == path].status
}

/// The last line counts that were reported for the path.
pub open spec fn reported_stat(
    stats: Seq<ReportedDiffStat>,
    path: Seq<Seq<char>>,
) -> Option<DiffStat>
    decreases stats.len(),
{
    if stats.len() == 0 {
        None
    } else if stats.last().path@ == path {
        Some(stats.last().stat)
    } else {
        reported_stat(stats.drop_last(), path)
    }
}

/// What a scan leaves known about a path: what git reported, nothing if the path
/// changed and git reported nothing, or else what was known before.
pub open spec fn scanned_status(
    before: Seq<StatusView>,
    changed: Seq<Seq<Seq<char>>>,
    reported: Seq<ReportedStatus>,
    stats: Seq<ReportedDiffStat>,
    path: Seq<Seq<char>>,
) -> Option<StatusView> {
    if is_reported(reported, path) {
        Some(
            StatusView {
                repo_path: path,
                status: reported_status(reported, path),
                diff_stat: reported_stat(stats, path),
            },
        )
    } else if changed.contains(path) {
        None
    } else {
        status_at(before, path)
    }
}

/// Changing what a sorted list holds for one path changes what it says of that path only.
proof fn lemma_one_path(
    old: Seq<StatusView>,
    new: Seq<StatusView>,
    path: Seq<Seq<char>>,
    entry: Option<StatusView>,
)
    requires
        by_path(old),
        by_path(new),
        entry matches Some(e) ==> e.repo_path == path,
        forall|e: StatusView| #[trigger]
            new.contains(e) <==> Some(e) == entry || (old.contains(e) && e.repo_path != path),
    ensures
        forall|p: Seq<Seq<char>>| #[trigger]
            status_at(new, p) == (if p == path {
                entry
            } else {
                status_at(old, p)
            }),
{
    assert forall|p: Seq<Seq<char>>| #[trigger] status_at(new, p) == (if p == path {
        entry
    } else {
        status_at(old, p)
    }) by {
        if let Some(e) = status_at(new, p) {
            assert(lists(new, p));
            assert(new.contains(new[position(new, p)]));
            assert(new.contains(e) && e.repo_path == p);
            if p != path {
                assert(old.contains(e));
                lemma_contains(old, e);
            } else if Some(e) != entry {
                assert(old.contains(e) && e.repo_path != path);
            }
        } else if p == path {
            if let Some(e) = entry {
                assert(new.contains(e));
                lemma_contains(new, e);
            }
        } else if let Some(e) = status_at(old, p) {
            assert(old.contains(old[position(old, p)]));
            assert(old.contains(e) && e.repo_path == p);
            assert(new.contains(e));
            lemma_contains(new, e);
        }
    }
}

/// Sets what is known about a path.
fn put_status(entries: &mut Vec<StatusEntry>, entry: StatusEntry)
    requires
        by_path(entry_views(old(entries)@)),
    ensures
        by_path(entry_views(final(entries)@)),
        forall|p: Seq<Seq<char>>| #[trigger]
            status_at(entry_views(final(entries)@), p) == (if p == entry@.repo_path {
                Some(entry@)
            } else {
                status_at(entry_views(old(entries)@), p)
            }),
{
    let ghost before = entry_views(entries@);
    let ghost path = entry@.repo_path;
    let mut at: usize = 0;
    while at < entries.len() && entries[at].repo_path.compare(&entry.repo_path) == Order::Less
        invariant
            at <= entries@.len(),
            before == entry_views(entries@),
            path == entry@.repo_path,
            entries@ == old(entries)@,
            forall|k: int| 0 <= k < at ==> path_lt((#[trigger] before[k]).repo_path, path),
        decreases entries@.len() - at,
    {
        assert(before[at as int] == entries@[at as int]@);
        at += 1;
    }
    proof {
        assert forall|k: int| at < k < before.len() implies path_lt(
            path,
            (#[trigger] before[k]).repo_path,
        ) by {
            let x = before[at as int].repo_path;
            assert(x == entries@[at as int]@.repo_path);
            path_lt_total(x, path);
            assert(path_lt(x, before[k].repo_path));
            if x != path {
                path_lt_transitive(path, x, before[k].repo_path);
            }
        }
    }
    if at < entries.len() && entries[at].repo_path.same_as(&entry.repo_path) {
        let ghost e = entry@;
        entries.set(at, entry);
        proof {
            let after = entry_views(entries@);
            assert(before[at as int].repo_path == path);
            assert(after =~= before.update(at as int, e));
            assert(by_path(after));
            assert forall|x: StatusView| #[trigger]
                after.contains(x) <==> Some(x) == Some(e) || (before.contains(x) && x.repo_path
                    != path) by {
                if after.contains(x) {
                    let k = choose|k: int| 0 <= k < after.len() && after[k] == x;
                    if k != at {
                        assert(before[k] == x);
                        if k < at {
                            path_lt_total(before[k].repo_path, path);
                        } else {
                            path_lt_total(path, before[k].repo_path);
                        }
                    }
                }
                if before.contains(x) && x.repo_path != path {
                    let k = choose|k: int| 0 <= k < before.len() && before[k] == x;
                    assert(after[k] == x);
                }
                assert(after[at as int] == e);
            }
            lemma_one_path(before, after, path, Some(e));
        }
    } else {
        let ghost e = entry@;
        proof {
            if at < before.len() {
                let x = before[at as int].repo_path;
                assert(x == entries@[at as int]@.repo_path);
                path_lt_total(x, path);
                assert(path_lt(path, x));
            }
        }
        entries.insert(at, entry);
        proof {
            let after = entry_views(entries@);
            assert(after =~= before.insert(at as int, e));
            assert forall|i: int, j: int| 0 <= i < j < after.len() implies path_lt(
                (#[trigger] after[i]).repo_path,
                (#[trigger] after[j]).repo_path,
            ) by {
                let a = if i < at { i } else { i - 1 };
                let b = if j < at { j } else { j - 1 };
                if i != at && j != at {
                    assert(after[i] == before[a] && after[j] == before[b]);
                } else if i == at {
                    assert(after[j] == before[b]);
                } else {
                    assert(after[i] == before[a]);
                }
            }
            assert forall|x: StatusView| #[trigger]
                after.contains(x) <==> Some(x) == Some(e) || (before.contains(x) && x.repo_path
                    != path) by {
                if after.contains(x) {
                    let k = choose|k: int| 0 <= k < after.len() && after[k] == x;
                    if k != at {
                        let b = if k < at { k } else { k - 1 };
                        assert(before[b] == x);
                        path_lt_total(before[b].repo_path, path);
                    }
                }
                if before.contains(x) && x.repo_path != path {
                    let k = choose|k: int| 0 <= k < before.len() && before[k] == x;
                    let b = if k < at { k } else { k + 1 };
                    assert(after[b] == x);
                }
                assert(after[at as int] == e);
            }
            lemma_one_path(before, after, path, Some(e));
        }
    }
}

/// Forgets what is known about a path.
fn remove_status(entries: &mut Vec<StatusEntry>, path: &RepoPath)
    requires
        by_path(entry_views(old(entries)@)),
    ensures
        by_path(entry_views(final(entries)@)),
        forall|p: Seq<Seq<char>>| #[trigger]
            status_at(entry_views(final(entries)@), p) == (if p == path@ {
                None
            } else {
                status_at(entry_views(old(entries)@), p)
            }),
{
    let ghost before = entry_views(entries@);
    if let Some(at) = find_entry(entries, path) {
        entries.remove(at);
        proof {
            let after = entry_views(entries@);
            assert(after =~= before.remove(at as int));
            assert forall|i: int, j: int| 0 <= i < j < after.len() implies path_lt(
                (#[trigger] after[i]).repo_path,
                (#[trigger] after[j]).repo_path,
            ) by {
                let a = if i < at { i } else { i + 1 };
                let b = if j < at { j } else { j + 1 };
                assert(after[i] == before[a] && after[j] == before[b]);
            }
            assert forall|x: StatusView| #[trigger]
                after.contains(x) <==> Some(x) == None::<StatusView> || (before.contains(x)
                    && x.repo_path != path@) by {
                if after.contains(x) {
                    let k = choose|k: int| 0 <= k < after.len() && after[k] == x;
                    let b = if k < at { k } else { k + 1 };
                    assert(before[b] == x);
                    if b < at {
                        path_lt_total(before[b].repo_path, before[at as int].repo_path);
                    } else {
                        path_lt_total(before[at as int].repo_path, before[b].repo_path);
                    }
                }
                if before.contains(x) && x.repo_path != path@ {
                    let k = choose|k: int| 0 <= k < before.len() && before[k] == x;
                    let b = if k < at { k } else { k - 1 };
                    assert(k != at);
                    assert(after[b] == x);
                }
            }
            lemma_one_path(before, after, path@, None);
        }
    }
}

fn find_stat(stats: &Vec<ReportedDiffStat>, path: &RepoPath) -> (stat: Option<DiffStat>)
    ensures
        stat == reported_stat(stats@, path@),
{
    let mut i: usize = stats.len();
    assert(stats@.take(i as int) =~= stats@);
    while i > 0
        invariant
            i <= stats@.len(),
            reported_stat(stats@.take(i as int), path@) == reported_stat(stats@, path@),
        decreases i,
    {
        i -= 1;
        assert(stats@.take(i + 1).last() == stats@[i as int]);
        assert(stats@.take(i + 1).drop_last() =~= stats@.take(i as int));
        if stats[i].path.same_as(path) {
            return Some(stats[i].stat);
        }
    }
    None
}

fn has_report(reported: &Vec<ReportedStatus>, path: &RepoPath) -> (result: bool)
    ensures
        result == is_reported(reported@, path@),
{
    let mut i: usize = 0;
    while i < reported.len()
        invariant
            i <= reported@.len(),
            forall|k: int| 0 <= k < i ==> (#[trigger] reported@[k]).path@ != path@,
        decreases reported@.len() - i,
    {
        if reported[i].path.same_as(path) {
            return true;
        }
        i += 1;
    }
    false
}

proof fn lemma_reported(reported: Seq<ReportedStatus>, i: int)
    requires
        reported_in_order(reported),
        0 <= i < reported.len(),
    ensures
        is_reported(reported, reported[i].path@),
        reported_status(reported, reported[i].path@) == reported[i].status,
{
    let path = reported[i].path@;
    assert(is_reported(reported, path));
    let j = choose|j: int| 0 <= j < reported.len() && (#[trigger] reported[j]).path@ == path;
    if j < i {
        path_lt_total(reported[j].path@, reported[i].path@);
    }
    if i < j {
        path_lt_total(reported[i].path@, reported[j].path@);
    }
}

/// The statuses are those that git reports about the paths that changed. Where one is another
/// one than before, the snapshot counts one scan more.
pub open spec fn is_scanned(
    before: RepositorySnapshot,
    changed_paths: Seq<Seq<Seq<char>>>,
    reported: Seq<ReportedStatus>,
    diff_stats: Seq<ReportedDiffStat>,
    after: RepositorySnapshot,
    statuses_changed: bool,
) -> bool {
    &&& forall|p: Seq<Seq<char>>| #[trigger]
        status_at(entry_views(after.statuses_by_path@), p) == scanned_status(
            entry_views(before.statuses_by_path@),
            changed_paths,
            reported,
            diff_stats,
            p,
        )
    &&& statuses_changed <==> exists|p: Seq<Seq<char>>| #[trigger]
        status_at(entry_views(after.statuses_by_path@), p) != status_at(
            entry_views(before.statuses_by_path@),
            p,
        )
    &&& after == (RepositorySnapshot {
        statuses_by_path: after.statuses_by_path,
        scan_id: if statuses_changed {
            (before.scan_id + 1) as u64
        } else {
            before.scan_id
        },
        ..before
    })
}

impl RepositorySnapshot {
    /// Takes over what git reports about the paths that changed, and says whether any
    /// status is different now. Each time one is, the snapshot counts one scan more.
    #[verifier::rlimit(30)]
    pub fn apply_status_scan(
        &mut self,
        changed_paths: &Vec<RepoPath>,
        reported: &Vec<ReportedStatus>,
        diff_stats: &Vec<ReportedDiffStat>,
    ) -> (statuses_changed: bool)
        requires
            old(self).well_formed(),
            reported_in_order(reported@),
            old(self).scan_id < u64::MAX,
        ensures
            final(self).well_formed(),
            is_scanned(
                *old(self),
                views(changed_paths@),
                reported@,
                diff_stats@,
                *final(self),
                statuses_changed,
            ),
    {
        let ghost before = entry_views(self.statuses_by_path@);
        let ghost changed = views(changed_paths@);
        let mut inserts: Vec<StatusEntry> = Vec::new();
        let mut i: usize = 0;
        while i < reported.len()
            invariant
                i <= reported@.len(),
                *self == *old(self),
                self.well_formed(),
                before == entry_views(self.statuses_by_path@),
                reported_in_order(reported@),
                forall|k: int|
                    0 <= k < inserts@.len() ==> is_insert(
                        before,
                        reported@,
                        diff_stats@,
                        (#[trigger] inserts@[k])@,
                    ),
                forall|k: int|
                    0 <= k < i ==> status_at(before, (#[trigger] reported@[k]).path@)
                        == new_status(reported@, diff_stats@, reported@[k].path@) || entry_listed(
                        inserts@,
                        reported@[k].path@,
                    ),
            decreases reported@.len() - i,
        {
            let ghost inserts_before = inserts@;
            let stat = find_stat(diff_stats, &reported[i].path);
            proof {
                lemma_reported(reported@, i as int);
            }
            let known: bool = match find_entry(&self.statuses_by_path, &reported[i].path) {
                Some(at) => same_status(&self.statuses_by_path[at], reported[i].status, stat),
                None => false,
            };
            if !known {
                let entry = StatusEntry {
                    repo_path: reported[i].path.clone(),
                    status: reported[i].status,
                    diff_stat: stat,
                };
                inserts.push(entry);
                assert(inserts@[inserts@.len() - 1]@.repo_path == reported@[i as int].path@);
                assert(entry_listed(inserts@, reported@[i as int].path@));
            }
            proof {
                assert forall|k: int| 0 <= k < i implies status_at(
                    before,
                    (#[trigger] reported@[k]).path@,
                ) == new_status(reported@, diff_stats@, reported@[k].path@) || entry_listed(
                    inserts@,
                    reported@[k].path@,
                ) by {
                    if entry_listed(inserts_before, reported@[k].path@) {
                        let x = choose|x: int|
                            0 <= x < inserts_before.len() && (#[trigger] inserts_before[x])@.repo_path
                                == reported@[k].path@;
                        assert(inserts@[x]@.repo_path == reported@[k].path@);
                    }
                }
                assert forall|k: int| 0 <= k < inserts@.len() implies is_insert(
                    before,
                    reported@,
                    diff_stats@,
                    (#[trigger] inserts@[k])@,
                ) by {
                    if k < inserts_before.len() {
                        assert(inserts@[k] == inserts_before[k]);
                    }
                }
            }
            i += 1;
        }
        let mut removes: Vec<RepoPath> = Vec::new();
        let mut j: usize = 0;
        while j < changed_paths.len()
            invariant
                j <= changed_paths@.len(),
                *self == *old(self),
                self.well_formed(),
                before == entry_views(self.statuses_by_path@),
                changed == views(changed_paths@),
                forall|k: int|
                    0 <= k < removes@.len() ==> is_remove(
                        before,
                        changed,
                        reported@,
                        (#[trigger] removes@[k])@,
                    ),
                forall|k: int|
                    0 <= k < j ==> is_reported(reported@, #[trigger] changed[k]) || !lists(
                        before,
                        changed[k],
                    ) || views(removes@).contains(changed[k]),
            decreases changed_paths@.len() - j,
        {
            let ghost removes_before = removes@;
            assert(changed[j as int] == changed_paths@[j as int]@);
            if !has_report(reported, &changed_paths[j]) && find_entry(
                &self.statuses_by_path,
                &changed_paths[j],
            ).is_some() {
                removes.push(changed_paths[j].clone());
                assert(views(removes@)[removes_before.len() as int] == changed[j as int]);
                assert(changed.contains(changed[j as int]));
            }
            proof {
                assert forall|k: int| 0 <= k < j implies is_reported(
                    reported@,
                    #[trigger] changed[k],
                ) || !lists(before, changed[k]) || views(removes@).contains(changed[k]) by {
                    if views(removes_before).contains(changed[k]) {
                        let x = choose|x: int|
                            0 <= x < views(removes_before).len() && views(removes_before)[x]
                                == changed[k];
                        assert(views(removes@)[x] == changed[k]);
                    }
                }
                assert forall|k: int| 0 <= k < removes@.len() implies is_remove(
                    before,
                    changed,
                    reported@,
                    (#[trigger] removes@[k])@,
                ) by {
                    if k < removes_before.len() {
                        assert(removes@[k] == removes_before[k]);
                    }
                }
            }
            j += 1;
        }
        let statuses_changed = inserts.len() > 0 || removes.len() > 0;
        let mut entries: Vec<StatusEntry> = Vec::new();
        core::mem::swap(&mut entries, &mut self.statuses_by_path);
        let mut a: usize = 0;
        while a < inserts.len()
            invariant
                a <= inserts@.len(),
                by_path(entry_views(entries@)),
                forall|k: int|
                    0 <= k < inserts@.len() ==> is_insert(
                        before,
                        reported@,
                        diff_stats@,
                        (#[trigger] inserts@[k])@,
                    ),
                forall|p: Seq<Seq<char>>| #[trigger]
                    status_at(entry_views(entries@), p) == (if entry_listed(
                        inserts@.take(a as int),
                        p,
                    ) {
                        new_status(reported@, diff_stats@, p)
                    } else {
                        status_at(before, p)
                    }),
            decreases inserts@.len() - a,
        {
            let ghost seen = inserts@.take(a as int);
            let ghost next = inserts@.take(a + 1);
            let ghost entries_before = entry_views(entries@);
            let entry = inserts[a].clone();
            let ghost e = entry@;
            put_status(&mut entries, entry);
            proof {
                assert(is_insert(before, reported@, diff_stats@, inserts@[a as int]@));
                assert(Some(e) == new_status(reported@, diff_stats@, e.repo_path));
                assert forall|p: Seq<Seq<char>>| #[trigger]
                    status_at(entry_views(entries@), p) == (if entry_listed(next, p) {
                        new_status(reported@, diff_stats@, p)
                    } else {
                        status_at(before, p)
                    }) by {
                    assert(status_at(entries_before, p) == (if entry_listed(seen, p) {
                        new_status(reported@, diff_stats@, p)
                    } else {
                        status_at(before, p)
                    }));
                    assert(next[a as int]@ == e);
                    if entry_listed(seen, p) {
                        let x = choose|x: int|
                            0 <= x < seen.len() && (#[trigger] seen[x])@.repo_path == p;
                        assert(next[x]@.repo_path == p);
                    }
                    if entry_listed(next, p) && p != e.repo_path {
                        let x = choose|x: int|
                            0 <= x < next.len() && (#[trigger] next[x])@.repo_path == p;
                        assert(seen[x]@.repo_path == p);
                    }
                }
            }
            a += 1;
        }
        assert(inserts@.take(a as int) =~= inserts@);
        let ghost inserted = entry_views(entries@);
        let mut b: usize = 0;
        while b < removes.len()
            invariant
                b <= removes@.len(),
                by_path(entry_views(entries@)),
                forall|p: Seq<Seq<char>>| #[trigger]
                    status_at(entry_views(entries@), p) == (if views(removes@.take(b as int)).contains(
                        p,
                    ) {
                        None
                    } else {
                        status_at(inserted, p)
                    }),
            decreases removes@.len() - b,
        {
            let ghost seen = views(removes@.take(b as int));
            let ghost next = views(removes@.take(b + 1));
            let ghost entries_before = entry_views(entries@);
            remove_status(&mut entries, &removes[b]);
            proof {
                assert forall|p: Seq<Seq<char>>| #[trigger]
                    status_at(entry_views(entries@), p) == (if next.contains(p) {
                        None
                    } else {
                        status_at(inserted, p)
                    }) by {
                    assert(status_at(entries_before, p) == (if seen.contains(p) {
                        None
                    } else {
                        status_at(inserted, p)
                    }));
                    assert(next[b as int] == removes@[b as int]@);
                    if seen.contains(p) {
                        let x = choose|x: int| 0 <= x < seen.len() && seen[x] == p;
                        assert(next[x] == p);
                    }
                    if next.contains(p) && p != removes@[b as int]@ {
                        let x = choose|x: int| 0 <= x < next.len() && next[x] == p;
                        assert(seen[x] == p);
                    }
                }
            }
            b += 1;
        }
        assert(removes@.take(b as int) =~= removes@);
        let ghost after = entry_views(entries@);
        self.statuses_by_path = entries;
        if statuses_changed {
            self.scan_id = self.scan_id + 1;
        }
        proof {
            assert forall|p: Seq<Seq<char>>| #[trigger]
                status_at(after, p) == scanned_status(
                    before,
                    changed,
                    reported@,
                    diff_stats@,
                    p,
                ) by {
                assert(status_at(inserted, p) == (if entry_listed(inserts@, p) {
                    new_status(reported@, diff_stats@, p)
                } else {
                    status_at(before, p)
                }));
                if views(removes@).contains(p) {
                    let x = choose|x: int| 0 <= x < views(removes@).len() && views(removes@)[x] == p;
                    assert(is_remove(before, changed, reported@, removes@[x]@));
                }
                if entry_listed(inserts@, p) {
                    let x = choose|x: int|
                        0 <= x < inserts@.len() && (#[trigger] inserts@[x])@.repo_path == p;
                    assert(is_insert(before, reported@, diff_stats@, inserts@[x]@));
                }
                if is_reported(reported@, p) {
                    let k = choose|k: int|
                        0 <= k < reported@.len() && (#[trigger] reported@[k]).path@ == p;
                    assert(status_at(before, reported@[k].path@) == new_status(
                        reported@,
                        diff_stats@,
                        reported@[k].path@,
                    ) || entry_listed(inserts@, reported@[k].path@));
                } else if changed.contains(p) {
                    let k = choose|k: int| 0 <= k < changed.len() && changed[k] == p;
                    assert(is_reported(reported@, changed[k]) || !lists(before, changed[k])
                        || views(removes@).contains(changed[k]));
                }
            }
            if inserts@.len() > 0 {
                let e = inserts@[0]@;
                assert(is_insert(before, reported@, diff_stats@, e));
                assert(status_at(after, e.repo_path) != status_at(before, e.repo_path));
            }
            if removes@.len() > 0 {
                let p = removes@[0]@;
                assert(is_remove(before, changed, reported@, p));
                assert(status_at(after, p) != status_at(before, p));
            }
            if inserts@.len() == 0 && removes@.len() == 0 {
                assert forall|p: Seq<Seq<char>>| #[trigger]
                    status_at(after, p) == status_at(before, p) by {
                    assert(status_at(inserted, p) == status_at(before, p));
                }
            }
        }
        statuses_changed
    }
}

/// What git reports about a path.
spec fn new_status(
    reported: Seq<ReportedStatus>,
    stats: Seq<ReportedDiffStat>,
    path: Seq<Seq<char>>,
) -> Option<StatusView> {
    Some(
        StatusView {
            repo_path: path,
            status: reported_status(reported, path),
            diff_stat: reported_stat(stats, path),
        },
    )
}

/// An entry that says what git reports, which was not known before.
spec fn is_insert(
    before: Seq<StatusView>,
    reported: Seq<ReportedStatus>,
    stats: Seq<ReportedDiffStat>,
    entry: StatusView,
) -> bool {
    &&& is_reported(reported, entry.repo_path)
    &&& Some(entry) == new_status(reported, stats, entry.repo_path)
    &&& status_at(before, entry.repo_path) != Some(entry)
}

/// A changed path that was known before and that git reports nothing about.
spec fn is_remove(
    before: Seq<StatusView>,
    changed: Seq<Seq<Seq<char>>>,
    reported: Seq<ReportedStatus>,
    path: Seq<Seq<char>>,
) -> bool {
    changed.contains(path) && !is_reported(reported, path) && lists(before, path)
}

spec fn entry_listed(entries: Seq<StatusEntry>, path: Seq<Seq<char>>) -> bool {
    exists|i: int| 0 <= i < entries.len() && (#[trigger] entries[i])@.repo_path == path
}

/// The paths stand in ascending order, each once.
pub open spec fn paths_in_order(paths: Seq<Seq<Seq<char>>>) -> bool {
    forall|i: int, j: int|
        0 <= i < j < paths.len() ==> path_lt(#[trigger] paths[i], #[trigger] paths[j])
}

/// Puts a path into its place, unless it is there.
fn insert_path(paths: &mut Vec<RepoPath>, path: RepoPath)
    requires
        paths_in_order(views(old(paths)@)),
    ensures
        paths_in_order(views(final(paths)@)),
        forall|p: Seq<Seq<char>>| #[trigger]
            views(final(paths)@).contains(p) <==> views(old(paths)@).contains(p) || p == path@,
{
    let ghost before = views(paths@);
    let mut at: usize = 0;
    while at < paths.len() && paths[at].compare(&path) == Order::Less
        invariant
            at <= paths@.len(),
            before == views(paths@),
            forall|k: int| 0 <= k < at ==> path_lt(#[trigger] before[k], path@),
        ensures
            at <= paths@.len(),
            forall|k: int| 0 <= k < at ==> path_lt(#[trigger] before[k], path@),
            at < paths@.len() ==> !path_lt(before[at as int], path@),
        decreases paths@.len() - at,
    {
        assert(before[at as int] == paths@[at as int]@);
        at += 1;
    }
    if at < paths.len() && paths[at].same_as(&path) {
        assert(before[at as int] == path@);
        return;
    }
    let ghost added = path@;
    paths.insert(at, path);
    proof {
        let after = views(paths@);
        assert(after =~= before.insert(at as int, added));
        assert forall|i: int, j: int| 0 <= i < j < after.len() implies path_lt(
            #[trigger] after[i],
            #[trigger] after[j],
        ) by {
            if at < before.len() {
                path_lt_total(before[at as int], added);
                if j > at + 1 {
                    assert(path_lt(before[at as int], before[j - 1]));
                    path_lt_transitive(added, before[at as int], before[j - 1]);
                }
            }
            if i < at && j > at {
                assert(before[i] == after[i]);
                assert(before[j - 1] == after[j]);
            }
            if i < at && j < at {
                assert(path_lt(before[i], before[j]));
            }
            if i > at {
                assert(path_lt(before[i - 1], before[j - 1]));
            }
        }
        assert forall|p: Seq<Seq<char>>| #[trigger]
            after.contains(p) <==> before.contains(p) || p == added by {
            assert(after[at as int] == added);
            if before.contains(p) {
                let k = before.index_of(p);
                if k < at {
                    assert(after[k] == p);
                } else {
                    assert(after[k + 1] == p);
                }
            }
            if after.contains(p) {
                let k = after.index_of(p);
                if k < at {
                    assert(before[k] == p);
                } else if k > at {
                    assert(before[k - 1] == p);
                }
            }
        }
    }
}

/// The paths whose statuses have to be asked for again.
#[derive(Debug)]
pub struct StatusRefresh {
    pub paths_needing_status_update: Vec<RepoPath>,
}

impl StatusRefresh {
    /// The paths are in order, each once.
    pub open spec fn well_formed(self) -> bool {
        paths_in_order(views(self.paths_needing_status_update@))
    }

    pub fn new() -> (refresh: Self)
        ensures
            refresh.well_formed(),
            refresh.paths_needing_status_update@.len() == 0,
    {
        StatusRefresh { paths_needing_status_update: Vec::new() }
    }

    /// Paths changed on disk.
    pub fn paths_changed(&mut self, paths: Vec<RepoPath>)
        requires
            old(self).well_formed(),
        ensures
            final(self).well_formed(),
            forall|p: Seq<Seq<char>>| #[trigger]
                views(final(self).paths_needing_status_update@).contains(p) <==> views(
                    old(self).paths_needing_status_update@,
                ).contains(p) || views(paths@).contains(p),
    {
        let ghost before = views(self.paths_needing_status_update@);
        let ghost all = views(paths@);
        let mut i: usize = 0;
        while i < paths.len()
            invariant
                i <= paths@.len(),
                all == views(paths@),
                paths_in_order(views(self.paths_needing_status_update@)),
                forall|p: Seq<Seq<char>>| #[trigger]
                    views(self.paths_needing_status_update@).contains(p) <==> before.contains(p)
                        || all.take(i as int).contains(p),
            decreases paths@.len() - i,
        {
            insert_path(&mut self.paths_needing_status_update, paths[i].clone());
            proof {
                assert(all.take(i + 1) =~= all.take(i as int).push(all[i as int]));
                assert(all[i as int] == paths@[i as int]@);
                assert forall|p: Seq<Seq<char>>| #[trigger]
                    views(self.paths_needing_status_update@).contains(p) <==> before.contains(p)
                        || all.take(i + 1).contains(p) by {
                    crate::ids::contains_push(all.take(i as int), all[i as int], p);
                }
            }
            i += 1;
        }
        assert(all.take(i as int) =~= all);
    }

    /// Takes the paths that changed since the last time, in ascending order and each once.
    /// There is nothing to ask for where there are none.
    pub fn take(&mut self) -> (paths: Vec<RepoPath>)
        requires
            old(self).well_formed(),
        ensures
            final(self).well_formed(),
            final(self).paths_needing_status_update@.len() == 0,
            paths@ == old(self).paths_needing_status_update@,
    {
        let mut paths: Vec<RepoPath> = Vec::new();
        paths.append(&mut self.paths_needing_status_update);
        assert(paths@ =~= old(self).paths_needing_status_update@);
        paths
    }
}

proof fn lemma_stat_reported(stats: Seq<ReportedDiffStat>, k: int)
    requires
        0 <= k < stats.len(),
        forall|j: int| k < j < stats.len() ==> (#[trigger] stats[j]).path@ != stats[k].path@,
    ensures
        reported_stat(stats, stats[k].path@) == Some(stats[k].stat),
    decreases stats.len(),
{
    if k < stats.len() - 1 {
        assert(stats[stats.len() - 1].path@ != stats[k].path@);
        let earlier = stats.drop_last();
        assert forall|j: int| k < j < earlier.len() implies (#[trigger] earlier[j]).path@
            != earlier[k].path@ by {
            assert(stats[j].path@ != stats[k].path@);
        }
        lemma_stat_reported(earlier, k);
    }
}

proof fn lemma_stat_unreported(stats: Seq<ReportedDiffStat>, path: Seq<Seq<char>>)
    requires
        forall|j: int| 0 <= j < stats.len() ==> (#[trigger] stats[j]).path@ != path,
    ensures
        reported_stat(stats, path) is None,
    decreases stats.len(),
{
    if stats.len() > 0 {
        assert(stats[stats.len() - 1].path@ != path);
        assert forall|j: int| 0 <= j < stats.drop_last().len() implies (
        #[trigger] stats.drop_last()[j]).path@ != path by {
            assert(stats[j].path@ != path);
        }
        lemma_stat_unreported(stats.drop_last(), path);
    }
}

/// After a scan, the status of a path that git reports is the reported one, with the line counts
/// that were reported last for it.
pub proof fn reported_statuses_are_known(
    snapshot: &mut RepositorySnapshot,
    changed_paths: Vec<RepoPath>,
    reported: Vec<ReportedStatus>,
    diff_stats: Vec<ReportedDiffStat>,
    statuses_changed: bool,
    i: int,
    k: int,
    entry: Option<StatusEntry>,
)
    requires
        call_ensures(
            RepositorySnapshot::apply_status_scan,
            (snapshot, &changed_paths, &reported, &diff_stats),
            statuses_changed,
        ),
        old(snapshot).well_formed(),
        reported_in_order(reported@),
        0 <= i < reported@.len(),
        call_ensures(
            RepositorySnapshot::status_for_path,
            (&*final(snapshot), &reported@[i].path),
            entry,
        ),
    ensures
        entry matches Some(entry) && entry.repo_path@ == reported@[i].path@ && entry.status
            == reported@[i].status,
        0 <= k < diff_stats@.len() && diff_stats@[k].path@ == reported@[i].path@ && (forall|j: int|
            k < j < diff_stats@.len() ==> (#[trigger] diff_stats@[j]).path@
                != diff_stats@[k].path@) ==> entry->0.diff_stat == Some(diff_stats@[k].stat),
        (forall|j: int|
            0 <= j < diff_stats@.len() ==> (#[trigger] diff_stats@[j]).path@ != reported@[i].path@)
            ==> entry->0.diff_stat is None,
{
    let path = reported@[i].path@;
    assert(is_reported(reported@, path));
    lemma_reported_once(reported@, i);
    assert(status_at(entry_views(final(snapshot).statuses_by_path@), path) == scanned_status(
        entry_views(old(snapshot).statuses_by_path@),
        views(changed_paths@),
        reported@,
        diff_stats@,
        path,
    ));
    if 0 <= k < diff_stats@.len() && diff_stats@[k].path@ == path && (forall|j: int|
        k < j < diff_stats@.len() ==> (#[trigger] diff_stats@[j]).path@ != diff_stats@[k].path@) {
        lemma_stat_reported(diff_stats@, k);
    }
    if forall|j: int| 0 <= j < diff_stats@.len() ==> (#[trigger] diff_stats@[j]).path@ != path {
        lemma_stat_unreported(diff_stats@, path);
    }
}

proof fn lemma_reported_once(reported: Seq<ReportedStatus>, i: int)
    requires
        reported_in_order(reported),
        0 <= i < reported.len(),
    ensures
        reported_status(reported, reported[i].path@) == reported[i].status,
{
    let path = reported[i].path@;
    let j = choose|j: int| 0 <= j < reported.len() && (#[trigger] reported[j]).path@ == path;
    assert(reported[i].path@ == path);
    crate::rel_path::path_lt_total(path, path);
    if j < i {
        assert(path_lt(reported[j].path@, reported[i].path@));
    }
    if i < j {
        assert(path_lt(reported[i].path@, reported[j].path@));
    }
}

/// After a scan, nothing is known of a path that changed and that git does not report, and all
/// that was known stays known of a path that neither changed nor is reported.
pub proof fn unreported_statuses_go_or_stay(
    snapshot: &mut RepositorySnapshot,
    changed_paths: Vec<RepoPath>,
    reported: Vec<ReportedStatus>,
    diff_stats: Vec<ReportedDiffStat>,
    statuses_changed: bool,
    path: RepoPath,
    before: Option<StatusEntry>,
    after: Option<StatusEntry>,
)
    requires
        call_ensures(
            RepositorySnapshot::apply_status_scan,
            (snapshot, &changed_paths, &reported, &diff_stats),
            statuses_changed,
        ),
        old(snapshot).well_formed(),
        reported_in_order(reported@),
        forall|i: int| 0 <= i < reported@.len() ==> (#[trigger] reported@[i]).path@ != path@,
        call_ensures(RepositorySnapshot::status_for_path, (&*old(snapshot), &path), before),
        call_ensures(RepositorySnapshot::status_for_path, (&*final(snapshot), &path), after),
    ensures
        (exists|i: int|
            0 <= i < changed_paths@.len() && (#[trigger] changed_paths@[i])@ == path@) ==> after
            is None,
        (forall|i: int|
            0 <= i < changed_paths@.len() ==> (#[trigger] changed_paths@[i])@ != path@) ==> (after
            is Some <==> before is Some) && (after matches Some(entry) ==> entry@ == before->0@),
{
    let changed = views(changed_paths@);
    assert(!is_reported(reported@, path@));
    assert(status_at(entry_views(final(snapshot).statuses_by_path@), path@) == scanned_status(
        entry_views(old(snapshot).statuses_by_path@),
        changed,
        reported@,
        diff_stats@,
        path@,
    ));
    if exists|i: int| 0 <= i < changed_paths@.len() && (#[trigger] changed_paths@[i])@ == path@ {
        let i = choose|i: int|
            0 <= i < changed_paths@.len() && (#[trigger] changed_paths@[i])@ == path@;
        assert(changed[i] == path@);
        assert(changed.contains(path@));
    } else if changed.contains(path@) {
        let i = choose|i: int| 0 <= i < changed.len() && changed[i] == path@;
        assert(changed_paths@[i]@ == path@);
    }
}

/// A scan is counted just if it changed what is known of some path. Of the rest of the snapshot
/// nothing changes.
pub proof fn scans_are_counted_when_they_matter(
    snapshot: &mut RepositorySnapshot,
    changed_paths: Vec<RepoPath>,
    reported: Vec<ReportedStatus>,
    diff_stats: Vec<ReportedDiffStat>,
    statuses_changed: bool,
    path: RepoPath,
    before: Option<StatusEntry>,
    after: Option<StatusEntry>,
)
    requires
        call_ensures(
            RepositorySnapshot::apply_status_scan,
            (snapshot, &changed_paths, &reported, &diff_stats),
            statuses_changed,
        ),
        old(snapshot).well_formed(),
        reported_in_order(reported@),
        old(snapshot).scan_id < u64::MAX,
        call_ensures(RepositorySnapshot::status_for_path, (&*old(snapshot), &path), before),
        call_ensures(RepositorySnapshot::status_for_path, (&*final(snapshot), &path), after),
    ensures
        statuses_changed ==> final(snapshot).scan_id == old(snapshot).scan_id + 1,
        !statuses_changed ==> final(snapshot).scan_id == old(snapshot).scan_id,
        !statuses_changed ==> (after is Some <==> before is Some) && (after matches Some(entry)
            ==> entry@ == before->0@),
        final(snapshot).id == old(snapshot).id,
        final(snapshot).dirs == old(snapshot).dirs,
        final(snapshot).branch == old(snapshot).branch,
        final(snapshot).head_commit == old(snapshot).head_commit,
        final(snapshot).merge == old(snapshot).merge,
        final(snapshot).stash_entries == old(snapshot).stash_entries,
        final(snapshot).linked_worktrees == old(snapshot).linked_worktrees,
        final(snapshot).remote_origin_url == old(snapshot).remote_origin_url,
        final(snapshot).remote_upstream_url == old(snapshot).remote_upstream_url,
{
    assert(status_at(entry_views(final(snapshot).statuses_by_path@), path@) == status_at(
        entry_views(final(snapshot).statuses_by_path@),
        path@,
    ));
}

/// Paths that changed are asked for the next time, each once, and then no more.
pub proof fn changed_paths_are_asked_for_once(
    refresh: &mut StatusRefresh,
    more: &mut StatusRefresh,
    paths: Vec<RepoPath>,
    taken: Vec<RepoPath>,
    i: int,
    j: int,
)
    requires
        old(refresh).well_formed(),
        call_ensures(StatusRefresh::paths_changed, (refresh, paths), ()),
        *old(more) == *final(refresh),
        call_ensures(StatusRefresh::take, (more,), taken),
    ensures
        0 <= i < paths@.len() ==> exists|at: int|
            0 <= at < taken@.len() && (#[trigger] taken@[at])@ == paths@[i]@,
        0 <= i < j < taken@.len() ==> taken@[i]@ != taken@[j]@,
        final(more).paths_needing_status_update@.len() == 0,
{
    let asked = views(taken@);
    if 0 <= i < paths@.len() {
        assert(views(paths@)[i] == paths@[i]@);
        assert(views(paths@).contains(paths@[i]@));
        assert(asked.contains(paths@[i]@));
        let at = choose|at: int| 0 <= at < asked.len() && asked[at] == paths@[i]@;
        assert(taken@[at]@ == paths@[i]@);
    }
    if 0 <= i < j < taken@.len() {
        assert(path_lt(asked[i], asked[j]));
        crate::rel_path::path_lt_total(asked[i], asked[i]);
        assert(asked[i] == taken@[i]@ && asked[j] == taken@[j]@);
    }
}

} // verus!
