//! Which repository paths have to be looked at again after files changed.
use vstd::prelude::*;

use crate::git_store::RepositoryId;
use crate::rel_path::{
    below_is_contiguous, has_prefix, has_prefix_transitive, path_le, path_lt, path_lt_total,
    path_lt_transitive, prefix_sorts_first, prefixes_nest, RelPath, RepoPath,
};
use crate::sorting::{is_sorted, same_elements, sort, Ordered};
use crate::text::Order;

verus! {

/// The component sequences of a list of paths.
pub open spec fn views(paths: Seq<RelPath>) -> Seq<Seq<Seq<char>>> {
    paths.map_values(|p: RelPath| p@)
}

/// `result` lists, in ascending order and once each, the paths of the set that lie
/// below no other path of the set.
pub open spec fn is_coalesced(result: Seq<Seq<Seq<char>>>, paths: Set<Seq<Seq<char>>>) -> bool {
    &&& forall|i: int, j: int|
        0 <= i < j < result.len() ==> path_lt(#[trigger] result[i], #[trigger] result[j])
    &&& forall|p: Seq<Seq<char>>| #[trigger]
        result.contains(p) <==> paths.contains(p) && (forall|q: Seq<Seq<char>>| #[trigger]
            paths.contains(q) && q != p ==> !has_prefix(p, q))
}

/// Sorting leaves the set of component sequences as it is.
proof fn lemma_same_views(a: Seq<RelPath>, b: Seq<RelPath>)
    requires
        a.to_multiset() == b.to_multiset(),
    ensures
        forall|p: Seq<Seq<char>>| #[trigger] views(a).contains(p) <==> views(b).contains(p),
{
    same_elements(a, b);
    assert forall|p: Seq<Seq<char>>| #[trigger] views(a).contains(p) <==> views(b).contains(p) by {
        if views(a).contains(p) {
            let i = choose|i: int| 0 <= i < views(a).len() && views(a)[i] == p;
            assert(a.contains(a[i]));
            let j = choose|j: int| 0 <= j < b.len() && b[j] == a[i];
            assert(views(b)[j] == p);
        }
        if views(b).contains(p) {
            let i = choose|i: int| 0 <= i < views(b).len() && views(b)[i] == p;
            assert(b.contains(b[i]));
            assert(a.contains(b[i]));
            let j = choose|j: int| 0 <= j < a.len() && a[j] == b[i];
            assert(views(a)[j] == p);
        }
    }
}

/// What the coalescing loop knows after it has looked at `done` sorted paths.
spec fn coalescing(sorted: Seq<RelPath>, done: int, kept: Seq<RelPath>) -> bool {
    &&& forall|k: int| 0 <= k < kept.len() ==> views(sorted).contains(#[trigger] kept[k]@)
    &&& forall|k: int, m: int|
        0 <= k < kept.len() && done <= m < sorted.len() ==> path_le(
            #[trigger] kept[k]@,
            #[trigger] sorted[m]@,
        )
    &&& forall|i: int, j: int|
        0 <= i < j < kept.len() ==> path_lt(#[trigger] kept[i]@, #[trigger] kept[j]@)
    &&& forall|m: int|
        #![trigger sorted[m]]
        0 <= m < done ==> exists|k: int|
            0 <= k < kept.len() && has_prefix(sorted[m]@, #[trigger] kept[k]@)
    &&& forall|k: int, q: Seq<Seq<char>>|
        0 <= k < kept.len() && #[trigger] views(sorted).contains(q) && q != kept[k]@
            ==> !has_prefix((#[trigger] kept[k])@, q)
}

/// A path that does not lie below the last kept path lies below no other path.
proof fn lemma_keep(sorted: Seq<RelPath>, at: int, kept: Seq<RelPath>, q: Seq<Seq<char>>)
    requires
        is_sorted(sorted),
        0 <= at < sorted.len(),
        coalescing(sorted, at, kept),
        kept.len() > 0 ==> !has_prefix(sorted[at]@, kept.last()@),
        views(sorted).contains(q),
        q != sorted[at]@,
    ensures
        !has_prefix(sorted[at]@, q),
{
    let p = sorted[at]@;
    if has_prefix(p, q) {
        let m = choose|m: int| 0 <= m < views(sorted).len() && views(sorted)[m] == q;
        assert(sorted[m]@ == q);
        prefix_sorts_first(p, q);
        path_lt_total(p, q);
        if m >= at {
            assert(sorted[at].le(sorted[m]));
        }
        assert(m < at);
        let k = choose|k: int|
            0 <= k < kept.len() && has_prefix(sorted[m]@, #[trigger] kept[k]@);
        has_prefix_transitive(p, q, kept[k]@);
        let last = kept.last()@;
        assert(path_le(last, p)) by {
            assert(path_le(kept[kept.len() - 1]@, sorted[at]@));
        }
        if k < kept.len() - 1 {
            assert(path_lt(kept[k]@, kept[kept.len() - 1]@));
            below_is_contiguous(kept[k]@, last, p);
            assert(views(sorted).contains(kept[k]@));
            path_lt_total(kept[k]@, last);
            assert(false);
        }
    }
}

/// What a changed file set means for one repository.
#[derive(Debug)]
pub struct ChangedPaths {
    pub repository: RepositoryId,
    pub paths: Vec<RepoPath>,
}

/// A repository and the directory that it manages.
#[derive(Debug)]
pub struct RepositoryRoot {
    pub id: RepositoryId,
    pub work_directory: RelPath,
}

/// Leaves out every path that lies below another one of the list, and sorts the rest.
pub fn coalesce_repo_paths(paths: Vec<RepoPath>) -> (coalesced: Vec<RepoPath>)
    ensures
        is_coalesced(views(coalesced@), views(paths@).to_set()),
{
    let ghost given = paths@;
    let sorted: Vec<RepoPath> = sort(paths);
    let mut kept: Vec<RepoPath> = Vec::new();
    let mut i: usize = 0;
    while i < sorted.len()
        invariant
            i <= sorted@.len(),
            is_sorted(sorted@),
            coalescing(sorted@, i as int, kept@),
        decreases sorted@.len() - i,
    {
        let ghost before = kept@;
        let covered: bool = if kept.len() > 0 {
            sorted[i].starts_with(&kept[kept.len() - 1])
        } else {
            false
        };
        if covered {
            proof {
                let k = kept@.len() - 1;
                assert(has_prefix(sorted@[i as int]@, kept@[k]@));
            }
        } else {
            let path: RepoPath = sorted[i].clone();
            kept.push(path);
            proof {
                let p = sorted@[i as int]@;
                assert(views(sorted@)[i as int] == p);
                assert(kept@[kept@.len() - 1]@ == p);
                assert forall|q: Seq<Seq<char>>| #[trigger]
                    views(sorted@).contains(q) && q != p implies !has_prefix(p, q) by {
                    lemma_keep(sorted@, i as int, before, q);
                }
                assert forall|k: int|
                    0 <= k < kept@.len() implies views(sorted@).contains(
                    #[trigger] kept@[k]@,
                ) by {
                    if k < before.len() {
                        assert(kept@[k] == before[k]);
                        assert(views(sorted@).contains(before[k]@));
                    }
                }
                assert forall|a: int, b: int| 0 <= a < b < kept@.len() implies path_lt(
                    #[trigger] kept@[a]@,
                    #[trigger] kept@[b]@,
                ) by {
                    assert(kept@[a] == before[a]);
                    if b < before.len() {
                        assert(kept@[b] == before[b]);
                        assert(path_lt(before[a]@, before[b]@));
                    } else {
                        assert(path_le(before[a]@, sorted@[i as int]@));
                        if before[a]@ == p {
                            assert(path_le(before[before.len() - 1]@, p));
                            if a < before.len() - 1 {
                                assert(path_lt(before[a]@, before[before.len() - 1]@));
                                path_lt_total(before[a]@, before[before.len() - 1]@);
                            }
                            assert(p.take(p.len() as int) =~= p);
                            assert(has_prefix(p, p));
                            assert(false);
                        }
                    }
                }
                assert forall|k: int, q: Seq<Seq<char>>|
                    0 <= k < kept@.len() && #[trigger] views(sorted@).contains(q) && q
                        != kept@[k]@ implies !has_prefix((#[trigger] kept@[k])@, q) by {
                    if k < before.len() {
                        assert(kept@[k] == before[k]);
                        assert(!has_prefix(before[k]@, q));
                    }
                }
                assert forall|k: int, m: int|
                    0 <= k < kept@.len() && i + 1 <= m < sorted@.len() implies path_le(
                    #[trigger] kept@[k]@,
                    #[trigger] sorted@[m]@,
                ) by {
                    if k < before.len() {
                        assert(kept@[k] == before[k]);
                        assert(path_le(before[k]@, sorted@[m]@));
                    } else {
                        assert(sorted@[i as int].le(sorted@[m]));
                    }
                }
            }
        }
        proof {
            assert forall|m: int| #![trigger sorted@[m]]
                0 <= m < i + 1 implies exists|k: int|
                0 <= k < kept@.len() && has_prefix(sorted@[m]@, #[trigger] kept@[k]@) by {
                if m < i {
                    let k = choose|k: int|
                        0 <= k < before.len() && has_prefix(sorted@[m]@, #[trigger] before[k]@);
                    assert(kept@[k] == before[k]);
                } else {
                    let k = kept@.len() - 1;
                    assert(kept@[k]@.take(kept@[k]@.len() as int) =~= kept@[k]@);
                    assert(has_prefix(sorted@[m]@, kept@[k]@));
                }
            }
        }
        i += 1;
    }
    proof {
        let result = views(kept@);
        let set = views(given).to_set();
        lemma_same_views(sorted@, given);
        assert forall|a: int, b: int| 0 <= a < b < result.len() implies path_lt(
            #[trigger] result[a],
            #[trigger] result[b],
        ) by {
            assert(path_lt(kept@[a]@, kept@[b]@));
        }
        assert forall|p: Seq<Seq<char>>| #[trigger]
            result.contains(p) <==> set.contains(p) && (forall|q: Seq<Seq<char>>| #[trigger]
                set.contains(q) && q != p ==> !has_prefix(p, q)) by {
            if result.contains(p) {
                let k = choose|k: int| 0 <= k < result.len() && result[k] == p;
                assert(kept@[k]@ == p);
                assert(views(sorted@).contains(kept@[k]@));
                assert forall|q: Seq<Seq<char>>| #[trigger]
                    set.contains(q) && q != p implies !has_prefix(p, q) by {
                    assert(views(sorted@).contains(q));
                }
            }
            if set.contains(p) && (forall|q: Seq<Seq<char>>| #[trigger]
                set.contains(q) && q != p ==> !has_prefix(p, q)) {
                assert(views(sorted@).contains(p));
                let m = choose|m: int|
                    0 <= m < views(sorted@).len() && views(sorted@)[m] == p;
                assert(sorted@[m]@ == p);
                let k = choose|k: int|
                    0 <= k < kept@.len() && has_prefix(sorted@[m]@, #[trigger] kept@[k]@);
                assert(views(sorted@).contains(kept@[k]@));
                assert(set.contains(kept@[k]@));
                assert(result[k] == p);
            }
        }
    }
    kept
}

/// A repository together with its position in the list that it was given in.
struct RankedRoot {
    rank: usize,
    id: RepositoryId,
    work_directory: RelPath,
}

impl Ordered for RankedRoot {
    closed spec fn le(self, other: Self) -> bool {
        path_lt(self.work_directory@, other.work_directory@) || (self.work_directory@
            == other.work_directory@ && self.rank <= other.rank)
    }

    proof fn le_total(a: Self, b: Self) {
        path_lt_total(a.work_directory@, b.work_directory@);
    }

    proof fn le_transitive(a: Self, b: Self, c: Self) {
        let (x, y, z) = (a.work_directory@, b.work_directory@, c.work_directory@);
        if path_lt(x, y) && path_lt(y, z) {
            path_lt_transitive(x, y, z);
        }
    }

    fn is_le(&self, other: &Self) -> (result: bool) {
        match self.work_directory.compare(&other.work_directory) {
            Order::Less => true,
            Order::Equal => {
                proof {
                    path_lt_total(self.work_directory@, other.work_directory@);
                }
                self.rank <= other.rank
            },
            Order::Greater => {
                proof {
                    path_lt_total(self.work_directory@, other.work_directory@);
                }
                false
            },
        }
    }
}

/// The path lies below the work directory of the repository at position `i`.
pub open spec fn holds(roots: Seq<RepositoryRoot>, i: int, path: Seq<Seq<char>>) -> bool {
    0 <= i < roots.len() && has_prefix(path, roots[i].work_directory@)
}

/// The repository at position `i` is the innermost one that holds the path: each
/// other one that holds it holds the work directory of this one too. Of several
/// with the same work directory the last one counts.
pub open spec fn owns(roots: Seq<RepositoryRoot>, i: int, path: Seq<Seq<char>>) -> bool {
    &&& holds(roots, i, path)
    &&& forall|j: int| #[trigger]
        holds(roots, j, path) ==> has_prefix(roots[i].work_directory@, roots[j].work_directory@) && (
        roots[j].work_directory@ == roots[i].work_directory@ ==> j <= i)
}

/// Some entry below `worktree_root` lies in the repository at position `i`.
pub open spec fn touched(
    roots: Seq<RepositoryRoot>,
    i: int,
    worktree_root: Seq<Seq<char>>,
    entries: Seq<Seq<Seq<char>>>,
) -> bool {
    exists|e: int| 0 <= e < entries.len() && holds(roots, i, worktree_root + #[trigger] entries[e])
}

/// The entries that belong to the repository at position `i`, relative to its
/// work directory.
pub open spec fn owned_paths(
    roots: Seq<RepositoryRoot>,
    i: int,
    worktree_root: Seq<Seq<char>>,
    entries: Seq<Seq<Seq<char>>>,
) -> Set<Seq<Seq<char>>> {
    Set::new(
        |p: Seq<Seq<char>>|
            exists|e: int|
                0 <= e < entries.len() && owns(roots, i, worktree_root + #[trigger] entries[e]) && p
                    == (worktree_root + entries[e]).skip(roots[i].work_directory@.len() as int),
    )
}

/// `change` is what the changed entries mean for the repository at position `i`.
pub open spec fn is_change_for(
    change: ChangedPaths,
    roots: Seq<RepositoryRoot>,
    i: int,
    worktree_root: Seq<Seq<char>>,
    entries: Seq<Seq<Seq<char>>>,
) -> bool {
    &&& 0 <= i < roots.len()
    &&& change.repository == roots[i].id
    &&& touched(roots, i, worktree_root, entries)
    &&& is_coalesced(views(change.paths@), owned_paths(roots, i, worktree_root, entries))
}

/// The changes are those of all repositories that the changed entries touch.
pub open spec fn are_changes(
    changes: Seq<ChangedPaths>,
    roots: Seq<RepositoryRoot>,
    worktree_root: Seq<Seq<char>>,
    entries: Seq<Seq<Seq<char>>>,
) -> bool {
    exists|of: Seq<int>| #[trigger]
        of.no_duplicates() && of.len() == changes.len() && (forall|k: int|
            0 <= k < of.len() ==> is_change_for(
                #[trigger] changes[k],
                roots,
                of[k],
                worktree_root,
                entries,
            )) && (forall|i: int| #[trigger]
            touched(roots, i, worktree_root, entries) ==> of.contains(i))
}

/// Ranks the repositories by work directory.
fn rank_roots(roots: &Vec<RepositoryRoot>) -> (ranked: Vec<RankedRoot>)
    ensures
        is_sorted(ranked@),
        forall|r: int| 0 <= r < ranked@.len() ==> is_ranked(#[trigger] ranked@[r], roots@),
        ranks_cover(ranked@, roots@),
        distinct_ranks(ranked@),
{
    let mut unsorted: Vec<RankedRoot> = Vec::new();
    let mut i: usize = 0;
    while i < roots.len()
        invariant
            i <= roots@.len(),
            unsorted@.len() == i,
            forall|r: int|
                0 <= r < unsorted@.len() ==> is_ranked(#[trigger] unsorted@[r], roots@)
                    && unsorted@[r].rank == r,
        decreases roots@.len() - i,
    {
        unsorted.push(
            RankedRoot {
                rank: i,
                id: roots[i].id,
                work_directory: roots[i].work_directory.clone(),
            },
        );
        i += 1;
    }
    let ghost before = unsorted@;
    let ranked: Vec<RankedRoot> = sort(unsorted);
    proof {
        same_elements(ranked@, before);
        assert forall|r: int| 0 <= r < ranked@.len() implies is_ranked(
            #[trigger] ranked@[r],
            roots@,
        ) by {
            assert(ranked@.contains(ranked@[r]));
            let k = choose|k: int| 0 <= k < before.len() && before[k] == ranked@[r];
            assert(is_ranked(before[k], roots@));
        }
        assert forall|i: int| 0 <= i < roots@.len() implies #[trigger] has_rank(ranked@, i) by {
            assert(before.contains(before[i]));
            assert(ranked@.contains(before[i]));
            let r = choose|r: int| 0 <= r < ranked@.len() && ranked@[r] == before[i];
            assert(ranked@[r].rank == i);
        }
        assert(before.no_duplicates());
        before.lemma_multiset_has_no_duplicates();
        ranked@.lemma_multiset_has_no_duplicates_conv();
        assert forall|r: int, k: int| 0 <= r < k < ranked@.len() implies (
        #[trigger] ranked@[r]).rank != (#[trigger] ranked@[k]).rank by {
            assert(ranked@.contains(ranked@[r]));
            assert(ranked@.contains(ranked@[k]));
            let x = choose|x: int| 0 <= x < before.len() && before[x] == ranked@[r];
            let y = choose|y: int| 0 <= y < before.len() && before[y] == ranked@[k];
            assert(before[x].rank == x && before[y].rank == y);
        }
    }
    ranked
}

spec fn has_rank(ranked: Seq<RankedRoot>, i: int) -> bool {
    exists|r: int| 0 <= r < ranked.len() && (#[trigger] ranked[r]).rank == i
}

spec fn rank_from(ranked: Seq<RankedRoot>, from: int, i: int) -> bool {
    exists|r: int| from <= r < ranked.len() && (#[trigger] ranked[r]).rank == i
}

spec fn ranks_cover(ranked: Seq<RankedRoot>, roots: Seq<RepositoryRoot>) -> bool {
    forall|i: int| 0 <= i < roots.len() ==> #[trigger] has_rank(ranked, i)
}

spec fn distinct_ranks(ranked: Seq<RankedRoot>) -> bool {
    forall|r: int, k: int|
        0 <= r < k < ranked.len() ==> (#[trigger] ranked[r]).rank != (#[trigger] ranked[k]).rank
}

spec fn is_ranked(ranked: RankedRoot, roots: Seq<RepositoryRoot>) -> bool {
    &&& ranked.rank < roots.len()
    &&& ranked.id == roots[ranked.rank as int].id
    &&& ranked.work_directory@ == roots[ranked.rank as int].work_directory@
}

/// A ranked repository from position `r` on holds the path.
spec fn taken(ranked: Seq<RankedRoot>, r: int, path: Seq<Seq<char>>) -> bool {
    exists|k: int|
        r <= k < ranked.len() && has_prefix(path, (#[trigger] ranked[k]).work_directory@)
}

/// The first repository from the back of the ranking that holds a path owns it.
proof fn lemma_owner(
    roots: Seq<RepositoryRoot>,
    ranked: Seq<RankedRoot>,
    r: int,
    path: Seq<Seq<char>>,
)
    requires
        is_sorted(ranked),
        forall|r: int| 0 <= r < ranked.len() ==> is_ranked(#[trigger] ranked[r], roots),
        ranks_cover(ranked, roots),
        distinct_ranks(ranked),
        0 <= r < ranked.len(),
        has_prefix(path, ranked[r].work_directory@),
    ensures
        owns(roots, ranked[r].rank as int, path) <==> !taken(ranked, r + 1, path),
{
    let i = ranked[r].rank as int;
    assert(is_ranked(ranked[r], roots));
    assert(holds(roots, i, path));
    let own = roots[i].work_directory@;
    if taken(ranked, r + 1, path) {
        let k = choose|k: int|
            r + 1 <= k < ranked.len() && has_prefix(path, (#[trigger] ranked[k]).work_directory@);
        assert(is_ranked(ranked[k], roots));
        let j = ranked[k].rank as int;
        assert(holds(roots, j, path));
        assert(ranked[r].le(ranked[k]));
        let other = roots[j].work_directory@;
        if owns(roots, i, path) {
            assert(has_prefix(own, other));
            prefix_sorts_first(own, other);
            path_lt_total(own, other);
            assert(own == other);
            assert(j <= i);
            assert(j == i);
            assert(ranked[r].rank != ranked[k].rank);
        }
    } else {
        assert forall|j: int| #[trigger] holds(roots, j, path) implies has_prefix(
            own,
            roots[j].work_directory@,
        ) && (roots[j].work_directory@ == own ==> j <= i) by {
            let other = roots[j].work_directory@;
            assert(has_rank(ranked, j));
            let k = choose|k: int| 0 <= k < ranked.len() && (#[trigger] ranked[k]).rank == j;
            assert(is_ranked(ranked[k], roots));
            assert(has_prefix(path, ranked[k].work_directory@));
            assert(k <= r);
            assert(ranked[k].le(ranked[r]));
            if other.len() <= own.len() {
                prefixes_nest(path, other, own);
            } else {
                prefixes_nest(path, own, other);
                prefix_sorts_first(other, own);
                path_lt_total(own, other);
            }
        }
    }
}

/// The path is that of an updated entry.
spec fn is_entry(path: Seq<Seq<char>>, root: Seq<Seq<char>>, updated: Seq<RelPath>) -> bool {
    exists|e: int| 0 <= e < updated.len() && path == root + (#[trigger] updated[e])@
}

/// The absolute paths of the entries, sorted.
fn absolute_entries(worktree_root: &RelPath, updated: &Vec<RelPath>) -> (sorted: Vec<RelPath>)
    ensures
        is_sorted(sorted@),
        forall|e: int|
            #![trigger updated@[e]]
            0 <= e < updated@.len() ==> views(sorted@).contains(worktree_root@ + updated@[e]@),
        forall|k: int|
            0 <= k < sorted@.len() ==> is_entry(
                (#[trigger] sorted@[k])@,
                worktree_root@,
                updated@,
            ),
{
    let mut unsorted: Vec<RelPath> = Vec::new();
    let mut i: usize = 0;
    while i < updated.len()
        invariant
            i <= updated@.len(),
            unsorted@.len() == i,
            forall|k: int|
                0 <= k < i ==> (#[trigger] unsorted@[k])@ == worktree_root@ + updated@[k]@,
        decreases updated@.len() - i,
    {
        unsorted.push(worktree_root.join(&updated[i]));
        i += 1;
    }
    let ghost before = unsorted@;
    let sorted: Vec<RelPath> = sort(unsorted);
    proof {
        lemma_same_views(sorted@, before);
        assert forall|e: int| #![trigger updated@[e]]
            0 <= e < updated@.len() implies views(sorted@).contains(
            worktree_root@ + updated@[e]@,
        ) by {
            assert(before[e]@ == worktree_root@ + updated@[e]@);
            assert(views(before)[e] == worktree_root@ + updated@[e]@);
            assert(views(before).contains(worktree_root@ + updated@[e]@));
        }
        same_elements(sorted@, before);
        assert forall|k: int| 0 <= k < sorted@.len() implies is_entry(
            (#[trigger] sorted@[k])@,
            worktree_root@,
            updated@,
        ) by {
            assert(sorted@.contains(sorted@[k]));
            let e = choose|e: int| 0 <= e < before.len() && before[e] == sorted@[k];
            assert(before[e]@ == worktree_root@ + updated@[e]@);
            assert(sorted@[k]@ == worktree_root@ + updated@[e]@);
        }
    }
    sorted
}

/// The entries below a work directory: those in `entries[from..to]`.
spec fn is_run(entries: Seq<RelPath>, root: Seq<Seq<char>>, from: int, to: int) -> bool {
    &&& 0 <= from <= to <= entries.len()
    &&& forall|e: int|
        0 <= e < entries.len() ==> (has_prefix((#[trigger] entries[e])@, root) <==> from <= e < to)
}

/// Finds the run of sorted entries that lie below a work directory.
fn find_run(entries: &Vec<RelPath>, root: &RelPath) -> (run: (usize, usize))
    requires
        is_sorted(entries@),
    ensures
        is_run(entries@, root@, run.0 as int, run.1 as int),
{
    let mut from: usize = 0;
    while from < entries.len() && entries[from].compare(root) == Order::Less
        invariant
            from <= entries@.len(),
            forall|e: int| 0 <= e < from ==> path_lt((#[trigger] entries@[e])@, root@),
        decreases entries@.len() - from,
    {
        from += 1;
    }
    let mut to: usize = from;
    while to < entries.len() && entries[to].starts_with(root)
        invariant
            from <= to <= entries@.len(),
            forall|e: int| from <= e < to ==> has_prefix((#[trigger] entries@[e])@, root@),
        decreases entries@.len() - to,
    {
        to += 1;
    }
    proof {
        assert forall|e: int| 0 <= e < entries@.len() implies (has_prefix(
            (#[trigger] entries@[e])@,
            root@,
        ) <==> from <= e < to) by {
            let path = entries@[e]@;
            if has_prefix(path, root@) {
                prefix_sorts_first(path, root@);
                path_lt_total(path, root@);
                if e >= to {
                    let stop = entries@[to as int]@;
                    assert(entries@[from as int].le(entries@[to as int]));
                    assert(entries@[to as int].le(entries@[e]));
                    path_lt_total(root@, entries@[from as int]@);
                    assert(path_le(root@, entries@[from as int]@));
                    if root@ != entries@[from as int]@ && entries@[from as int]@ != stop {
                        path_lt_transitive(root@, entries@[from as int]@, stop);
                    }
                    below_is_contiguous(root@, stop, path);
                }
            }
        }
    }
    (from, to)
}

/// The path is that of an entry of the run that was not in use before.
spec fn is_picked(
    path: Seq<Seq<char>>,
    entries: Seq<RelPath>,
    used: Seq<bool>,
    root: Seq<Seq<char>>,
    from: int,
    to: int,
) -> bool {
    exists|e: int|
        from <= e < to && !used[e] && path == (#[trigger] entries[e])@.skip(root.len() as int)
}

/// What changed entries of a worktree mean for each repository: the innermost
/// repository of an entry gets its path, relative to its work directory, and the
/// paths of one repository are coalesced.
#[verifier::rlimit(40)]
pub fn process_updated_entries(
    roots: &Vec<RepositoryRoot>,
    worktree_root: &RelPath,
    updated: &Vec<RelPath>,
) -> (changes: Vec<ChangedPaths>)
    ensures
        are_changes(changes@, roots@, worktree_root@, views(updated@)),
{
    let ranked: Vec<RankedRoot> = rank_roots(roots);
    let entries: Vec<RelPath> = absolute_entries(worktree_root, updated);
    let mut used: Vec<bool> = Vec::new();
    while used.len() < entries.len()
        invariant
            used@.len() <= entries@.len(),
            forall|e: int| 0 <= e < used@.len() ==> !#[trigger] used@[e],
        decreases entries@.len() - used@.len(),
    {
        used.push(false);
    }
    let mut changes: Vec<ChangedPaths> = Vec::new();
    let ghost mut of: Seq<int> = Seq::empty();
    let mut r: usize = ranked.len();
    let ghost abs = worktree_root@;
    let ghost given = views(updated@);
    proof {
        assert forall|e: int| 0 <= e < entries@.len() implies used@[e] == taken(
            ranked@,
            r as int,
            (#[trigger] entries@[e])@,
        ) by {
            assert(!used@[e]);
        }
    }
    while r > 0
        invariant
            r <= ranked@.len(),
            abs == worktree_root@,
            given == views(updated@),
            used@.len() == entries@.len(),
            is_sorted(ranked@),
            distinct_ranks(ranked@),
            forall|r: int| 0 <= r < ranked@.len() ==> is_ranked(#[trigger] ranked@[r], roots@),
            ranks_cover(ranked@, roots@),
            is_sorted(entries@),
            forall|e: int|
                #![trigger updated@[e]]
                0 <= e < updated@.len() ==> views(entries@).contains(abs + updated@[e]@),
            forall|k: int|
                0 <= k < entries@.len() ==> is_entry((#[trigger] entries@[k])@, abs, updated@),
            forall|e: int|
                0 <= e < entries@.len() ==> used@[e] == taken(
                    ranked@,
                    r as int,
                    (#[trigger] entries@[e])@,
                ),
            of.len() == changes@.len(),
            of.no_duplicates(),
            forall|k: int|
                0 <= k < of.len() ==> is_change_for(
                    #[trigger] changes@[k],
                    roots@,
                    of[k],
                    abs,
                    given,
                ),
            forall|k: int|
                0 <= k < of.len() ==> rank_from(ranked@, r as int, #[trigger] of[k]),
            forall|q: int|
                r <= q < ranked@.len() && touched(
                    roots@,
                    (#[trigger] ranked@[q]).rank as int,
                    abs,
                    given,
                ) ==> of.contains(ranked@[q].rank as int),
        decreases r,
    {
        r -= 1;
        let ghost before = used@;
        let ghost root = ranked@[r as int].work_directory@;
        let ghost rank = ranked@[r as int].rank as int;
        assert(is_ranked(ranked@[r as int], roots@));
        let (from, to) = find_run(&entries, &ranked[r].work_directory);
        let mut paths: Vec<RepoPath> = Vec::new();
        let mut ix: usize = from;
        while ix < to
            invariant
                from <= ix <= to <= entries@.len(),
                r < ranked@.len(),
                root == ranked@[r as int].work_directory@,
                is_run(entries@, root, from as int, to as int),
                used@.len() == entries@.len(),
                before.len() == entries@.len(),
                forall|e: int| ix <= e < entries@.len() ==> used@[e] == before[e],
                forall|e: int| 0 <= e < from ==> used@[e] == before[e],
                forall|e: int| from <= e < ix ==> #[trigger] used@[e],
                forall|k: int|
                    0 <= k < paths@.len() ==> is_picked(
                        (#[trigger] paths@[k])@,
                        entries@,
                        before,
                        root,
                        from as int,
                        ix as int,
                    ),
                forall|e: int|
                    #![trigger entries@[e]]
                    from <= e < ix && !before[e] ==> views(paths@).contains(
                        entries@[e]@.skip(root.len() as int),
                    ),
            decreases to - ix,
        {
            let ghost paths_before = paths@;
            if !used[ix] {
                used.set(ix, true);
                assert(has_prefix(entries@[ix as int]@, root));
                if let Some(path) = entries[ix].strip_prefix(&ranked[r].work_directory) {
                    paths.push(path);
                }
                assert(paths@.len() == paths_before.len() + 1);
                assert(views(paths@)[paths_before.len() as int] == entries@[ix as int]@.skip(
                    root.len() as int,
                ));
            }
            proof {
                assert forall|k: int| 0 <= k < paths@.len() implies is_picked(
                    (#[trigger] paths@[k])@,
                    entries@,
                    before,
                    root,
                    from as int,
                    ix + 1,
                ) by {
                    if k < paths_before.len() {
                        assert(paths@[k] == paths_before[k]);
                        assert(is_picked(
                            paths_before[k]@,
                            entries@,
                            before,
                            root,
                            from as int,
                            ix as int,
                        ));
                        let e = choose|e: int|
                            from <= e < ix && !before[e] && paths_before[k]@ == (
                            #[trigger] entries@[e])@.skip(root.len() as int);
                        assert(paths@[k]@ == entries@[e]@.skip(root.len() as int));
                    } else {
                        assert(paths@[k]@ == entries@[ix as int]@.skip(root.len() as int));
                    }
                }
                assert forall|e: int| #![trigger entries@[e]]
                    from <= e < ix + 1 && !before[e] implies views(paths@).contains(
                    entries@[e]@.skip(root.len() as int),
                ) by {
                    if e < ix {
                        let p = entries@[e]@.skip(root.len() as int);
                        assert(views(paths_before).contains(p));
                        let k = choose|k: int|
                            0 <= k < views(paths_before).len() && views(paths_before)[k] == p;
                        assert(views(paths@)[k] == p);
                    }
                }
            }
            ix += 1;
        }
        proof {
            assert forall|e: int| 0 <= e < entries@.len() implies used@[e] == taken(
                ranked@,
                r as int,
                (#[trigger] entries@[e])@,
            ) by {
                let path = entries@[e]@;
                assert(before[e] == taken(ranked@, r + 1, path));
                if from <= e < to {
                    assert(used@[e]);
                    assert(has_prefix(path, ranked@[r as int].work_directory@));
                } else {
                    assert(!has_prefix(path, root));
                    if taken(ranked@, r as int, path) {
                        let k = choose|k: int|
                            r <= k < ranked@.len() && has_prefix(
                                path,
                                (#[trigger] ranked@[k]).work_directory@,
                            );
                        assert(k != r);
                    }
                    if taken(ranked@, r + 1, path) {
                        let k = choose|k: int|
                            r + 1 <= k < ranked@.len() && has_prefix(
                                path,
                                (#[trigger] ranked@[k]).work_directory@,
                            );
                        assert(r <= k < ranked@.len());
                    }
                }
            }
            // The paths are those that the repository owns.
            let owned = owned_paths(roots@, rank, abs, given);
            assert forall|p: Seq<Seq<char>>| #[trigger]
                views(paths@).contains(p) <==> owned.contains(p) by {
                if views(paths@).contains(p) {
                    let k = choose|k: int| 0 <= k < views(paths@).len() && views(paths@)[k] == p;
                    assert(paths@[k]@ == p);
                    assert(is_picked(
                        paths@[k]@,
                        entries@,
                        before,
                        root,
                        from as int,
                        to as int,
                    ));
                    let e = choose|e: int|
                        from <= e < to && !before[e] && paths@[k]@ == (
                        #[trigger] entries@[e])@.skip(root.len() as int);
                    assert(is_entry(entries@[e]@, abs, updated@));
                    let u = choose|u: int|
                        0 <= u < updated@.len() && entries@[e]@ == abs + (
                        #[trigger] updated@[u])@;
                    assert(given[u] == updated@[u]@);
                    lemma_owner(roots@, ranked@, r as int, entries@[e]@);
                    assert(owns(roots@, rank, abs + given[u]));
                }
                if owned.contains(p) {
                    let u = choose|u: int|
                        0 <= u < given.len() && owns(roots@, rank, abs + #[trigger] given[u]) && p
                            == (abs + given[u]).skip(roots@[rank].work_directory@.len() as int);
                    let path = abs + given[u];
                    assert(given[u] == updated@[u]@);
                    assert(views(entries@).contains(path));
                    let e = choose|e: int|
                        0 <= e < views(entries@).len() && views(entries@)[e] == path;
                    assert(entries@[e]@ == path);
                    assert(holds(roots@, rank, path));
                    lemma_owner(roots@, ranked@, r as int, path);
                    assert(from <= e < to);
                    assert(!before[e]);
                }
            }
            assert(views(paths@).to_set() =~= owned);
        }
        let ghost hit = touched(roots@, rank, abs, given);
        proof {
            if from < to {
                assert(is_entry(entries@[from as int]@, abs, updated@));
                let u = choose|u: int|
                    0 <= u < updated@.len() && entries@[from as int]@ == abs + (
                    #[trigger] updated@[u])@;
                assert(given[u] == updated@[u]@);
                assert(has_prefix(entries@[from as int]@, root));
                assert(holds(roots@, rank, abs + given[u]));
            }
            if hit {
                let u = choose|u: int|
                    0 <= u < given.len() && holds(roots@, rank, abs + #[trigger] given[u]);
                assert(given[u] == updated@[u]@);
                assert(views(entries@).contains(abs + given[u]));
                let e = choose|e: int|
                    0 <= e < views(entries@).len() && views(entries@)[e] == abs + given[u];
                assert(has_prefix(entries@[e]@, root));
            }
        }
        let ghost of_before = of;
        if from < to {
            let coalesced: Vec<RepoPath> = coalesce_repo_paths(paths);
            changes.push(ChangedPaths { repository: ranked[r].id, paths: coalesced });
            proof {
                of = of.push(rank);
                assert forall|k: int| 0 <= k < of_before.len() implies of_before[k] != rank by {
                    assert(rank_from(ranked@, r + 1, of_before[k]));
                    let q = choose|q: int|
                        r + 1 <= q < ranked@.len() && (#[trigger] ranked@[q]).rank
                            == of_before[k];
                    assert(ranked@[r as int].rank != ranked@[q].rank);
                }
                assert(of.no_duplicates());
                assert(is_change_for(changes@[changes@.len() - 1], roots@, rank, abs, given));
            }
        }
        proof {
            assert forall|k: int| 0 <= k < of.len() implies rank_from(
                ranked@,
                r as int,
                #[trigger] of[k],
            ) by {
                if k < of_before.len() {
                    assert(of[k] == of_before[k]);
                    assert(rank_from(ranked@, r + 1, of_before[k]));
                    let q = choose|q: int|
                        r + 1 <= q < ranked@.len() && (#[trigger] ranked@[q]).rank
                            == of_before[k];
                    assert(ranked@[q].rank == of[k]);
                } else {
                    assert(ranked@[r as int].rank == of[k]);
                }
            }
            assert forall|q: int|
                r <= q < ranked@.len() && touched(
                    roots@,
                    (#[trigger] ranked@[q]).rank as int,
                    abs,
                    given,
                ) implies of.contains(ranked@[q].rank as int) by {
                if q == r {
                    assert(of[of.len() - 1] == rank);
                } else {
                    let x = ranked@[q].rank as int;
                    assert(of_before.contains(x));
                    let k = choose|k: int| 0 <= k < of_before.len() && of_before[k] == x;
                    assert(of[k] == x);
                }
            }
        }
    }
    proof {
        assert forall|i: int| #[trigger] touched(roots@, i, abs, given) implies of.contains(i) by {
            let u = choose|u: int|
                0 <= u < given.len() && holds(roots@, i, abs + #[trigger] given[u]);
            assert(has_rank(ranked@, i));
            let q = choose|q: int| 0 <= q < ranked@.len() && (#[trigger] ranked@[q]).rank == i;
            assert(ranked@[q].rank as int == i);
        }
        assert(of.no_duplicates());
    }
    changes
}

proof fn lemma_coalesced_covers(
    result: Seq<Seq<Seq<char>>>,
    paths: Set<Seq<Seq<char>>>,
    path: Seq<Seq<char>>,
) -> (at: int)
    requires
        is_coalesced(result, paths),
        paths.contains(path),
    ensures
        0 <= at < result.len(),
        has_prefix(path, result[at]),
    decreases path.len(),
{
    if result.contains(path) {
        let at = choose|at: int| 0 <= at < result.len() && result[at] == path;
        assert(path.take(path.len() as int) =~= path);
        at
    } else {
        let around = choose|q: Seq<Seq<char>>| #[trigger]
            paths.contains(q) && q != path && has_prefix(path, q);
        if around.len() == path.len() {
            assert(path.take(path.len() as int) =~= path);
        }
        let at = lemma_coalesced_covers(result, paths, around);
        has_prefix_transitive(path, around, result[at]);
        at
    }
}

/// Coalescing leaves paths of the list, none of them below another, and every path of the list
/// lies below one that is left or is left itself.
pub proof fn coalesced_paths_stand_for_all(
    paths: Vec<RepoPath>,
    coalesced: Vec<RepoPath>,
    i: int,
    a: int,
    b: int,
)
    requires
        call_ensures(coalesce_repo_paths, (paths,), coalesced),
    ensures
        0 <= i < paths@.len() ==> exists|at: int|
            0 <= at < coalesced@.len() && paths@[i]@.len() >= (#[trigger] coalesced@[at])@.len()
                && paths@[i]@.take(coalesced@[at]@.len() as int) == coalesced@[at]@,
        0 <= a < coalesced@.len() ==> exists|at: int|
            0 <= at < paths@.len() && (#[trigger] paths@[at])@ == coalesced@[a]@,
        0 <= a < coalesced@.len() && 0 <= b < coalesced@.len() && a != b ==> !(coalesced@[b]@.len()
            >= coalesced@[a]@.len() && coalesced@[b]@.take(coalesced@[a]@.len() as int)
            == coalesced@[a]@),
{
    let given = views(paths@);
    let left = views(coalesced@);
    if 0 <= i < paths@.len() {
        assert(given[i] == paths@[i]@);
        assert(given.to_set().contains(given[i]));
        let at = lemma_coalesced_covers(left, given.to_set(), given[i]);
        assert(left[at] == coalesced@[at]@);
    }
    if 0 <= a < coalesced@.len() {
        assert(left[a] == coalesced@[a]@);
        assert(left.contains(left[a]));
        assert(given.to_set().contains(left[a]));
        let at = choose|at: int| 0 <= at < given.len() && given[at] == left[a];
        assert(paths@[at]@ == coalesced@[a]@);
        if 0 <= b < coalesced@.len() && a != b {
            assert(left[b] == coalesced@[b]@);
            assert(left.contains(left[b]));
            path_lt_total(left[a], left[a]);
            if a < b {
                assert(path_lt(left[a], left[b]));
            } else {
                assert(path_lt(left[b], left[a]));
            }
            assert(left[a] != left[b]);
        }
    }
}

/// A changed entry is told to the innermost repository that holds it: that repository is told of
/// the path of the entry inside it, or of a directory above it.
pub proof fn changed_entries_reach_the_innermost_repository(
    roots: Vec<RepositoryRoot>,
    worktree_root: RelPath,
    updated: Vec<RelPath>,
    changes: Vec<ChangedPaths>,
    e: int,
    i: int,
    inside: Seq<Seq<char>>,
)
    requires
        call_ensures(process_updated_entries, (&roots, &worktree_root, &updated), changes),
        0 <= e < updated@.len(),
        0 <= i < roots@.len(),
        roots@[i].work_directory@ + inside == worktree_root@ + updated@[e]@,
        forall|j: int|
            0 <= j < roots@.len() && j != i && has_prefix(
                worktree_root@ + updated@[e]@,
                (#[trigger] roots@[j]).work_directory@,
            ) ==> roots@[j].work_directory@.len() < roots@[i].work_directory@.len(),
    ensures
        exists|k: int, m: int|
            0 <= k < changes@.len() && 0 <= m < changes@[k].paths@.len() && changes@[k].repository
                == roots@[i].id && has_prefix(inside, #[trigger] changes@[k].paths@[m]@),
{
    let path = worktree_root@ + updated@[e]@;
    let dir = roots@[i].work_directory@;
    let entries = views(updated@);
    assert(entries[e] == updated@[e]@);
    assert(path.take(dir.len() as int) =~= dir);
    assert(path.skip(dir.len() as int) =~= inside);
    assert(holds(roots@, i, path));
    assert(owns(roots@, i, path)) by {
        assert forall|j: int| #[trigger] holds(roots@, j, path) implies has_prefix(
            dir,
            roots@[j].work_directory@,
        ) && (roots@[j].work_directory@ == dir ==> j <= i) by {
            if j != i {
                assert(roots@[j].work_directory@.len() < dir.len());
            }
            prefixes_nest(path, roots@[j].work_directory@, dir);
        }
    }
    assert(holds(roots@, i, worktree_root@ + entries[e]));
    assert(touched(roots@, i, worktree_root@, entries));
    let of = choose|of: Seq<int>| #[trigger]
        of.no_duplicates() && of.len() == changes@.len() && (forall|k: int|
            0 <= k < of.len() ==> is_change_for(
                #[trigger] changes@[k],
                roots@,
                of[k],
                worktree_root@,
                entries,
            )) && (forall|i: int| #[trigger]
            touched(roots@, i, worktree_root@, entries) ==> of.contains(i));
    let k = choose|k: int| 0 <= k < of.len() && of[k] == i;
    assert(is_change_for(changes@[k], roots@, i, worktree_root@, entries));
    let owned = owned_paths(roots@, i, worktree_root@, entries);
    assert(owned.contains(inside)) by {
        assert(owns(roots@, i, worktree_root@ + entries[e]));
    }
    let m = lemma_coalesced_covers(views(changes@[k].paths@), owned, inside);
    assert(views(changes@[k].paths@)[m] == changes@[k].paths@[m]@);
}

/// A path that a repository is told of is that of a changed entry inside its work directory, and
/// no repository that lies deeper holds that entry.
pub proof fn told_paths_are_changed_entries(
    roots: Vec<RepositoryRoot>,
    worktree_root: RelPath,
    updated: Vec<RelPath>,
    changes: Vec<ChangedPaths>,
    k: int,
    m: int,
) -> (found: (int, int))
    requires
        call_ensures(process_updated_entries, (&roots, &worktree_root, &updated), changes),
        0 <= k < changes@.len(),
        0 <= m < changes@[k].paths@.len(),
    ensures
        ({
            let (i, e) = found;
            &&& 0 <= i < roots@.len()
            &&& 0 <= e < updated@.len()
            &&& changes@[k].repository == roots@[i].id
            &&& roots@[i].work_directory@ + changes@[k].paths@[m]@ == worktree_root@
                + updated@[e]@
            &&& forall|j: int|
                0 <= j < roots@.len() && has_prefix(
                    worktree_root@ + updated@[e]@,
                    (#[trigger] roots@[j]).work_directory@,
                ) ==> roots@[j].work_directory@.len() <= roots@[i].work_directory@.len()
        }),
{
    let entries = views(updated@);
    let of = choose|of: Seq<int>| #[trigger]
        of.no_duplicates() && of.len() == changes@.len() && (forall|k: int|
            0 <= k < of.len() ==> is_change_for(
                #[trigger] changes@[k],
                roots@,
                of[k],
                worktree_root@,
                entries,
            )) && (forall|i: int| #[trigger]
            touched(roots@, i, worktree_root@, entries) ==> of.contains(i));
    let i = of[k];
    assert(is_change_for(changes@[k], roots@, i, worktree_root@, entries));
    let told = views(changes@[k].paths@);
    assert(told[m] == changes@[k].paths@[m]@);
    assert(told.contains(told[m]));
    let owned = owned_paths(roots@, i, worktree_root@, entries);
    assert(owned.contains(told[m]));
    let e = choose|e: int|
        0 <= e < entries.len() && owns(roots@, i, worktree_root@ + #[trigger] entries[e]) && told[m]
            == (worktree_root@ + entries[e]).skip(roots@[i].work_directory@.len() as int);
    assert(entries[e] == updated@[e]@);
    let path = worktree_root@ + updated@[e]@;
    let dir = roots@[i].work_directory@;
    assert(path.take(dir.len() as int) =~= dir);
    assert(dir + path.skip(dir.len() as int) =~= path);
    assert forall|j: int|
        0 <= j < roots@.len() && has_prefix(path, (#[trigger] roots@[j]).work_directory@) implies
        roots@[j].work_directory@.len() <= dir.len() by {
        assert(holds(roots@, j, path));
    }
    (i, e)
}

} // verus!
