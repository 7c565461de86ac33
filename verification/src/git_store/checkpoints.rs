//! Checkpoints of all repositories of a project.
use std::collections::BTreeMap;
use vstd::prelude::*;

use crate::git_store::registry::{dirs_view, DirsView, GitStore, RepositoryDirs};
use crate::git_store::wire::Oid;
use crate::git_store::RepositoryId;
use crate::ids::{ascending, map_get, map_keys};
use crate::list_map::{
    entry_is_found, has_distinct_keys, key_is_found, lookup, lookup_finds_entry, ListMap,
};
use crate::rel_path::RelPath;

verus! {

/// A checkpoint of each repository, by its work directory.
#[derive(Debug)]
pub struct GitStoreCheckpoint {
    pub checkpoints: ListMap<RelPath, Oid>,
}

/// The work directories with their checkpoints, as far as both are given.
pub open spec fn paired(dirs: Seq<Seq<Seq<char>>>, checkpoints: Seq<Oid>) -> Map<
    Seq<Seq<char>>,
    Oid,
>
    decreases dirs.len(),
{
    if dirs.len() == 0 || checkpoints.len() == 0 {
        Map::empty()
    } else if dirs.len() <= checkpoints.len() {
        paired(dirs.drop_last(), checkpoints).insert(dirs.last(), checkpoints[dirs.len() - 1])
    } else {
        paired(dirs.drop_last(), checkpoints)
    }
}

/// Directories without a checkpoint are left out.
proof fn lemma_paired_end(dirs: Seq<Seq<Seq<char>>>, checkpoints: Seq<Oid>, n: int)
    requires
        checkpoints.len() <= n <= dirs.len(),
    ensures
        paired(dirs.take(n), checkpoints) == paired(
            dirs.take(checkpoints.len() as int),
            checkpoints,
        ),
    decreases n,
{
    if n > checkpoints.len() {
        assert(dirs.take(n).drop_last() =~= dirs.take(n - 1));
        lemma_paired_end(dirs, checkpoints, n - 1);
    }
}

/// The repository with the lowest identifier that has this work directory.
pub open spec fn is_repository_at(
    repositories: Map<u64, DirsView>,
    dir: Seq<Seq<char>>,
    id: u64,
) -> bool {
    &&& repositories.contains_key(id)
    &&& repositories[id].work_directory == dir
    &&& forall|other: u64| #[trigger]
        repositories.contains_key(other) && repositories[other].work_directory == dir ==> id
            <= other
}

pub open spec fn repository_at(repositories: Map<u64, DirsView>, dir: Seq<Seq<char>>) -> Option<
    u64,
> {
    if exists|id: u64| #[trigger] is_repository_at(repositories, dir, id) {
        Some(choose|id: u64| #[trigger] is_repository_at(repositories, dir, id))
    } else {
        None
    }
}

/// Finds a repository by its work directory.
fn find_repository(repositories: &BTreeMap<u64, RepositoryDirs>, dir: &RelPath) -> (found: Option<
    u64,
>)
    ensures
        found == repository_at(dirs_view(repositories@), dir@),
{
    let keys: Vec<u64> = map_keys(repositories);
    let ghost views = dirs_view(repositories@);
    let mut i: usize = 0;
    while i < keys.len()
        invariant
            i <= keys@.len(),
            ascending(keys@),
            views == dirs_view(repositories@),
            forall|k: u64| #[trigger] keys@.contains(k) <==> repositories@.contains_key(k),
            forall|j: int| 0 <= j < i ==> views[#[trigger] keys@[j]].work_directory != dir@,
        decreases keys@.len() - i,
    {
        let id: u64 = keys[i];
        assert(keys@.contains(keys@[i as int]));
        if let Some(dirs) = map_get(repositories, id) {
            assert(views[id] == dirs@);
            if dirs.work_directory.same_as(dir) {
                proof {
                    assert forall|other: u64| #[trigger]
                        views.contains_key(other) && views[other].work_directory
                            == dir@ implies id <= other by {
                        assert(keys@.contains(other));
                        let j = choose|j: int| 0 <= j < keys@.len() && keys@[j] == other;
                        assert(views[keys@[j]].work_directory == dir@);
                        if j > i {
                            assert(keys@[i as int] < keys@[j]);
                        }
                    }
                    assert(is_repository_at(views, dir@, id));
                    let chosen = choose|id: u64| #[trigger] is_repository_at(views, dir@, id);
                    assert(is_repository_at(views, dir@, chosen));
                }
                return Some(id);
            }
        }
        i += 1;
    }
    proof {
        assert forall|id: u64| !#[trigger] is_repository_at(views, dir@, id) by {
            if is_repository_at(views, dir@, id) {
                assert(keys@.contains(id));
                let j = choose|j: int| 0 <= j < keys@.len() && keys@[j] == id;
                assert(views[keys@[j]].work_directory == dir@);
            }
        }
    }
    None
}

/// A repository to bring back to a checkpoint.
#[derive(Clone, Copy, Debug, PartialEq, Eq, Structural)]
pub struct Restoration {
    pub repository: RepositoryId,
    pub checkpoint: Oid,
}

/// The repositories that the entries of a checkpoint speak of.
pub open spec fn restorations(
    repositories: Map<u64, DirsView>,
    entries: Seq<(RelPath, Oid)>,
) -> Seq<Restoration>
    decreases entries.len(),
{
    if entries.len() == 0 {
        Seq::empty()
    } else {
        let earlier = restorations(repositories, entries.drop_last());
        match repository_at(repositories, entries.last().0@) {
            Some(id) => earlier.push(
                Restoration { repository: RepositoryId(id), checkpoint: entries.last().1 },
            ),
            None => earlier,
        }
    }
}

/// Two checkpoints of one repository.
#[derive(Clone, Copy, Debug, PartialEq, Eq, Structural)]
pub struct CheckpointPair {
    pub repository: RepositoryId,
    pub left: Oid,
    pub right: Oid,
}

/// What the comparison of two checkpoints comes down to.
#[derive(Debug)]
pub enum CheckpointComparison {
    /// One of them covers a work directory that the other does not.
    Different,
    /// They are equal if each of these pairs is.
    Pairs(Vec<CheckpointPair>),
}

/// Two checkpoints cover the same work directories.
pub open spec fn same_directories(left: GitStoreCheckpoint, right: GitStoreCheckpoint) -> bool {
    left.checkpoints@.dom() == right.checkpoints@.dom()
}

/// Whether a checkpoint covers whatever another one does.
fn covers(larger: &GitStoreCheckpoint, smaller: &GitStoreCheckpoint) -> (covered: bool)
    ensures
        covered == smaller.checkpoints@.dom().subset_of(larger.checkpoints@.dom()),
{
    let entries: &Vec<(RelPath, Oid)> = &smaller.checkpoints.entries;
    let mut i: usize = 0;
    while i < entries.len()
        invariant
            i <= entries@.len(),
            entries@ == smaller.checkpoints.entries@,
            forall|k: int|
                0 <= k < i ==> larger.checkpoints@.contains_key((#[trigger] entries@[k]).0@),
        decreases entries@.len() - i,
    {
        if !larger.checkpoints.contains_key(&entries[i].0) {
            proof {
                key_is_found(entries@, i as int);
                assert(smaller.checkpoints@.dom().contains(entries@[i as int].0@));
            }
            return false;
        }
        i += 1;
    }
    proof {
        assert forall|dir: Seq<Seq<char>>| smaller.checkpoints@.dom().contains(
            dir,
        ) implies larger.checkpoints@.dom().contains(dir) by {
            let at = lookup_finds_entry(entries@, dir);
            assert(larger.checkpoints@.contains_key(entries@[at].0@));
        }
    }
    true
}

/// The pairs to compare, for the repositories that are known.
pub open spec fn checkpoint_pairs(
    repositories: Map<u64, DirsView>,
    left: Seq<(RelPath, Oid)>,
    right: Map<Seq<Seq<char>>, Oid>,
) -> Seq<CheckpointPair>
    decreases left.len(),
{
    if left.len() == 0 {
        Seq::empty()
    } else {
        let earlier = checkpoint_pairs(repositories, left.drop_last(), right);
        match repository_at(repositories, left.last().0@) {
            Some(id) => earlier.push(
                CheckpointPair {
                    repository: RepositoryId(id),
                    left: left.last().1,
                    right: right[left.last().0@],
                },
            ),
            None => earlier,
        }
    }
}

/// Each pair holds the same checkpoint twice.
pub open spec fn compares_equals(pairs: Seq<CheckpointPair>) -> bool {
    forall|i: int| 0 <= i < pairs.len() ==> (#[trigger] pairs[i]).left == pairs[i].right
}

impl GitStoreCheckpoint {
    /// No work directory is covered twice.
    pub open spec fn well_formed(self) -> bool {
        has_distinct_keys(self.checkpoints.entries@)
    }

    /// Puts the checkpoints of repositories together.
    pub fn collect(work_directories: Vec<RelPath>, checkpoints: Vec<Oid>) -> (checkpoint: Self)
        ensures
            checkpoint.well_formed(),
            checkpoint.checkpoints@ == paired(
                crate::git_store::changed_paths::views(work_directories@),
                checkpoints@,
            ),
    {
        let ghost dirs = crate::git_store::changed_paths::views(work_directories@);
        let mut map: ListMap<RelPath, Oid> = ListMap::new();
        let mut i: usize = 0;
        while i < work_directories.len() && i < checkpoints.len()
            invariant
                i <= work_directories@.len(),
                i <= checkpoints@.len(),
                dirs == crate::git_store::changed_paths::views(work_directories@),
                has_distinct_keys(map.entries@),
                map@ == paired(dirs.take(i as int), checkpoints@),
            decreases work_directories@.len() - i,
        {
            assert(dirs.take(i + 1).drop_last() =~= dirs.take(i as int));
            assert(dirs.take(i + 1).last() == work_directories@[i as int]@);
            map.insert(work_directories[i].clone(), checkpoints[i]);
            i += 1;
        }
        proof {
            if i == checkpoints@.len() {
                lemma_paired_end(dirs, checkpoints@, dirs.len() as int);
            }
            assert(dirs.take(dirs.len() as int) =~= dirs);
        }
        GitStoreCheckpoint { checkpoints: map }
    }
}

impl GitStore {
    /// The work directories of all repositories: what to take checkpoints of.
    pub fn checkpoint(&self) -> (repositories: Vec<(RepositoryId, RelPath)>)
        ensures
            forall|i: int|
                0 <= i < repositories@.len() ==> self.repositories@.contains_key(
                    (#[trigger] repositories@[i]).0.0,
                ) && repositories@[i].1@ == self@.repositories[repositories@[i].0.0].work_directory,
            forall|id: u64| #[trigger]
                self.repositories@.contains_key(id) ==> exists|i: int|
                    0 <= i < repositories@.len() && (#[trigger] repositories@[i]).0 == RepositoryId(
                        id,
                    ),
            forall|i: int, j: int|
                0 <= i < j < repositories@.len() ==> (#[trigger] repositories@[i]).0.0 < (
                #[trigger] repositories@[j]).0.0,
    {
        let keys: Vec<u64> = map_keys(&self.repositories);
        let mut repositories: Vec<(RepositoryId, RelPath)> = Vec::new();
        let mut i: usize = 0;
        while i < keys.len()
            invariant
                i <= keys@.len(),
                ascending(keys@),
                forall|k: u64| #[trigger] keys@.contains(k) <==> self.repositories@.contains_key(k),
                repositories@.len() == i,
                forall|j: int|
                    0 <= j < i ==> (#[trigger] repositories@[j]).0.0 == keys@[j]
                        && repositories@[j].1@ == self@.repositories[keys@[j]].work_directory,
            decreases keys@.len() - i,
        {
            let id: u64 = keys[i];
            assert(keys@.contains(keys@[i as int]));
            if let Some(dirs) = map_get(&self.repositories, id) {
                assert(self@.repositories[id] == dirs@);
                repositories.push((RepositoryId(id), dirs.work_directory.clone()));
            }
            i += 1;
        }
        proof {
            assert forall|j: int| 0 <= j < repositories@.len() implies self.repositories@.contains_key(
            (#[trigger] repositories@[j]).0.0) by {
                assert(keys@.contains(keys@[j]));
            }
            assert forall|id: u64| #[trigger] self.repositories@.contains_key(id) implies exists|
                i: int,
            |
                0 <= i < repositories@.len() && (#[trigger] repositories@[i]).0 == RepositoryId(
                    id,
                ) by {
                assert(keys@.contains(id));
                let j = choose|j: int| 0 <= j < keys@.len() && keys@[j] == id;
                assert(repositories@[j].0 == RepositoryId(id));
            }
        }
        repositories
    }

    /// Which repositories a checkpoint brings back, and to what. Work directories that no
    /// repository has are passed over.
    pub fn restore_checkpoint(&self, checkpoint: &GitStoreCheckpoint) -> (restore: Vec<Restoration>)
        ensures
            restore@ == restorations(self@.repositories, checkpoint.checkpoints.entries@),
    {
        let entries: &Vec<(RelPath, Oid)> = &checkpoint.checkpoints.entries;
        let mut restore: Vec<Restoration> = Vec::new();
        let mut i: usize = 0;
        while i < entries.len()
            invariant
                i <= entries@.len(),
                restore@ == restorations(self@.repositories, entries@.take(i as int)),
            decreases entries@.len() - i,
        {
            assert(entries@.take(i + 1).drop_last() =~= entries@.take(i as int));
            assert(entries@.take(i + 1).last() == entries@[i as int]);
            if let Some(id) = find_repository(&self.repositories, &entries[i].0) {
                restore.push(
                    Restoration { repository: RepositoryId(id), checkpoint: entries[i].1 },
                );
            }
            i += 1;
        }
        assert(entries@.take(i as int) =~= entries@);
        restore
    }

    /// What has to be compared to tell whether two checkpoints are equal. Checkpoints that do
    /// not cover the same work directories are different.
    pub fn compare_checkpoints(&self, left: &GitStoreCheckpoint, right: &GitStoreCheckpoint) -> (
    comparison: CheckpointComparison)
        ensures
            comparison is Different <==> !same_directories(*left, *right),
            comparison matches CheckpointComparison::Pairs(pairs) ==> pairs@ == checkpoint_pairs(
                self@.repositories,
                left.checkpoints.entries@,
                right.checkpoints@,
            ),
    {
        let is_covered: bool = covers(right, left);
        let is_covering: bool = covers(left, right);
        if !is_covered || !is_covering {
            return CheckpointComparison::Different;
        }
        assert(left.checkpoints@.dom() =~= right.checkpoints@.dom());
        let entries: &Vec<(RelPath, Oid)> = &left.checkpoints.entries;
        let mut pairs: Vec<CheckpointPair> = Vec::new();
        let mut i: usize = 0;
        while i < entries.len()
            invariant
                i <= entries@.len(),
                entries@ == left.checkpoints.entries@,
                same_directories(*left, *right),
                pairs@ == checkpoint_pairs(
                    self@.repositories,
                    entries@.take(i as int),
                    right.checkpoints@,
                ),
            decreases entries@.len() - i,
        {
            assert(entries@.take(i + 1).drop_last() =~= entries@.take(i as int));
            assert(entries@.take(i + 1).last() == entries@[i as int]);
            proof {
                key_is_found(entries@, i as int);
                assert(left.checkpoints@.dom().contains(entries@[i as int].0@));
            }
            if let Some(other) = right.checkpoints.get(&entries[i].0) {
                if let Some(id) = find_repository(&self.repositories, &entries[i].0) {
                    pairs.push(
                        CheckpointPair {
                            repository: RepositoryId(id),
                            left: entries[i].1,
                            right: *other,
                        },
                    );
                }
            }
            i += 1;
        }
        assert(entries@.take(i as int) =~= entries@);
        CheckpointComparison::Pairs(pairs)
    }
}

/// Every result is positive.
pub open spec fn are_all_true(results: Seq<bool>) -> bool {
    forall|i: int| 0 <= i < results.len() ==> #[trigger] results[i]
}

/// Two checkpoints are equal if all their pairs are.
pub fn all_equal(results: &Vec<bool>) -> (equal: bool)
    ensures
        equal == are_all_true(results@),
{
    let mut i: usize = 0;
    while i < results.len()
        invariant
            i <= results@.len(),
            forall|k: int| 0 <= k < i ==> #[trigger] results@[k],
        decreases results@.len() - i,
    {
        if !results[i] {
            return false;
        }
        i += 1;
    }
    true
}

proof fn lemma_restoration_is_listed(
    repositories: Map<u64, DirsView>,
    entries: Seq<(RelPath, Oid)>,
    at: int,
    id: u64,
)
    requires
        0 <= at < entries.len(),
        repository_at(repositories, entries[at].0@) == Some(id),
    ensures
        restorations(repositories, entries).contains(
            Restoration { repository: RepositoryId(id), checkpoint: entries[at].1 },
        ),
    decreases entries.len(),
{
    let wanted = Restoration { repository: RepositoryId(id), checkpoint: entries[at].1 };
    let all = restorations(repositories, entries);
    if at == entries.len() - 1 {
        assert(all[all.len() - 1] == wanted);
    } else {
        lemma_restoration_is_listed(repositories, entries.drop_last(), at, id);
        let earlier = restorations(repositories, entries.drop_last());
        let k = earlier.index_of(wanted);
        assert(all[k] == wanted);
    }
}

/// A checkpoint brings each repository that it covers back to what was taken of it.
pub proof fn covered_repositories_are_restored(
    repositories: Map<u64, DirsView>,
    checkpoint: GitStoreCheckpoint,
    id: u64,
    dir: Seq<Seq<char>>,
)
    requires
        repository_at(repositories, dir) == Some(id),
        checkpoint.checkpoints@.contains_key(dir),
    ensures
        restorations(repositories, checkpoint.checkpoints.entries@).contains(
            Restoration {
                repository: RepositoryId(id),
                checkpoint: checkpoint.checkpoints@[dir],
            },
        ),
{
    let entries = checkpoint.checkpoints.entries@;
    assert(lookup(entries, dir) is Some);
    let at = lookup_finds_entry(entries, dir);
    lemma_restoration_is_listed(repositories, entries, at, id);
}

proof fn lemma_pairs_are_equal(
    repositories: Map<u64, DirsView>,
    checkpoint: GitStoreCheckpoint,
    n: int,
    i: int,
)
    requires
        checkpoint.well_formed(),
        0 <= n <= checkpoint.checkpoints.entries@.len(),
        0 <= i < checkpoint_pairs(
            repositories,
            checkpoint.checkpoints.entries@.take(n),
            checkpoint.checkpoints@,
        ).len(),
    ensures
        ({
            let pair = checkpoint_pairs(
                repositories,
                checkpoint.checkpoints.entries@.take(n),
                checkpoint.checkpoints@,
            )[i];
            pair.left == pair.right
        }),
    decreases n,
{
    let entries = checkpoint.checkpoints.entries@;
    let map = checkpoint.checkpoints@;
    if n > 0 {
        assert(entries.take(n).drop_last() =~= entries.take(n - 1));
        assert(entries.take(n).last() == entries[n - 1]);
        entry_is_found(entries, n - 1);
        let earlier = checkpoint_pairs(repositories, entries.take(n - 1), map);
        if i < earlier.len() {
            lemma_pairs_are_equal(repositories, checkpoint, n - 1, i);
        }
    }
}

/// A checkpoint is not told from itself without a look at its pairs, and each of them
/// compares a checkpoint with itself.
pub proof fn checkpoint_equals_itself(
    repositories: Map<u64, DirsView>,
    checkpoint: GitStoreCheckpoint,
)
    requires
        checkpoint.well_formed(),
    ensures
        same_directories(checkpoint, checkpoint),
        compares_equals(
            checkpoint_pairs(
                repositories,
                checkpoint.checkpoints.entries@,
                checkpoint.checkpoints@,
            ),
        ),
{
    let entries = checkpoint.checkpoints.entries@;
    let pairs = checkpoint_pairs(repositories, entries, checkpoint.checkpoints@);
    assert(entries.take(entries.len() as int) =~= entries);
    assert forall|i: int| 0 <= i < pairs.len() implies (#[trigger] pairs[i]).left
        == pairs[i].right by {
        lemma_pairs_are_equal(repositories, checkpoint, entries.len() as int, i);
    }
}

proof fn lemma_paired(dirs: Seq<Seq<Seq<char>>>, checkpoints: Seq<Oid>, i: int)
    requires
        0 <= i < dirs.len(),
        i < checkpoints.len(),
        forall|j: int| i < j < dirs.len() ==> #[trigger] dirs[j] != dirs[i],
    ensures
        paired(dirs, checkpoints).contains_key(dirs[i]),
        paired(dirs, checkpoints)[dirs[i]] == checkpoints[i],
    decreases dirs.len(),
{
    if i < dirs.len() - 1 {
        let earlier = dirs.drop_last();
        assert(dirs[dirs.len() - 1] != dirs[i]);
        assert forall|j: int| i < j < earlier.len() implies #[trigger] earlier[j] != earlier[i] by {
            assert(dirs[j] != dirs[i]);
        }
        lemma_paired(earlier, checkpoints, i);
    }
}

proof fn lemma_paired_from(dirs: Seq<Seq<Seq<char>>>, checkpoints: Seq<Oid>, dir: Seq<Seq<char>>)
    requires
        paired(dirs, checkpoints).contains_key(dir),
    ensures
        dirs.contains(dir),
    decreases dirs.len(),
{
    if dirs.len() > 0 && checkpoints.len() > 0 {
        if dirs.len() <= checkpoints.len() && dirs.last() == dir {
            assert(dirs[dirs.len() - 1] == dir);
        } else {
            lemma_paired_from(dirs.drop_last(), checkpoints, dir);
            let k = choose|k: int|
                0 <= k < dirs.drop_last().len() && dirs.drop_last()[k] == dir;
            assert(dirs[k] == dir);
        }
    }
}

/// A checkpoint has, for each work directory, the one that was taken there, and covers no other
/// directory.
pub proof fn checkpoints_belong_to_their_directories(
    work_directories: Vec<RelPath>,
    checkpoints: Vec<Oid>,
    checkpoint: GitStoreCheckpoint,
    i: int,
    dir: Seq<Seq<char>>,
)
    requires
        call_ensures(GitStoreCheckpoint::collect, (work_directories, checkpoints), checkpoint),
        work_directories@.len() == checkpoints@.len(),
        forall|a: int, b: int|
            0 <= a < b < work_directories@.len() ==> (#[trigger] work_directories@[a])@ != (
            #[trigger] work_directories@[b])@,
    ensures
        0 <= i < work_directories@.len() ==> checkpoint.checkpoints@.contains_key(
            work_directories@[i]@,
        ) && checkpoint.checkpoints@[work_directories@[i]@] == checkpoints@[i],
        (forall|j: int|
            0 <= j < work_directories@.len() ==> (#[trigger] work_directories@[j])@ != dir)
            ==> !checkpoint.checkpoints@.contains_key(dir),
{
    let dirs = crate::git_store::changed_paths::views(work_directories@);
    assert forall|j: int| 0 <= j < dirs.len() implies #[trigger] dirs[j] == work_directories@[j]@ by {
    }
    if 0 <= i < work_directories@.len() {
        lemma_paired(dirs, checkpoints@, i);
    }
    if checkpoint.checkpoints@.contains_key(dir) {
        lemma_paired_from(dirs, checkpoints@, dir);
        let k = choose|k: int| 0 <= k < dirs.len() && dirs[k] == dir;
        assert(work_directories@[k]@ == dir);
    }
}

/// Checkpoints are taken of every repository, each at its work directory.
pub proof fn every_repository_is_recorded(
    store: GitStore,
    repositories: Vec<(RepositoryId, RelPath)>,
    id: u64,
    i: int,
)
    requires
        call_ensures(GitStore::checkpoint, (&store,), repositories),
    ensures
        store.repositories@.contains_key(id) ==> exists|at: int|
            0 <= at < repositories@.len() && (#[trigger] repositories@[at]).0.0 == id,
        0 <= i < repositories@.len() ==> store.repositories@.contains_key(repositories@[i].0.0)
            && repositories@[i].1@ == store.repositories@[repositories@[i].0.0].work_directory@,
{
    if store.repositories@.contains_key(id) {
        let at = choose|at: int|
            0 <= at < repositories@.len() && (#[trigger] repositories@[at]).0 == RepositoryId(id);
        assert(repositories@[at].0.0 == id);
    }
}

proof fn lemma_restorations_from(
    repositories: Map<u64, DirsView>,
    entries: Seq<(RelPath, Oid)>,
    k: int,
)
    requires
        0 <= k < restorations(repositories, entries).len(),
    ensures
        exists|i: int|
            0 <= i < entries.len() && restorations(repositories, entries)[k].checkpoint == (
            #[trigger] entries[i]).1 && repository_at(repositories, entries[i].0@) == Some(
                restorations(repositories, entries)[k].repository.0,
            ),
    decreases entries.len(),
{
    let earlier = restorations(repositories, entries.drop_last());
    if k < earlier.len() {
        lemma_restorations_from(repositories, entries.drop_last(), k);
        let i = choose|i: int|
            0 <= i < entries.drop_last().len() && earlier[k].checkpoint == (
            #[trigger] entries.drop_last()[i]).1 && repository_at(
                repositories,
                entries.drop_last()[i].0@,
            ) == Some(earlier[k].repository.0);
        assert(entries[i] == entries.drop_last()[i]);
    } else {
        assert(entries[entries.len() - 1] == entries.last());
    }
}

/// A repository that is brought back is one whose work directory the checkpoint covers, and it is
/// brought back to what was taken there.
pub proof fn only_covered_repositories_are_restored(
    store: GitStore,
    checkpoint: GitStoreCheckpoint,
    restore: Vec<Restoration>,
    k: int,
)
    requires
        call_ensures(GitStore::restore_checkpoint, (&store, &checkpoint), restore),
        0 <= k < restore@.len(),
    ensures
        store.repositories@.contains_key(restore@[k].repository.0),
        exists|i: int|
            0 <= i < checkpoint.checkpoints.entries@.len() && (
            #[trigger] checkpoint.checkpoints.entries@[i]).0@
                == store.repositories@[restore@[k].repository.0].work_directory@
                && checkpoint.checkpoints.entries@[i].1 == restore@[k].checkpoint,
{
    let entries = checkpoint.checkpoints.entries@;
    lemma_restorations_from(store@.repositories, entries, k);
    let i = choose|i: int|
        0 <= i < entries.len() && restore@[k].checkpoint == (#[trigger] entries[i]).1
            && repository_at(store@.repositories, entries[i].0@) == Some(
            restore@[k].repository.0,
        );
    let id = restore@[k].repository.0;
    assert(is_repository_at(store@.repositories, entries[i].0@, id));
    assert(store@.repositories.contains_key(id));
    assert(entries[i].0@ == store.repositories@[id].work_directory@);
}

proof fn lemma_pairs_from(
    repositories: Map<u64, DirsView>,
    left: Seq<(RelPath, Oid)>,
    right: Map<Seq<Seq<char>>, Oid>,
    k: int,
)
    requires
        0 <= k < checkpoint_pairs(repositories, left, right).len(),
    ensures
        exists|i: int|
            0 <= i < left.len() && checkpoint_pairs(repositories, left, right)[k].left == (
            #[trigger] left[i]).1 && checkpoint_pairs(repositories, left, right)[k].right
                == right[left[i].0@] && repository_at(repositories, left[i].0@) == Some(
                checkpoint_pairs(repositories, left, right)[k].repository.0,
            ),
    decreases left.len(),
{
    let earlier = checkpoint_pairs(repositories, left.drop_last(), right);
    if k < earlier.len() {
        lemma_pairs_from(repositories, left.drop_last(), right, k);
        let i = choose|i: int|
            0 <= i < left.drop_last().len() && earlier[k].left == (
            #[trigger] left.drop_last()[i]).1 && earlier[k].right
                == right[left.drop_last()[i].0@] && repository_at(
                repositories,
                left.drop_last()[i].0@,
            ) == Some(earlier[k].repository.0);
        assert(left[i] == left.drop_last()[i]);
    } else {
        assert(left[left.len() - 1] == left.last());
    }
}

/// Two checkpoints that do not cover the same directories are different. Else what was taken of a
/// repository in one is compared with what was taken of it in the other.
pub proof fn checkpoints_are_compared_by_directory(
    store: GitStore,
    left: GitStoreCheckpoint,
    right: GitStoreCheckpoint,
    comparison: CheckpointComparison,
    dir: Seq<Seq<char>>,
    k: int,
)
    requires
        call_ensures(GitStore::compare_checkpoints, (&store, &left, &right), comparison),
    ensures
        left.checkpoints@.contains_key(dir) != right.checkpoints@.contains_key(dir) ==> comparison
            is Different,
        comparison matches CheckpointComparison::Pairs(pairs) ==> 0 <= k < pairs@.len() ==> {
            &&& store.repositories@.contains_key(pairs@[k].repository.0)
            &&& ({
                let at = store.repositories@[pairs@[k].repository.0].work_directory@;
                &&& pairs@[k].right == right.checkpoints@[at]
                &&& exists|i: int|
                    0 <= i < left.checkpoints.entries@.len() && (
                    #[trigger] left.checkpoints.entries@[i]).0@ == at
                        && left.checkpoints.entries@[i].1 == pairs@[k].left
            })
        },
{
    assert(left.checkpoints@.dom().contains(dir) <==> left.checkpoints@.contains_key(dir));
    assert(right.checkpoints@.dom().contains(dir) <==> right.checkpoints@.contains_key(dir));
    if let CheckpointComparison::Pairs(pairs) = comparison {
        if 0 <= k < pairs@.len() {
            let entries = left.checkpoints.entries@;
            lemma_pairs_from(store@.repositories, entries, right.checkpoints@, k);
            let i = choose|i: int|
                0 <= i < entries.len() && pairs@[k].left == (#[trigger] entries[i]).1
                    && pairs@[k].right == right.checkpoints@[entries[i].0@] && repository_at(
                    store@.repositories,
                    entries[i].0@,
                ) == Some(pairs@[k].repository.0);
            let id = pairs@[k].repository.0;
            assert(is_repository_at(store@.repositories, entries[i].0@, id));
            assert(store@.repositories.contains_key(id));
            assert(entries[i].0@ == store.repositories@[id].work_directory@);
        }
    }
}

/// Checkpoints are equal where every pair is: one that is not makes them different.
pub proof fn one_difference_is_enough(results: Vec<bool>, equal: bool, i: int)
    requires
        call_ensures(all_equal, (&results,), equal),
    ensures
        0 <= i < results@.len() && !results@[i] ==> !equal,
        (forall|k: int| 0 <= k < results@.len() ==> #[trigger] results@[k]) ==> equal,
{
    if 0 <= i < results@.len() && equal {
        assert(results@[i]);
    }
}

} // verus!
