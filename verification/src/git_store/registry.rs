//! The repositories of a project: which ones are known, which worktrees they belong
//! to, and which one is active.
use std::collections::{BTreeMap, BTreeSet};
use vstd::prelude::*;

use crate::git_store::RepositoryId;
use crate::ids::{
    ascending, map_get, map_has, map_keys, map_put, map_take, set_has, set_is_empty, set_items,
    set_put, set_take,
};
use crate::rel_path::{has_prefix, prefixes_nest, RelPath, RepoPath};

verus! {

/// The directories of a repository.
#[derive(Debug)]
pub struct RepositoryDirs {
    pub work_directory: RelPath,
    pub dot_git: RelPath,
    pub repository_dir: RelPath,
    pub common_dir: RelPath,
}

/// The directories of a repository as component sequences.
pub struct DirsView {
    pub work_directory: Seq<Seq<char>>,
    pub dot_git: Seq<Seq<char>>,
    pub repository_dir: Seq<Seq<char>>,
    pub common_dir: Seq<Seq<char>>,
}

impl View for RepositoryDirs {
    type V = DirsView;

    open spec fn view(&self) -> DirsView {
        DirsView {
            work_directory: self.work_directory@,
            dot_git: self.dot_git@,
            repository_dir: self.repository_dir@,
            common_dir: self.common_dir@,
        }
    }
}

/// What a worktree scan found out about one repository.
#[derive(Debug)]
pub struct UpdatedGitRepository {
    pub old_work_directory: Option<RelPath>,
    pub new_work_directory: Option<RelPath>,
    pub dot_git: Option<RelPath>,
    pub repository_dir: Option<RelPath>,
    pub common_dir: Option<RelPath>,
}

pub struct UpdateView {
    pub old_work_directory: Option<Seq<Seq<char>>>,
    pub new_work_directory: Option<Seq<Seq<char>>>,
    pub dot_git: Option<Seq<Seq<char>>>,
    pub repository_dir: Option<Seq<Seq<char>>>,
    pub common_dir: Option<Seq<Seq<char>>>,
}

/// The components of an optional path.
pub open spec fn opt_view(path: Option<RelPath>) -> Option<Seq<Seq<char>>> {
    match path {
        Some(path) => Some(path@),
        None => None,
    }
}

impl View for UpdatedGitRepository {
    type V = UpdateView;

    open spec fn view(&self) -> UpdateView {
        UpdateView {
            old_work_directory: opt_view(self.old_work_directory),
            new_work_directory: opt_view(self.new_work_directory),
            dot_git: opt_view(self.dot_git),
            repository_dir: opt_view(self.repository_dir),
            common_dir: opt_view(self.common_dir),
        }
    }
}

/// What has to be done outside the store after a transition.
#[derive(Clone, Copy, Debug, PartialEq, Eq, Structural)]
pub enum GitStoreEffect {
    /// Open the repository and start its worker.
    OpenRepository { id: RepositoryId, is_trusted: bool },
    /// Restart the worker of the repository on its new directories.
    ReinitializeBackend { id: RepositoryId, is_trusted: bool },
    /// Scan the repository.
    ScheduleScan(RepositoryId),
    /// Send the snapshot of the repository to whom the project is shared with.
    SendUpdate(RepositoryId),
    /// Tell whom the project is shared with that the repository is gone.
    SendRemove(RepositoryId),
    RepositoryAdded,
    ActiveRepositoryChanged(Option<RepositoryId>),
}

/// The repositories of a project.
#[derive(Debug)]
pub struct GitStore {
    pub repositories: BTreeMap<u64, RepositoryDirs>,
    pub worktree_ids: BTreeMap<u64, BTreeSet<u64>>,
    pub active_repo_id: Option<RepositoryId>,
    pub next_repository_id: u64,
}

#[verifier::ext_equal]
pub struct StoreView {
    pub repositories: Map<u64, DirsView>,
    pub worktrees: Map<u64, Set<u64>>,
    pub active: Option<RepositoryId>,
    pub next_id: int,
}

pub open spec fn dirs_view(repositories: Map<u64, RepositoryDirs>) -> Map<u64, DirsView> {
    repositories.map_values(|dirs: RepositoryDirs| dirs@)
}

pub open spec fn sets_view(sets: Map<u64, BTreeSet<u64>>) -> Map<u64, Set<u64>> {
    sets.map_values(|set: BTreeSet<u64>| set@)
}

impl View for GitStore {
    type V = StoreView;

    open spec fn view(&self) -> StoreView {
        StoreView {
            repositories: dirs_view(self.repositories@),
            worktrees: sets_view(self.worktree_ids@),
            active: self.active_repo_id,
            next_id: self.next_repository_id as int,
        }
    }
}

/// The active repository is known, and identifiers of repositories have been given out
/// already.
pub open spec fn is_numbered(store: StoreView) -> bool {
    &&& (store.active matches Some(id) ==> store.repositories.contains_key(id.0))
    &&& forall|id: u64| #[trigger] store.repositories.contains_key(id) ==> id < store.next_id
}

/// The store is in good order: besides, each repository belongs to a worktree.
pub open spec fn well_formed(store: StoreView) -> bool {
    &&& is_numbered(store)
    &&& forall|id: u64| #[trigger] store.repositories.contains_key(id) ==> has_worktree(store, id)
}

/// The repository belongs to at least one worktree.
pub open spec fn has_worktree(store: StoreView, id: u64) -> bool {
    store.worktrees.contains_key(id) && store.worktrees[id] != Set::<u64>::empty()
}

/// The update speaks of a repository with these directories.
pub open spec fn concerns(update: UpdateView, dirs: DirsView) -> bool {
    update.old_work_directory == Some(dirs.work_directory) || update.new_work_directory == Some(
        dirs.work_directory,
    )
}

/// The known repository with the lowest identifier that the update speaks of.
pub open spec fn is_concerned(
    repositories: Map<u64, DirsView>,
    update: UpdateView,
    id: u64,
) -> bool {
    &&& repositories.contains_key(id)
    &&& concerns(update, repositories[id])
    &&& forall|other: u64| #[trigger]
        repositories.contains_key(other) && concerns(update, repositories[other]) ==> id <= other
}

pub open spec fn concerned(repositories: Map<u64, DirsView>, update: UpdateView) -> Option<u64> {
    if exists|id: u64| is_concerned(repositories, update, id) {
        Some(choose|id: u64| is_concerned(repositories, update, id))
    } else {
        None
    }
}

/// The update names all directories of a repository.
pub open spec fn complete_dirs(update: UpdateView) -> Option<DirsView> {
    match (
        update.new_work_directory,
        update.dot_git,
        update.repository_dir,
        update.common_dir,
    ) {
        (Some(work_directory), Some(dot_git), Some(repository_dir), Some(common_dir)) => Some(
            DirsView { work_directory, dot_git, repository_dir, common_dir },
        ),
        _ => None,
    }
}

/// A batch of updates under way: the store, the repositories that lost their last
/// worktree, and what has to be done outside.
#[verifier::ext_equal]
pub struct Batch {
    pub store: StoreView,
    pub removed: Seq<u64>,
    pub effects: Seq<GitStoreEffect>,
}

/// The worktree joins those of the repository.
pub open spec fn with_worktree(
    worktrees: Map<u64, Set<u64>>,
    id: u64,
    worktree: u64,
) -> Map<u64, Set<u64>> {
    let ids = if worktrees.contains_key(id) {
        worktrees[id]
    } else {
        Set::empty()
    };
    worktrees.insert(id, ids.insert(worktree))
}

/// One update, seen from the worktree that reports it.
pub open spec fn apply_update(
    batch: Batch,
    update: UpdateView,
    worktree: u64,
    is_trusted: bool,
    shared: bool,
) -> Batch {
    let store = batch.store;
    match concerned(store.repositories, update) {
        Some(id) => match update.new_work_directory {
            Some(work_directory) => {
                let worktrees = with_worktree(store.worktrees, id, worktree);
                let moved = update.old_work_directory != update.new_work_directory;
                match complete_dirs(update) {
                    Some(dirs) if moved => Batch {
                        store: StoreView {
                            repositories: store.repositories.insert(id, dirs),
                            worktrees,
                            ..store
                        },
                        effects: batch.effects.push(
                            GitStoreEffect::ReinitializeBackend {
                                id: RepositoryId(id),
                                is_trusted,
                            },
                        ).push(GitStoreEffect::ScheduleScan(RepositoryId(id))),
                        ..batch
                    },
                    _ => Batch {
                        store: StoreView {
                            repositories: store.repositories.insert(
                                id,
                                DirsView { work_directory, ..store.repositories[id] },
                            ),
                            worktrees,
                            ..store
                        },
                        effects: batch.effects.push(
                            GitStoreEffect::ScheduleScan(RepositoryId(id)),
                        ),
                        ..batch
                    },
                }
            },
            None => {
                if store.worktrees.contains_key(id) {
                    let ids = store.worktrees[id].remove(worktree);
                    Batch {
                        store: StoreView { worktrees: store.worktrees.insert(id, ids), ..store },
                        removed: if ids == Set::<u64>::empty() {
                            batch.removed.push(id)
                        } else {
                            batch.removed
                        },
                        ..batch
                    }
                } else {
                    batch
                }
            },
        },
        None => match complete_dirs(update) {
            Some(dirs) => {
                let id = store.next_id as u64;
                let opened = batch.effects.push(
                    GitStoreEffect::OpenRepository { id: RepositoryId(id), is_trusted },
                );
                let announced = if shared {
                    opened.push(GitStoreEffect::SendUpdate(RepositoryId(id)))
                } else {
                    opened
                };
                let added = announced.push(GitStoreEffect::ScheduleScan(RepositoryId(id))).push(
                    GitStoreEffect::RepositoryAdded,
                );
                Batch {
                    store: StoreView {
                        repositories: store.repositories.insert(id, dirs),
                        worktrees: store.worktrees.insert(id, set![worktree]),
                        active: if store.active is None {
                            Some(RepositoryId(id))
                        } else {
                            store.active
                        },
                        next_id: store.next_id + 1,
                    },
                    effects: if store.active is None {
                        added.push(
                            GitStoreEffect::ActiveRepositoryChanged(Some(RepositoryId(id))),
                        )
                    } else {
                        added
                    },
                    ..batch
                }
            },
            None => batch,
        },
    }
}

/// The updates one after the other.
pub open spec fn apply_updates(
    batch: Batch,
    updates: Seq<UpdateView>,
    worktree: u64,
    is_trusted: bool,
    shared: bool,
) -> Batch
    decreases updates.len(),
{
    if updates.len() == 0 {
        batch
    } else {
        apply_update(
            apply_updates(batch, updates.drop_last(), worktree, is_trusted, shared),
            updates.last(),
            worktree,
            is_trusted,
            shared,
        )
    }
}

/// One repository that lost its last worktree leaves the store.
pub open spec fn drop_repository(batch: Batch, id: u64, shared: bool) -> Batch {
    let store = batch.store;
    let active_gone = store.active == Some(RepositoryId(id));
    let effects = if active_gone {
        batch.effects.push(GitStoreEffect::ActiveRepositoryChanged(None))
    } else {
        batch.effects
    };
    Batch {
        store: StoreView {
            repositories: store.repositories.remove(id),
            active: if active_gone {
                None
            } else {
                store.active
            },
            ..store
        },
        effects: if shared {
            effects.push(GitStoreEffect::SendRemove(RepositoryId(id)))
        } else {
            effects
        },
        ..batch
    }
}

/// The repositories that lost their last worktree leave the store one after the other.
pub open spec fn drop_repositories(batch: Batch, ids: Seq<u64>, shared: bool) -> Batch
    decreases ids.len(),
{
    if ids.len() == 0 {
        batch
    } else {
        drop_repository(drop_repositories(batch, ids.drop_last(), shared), ids.last(), shared)
    }
}

/// The batch after updates of a scan report.
pub open spec fn after_updates(
    store: StoreView,
    updates: Seq<UpdateView>,
    worktree: u64,
    is_trusted: bool,
    shared: bool,
) -> Batch {
    apply_updates(
        Batch { store, removed: Seq::empty(), effects: Seq::empty() },
        updates,
        worktree,
        is_trusted,
        shared,
    )
}

/// A scan report as a whole.
pub open spec fn scan_report(
    store: StoreView,
    updates: Seq<UpdateView>,
    worktree: u64,
    is_trusted: bool,
    shared: bool,
) -> Batch {
    let updated = after_updates(store, updates, worktree, is_trusted, shared);
    drop_repositories(updated, updated.removed, shared)
}

/// The update views of a list of updates.
pub open spec fn update_views(updates: Seq<UpdatedGitRepository>) -> Seq<UpdateView> {
    updates.map_values(|update: UpdatedGitRepository| update@)
}

proof fn lemma_concerned(repositories: Map<u64, DirsView>, update: UpdateView, id: u64)
    requires
        is_concerned(repositories, update, id),
    ensures
        concerned(repositories, update) == Some(id),
{
    let other = choose|other: u64| is_concerned(repositories, update, other);
    assert(repositories.contains_key(other) && repositories.contains_key(id));
}

proof fn lemma_dirs_insert(m: Map<u64, RepositoryDirs>, id: u64, dirs: RepositoryDirs)
    ensures
        dirs_view(m.insert(id, dirs)) == dirs_view(m).insert(id, dirs@),
        dirs_view(m.remove(id)) == dirs_view(m).remove(id),
{
    assert(dirs_view(m.insert(id, dirs)) =~= dirs_view(m).insert(id, dirs@));
    assert(dirs_view(m.remove(id)) =~= dirs_view(m).remove(id));
}

proof fn lemma_sets_insert(m: Map<u64, BTreeSet<u64>>, id: u64, set: BTreeSet<u64>)
    ensures
        sets_view(m.insert(id, set)) == sets_view(m).insert(id, set@),
        sets_view(m.remove(id)) == sets_view(m).remove(id),
{
    assert(sets_view(m.insert(id, set)) =~= sets_view(m).insert(id, set@));
    assert(sets_view(m.remove(id)) =~= sets_view(m).remove(id));
}

/// Whether two optional paths are the same.
fn same_opt(a: &Option<RelPath>, b: &Option<RelPath>) -> (same: bool)
    ensures
        same == (opt_view(*a) == opt_view(*b)),
{
    match (a, b) {
        (Some(a), Some(b)) => a.same_as(b),
        (None, None) => true,
        _ => false,
    }
}

/// Whether an optional path is this path.
fn is_path(path: &Option<RelPath>, other: &RelPath) -> (same: bool)
    ensures
        same == (opt_view(*path) == Some(other@)),
{
    match path {
        Some(path) => path.same_as(other),
        None => false,
    }
}

impl GitStore {
    /// A store that knows no repository.
    pub fn new() -> (store: Self)
        ensures
            well_formed(store@),
            store@ == (StoreView {
                repositories: Map::empty(),
                worktrees: Map::empty(),
                active: None,
                next_id: 1,
            }),
    {
        let store = GitStore {
            repositories: BTreeMap::new(),
            worktree_ids: BTreeMap::new(),
            active_repo_id: None,
            next_repository_id: 1,
        };
        assert(store@.repositories =~= Map::empty());
        assert(store@.worktrees =~= Map::empty());
        store
    }

    fn find_concerned(&self, update: &UpdatedGitRepository) -> (found: Option<u64>)
        ensures
            found == concerned(self@.repositories, update@),
    {
        let keys: Vec<u64> = map_keys(&self.repositories);
        let mut i: usize = 0;
        while i < keys.len()
            invariant
                i <= keys@.len(),
                ascending(keys@),
                forall|k: u64| #[trigger] keys@.contains(k) <==> self.repositories@.contains_key(k),
                forall|j: int|
                    0 <= j < i ==> !concerns(update@, self@.repositories[#[trigger] keys@[j]]),
            decreases keys@.len() - i,
        {
            let id: u64 = keys[i];
            assert(keys@.contains(keys@[i as int]));
            if let Some(dirs) = map_get(&self.repositories, id) {
                assert(self@.repositories[id] == dirs@);
                if is_path(&update.old_work_directory, &dirs.work_directory) || is_path(
                    &update.new_work_directory,
                    &dirs.work_directory,
                ) {
                    proof {
                        assert forall|other: u64| #[trigger]
                            self@.repositories.contains_key(other) && concerns(
                                update@,
                                self@.repositories[other],
                            ) implies id <= other by {
                            assert(keys@.contains(other));
                            let j = choose|j: int| 0 <= j < keys@.len() && keys@[j] == other;
                            if j < i {
                                assert(!concerns(update@, self@.repositories[keys@[j]]));
                            }
                        }
                        lemma_concerned(self@.repositories, update@, id);
                    }
                    return Some(id);
                }
            }
            i += 1;
        }
        proof {
            assert forall|id: u64| !is_concerned(self@.repositories, update@, id) by {
                if is_concerned(self@.repositories, update@, id) {
                    assert(keys@.contains(id));
                    let j = choose|j: int| 0 <= j < keys@.len() && keys@[j] == id;
                    assert(!concerns(update@, self@.repositories[keys@[j]]));
                }
            }
        }
        None
    }

    fn add_worktree(&mut self, id: u64, worktree_id: u64)
        ensures
            final(self)@ == (StoreView {
                worktrees: with_worktree(old(self)@.worktrees, id, worktree_id),
                ..old(self)@
            }),
    {
        let ghost before = self.worktree_ids@;
        let mut set: BTreeSet<u64> = match map_take(&mut self.worktree_ids, id) {
            Some(set) => set,
            None => BTreeSet::new(),
        };
        set_put(&mut set, worktree_id);
        proof {
            lemma_sets_insert(before.remove(id), id, set);
            lemma_sets_insert(before, id, set);
            assert(sets_view(before).remove(id).insert(id, set@) =~= sets_view(before).insert(
                id,
                set@,
            ));
        }
        map_put(&mut self.worktree_ids, id, set);
    }

    fn apply_update(
        &mut self,
        update: &UpdatedGitRepository,
        worktree_id: u64,
        is_trusted: bool,
        shared: bool,
        removed: &mut Vec<u64>,
        effects: &mut Vec<GitStoreEffect>,
    )
        requires
            old(self).next_repository_id < u64::MAX,
        ensures
            (Batch { store: final(self)@, removed: final(removed)@, effects: final(effects)@ })
                == apply_update(
                Batch { store: old(self)@, removed: old(removed)@, effects: old(effects)@ },
                update@,
                worktree_id,
                is_trusted,
                shared,
            ),
            final(self).next_repository_id <= old(self).next_repository_id + 1,
    {
        let found = self.find_concerned(update);
        if let Some(id) = found {
            proof {
                assert(is_concerned(self@.repositories, update@, id));
            }
            if let Some(work_directory) = &update.new_work_directory {
                self.add_worktree(id, worktree_id);
                let moved = !same_opt(&update.old_work_directory, &update.new_work_directory);
                let ghost before = self.repositories@;
                match (moved, &update.dot_git, &update.repository_dir, &update.common_dir) {
                    (true, Some(dot_git), Some(repository_dir), Some(common_dir)) => {
                        let dirs = RepositoryDirs {
                            work_directory: work_directory.clone(),
                            dot_git: dot_git.clone(),
                            repository_dir: repository_dir.clone(),
                            common_dir: common_dir.clone(),
                        };
                        proof {
                            lemma_dirs_insert(before, id, dirs);
                        }
                        map_put(&mut self.repositories, id, dirs);
                        effects.push(
                            GitStoreEffect::ReinitializeBackend {
                                id: RepositoryId(id),
                                is_trusted,
                            },
                        );
                    },
                    _ => {
                        if let Some(known) = map_get(&self.repositories, id) {
                            let dirs = RepositoryDirs {
                                work_directory: work_directory.clone(),
                                dot_git: known.dot_git.clone(),
                                repository_dir: known.repository_dir.clone(),
                                common_dir: known.common_dir.clone(),
                            };
                            proof {
                                lemma_dirs_insert(before, id, dirs);
                            }
                            map_put(&mut self.repositories, id, dirs);
                        }
                    },
                }
                effects.push(GitStoreEffect::ScheduleScan(RepositoryId(id)));
            } else {
                let ghost before = self.worktree_ids@;
                if let Some(ids) = map_take(&mut self.worktree_ids, id) {
                    let mut ids: BTreeSet<u64> = ids;
                    set_take(&mut ids, worktree_id);
                    if set_is_empty(&ids) {
                        removed.push(id);
                    }
                    proof {
                        lemma_sets_insert(before.remove(id), id, ids);
                        lemma_sets_insert(before, id, ids);
                        assert(sets_view(before).remove(id).insert(id, ids@) =~= sets_view(
                            before,
                        ).insert(id, ids@));
                    }
                    map_put(&mut self.worktree_ids, id, ids);
                } else {
                    assert(before.remove(id) =~= before);
                }
            }
        } else {
            match (
                &update.new_work_directory,
                &update.dot_git,
                &update.repository_dir,
                &update.common_dir,
            ) {
                (Some(work_directory), Some(dot_git), Some(repository_dir), Some(common_dir)) => {
                    let id: u64 = self.next_repository_id;
                    self.next_repository_id = id + 1;
                    let dirs = RepositoryDirs {
                        work_directory: work_directory.clone(),
                        dot_git: dot_git.clone(),
                        repository_dir: repository_dir.clone(),
                        common_dir: common_dir.clone(),
                    };
                    effects.push(
                        GitStoreEffect::OpenRepository { id: RepositoryId(id), is_trusted },
                    );
                    if shared {
                        effects.push(GitStoreEffect::SendUpdate(RepositoryId(id)));
                    }
                    effects.push(GitStoreEffect::ScheduleScan(RepositoryId(id)));
                    let mut set: BTreeSet<u64> = BTreeSet::new();
                    set_put(&mut set, worktree_id);
                    proof {
                        lemma_dirs_insert(self.repositories@, id, dirs);
                        lemma_sets_insert(self.worktree_ids@, id, set);
                        assert(set@ =~= set![worktree_id]);
                    }
                    map_put(&mut self.repositories, id, dirs);
                    map_put(&mut self.worktree_ids, id, set);
                    effects.push(GitStoreEffect::RepositoryAdded);
                    if self.active_repo_id.is_none() {
                        self.active_repo_id = Some(RepositoryId(id));
                        effects.push(
                            GitStoreEffect::ActiveRepositoryChanged(Some(RepositoryId(id))),
                        );
                    }
                },
                _ => {},
            }
        }
    }
}

/// What holds of a batch under way: only repositories that are about to leave may
/// be without a worktree.
spec fn batch_ok(batch: Batch) -> bool {
    let store = batch.store;
    &&& 0 <= store.next_id
    &&& (store.active matches Some(id) ==> store.repositories.contains_key(id.0))
    &&& forall|id: u64| #[trigger]
        store.repositories.contains_key(id) ==> id < store.next_id && store.worktrees.contains_key(
            id,
        ) && (has_worktree(store, id) || batch.removed.contains(id))
}

proof fn lemma_apply_update_ok(
    batch: Batch,
    update: UpdateView,
    worktree: u64,
    is_trusted: bool,
    shared: bool,
)
    requires
        batch_ok(batch),
        batch.store.next_id < u64::MAX,
    ensures
        batch_ok(apply_update(batch, update, worktree, is_trusted, shared)),
        batch.store.next_id <= apply_update(
            batch,
            update,
            worktree,
            is_trusted,
            shared,
        ).store.next_id <= batch.store.next_id + 1,
{
    let after = apply_update(batch, update, worktree, is_trusted, shared);
    let found = concerned(batch.store.repositories, update);
    if let Some(id) = found {
        assert(is_concerned(batch.store.repositories, update, id));
    }
    assert forall|id: u64| #[trigger] after.store.repositories.contains_key(id) implies id
        < after.store.next_id && after.store.worktrees.contains_key(id) && (has_worktree(
        after.store,
        id,
    ) || after.removed.contains(id)) by {
        if batch.store.repositories.contains_key(id) {
            assert(has_worktree(batch.store, id) || batch.removed.contains(id));
            if batch.removed.contains(id) {
                let k = choose|k: int| 0 <= k < batch.removed.len() && batch.removed[k] == id;
                assert(after.removed[k] == id);
            }
            if after.removed.len() > batch.removed.len() {
                assert(after.removed[batch.removed.len() as int] == found->0);
            }
            if after.store.worktrees.contains_key(id) && after.store.worktrees[id].contains(
                worktree,
            ) {
                assert(after.store.worktrees[id] != Set::<u64>::empty());
            }
        } else {
            assert(after.store.worktrees[id].contains(worktree));
        }
    }
}

proof fn lemma_apply_updates_ok(
    batch: Batch,
    updates: Seq<UpdateView>,
    worktree: u64,
    is_trusted: bool,
    shared: bool,
)
    requires
        batch_ok(batch),
        batch.store.next_id + updates.len() <= u64::MAX,
    ensures
        batch_ok(apply_updates(batch, updates, worktree, is_trusted, shared)),
        apply_updates(batch, updates, worktree, is_trusted, shared).store.next_id
            <= batch.store.next_id + updates.len(),
    decreases updates.len(),
{
    if updates.len() > 0 {
        lemma_apply_updates_ok(batch, updates.drop_last(), worktree, is_trusted, shared);
        lemma_apply_update_ok(
            apply_updates(batch, updates.drop_last(), worktree, is_trusted, shared),
            updates.last(),
            worktree,
            is_trusted,
            shared,
        );
    }
}

proof fn lemma_drop_repositories(batch: Batch, ids: Seq<u64>, shared: bool)
    ensures
        ({
            let after = drop_repositories(batch, ids, shared);
            &&& after.store.worktrees == batch.store.worktrees
            &&& after.store.next_id == batch.store.next_id
            &&& after.store.repositories == batch.store.repositories.remove_keys(ids.to_set())
            &&& after.store.active == match batch.store.active {
                Some(id) if !ids.contains(id.0) => Some(id),
                _ => None,
            }
        }),
    decreases ids.len(),
{
    let after = drop_repositories(batch, ids, shared);
    if ids.len() == 0 {
        assert(batch.store.repositories.remove_keys(ids.to_set()) =~= batch.store.repositories);
    } else {
        let before = ids.drop_last();
        lemma_drop_repositories(batch, before, shared);
        assert forall|id: u64| ids.contains(id) <==> before.contains(id) || id == ids.last() by {
            if ids.contains(id) {
                let k = choose|k: int| 0 <= k < ids.len() && ids[k] == id;
                if k < before.len() {
                    assert(before[k] == id);
                }
            }
            if before.contains(id) {
                let k = choose|k: int| 0 <= k < before.len() && before[k] == id;
                assert(ids[k] == id);
            }
        }
        assert(after.store.repositories =~= batch.store.repositories.remove_keys(ids.to_set()));
    }
}

/// A scan report keeps the store in good order, whatever it reports.
pub proof fn scan_report_keeps_order(
    store: StoreView,
    updates: Seq<UpdateView>,
    worktree: u64,
    is_trusted: bool,
    shared: bool,
)
    requires
        well_formed(store),
        0 <= store.next_id,
        store.next_id + updates.len() <= u64::MAX,
    ensures
        well_formed(scan_report(store, updates, worktree, is_trusted, shared).store),
{
    let start = Batch { store, removed: Seq::empty(), effects: Seq::empty() };
    assert(batch_ok(start));
    lemma_apply_updates_ok(start, updates, worktree, is_trusted, shared);
    let updated = apply_updates(start, updates, worktree, is_trusted, shared);
    lemma_drop_repositories(updated, updated.removed, shared);
    let after = scan_report(store, updates, worktree, is_trusted, shared).store;
    assert forall|id: u64| #[trigger] after.repositories.contains_key(id) implies id
        < after.next_id && has_worktree(after, id) by {
        assert(updated.store.repositories.contains_key(id));
    }
}

/// One update adds at most one repository. It gets the next number, which no repository has,
/// belongs to the worktree that reports it alone, and becomes the active one just if there was
/// none. An update that adds none leaves the next number and the active repository as they are.
pub open spec fn adds_fresh(before: StoreView, after: StoreView, worktree: u64) -> bool {
    let new = before.next_id as u64;
    &&& forall|id: u64| #[trigger]
        before.repositories.contains_key(id) ==> after.repositories.contains_key(id)
    &&& forall|id: u64| #[trigger]
        after.repositories.contains_key(id) && !before.repositories.contains_key(id) ==> id == new
    &&& !before.repositories.contains_key(new)
    &&& if after.repositories.contains_key(new) {
        &&& after.next_id == before.next_id + 1
        &&& after.worktrees.contains_key(new) && after.worktrees[new] == set![worktree]
        &&& after.active == if before.active is None {
            Some(RepositoryId(new))
        } else {
            before.active
        }
    } else {
        after.next_id == before.next_id && after.active == before.active
    }
}

proof fn lemma_update_adds_fresh(
    batch: Batch,
    update: UpdateView,
    worktree: u64,
    is_trusted: bool,
    shared: bool,
)
    requires
        is_numbered(batch.store),
        0 <= batch.store.next_id <= u64::MAX,
    ensures
        adds_fresh(
            batch.store,
            apply_update(batch, update, worktree, is_trusted, shared).store,
            worktree,
        ),
        is_numbered(apply_update(batch, update, worktree, is_trusted, shared).store),
{
    if let Some(id) = concerned(batch.store.repositories, update) {
        assert(is_concerned(batch.store.repositories, update, id));
    }
}

proof fn lemma_updates_stay_numbered(
    batch: Batch,
    updates: Seq<UpdateView>,
    worktree: u64,
    is_trusted: bool,
    shared: bool,
)
    requires
        is_numbered(batch.store),
        0 <= batch.store.next_id,
        batch.store.next_id + updates.len() <= u64::MAX,
    ensures
        ({
            let before = batch.store;
            let after = apply_updates(batch, updates, worktree, is_trusted, shared).store;
            &&& is_numbered(after)
            &&& before.next_id <= after.next_id <= before.next_id + updates.len()
            &&& before.active is Some ==> after.active == before.active
            &&& forall|id: u64| #[trigger]
                before.repositories.contains_key(id) ==> after.repositories.contains_key(id)
            &&& forall|id: u64| #[trigger]
                after.repositories.contains_key(id) && !before.repositories.contains_key(id)
                    ==> before.next_id <= id < after.next_id
        }),
    decreases updates.len(),
{
    if updates.len() > 0 {
        let earlier = updates.drop_last();
        lemma_updates_stay_numbered(batch, earlier, worktree, is_trusted, shared);
        let middle = apply_updates(batch, earlier, worktree, is_trusted, shared);
        lemma_update_adds_fresh(middle, updates.last(), worktree, is_trusted, shared);
    }
}

/// A store whose active repository is known and whose repositories have numbers below the next
/// one stays so through a scan report. Each repository that the report adds takes the next
/// number, which none has, starts with the worktree that reports it alone, and becomes active
/// just if none was at that moment. The repositories that lost their last worktree leave; where
/// the active one is among them, none is active any more.
pub proof fn scan_report_numbers_repositories(
    store: StoreView,
    updates: Seq<UpdateView>,
    worktree: u64,
    is_trusted: bool,
    shared: bool,
)
    requires
        is_numbered(store),
        0 <= store.next_id,
        store.next_id + updates.len() <= u64::MAX,
    ensures
        is_numbered(scan_report(store, updates, worktree, is_trusted, shared).store),
        forall|k: int|
            0 <= k < updates.len() ==> adds_fresh(
                (#[trigger] after_updates(
                    store,
                    updates.take(k),
                    worktree,
                    is_trusted,
                    shared,
                )).store,
                after_updates(store, updates.take(k + 1), worktree, is_trusted, shared).store,
                worktree,
            ),
        ({
            let updated = after_updates(store, updates, worktree, is_trusted, shared);
            let after = scan_report(store, updates, worktree, is_trusted, shared).store;
            &&& after.next_id == updated.store.next_id
            &&& after.worktrees == updated.store.worktrees
            &&& after.repositories == updated.store.repositories.remove_keys(
                updated.removed.to_set(),
            )
            &&& after.active == match updated.store.active {
                Some(id) if !updated.removed.contains(id.0) => Some(id),
                _ => None,
            }
        }),
{
    let start = Batch { store, removed: Seq::empty(), effects: Seq::empty() };
    lemma_updates_stay_numbered(start, updates, worktree, is_trusted, shared);
    let updated = after_updates(store, updates, worktree, is_trusted, shared);
    lemma_drop_repositories(updated, updated.removed, shared);
    assert forall|k: int| 0 <= k < updates.len() implies adds_fresh(
        (#[trigger] after_updates(
            store,
            updates.take(k),
            worktree,
            is_trusted,
            shared,
        )).store,
        after_updates(store, updates.take(k + 1), worktree, is_trusted, shared).store,
        worktree,
    ) by {
        lemma_updates_stay_numbered(start, updates.take(k), worktree, is_trusted, shared);
        let middle = after_updates(store, updates.take(k), worktree, is_trusted, shared);
        assert(updates.take(k + 1).drop_last() =~= updates.take(k));
        assert(updates.take(k + 1).last() == updates[k]);
        lemma_update_adds_fresh(middle, updates[k], worktree, is_trusted, shared);
    }
}

/// Numbers of repositories are never used again: what a scan report adds has numbers that were
/// not given out before. The active repository stays active as long as it is there; once it is
/// removed, none is.
pub proof fn numbers_are_not_used_again(
    store: StoreView,
    updates: Seq<UpdateView>,
    worktree: u64,
    is_trusted: bool,
    shared: bool,
)
    requires
        is_numbered(store),
        0 <= store.next_id,
        store.next_id + updates.len() <= u64::MAX,
    ensures
        ({
            let after = scan_report(store, updates, worktree, is_trusted, shared).store;
            &&& store.next_id <= after.next_id
            &&& forall|id: u64| #[trigger]
                after.repositories.contains_key(id) && !store.repositories.contains_key(id)
                    ==> store.next_id <= id < after.next_id
            &&& (store.active matches Some(active) ==> after.active
                == if after.repositories.contains_key(active.0) {
                Some(active)
            } else {
                None
            })
        }),
{
    let start = Batch { store, removed: Seq::empty(), effects: Seq::empty() };
    lemma_updates_stay_numbered(start, updates, worktree, is_trusted, shared);
    let updated = apply_updates(start, updates, worktree, is_trusted, shared);
    lemma_drop_repositories(updated, updated.removed, shared);
}

impl GitStore {
    fn drop_repository(
        &mut self,
        removed: &Vec<u64>,
        k: usize,
        shared: bool,
        effects: &mut Vec<GitStoreEffect>,
    )
        requires
            k < removed@.len(),
        ensures
            (Batch { store: final(self)@, removed: removed@, effects: final(effects)@ })
                == drop_repository(
                Batch { store: old(self)@, removed: removed@, effects: old(effects)@ },
                removed@[k as int],
                shared,
            ),
    {
        let id: u64 = removed[k];
        if let Some(active) = self.active_repo_id {
            if active.0 == id {
                self.active_repo_id = None;
                effects.push(GitStoreEffect::ActiveRepositoryChanged(None));
            }
        }
        let ghost before = self.repositories@;
        let dropped = map_take(&mut self.repositories, id);
        assert(dirs_view(before.remove(id)) =~= dirs_view(before).remove(id));
        if shared {
            effects.push(GitStoreEffect::SendRemove(RepositoryId(id)));
        }
    }

    /// Brings the list of repositories up to date with what a scan of a worktree
    /// found, and says what has to be done outside.
    pub fn update_repositories_from_worktree(
        &mut self,
        worktree_id: u64,
        updates: &Vec<UpdatedGitRepository>,
        is_trusted: bool,
        shared: bool,
    ) -> (effects: Vec<GitStoreEffect>)
        requires
            is_numbered(old(self)@),
            old(self).next_repository_id + updates@.len() <= u64::MAX,
        ensures
            is_numbered(final(self)@),
            well_formed(old(self)@) ==> well_formed(final(self)@),
            ({
                let report = scan_report(
                    old(self)@,
                    update_views(updates@),
                    worktree_id,
                    is_trusted,
                    shared,
                );
                final(self)@ == report.store && effects@ == report.effects
            }),
    {
        let ghost start = Batch {
            store: self@,
            removed: Seq::<u64>::empty(),
            effects: Seq::<GitStoreEffect>::empty(),
        };
        let ghost views = update_views(updates@);
        let mut removed: Vec<u64> = Vec::new();
        let mut effects: Vec<GitStoreEffect> = Vec::new();
        let mut i: usize = 0;
        while i < updates.len()
            invariant
                i <= updates@.len(),
                views == update_views(updates@),
                start.store == old(self)@,
                old(self).next_repository_id + updates@.len() <= u64::MAX,
                self.next_repository_id <= old(self).next_repository_id + i,
                (Batch { store: self@, removed: removed@, effects: effects@ }) == apply_updates(
                    start,
                    views.take(i as int),
                    worktree_id,
                    is_trusted,
                    shared,
                ),
            decreases updates@.len() - i,
        {
            assert(views.take(i + 1).drop_last() =~= views.take(i as int));
            assert(views.take(i + 1).last() == updates@[i as int]@);
            self.apply_update(
                &updates[i],
                worktree_id,
                is_trusted,
                shared,
                &mut removed,
                &mut effects,
            );
            i += 1;
        }
        assert(views.take(i as int) =~= views);
        let ghost updated = apply_updates(start, views, worktree_id, is_trusted, shared);
        let mut k: usize = 0;
        assert(removed@.take(0) =~= Seq::<u64>::empty());
        while k < removed.len()
            invariant
                k <= removed@.len(),
                updated.removed == removed@,
                (Batch { store: self@, removed: removed@, effects: effects@ })
                    == drop_repositories(updated, removed@.take(k as int), shared),
            decreases removed@.len() - k,
        {
            assert(removed@.take(k + 1).drop_last() =~= removed@.take(k as int));
            self.drop_repository(&removed, k, shared, &mut effects);
            k += 1;
        }
        assert(removed@.take(k as int) =~= removed@);
        proof {
            scan_report_numbers_repositories(old(self)@, views, worktree_id, is_trusted, shared);
            if well_formed(old(self)@) {
                scan_report_keeps_order(old(self)@, views, worktree_id, is_trusted, shared);
            }
        }
        effects
    }
}

/// Without the worktree the repository belongs to none.
pub open spec fn emptied(store: StoreView, worktree: u64, id: u64) -> bool {
    store.worktrees.contains_key(id) && store.worktrees[id].remove(worktree) == Set::<u64>::empty()
}

/// The lowest key of a map, if it has any.
pub open spec fn is_least_key<V>(map: Map<u64, V>, least: Option<RepositoryId>) -> bool {
    match least {
        Some(id) => map.contains_key(id.0) && forall|other: u64| #[trigger]
            map.contains_key(other) ==> id.0 <= other,
        None => forall|other: u64| !#[trigger] map.contains_key(other),
    }
}

/// The store after a worktree is gone: it belongs to no repository any more, those
/// that belong to no other worktree leave, and if the active one is among them the
/// first remaining one becomes active.
pub open spec fn without_worktree(before: StoreView, worktree: u64, after: StoreView) -> bool {
    &&& after.next_id == before.next_id
    &&& forall|id: u64| #[trigger]
        after.worktrees.contains_key(id) <==> before.worktrees.contains_key(id) && !emptied(
            before,
            worktree,
            id,
        )
    &&& forall|id: u64| #[trigger]
        after.worktrees.contains_key(id) ==> after.worktrees[id] == before.worktrees[id].remove(
            worktree,
        )
    &&& forall|id: u64| #[trigger]
        after.repositories.contains_key(id) <==> before.repositories.contains_key(id) && !emptied(
            before,
            worktree,
            id,
        )
    &&& forall|id: u64| #[trigger]
        after.repositories.contains_key(id) ==> after.repositories[id] == before.repositories[id]
    &&& match before.active {
        Some(active) if emptied(before, worktree, active.0) => is_least_key(
            after.repositories,
            after.active,
        ),
        _ => after.active == before.active,
    }
}

/// What has to be done outside when these repositories leave.
pub open spec fn removal_effects(gone: Seq<u64>, shared: bool) -> Seq<GitStoreEffect> {
    if shared {
        gone.map_values(|id: u64| GitStoreEffect::SendRemove(RepositoryId(id)))
    } else {
        Seq::empty()
    }
}

/// A worktree is forgotten, and what that comes down to outside: the repositories that
/// belonged to it alone are gone, and the active one may be another.
pub open spec fn forgets_worktree(
    before: StoreView,
    worktree: u64,
    shared: bool,
    after: StoreView,
    effects: Seq<GitStoreEffect>,
) -> bool {
    &&& without_worktree(before, worktree, after)
    &&& exists|gone: Seq<u64>| #[trigger]
        ascending(gone) && (forall|id: u64| #[trigger]
            gone.contains(id) <==> emptied(before, worktree, id)) && effects == (
        match before.active {
            Some(active) if emptied(before, worktree, active.0) => removal_effects(
                gone,
                shared,
            ).push(GitStoreEffect::ActiveRepositoryChanged(after.active)),
            _ => removal_effects(gone, shared),
        })
}

/// The repository is known and holds the path.
pub open spec fn repository_holds(
    repositories: Map<u64, DirsView>,
    id: u64,
    path: Seq<Seq<char>>,
) -> bool {
    repositories.contains_key(id) && has_prefix(path, repositories[id].work_directory)
}

/// The repository holds the path, and lies inside every other one that does.
pub open spec fn is_innermost(
    repositories: Map<u64, DirsView>,
    id: u64,
    path: Seq<Seq<char>>,
) -> bool {
    &&& repository_holds(repositories, id, path)
    &&& forall|other: u64| #[trigger]
        repository_holds(repositories, other, path) ==> has_prefix(
            repositories[id].work_directory,
            repositories[other].work_directory,
        )
}

/// A repository is a linked worktree when its git directory is not the common one.
pub open spec fn is_linked(dirs: DirsView) -> bool {
    dirs.repository_dir != dirs.common_dir
}

/// The path of the main worktree, if there is one.
pub open spec fn main_worktree(dirs: DirsView) -> Option<Seq<Seq<char>>> {
    if !is_linked(dirs) {
        Some(dirs.work_directory)
    } else if dirs.common_dir.len() > 0 && dirs.common_dir.last() == ".git"@ {
        Some(dirs.common_dir.drop_last())
    } else {
        None
    }
}

impl RepositoryDirs {
    /// Whether this is the original checkout or a submodule.
    pub fn is_main_worktree(&self) -> (result: bool)
        ensures
            result == !is_linked(self@),
    {
        !self.is_linked_worktree()
    }

    /// Whether this worktree was created from another one.
    pub fn is_linked_worktree(&self) -> (result: bool)
        ensures
            result == is_linked(self@),
    {
        !self.repository_dir.same_as(&self.common_dir)
    }

    /// The path of the main worktree. A linked worktree of a bare repository has none.
    pub fn main_worktree_abs_path(&self) -> (path: Option<RelPath>)
        ensures
            opt_view(path) == main_worktree(self@),
    {
        if !self.is_linked_worktree() {
            return Some(self.work_directory.clone());
        }
        proof {
            reveal_strlit(".git");
            reveal_strlit("..");
            assert(".git"@.len() != ".."@.len());
        }
        match self.common_dir.file_name() {
            Some(name) => {
                if crate::text::same_text(name.as_str(), ".git") {
                    self.common_dir.parent()
                } else {
                    None
                }
            },
            None => None,
        }
    }
}

impl GitStore {
    /// Forgets a worktree, and with it the repositories that belong to no other one.
    pub fn remove_worktree(&mut self, worktree_id: u64, shared: bool) -> (effects: Vec<
        GitStoreEffect,
    >)
        requires
            well_formed(old(self)@),
        ensures
            well_formed(final(self)@),
            forgets_worktree(old(self)@, worktree_id, shared, final(self)@, effects@),
    {
        let ghost before = self@;
        let keys: Vec<u64> = map_keys(&self.worktree_ids);
        let mut effects: Vec<GitStoreEffect> = Vec::new();
        let ghost mut gone: Seq<u64> = Seq::empty();
        let mut active_gone: bool = false;
        let mut i: usize = 0;
        assert(removal_effects(gone, shared) =~= Seq::<GitStoreEffect>::empty());
        while i < keys.len()
            invariant
                i <= keys@.len(),
                ascending(keys@),
                before == old(self)@,
                forall|k: u64| #[trigger] keys@.contains(k) <==> before.worktrees.contains_key(k),
                self.active_repo_id == before.active,
                self.next_repository_id == before.next_id,
                effects@ == removal_effects(gone, shared),
                ascending(gone),
                i < keys@.len() ==> forall|k: int| 0 <= k < gone.len() ==> gone[k] < keys@[i as int],
                forall|id: u64| #[trigger]
                    gone.contains(id) <==> emptied(before, worktree_id, id) && keys@.take(
                        i as int,
                    ).contains(id),
                active_gone == (before.active matches Some(active) && gone.contains(active.0)),
                forall|id: u64| #[trigger]
                    sets_view(self.worktree_ids@).contains_key(id) <==> before.worktrees.contains_key(id)
                        && !gone.contains(id),
                forall|id: u64| #[trigger]
                    sets_view(self.worktree_ids@).contains_key(id) ==> sets_view(self.worktree_ids@)[id] == (if keys@.take(
                        i as int,
                    ).contains(id) {
                        before.worktrees[id].remove(worktree_id)
                    } else {
                        before.worktrees[id]
                    }),
                forall|id: u64| #[trigger]
                    dirs_view(self.repositories@).contains_key(id) <==> before.repositories.contains_key(id)
                        && !gone.contains(id),
                forall|id: u64| #[trigger]
                    dirs_view(self.repositories@).contains_key(id) ==> dirs_view(self.repositories@)[id]
                        == before.repositories[id],
            decreases keys@.len() - i,
        {
            let id: u64 = keys[i];
            let ghost seen = keys@.take(i as int);
            let ghost seen_next = keys@.take(i + 1);
            let ghost gone_before = gone;
            proof {
                assert(seen_next =~= seen.push(id));
                assert(keys@.contains(keys@[i as int]));
                assert forall|k: u64| seen_next.contains(k) <==> seen.contains(k) || k == id by {
                    if seen.contains(k) {
                        let j = choose|j: int| 0 <= j < seen.len() && seen[j] == k;
                        assert(seen_next[j] == k);
                    }
                    if seen_next.contains(k) {
                        let j = choose|j: int| 0 <= j < seen_next.len() && seen_next[j] == k;
                        if j < i {
                            assert(seen[j] == k);
                        }
                    }
                    assert(seen_next[i as int] == id);
                }
                if seen.contains(id) {
                    let j = choose|j: int| 0 <= j < seen.len() && seen[j] == id;
                    assert(keys@[j] < keys@[i as int]);
                }
                assert(sets_view(self.worktree_ids@).contains_key(id));
            }
            let ghost sets_before = self.worktree_ids@;
            if let Some(ids) = map_take(&mut self.worktree_ids, id) {
                let mut ids: BTreeSet<u64> = ids;
                set_take(&mut ids, worktree_id);
                if set_is_empty(&ids) {
                    let ghost repositories_before = self.repositories@;
                    let dropped = map_take(&mut self.repositories, id);
                    if shared {
                        effects.push(GitStoreEffect::SendRemove(RepositoryId(id)));
                    }
                    if let Some(active) = self.active_repo_id {
                        if active.0 == id {
                            active_gone = true;
                        }
                    }
                    proof {
                        assert(dirs_view(repositories_before.remove(id)) =~= dirs_view(
                            repositories_before,
                        ).remove(id));
                        assert(sets_view(sets_before.remove(id)) =~= sets_view(sets_before).remove(
                            id,
                        ));
                        gone = gone.push(id);
                        assert(removal_effects(gone, shared) =~= if shared {
                            removal_effects(gone_before, shared).push(
                                GitStoreEffect::SendRemove(RepositoryId(id)),
                            )
                        } else {
                            removal_effects(gone_before, shared)
                        });
                        assert forall|k: u64|
                            #[trigger] gone.contains(k) <==> gone_before.contains(k) || k == id by {
                            if gone_before.contains(k) {
                                let j = choose|j: int|
                                    0 <= j < gone_before.len() && gone_before[j] == k;
                                assert(gone[j] == k);
                            }
                            if gone.contains(k) {
                                let j = choose|j: int| 0 <= j < gone.len() && gone[j] == k;
                                if j < gone_before.len() {
                                    assert(gone_before[j] == k);
                                }
                            }
                            assert(gone[gone_before.len() as int] == id);
                        }
                    }
                } else {
                    proof {
                        lemma_sets_insert(sets_before.remove(id), id, ids);
                        lemma_sets_insert(sets_before, id, ids);
                        assert(sets_view(sets_before).remove(id).insert(id, ids@) =~= sets_view(
                            sets_before,
                        ).insert(id, ids@));
                    }
                    map_put(&mut self.worktree_ids, id, ids);
                }
            }
            i += 1;
        }
        proof {
            assert(keys@.take(i as int) =~= keys@);
            assert forall|id: u64| #[trigger] gone.contains(id) <==> emptied(
                before,
                worktree_id,
                id,
            ) by {
                if emptied(before, worktree_id, id) {
                    assert(keys@.contains(id));
                }
            }
        }
        let ghost repositories = dirs_view(self.repositories@);
        let ghost worktrees = sets_view(self.worktree_ids@);
        if active_gone {
            let remaining: Vec<u64> = map_keys(&self.repositories);
            let next: Option<RepositoryId> = if remaining.len() > 0 {
                Some(RepositoryId(remaining[0]))
            } else {
                None
            };
            proof {
                assert forall|other: u64| #[trigger]
                    dirs_view(self.repositories@).contains_key(other) implies remaining@.contains(other) by {
                    assert(self.repositories@.contains_key(other));
                }
                if remaining@.len() > 0 {
                    assert(remaining@.contains(remaining@[0]));
                }
            }
            self.active_repo_id = next;
            effects.push(GitStoreEffect::ActiveRepositoryChanged(next));
        }
        proof {
            assert(self@.repositories == repositories && self@.worktrees == worktrees);
            assert forall|id: u64| #[trigger] self@.repositories.contains_key(id) implies id
                < self@.next_id && has_worktree(self@, id) by {
                assert(repositories.contains_key(id));
                assert(before.repositories.contains_key(id));
                assert(has_worktree(before, id));
                assert(worktrees.contains_key(id));
                assert(keys@.contains(id));
            }
            assert(ascending(gone));
        }
        effects
    }

    /// Makes a repository the active one, and says whether it was not before.
    pub fn set_active_repo_id(&mut self, repo_id: RepositoryId) -> (changed: bool)
        requires
            well_formed(old(self)@),
            old(self)@.repositories.contains_key(repo_id.0),
        ensures
            well_formed(final(self)@),
            final(self)@ == (StoreView { active: Some(repo_id), ..old(self)@ }),
            changed == (old(self)@.active != Some(repo_id)),
    {
        if let Some(active) = self.active_repo_id {
            if active.0 == repo_id.0 {
                return false;
            }
        }
        self.active_repo_id = Some(repo_id);
        true
    }

    fn find_innermost(&self, path: &RelPath) -> (found: Option<u64>)
        ensures
            found matches Some(id) ==> is_innermost(self@.repositories, id, path@),
            found is None ==> forall|id: u64| !repository_holds(self@.repositories, id, path@),
    {
        let keys: Vec<u64> = map_keys(&self.repositories);
        let mut found: Option<u64> = None;
        let mut i: usize = 0;
        while i < keys.len()
            invariant
                i <= keys@.len(),
                forall|k: u64| #[trigger] keys@.contains(k) <==> self.repositories@.contains_key(k),
                found matches Some(id) ==> repository_holds(self@.repositories, id, path@)
                    && forall|j: int|
                    0 <= j < i && #[trigger] repository_holds(
                        self@.repositories,
                        keys@[j],
                        path@,
                    ) ==> self@.repositories[keys@[j]].work_directory.len()
                        <= self@.repositories[id].work_directory.len(),
                found is None ==> forall|j: int|
                    0 <= j < i ==> !#[trigger] repository_holds(
                        self@.repositories,
                        keys@[j],
                        path@,
                    ),
            decreases keys@.len() - i,
        {
            let id: u64 = keys[i];
            assert(keys@.contains(keys@[i as int]));
            if let Some(dirs) = map_get(&self.repositories, id) {
                assert(self@.repositories[id] == dirs@);
                if path.starts_with(&dirs.work_directory) {
                    let better: bool = match found {
                        Some(best) => {
                            match map_get(&self.repositories, best) {
                                Some(best_dirs) => {
                                    assert(self@.repositories[best] == best_dirs@);
                                    best_dirs.work_directory.parts.len()
                                        <= dirs.work_directory.parts.len()
                                },
                                None => true,
                            }
                        },
                        None => true,
                    };
                    if better {
                        found = Some(id);
                    }
                }
            }
            i += 1;
        }
        proof {
            if let Some(id) = found {
                assert forall|other: u64| #[trigger]
                    repository_holds(self@.repositories, other, path@) implies has_prefix(
                    self@.repositories[id].work_directory,
                    self@.repositories[other].work_directory,
                ) by {
                    assert(keys@.contains(other));
                    let j = choose|j: int| 0 <= j < keys@.len() && keys@[j] == other;
                    assert(repository_holds(self@.repositories, keys@[j], path@));
                    prefixes_nest(
                        path@,
                        self@.repositories[other].work_directory,
                        self@.repositories[id].work_directory,
                    );
                }
            } else {
                assert forall|id: u64| !repository_holds(self@.repositories, id, path@) by {
                    if repository_holds(self@.repositories, id, path@) {
                        assert(keys@.contains(id));
                        let j = choose|j: int| 0 <= j < keys@.len() && keys@[j] == id;
                        assert(!repository_holds(self@.repositories, keys@[j], path@));
                    }
                }
            }
        }
        found
    }

    /// The innermost repository that holds a path, and the path inside it.
    pub fn repository_and_path_for_project_path(&self, abs_path: &RelPath) -> (found: Option<
        (RepositoryId, RepoPath),
    >)
        ensures
            found is Some <==> exists|id: u64| repository_holds(self@.repositories, id, abs_path@),
            found matches Some((id, path)) ==> is_innermost(self@.repositories, id.0, abs_path@)
                && path@ == abs_path@.skip(
                self@.repositories[id.0].work_directory.len() as int,
            ),
    {
        match self.find_innermost(abs_path) {
            Some(id) => {
                assert(repository_holds(self@.repositories, id, abs_path@));
                match map_get(&self.repositories, id) {
                    Some(dirs) => {
                        assert(self@.repositories[id] == dirs@);
                        match abs_path.strip_prefix(&dirs.work_directory) {
                            Some(path) => Some((RepositoryId(id), path)),
                            None => None,
                        }
                    },
                    None => None,
                }
            },
            None => None,
        }
    }

    /// Makes a repository the active one, as the user asked for, which is announced even if it
    /// was active before. Says whether the repository is known.
    pub fn set_as_active_repository(&mut self, repo_id: RepositoryId) -> (known: bool)
        requires
            well_formed(old(self)@),
        ensures
            well_formed(final(self)@),
            known == old(self)@.repositories.contains_key(repo_id.0),
            final(self)@ == (StoreView {
                active: if known {
                    Some(repo_id)
                } else {
                    old(self)@.active
                },
                ..old(self)@
            }),
    {
        let ghost before = self@;
        if map_has(&self.repositories, repo_id.0) {
            self.active_repo_id = Some(repo_id);
            assert(self@.repositories == before.repositories);
            assert(self@.worktrees == before.worktrees);
            proof {
                assert forall|id: u64| #[trigger] self@.repositories.contains_key(id) implies id
                    < self@.next_id && has_worktree(self@, id) by {
                    assert(has_worktree(before, id));
                }
            }
            true
        } else {
            false
        }
    }

    /// Makes the innermost repository that holds a path the active one, and says
    /// whether that changed anything.
    pub fn set_active_repo_for_path(&mut self, abs_path: &RelPath) -> (changed: bool)
        requires
            well_formed(old(self)@),
        ensures
            well_formed(final(self)@),
            if exists|id: u64| repository_holds(old(self)@.repositories, id, abs_path@) {
                exists|id: u64| #[trigger]
                    is_innermost(old(self)@.repositories, id, abs_path@) && final(self)@ == (
                    StoreView { active: Some(RepositoryId(id)), ..old(self)@ }) && changed == (
                    old(self)@.active != Some(RepositoryId(id)))
            } else {
                final(self)@ == old(self)@ && !changed
            },
    {
        match self.find_innermost(abs_path) {
            Some(id) => {
                assert(repository_holds(self@.repositories, id, abs_path@));
                self.set_active_repo_id(RepositoryId(id))
            },
            None => false,
        }
    }

    /// Makes the innermost repository around a worktree the active one, if the
    /// worktree is known, and says whether that changed anything.
    pub fn set_active_repo_for_worktree(&mut self, worktree_abs_path: Option<&RelPath>) -> (changed:
        bool)
        requires
            well_formed(old(self)@),
        ensures
            well_formed(final(self)@),
            match worktree_abs_path {
                Some(path) => if exists|id: u64|
                    repository_holds(old(self)@.repositories, id, path@) {
                    exists|id: u64| #[trigger]
                        is_innermost(old(self)@.repositories, id, path@) && final(self)@ == (
                        StoreView { active: Some(RepositoryId(id)), ..old(self)@ }) && changed == (
                        old(self)@.active != Some(RepositoryId(id)))
                } else {
                    final(self)@ == old(self)@ && !changed
                },
                None => final(self)@ == old(self)@ && !changed,
            },
    {
        match worktree_abs_path {
            Some(path) => self.set_active_repo_for_path(path),
            None => false,
        }
    }

    /// The active repository and its directories.
    pub fn active_repository(&self) -> (active: Option<(RepositoryId, &RepositoryDirs)>)
        requires
            well_formed(self@),
        ensures
            match self@.active {
                Some(id) => active matches Some((found, dirs)) && found == id && dirs@
                    == self@.repositories[id.0],
                None => active is None,
            },
    {
        match self.active_repo_id {
            Some(id) => {
                match map_get(&self.repositories, id.0) {
                    Some(dirs) => Some((id, dirs)),
                    None => None,
                }
            },
            None => None,
        }
    }

    /// Whether a repository belongs to a worktree.
    fn belongs_to(&self, id: u64, worktree_id: u64) -> (result: bool)
        ensures
            result == in_worktree(self@, id, worktree_id),
    {
        match map_get(&self.worktree_ids, id) {
            Some(ids) => {
                assert(self@.worktrees[id] == ids@);
                set_has(ids, worktree_id)
            },
            None => false,
        }
    }

    /// The path of the main worktree that a worktree belongs to: that of the active
    /// repository, if it belongs to the worktree, or else of the first one that does.
    pub fn original_repo_path_for_worktree(&self, worktree_id: u64) -> (path: Option<RelPath>)
        ensures
            opt_view(path) == original_repo_path(self@, worktree_id),
    {
        let mut found: Option<u64> = None;
        if let Some(active) = self.active_repo_id {
            if self.belongs_to(active.0, worktree_id) {
                found = Some(active.0);
            }
        }
        if found.is_none() {
            let keys: Vec<u64> = map_keys(&self.worktree_ids);
            let mut i: usize = 0;
            while i < keys.len() && found.is_none()
                invariant
                    i <= keys@.len(),
                    ascending(keys@),
                    forall|k: u64| #[trigger]
                        keys@.contains(k) <==> self.worktree_ids@.contains_key(k),
                    found is None ==> forall|j: int|
                        0 <= j < i ==> !#[trigger] in_worktree(self@, keys@[j], worktree_id),
                    found matches Some(id) ==> is_first_in_worktree(self@, id, worktree_id),
                decreases keys@.len() - i,
            {
                let id: u64 = keys[i];
                if self.belongs_to(id, worktree_id) {
                    found = Some(id);
                    proof {
                        assert forall|other: u64| #[trigger]
                            in_worktree(self@, other, worktree_id) implies id <= other by {
                            assert(keys@.contains(other));
                            let j = choose|j: int| 0 <= j < keys@.len() && keys@[j] == other;
                            if j < i {
                                assert(!in_worktree(self@, keys@[j], worktree_id));
                            }
                        }
                    }
                }
                i += 1;
            }
            proof {
                if let Some(id) = found {
                    let other = choose|other: u64| is_first_in_worktree(self@, other, worktree_id);
                    assert(in_worktree(self@, id, worktree_id));
                    assert(in_worktree(self@, other, worktree_id));
                    assert(other == id);
                } else {
                    assert forall|id: u64| !is_first_in_worktree(self@, id, worktree_id) by {
                        if in_worktree(self@, id, worktree_id) {
                            assert(keys@.contains(id));
                            let j = choose|j: int| 0 <= j < keys@.len() && keys@[j] == id;
                            assert(!in_worktree(self@, keys@[j], worktree_id));
                        }
                    }
                }
            }
        }
        match found {
            Some(id) => match map_get(&self.repositories, id) {
                Some(dirs) => dirs.main_worktree_abs_path(),
                None => None,
            },
            None => None,
        }
    }

    /// Whether a repository belongs to a trusted worktree. Where trust is not kept
    /// at all, none is trusted.
    pub fn repository_is_trusted(
        &self,
        repository_id: RepositoryId,
        trusted_worktrees: Option<&BTreeSet<u64>>,
    ) -> (result: bool)
        ensures
            result == (trusted_worktrees matches Some(trusted) && exists|worktree: u64|
                in_worktree(self@, repository_id.0, worktree) && #[trigger] trusted@.contains(
                    worktree,
                )),
    {
        match (map_get(&self.worktree_ids, repository_id.0), trusted_worktrees) {
            (Some(ids), Some(trusted)) => {
                assert(self@.worktrees[repository_id.0] == ids@);
                intersects(ids, trusted)
            },
            _ => false,
        }
    }

    /// The repositories whose trust changes with that of these worktrees, in
    /// ascending order.
    pub fn repositories_of_worktrees(&self, worktrees: &BTreeSet<u64>) -> (ids: Vec<u64>)
        ensures
            ascending(ids@),
            forall|id: u64| #[trigger]
                ids@.contains(id) <==> self@.repositories.contains_key(id) && exists|worktree: u64|
                    in_worktree(self@, id, worktree) && #[trigger] worktrees@.contains(worktree),
    {
        let keys: Vec<u64> = map_keys(&self.worktree_ids);
        let mut ids: Vec<u64> = Vec::new();
        let mut i: usize = 0;
        while i < keys.len()
            invariant
                i <= keys@.len(),
                ascending(keys@),
                forall|k: u64| #[trigger] keys@.contains(k) <==> self.worktree_ids@.contains_key(k),
                ascending(ids@),
                forall|k: int| 0 <= k < ids@.len() && i < keys@.len() ==> ids@[k] < keys@[i as int],
                forall|k: int| 0 <= k < ids@.len() ==> trust_changes(self@, #[trigger] ids@[k], worktrees@),
                forall|j: int|
                    0 <= j < i && trust_changes(self@, #[trigger] keys@[j], worktrees@)
                        ==> ids@.contains(keys@[j]),
            decreases keys@.len() - i,
        {
            let id: u64 = keys[i];
            let ghost ids_before = ids@;
            if let Some(own) = map_get(&self.worktree_ids, id) {
                assert(self@.worktrees[id] == own@);
                if map_has(&self.repositories, id) && intersects(own, worktrees) {
                    ids.push(id);
                    assert(ids@[ids@.len() - 1] == id);
                }
            }
            proof {
                assert forall|j: int|
                    0 <= j < i + 1 && trust_changes(
                        self@,
                        #[trigger] keys@[j],
                        worktrees@,
                    ) implies ids@.contains(keys@[j]) by {
                    if j < i {
                        let k = choose|k: int|
                            0 <= k < ids_before.len() && ids_before[k] == keys@[j];
                        assert(ids@[k] == keys@[j]);
                    }
                }
            }
            i += 1;
        }
        proof {
            assert forall|id: u64| #[trigger]
                ids@.contains(id) <==> trust_changes(self@, id, worktrees@) by {
                if trust_changes(self@, id, worktrees@) {
                    assert(keys@.contains(id));
                    let j = choose|j: int| 0 <= j < keys@.len() && keys@[j] == id;
                    assert(ids@.contains(keys@[j]));
                }
            }
        }
        ids
    }

    /// The repositories whose diff bases have to be read again because a scan of a
    /// worktree speaks of them, in ascending order.
    pub fn local_worktree_git_repos_changed(&self, changed: &Vec<UpdatedGitRepository>) -> (ids:
        Vec<u64>)
        ensures
            ascending(ids@),
            forall|id: u64| #[trigger]
                ids@.contains(id) <==> reported(self@, id, update_views(changed@)),
    {
        let keys: Vec<u64> = map_keys(&self.repositories);
        let mut ids: Vec<u64> = Vec::new();
        let ghost updates = update_views(changed@);
        let mut i: usize = 0;
        while i < keys.len()
            invariant
                i <= keys@.len(),
                ascending(keys@),
                updates == update_views(changed@),
                forall|k: u64| #[trigger] keys@.contains(k) <==> self.repositories@.contains_key(k),
                ascending(ids@),
                forall|k: int| 0 <= k < ids@.len() && i < keys@.len() ==> ids@[k] < keys@[i as int],
                forall|k: int| 0 <= k < ids@.len() ==> reported(self@, #[trigger] ids@[k], updates),
                forall|j: int|
                    0 <= j < i && reported(self@, #[trigger] keys@[j], updates) ==> ids@.contains(
                        keys@[j],
                    ),
            decreases keys@.len() - i,
        {
            let id: u64 = keys[i];
            let ghost ids_before = ids@;
            assert(keys@.contains(keys@[i as int]));
            if let Some(dirs) = map_get(&self.repositories, id) {
                assert(self@.repositories[id] == dirs@);
                let mut hit: bool = false;
                let mut u: usize = 0;
                while u < changed.len()
                    invariant
                        u <= changed@.len(),
                        updates == update_views(changed@),
                        hit == exists|v: int|
                            0 <= v < u && concerns(#[trigger] updates[v], dirs@),
                    decreases changed@.len() - u,
                {
                    assert(updates[u as int] == changed@[u as int]@);
                    if is_path(&changed[u].old_work_directory, &dirs.work_directory) || is_path(
                        &changed[u].new_work_directory,
                        &dirs.work_directory,
                    ) {
                        hit = true;
                        assert(concerns(updates[u as int], dirs@));
                    }
                    u += 1;
                }
                if hit {
                    ids.push(id);
                    assert(ids@[ids@.len() - 1] == id);
                }
            }
            proof {
                assert forall|j: int|
                    0 <= j < i + 1 && reported(self@, #[trigger] keys@[j], updates) implies ids@.contains(keys@[j]) by {
                    if j < i {
                        let k = choose|k: int|
                            0 <= k < ids_before.len() && ids_before[k] == keys@[j];
                        assert(ids@[k] == keys@[j]);
                    }
                }
            }
            i += 1;
        }
        proof {
            assert forall|id: u64| #[trigger]
                ids@.contains(id) <==> reported(self@, id, updates) by {
                if reported(self@, id, updates) {
                    assert(keys@.contains(id));
                    let j = choose|j: int| 0 <= j < keys@.len() && keys@[j] == id;
                    assert(ids@.contains(keys@[j]));
                }
            }
        }
        ids
    }
}

/// One of the updates speaks of the repository.
pub open spec fn reported(store: StoreView, id: u64, updates: Seq<UpdateView>) -> bool {
    store.repositories.contains_key(id) && exists|u: int|
        0 <= u < updates.len() && concerns(#[trigger] updates[u], store.repositories[id])
}

/// The repository is known and belongs to one of the worktrees.
pub open spec fn trust_changes(store: StoreView, id: u64, worktrees: Set<u64>) -> bool {
    store.repositories.contains_key(id) && exists|worktree: u64|
        in_worktree(store, id, worktree) && #[trigger] worktrees.contains(worktree)
}

/// The repository belongs to the worktree.
pub open spec fn in_worktree(store: StoreView, id: u64, worktree: u64) -> bool {
    store.worktrees.contains_key(id) && store.worktrees[id].contains(worktree)
}

/// The repository with the lowest identifier that belongs to the worktree.
pub open spec fn is_first_in_worktree(store: StoreView, id: u64, worktree: u64) -> bool {
    in_worktree(store, id, worktree) && forall|other: u64| #[trigger]
        in_worktree(store, other, worktree) ==> id <= other
}

/// The repository that speaks for a worktree.
pub open spec fn repository_of_worktree(store: StoreView, worktree: u64) -> Option<u64> {
    match store.active {
        Some(active) if in_worktree(store, active.0, worktree) => Some(active.0),
        _ => if exists|id: u64| is_first_in_worktree(store, id, worktree) {
            Some(choose|id: u64| is_first_in_worktree(store, id, worktree))
        } else {
            None
        },
    }
}

/// The path of the main worktree that a worktree belongs to.
pub open spec fn original_repo_path(store: StoreView, worktree: u64) -> Option<Seq<Seq<char>>> {
    match repository_of_worktree(store, worktree) {
        Some(id) if store.repositories.contains_key(id) => main_worktree(store.repositories[id]),
        _ => None,
    }
}

/// Whether two sets share an element.
fn intersects(a: &BTreeSet<u64>, b: &BTreeSet<u64>) -> (result: bool)
    ensures
        result == exists|x: u64| a@.contains(x) && #[trigger] b@.contains(x),
{
    let items: Vec<u64> = set_items(a);
    let mut i: usize = 0;
    while i < items.len()
        invariant
            i <= items@.len(),
            forall|x: u64| #[trigger] items@.contains(x) <==> a@.contains(x),
            forall|j: int| 0 <= j < i ==> !b@.contains(#[trigger] items@[j]),
        decreases items@.len() - i,
    {
        assert(items@.contains(items@[i as int]));
        if set_has(b, items[i]) {
            return true;
        }
        i += 1;
    }
    proof {
        assert forall|x: u64| !(a@.contains(x) && #[trigger] b@.contains(x)) by {
            if a@.contains(x) {
                assert(items@.contains(x));
                let j = choose|j: int| 0 <= j < items@.len() && items@[j] == x;
                assert(!b@.contains(items@[j]));
            }
        }
    }
    false
}

/// What is seen of a store is what it holds, directory by directory, and so it is of an update.
pub proof fn store_is_seen_as_it_is(store: GitStore, update: UpdatedGitRepository, id: u64)
    ensures
        store@.repositories.contains_key(id) <==> store.repositories@.contains_key(id),
        store.repositories@.contains_key(id) ==> ({
            let dirs = store.repositories@[id];
            let seen = store@.repositories[id];
            &&& seen.work_directory == dirs.work_directory@
            &&& seen.dot_git == dirs.dot_git@
            &&& seen.repository_dir == dirs.repository_dir@
            &&& seen.common_dir == dirs.common_dir@
        }),
        store@.worktrees.contains_key(id) <==> store.worktree_ids@.contains_key(id),
        store.worktree_ids@.contains_key(id) ==> store@.worktrees[id] == store.worktree_ids@[id]@,
        store@.active == store.active_repo_id,
        store@.next_id == store.next_repository_id,
        ({
            let seen = update@;
            &&& (update.old_work_directory matches Some(path) ==> seen.old_work_directory == Some(
                path@,
            ))
            &&& (update.new_work_directory matches Some(path) ==> seen.new_work_directory == Some(
                path@,
            ))
            &&& (update.dot_git matches Some(path) ==> seen.dot_git == Some(path@))
            &&& (update.repository_dir matches Some(path) ==> seen.repository_dir == Some(path@))
            &&& (update.common_dir matches Some(path) ==> seen.common_dir == Some(path@))
            &&& seen.old_work_directory is Some <==> update.old_work_directory is Some
            &&& seen.new_work_directory is Some <==> update.new_work_directory is Some
            &&& seen.dot_git is Some <==> update.dot_git is Some
            &&& seen.repository_dir is Some <==> update.repository_dir is Some
            &&& seen.common_dir is Some <==> update.common_dir is Some
        }),
{
}

/// The work directory of a repository is the old or the new one of the update, and no repository
/// with a lower number has either.
pub open spec fn is_meant(repositories: Map<u64, DirsView>, update: UpdateView, id: u64) -> bool {
    &&& repositories.contains_key(id)
    &&& Some(repositories[id].work_directory) == update.old_work_directory || Some(
        repositories[id].work_directory,
    ) == update.new_work_directory
    &&& forall|other: u64|
        other < id && #[trigger] repositories.contains_key(other) ==> Some(
            repositories[other].work_directory,
        ) != update.old_work_directory && Some(repositories[other].work_directory)
            != update.new_work_directory
}

proof fn lemma_meant(repositories: Map<u64, DirsView>, update: UpdateView, id: u64)
    requires
        is_meant(repositories, update, id),
    ensures
        concerned(repositories, update) == Some(id),
{
    assert forall|other: u64| #[trigger]
        repositories.contains_key(other) && concerns(update, repositories[other]) implies id
        <= other by {}
    lemma_concerned(repositories, update, id);
}

/// An update that says where a repository is now leaves it there. If it is somewhere else than
/// before and the update names all of its git directories, it has exactly those from now on and
/// is opened anew; otherwise it keeps those that it had. The worktree joins those that it belongs
/// to, it is scanned, and no other repository changes, nor does the active one or the next
/// number.
pub proof fn repositories_move_where_updates_say(
    batch: Batch,
    update: UpdateView,
    worktree: u64,
    is_trusted: bool,
    shared: bool,
    id: u64,
)
    requires
        is_meant(batch.store.repositories, update, id),
        update.new_work_directory is Some,
    ensures
        ({
            let before = batch.store;
            let result = apply_update(batch, update, worktree, is_trusted, shared);
            let after = result.store;
            let dirs = after.repositories[id];
            let reopened = update.old_work_directory != update.new_work_directory
                && update.dot_git is Some && update.repository_dir is Some
                && update.common_dir is Some;
            &&& after.repositories.dom() == before.repositories.dom()
            &&& Some(dirs.work_directory) == update.new_work_directory
            &&& if reopened {
                &&& Some(dirs.dot_git) == update.dot_git
                &&& Some(dirs.repository_dir) == update.repository_dir
                &&& Some(dirs.common_dir) == update.common_dir
            } else {
                &&& dirs.dot_git == before.repositories[id].dot_git
                &&& dirs.repository_dir == before.repositories[id].repository_dir
                &&& dirs.common_dir == before.repositories[id].common_dir
            }
            &&& forall|other: u64|
                other != id && #[trigger] before.repositories.contains_key(other)
                    ==> after.repositories[other] == before.repositories[other]
            &&& after.worktrees.dom() == before.worktrees.dom().insert(id)
            &&& forall|w: u64| #[trigger]
                after.worktrees[id].contains(w) <==> w == worktree || (before.worktrees.contains_key(
                    id,
                ) && before.worktrees[id].contains(w))
            &&& forall|other: u64|
                other != id && #[trigger] before.worktrees.contains_key(other)
                    ==> after.worktrees[other] == before.worktrees[other]
            &&& after.active == before.active
            &&& after.next_id == before.next_id
            &&& result.removed == batch.removed
            &&& result.effects == if reopened {
                batch.effects + seq![
                    GitStoreEffect::ReinitializeBackend { id: RepositoryId(id), is_trusted },
                    GitStoreEffect::ScheduleScan(RepositoryId(id)),
                ]
            } else {
                batch.effects + seq![GitStoreEffect::ScheduleScan(RepositoryId(id))]
            }
        }),
{
    lemma_meant(batch.store.repositories, update, id);
    let result = apply_update(batch, update, worktree, is_trusted, shared);
    assert(result.store.repositories.dom() =~= batch.store.repositories.dom());
    assert(result.store.worktrees.dom() =~= batch.store.worktrees.dom().insert(id));
    assert(result.effects =~= if update.old_work_directory != update.new_work_directory
        && update.dot_git is Some && update.repository_dir is Some && update.common_dir is Some {
        batch.effects + seq![
            GitStoreEffect::ReinitializeBackend { id: RepositoryId(id), is_trusted },
            GitStoreEffect::ScheduleScan(RepositoryId(id)),
        ]
    } else {
        batch.effects + seq![GitStoreEffect::ScheduleScan(RepositoryId(id))]
    });
}

/// An update that says that a repository is gone takes it out of the worktree that reports it,
/// and of no other; a repository that belongs to no worktree any more is marked for removal.
/// Nothing else changes.
pub proof fn repositories_leave_the_reporting_worktree(
    batch: Batch,
    update: UpdateView,
    worktree: u64,
    is_trusted: bool,
    shared: bool,
    id: u64,
)
    requires
        is_meant(batch.store.repositories, update, id),
        update.new_work_directory is None,
    ensures
        ({
            let before = batch.store;
            let result = apply_update(batch, update, worktree, is_trusted, shared);
            let after = result.store;
            &&& after.repositories == before.repositories
            &&& after.active == before.active
            &&& after.next_id == before.next_id
            &&& result.effects == batch.effects
            &&& after.worktrees.dom() == before.worktrees.dom()
            &&& forall|other: u64, w: u64|
                before.worktrees.contains_key(other) ==> (#[trigger] after.worktrees[other].contains(
                    w,
                ) <==> before.worktrees[other].contains(w) && !(other == id && w == worktree))
            &&& result.removed == if before.worktrees.contains_key(id) && (forall|w: u64|
                before.worktrees[id].contains(w) ==> w == worktree) {
                batch.removed.push(id)
            } else {
                batch.removed
            }
        }),
{
    lemma_meant(batch.store.repositories, update, id);
    let before = batch.store;
    let result = apply_update(batch, update, worktree, is_trusted, shared);
    assert(result.store.worktrees.dom() =~= before.worktrees.dom());
    if before.worktrees.contains_key(id) {
        let left = before.worktrees[id].remove(worktree);
        if forall|w: u64| before.worktrees[id].contains(w) ==> w == worktree {
            assert(left =~= Set::<u64>::empty());
        } else {
            let w = choose|w: u64| before.worktrees[id].contains(w) && w != worktree;
            assert(left.contains(w));
        }
    }
}

/// An update of a repository that is not known adds it, if it names all of its directories: with
/// exactly those, under the next number, in the worktree that reports it alone. It is opened,
/// sent to whom the project is shared with, scanned and announced; where there was no active
/// repository, it becomes the active one. An update that does not name them all changes nothing.
pub proof fn unknown_repositories_are_added(
    batch: Batch,
    update: UpdateView,
    worktree: u64,
    is_trusted: bool,
    shared: bool,
)
    requires
        forall|id: u64| #[trigger]
            batch.store.repositories.contains_key(id) ==> Some(
                batch.store.repositories[id].work_directory,
            ) != update.old_work_directory && Some(batch.store.repositories[id].work_directory)
                != update.new_work_directory,
    ensures
        ({
            let before = batch.store;
            let result = apply_update(batch, update, worktree, is_trusted, shared);
            let after = result.store;
            let id = before.next_id as u64;
            if update.new_work_directory is Some && update.dot_git is Some
                && update.repository_dir is Some && update.common_dir is Some {
                let dirs = after.repositories[id];
                &&& after.repositories.dom() == before.repositories.dom().insert(id)
                &&& Some(dirs.work_directory) == update.new_work_directory
                &&& Some(dirs.dot_git) == update.dot_git
                &&& Some(dirs.repository_dir) == update.repository_dir
                &&& Some(dirs.common_dir) == update.common_dir
                &&& forall|other: u64|
                    other != id && #[trigger] before.repositories.contains_key(other)
                        ==> after.repositories[other] == before.repositories[other]
                &&& after.worktrees.dom() == before.worktrees.dom().insert(id)
                &&& forall|w: u64| #[trigger] after.worktrees[id].contains(w) <==> w == worktree
                &&& forall|other: u64|
                    other != id && #[trigger] before.worktrees.contains_key(other)
                        ==> after.worktrees[other] == before.worktrees[other]
                &&& after.next_id == before.next_id + 1
                &&& after.active == if before.active is None {
                    Some(RepositoryId(id))
                } else {
                    before.active
                }
                &&& result.removed == batch.removed
                &&& result.effects == batch.effects + seq![
                    GitStoreEffect::OpenRepository { id: RepositoryId(id), is_trusted },
                ] + (if shared {
                    seq![GitStoreEffect::SendUpdate(RepositoryId(id))]
                } else {
                    Seq::empty()
                }) + seq![
                    GitStoreEffect::ScheduleScan(RepositoryId(id)),
                    GitStoreEffect::RepositoryAdded,
                ] + (if before.active is None {
                    seq![GitStoreEffect::ActiveRepositoryChanged(Some(RepositoryId(id)))]
                } else {
                    Seq::empty()
                })
            } else {
                result == batch
            }
        }),
{
    let before = batch.store;
    assert forall|id: u64| !is_concerned(before.repositories, update, id) by {}
    let result = apply_update(batch, update, worktree, is_trusted, shared);
    let id = before.next_id as u64;
    if update.new_work_directory is Some && update.dot_git is Some && update.repository_dir is Some
        && update.common_dir is Some {
        assert(result.store.repositories.dom() =~= before.repositories.dom().insert(id));
        assert(result.store.worktrees.dom() =~= before.worktrees.dom().insert(id));
        assert(result.effects =~= batch.effects + seq![
            GitStoreEffect::OpenRepository { id: RepositoryId(id), is_trusted },
        ] + (if shared {
            seq![GitStoreEffect::SendUpdate(RepositoryId(id))]
        } else {
            Seq::empty()
        }) + seq![
            GitStoreEffect::ScheduleScan(RepositoryId(id)),
            GitStoreEffect::RepositoryAdded,
        ] + (if before.active is None {
            seq![GitStoreEffect::ActiveRepositoryChanged(Some(RepositoryId(id)))]
        } else {
            Seq::empty()
        }));
    }
}

/// The updates of a report take effect in their order, each on what those before it left. What
/// was marked for removal then leaves, in the order in which it was marked: whom the project is
/// shared with is told, and where the active repository leaves, none is active and that is
/// announced.
pub proof fn reports_are_carried_out_in_order(
    store: StoreView,
    updates: Seq<UpdateView>,
    update: UpdateView,
    batch: Batch,
    ids: Seq<u64>,
    id: u64,
    worktree: u64,
    is_trusted: bool,
    shared: bool,
)
    ensures
        ({
            let start = after_updates(store, Seq::empty(), worktree, is_trusted, shared);
            start.store == store && start.removed.len() == 0 && start.effects.len() == 0
        }),
        after_updates(store, updates.push(update), worktree, is_trusted, shared) == apply_update(
            after_updates(store, updates, worktree, is_trusted, shared),
            update,
            worktree,
            is_trusted,
            shared,
        ),
        ({
            let updated = after_updates(store, updates, worktree, is_trusted, shared);
            scan_report(store, updates, worktree, is_trusted, shared) == drop_repositories(
                updated,
                updated.removed,
                shared,
            )
        }),
        drop_repositories(batch, Seq::empty(), shared) == batch,
        ({
            let before = drop_repositories(batch, ids, shared);
            let after = drop_repositories(batch, ids.push(id), shared);
            let active_leaves = before.store.active == Some(RepositoryId(id));
            &&& forall|other: u64| #[trigger]
                after.store.repositories.contains_key(other) <==> other != id
                    && before.store.repositories.contains_key(other)
            &&& forall|other: u64| #[trigger]
                after.store.repositories.contains_key(other) ==> after.store.repositories[other]
                    == before.store.repositories[other]
            &&& after.store.worktrees == before.store.worktrees
            &&& after.store.next_id == before.store.next_id
            &&& after.store.active == if active_leaves {
                None
            } else {
                before.store.active
            }
            &&& after.effects == before.effects + (if active_leaves {
                seq![GitStoreEffect::ActiveRepositoryChanged(None)]
            } else {
                Seq::empty()
            }) + (if shared {
                seq![GitStoreEffect::SendRemove(RepositoryId(id))]
            } else {
                Seq::empty()
            })
        }),
{
    assert(updates.push(update).drop_last() =~= updates);
    assert(ids.push(id).drop_last() =~= ids);
    let before = drop_repositories(batch, ids, shared);
    let after = drop_repositories(batch, ids.push(id), shared);
    assert(after.effects =~= before.effects + (if before.store.active == Some(RepositoryId(id)) {
        seq![GitStoreEffect::ActiveRepositoryChanged(None)]
    } else {
        Seq::empty()
    }) + (if shared {
        seq![GitStoreEffect::SendRemove(RepositoryId(id))]
    } else {
        Seq::empty()
    }));
}

/// A repository that a report moves is found where the report says, with the git directories that
/// it names, and with them it is known whether it is a linked worktree and where its main
/// worktree is.
pub proof fn reported_moves_are_kept(
    before: GitStore,
    update: UpdatedGitRepository,
    worktree: u64,
    is_trusted: bool,
    shared: bool,
    after: GitStore,
    effects: Seq<GitStoreEffect>,
    id: u64,
)
    requires
        ({
            let report = scan_report(
                before@,
                update_views(seq![update]),
                worktree,
                is_trusted,
                shared,
            );
            after@ == report.store && effects == report.effects
        }),
        before.repositories@.contains_key(id),
        update.old_work_directory matches Some(path) && path@
            == before.repositories@[id].work_directory@,
        forall|other: u64| #[trigger]
            before.repositories@.contains_key(other) && other != id
                ==> before.repositories@[other].work_directory@ != update.old_work_directory->0@
                && before.repositories@[other].work_directory@ != update.new_work_directory->0@,
        update.new_work_directory is Some,
        update.new_work_directory->0@ != update.old_work_directory->0@,
        update.dot_git is Some,
        update.repository_dir is Some,
        update.common_dir is Some,
    ensures
        after.repositories@.contains_key(id),
        ({
            let dirs = after.repositories@[id];
            &&& dirs.work_directory@ == update.new_work_directory->0@
            &&& dirs.dot_git@ == update.dot_git->0@
            &&& dirs.repository_dir@ == update.repository_dir->0@
            &&& dirs.common_dir@ == update.common_dir->0@
            &&& is_linked(dirs@) <==> update.repository_dir->0@ != update.common_dir->0@
            &&& !is_linked(dirs@) ==> main_worktree(dirs@) == Some(update.new_work_directory->0@)
        }),
        effects == seq![
            GitStoreEffect::ReinitializeBackend { id: RepositoryId(id), is_trusted },
            GitStoreEffect::ScheduleScan(RepositoryId(id)),
        ],
{
    let views = update_views(seq![update]);
    let none = Seq::<UpdateView>::empty();
    assert(views =~= none.push(update@));
    let start = after_updates(before@, none, worktree, is_trusted, shared);
    let updated = after_updates(before@, views, worktree, is_trusted, shared);
    assert(views.drop_last() =~= none);
    assert(is_meant(before@.repositories, update@, id)) by {
        assert forall|other: u64|
            other < id && #[trigger] before@.repositories.contains_key(other) implies Some(
            before@.repositories[other].work_directory,
        ) != update@.old_work_directory && Some(before@.repositories[other].work_directory)
            != update@.new_work_directory by {
            assert(before.repositories@.contains_key(other));
        }
    }
    repositories_move_where_updates_say(start, update@, worktree, is_trusted, shared, id);
    assert(updated == apply_update(start, update@, worktree, is_trusted, shared));
    assert(updated.removed.len() == 0);
    assert(after@ == updated.store);
    assert(after@.repositories.contains_key(id));
    assert(after@.repositories[id] == after.repositories@[id]@);
    assert(effects =~= seq![
        GitStoreEffect::ReinitializeBackend { id: RepositoryId(id), is_trusted },
        GitStoreEffect::ScheduleScan(RepositoryId(id)),
    ]);
}

/// A worktree that was created from another one has a git directory of its own below the common
/// one; any other is its own main worktree. The main worktree of a linked one is what the common
/// `.git` lies in; a bare repository has none.
pub proof fn main_worktrees_hold_the_common_directory(dirs: RepositoryDirs)
    ensures
        is_linked(dirs@) <==> dirs.repository_dir@ != dirs.common_dir@,
        dirs.repository_dir@ == dirs.common_dir@ ==> main_worktree(dirs@) == Some(
            dirs.work_directory@,
        ),
        dirs.repository_dir@ != dirs.common_dir@ ==> match main_worktree(dirs@) {
            Some(path) => dirs.common_dir@ == path.push(".git"@),
            None => forall|path: Seq<Seq<char>>| dirs.common_dir@ != #[trigger] path.push(".git"@),
        },
{
    if dirs.repository_dir@ != dirs.common_dir@ {
        if let Some(path) = main_worktree(dirs@) {
            assert(dirs.common_dir@ =~= path.push(".git"@));
        } else {
            assert forall|path: Seq<Seq<char>>| dirs.common_dir@ != #[trigger] path.push(
                ".git"@,
            ) by {
                assert(path.push(".git"@).last() == ".git"@);
            }
        }
    }
}

/// When a worktree is gone, no repository belongs to it any more. A repository that belongs to
/// another one stays as it is; one that belonged to this one alone leaves. The active repository
/// stays active if it stays; otherwise the remaining one with the lowest number is. Those whom the
/// project is shared with hear of just the repositories that left, and a change of the active
/// repository is announced just if it left.
pub proof fn forgotten_worktrees_leave_nothing(
    before: GitStore,
    worktree: u64,
    shared: bool,
    after: GitStore,
    effects: Seq<GitStoreEffect>,
)
    requires
        forgets_worktree(before@, worktree, shared, after@, effects),
    ensures
        forall|id: u64| #[trigger]
            after.worktree_ids@.contains_key(id) ==> !after.worktree_ids@[id]@.contains(worktree),
        forall|id: u64, other: u64|
            other != worktree && before.worktree_ids@.contains_key(id)
                && #[trigger] before.worktree_ids@[id]@.contains(other)
                ==> after.worktree_ids@.contains_key(id) && after.worktree_ids@[id]@.contains(other)
                && (before.repositories@.contains_key(id) ==> after.repositories@.contains_key(id)),
        forall|id: u64| #[trigger]
            before.worktree_ids@.contains_key(id) && before.worktree_ids@[id]@ == set![worktree]
                ==> !after.worktree_ids@.contains_key(id) && !after.repositories@.contains_key(id),
        forall|id: u64| #[trigger]
            after.repositories@.contains_key(id) ==> before.repositories@.contains_key(id)
                && after.repositories@[id]@ == before.repositories@[id]@,
        before.active_repo_id matches Some(active) && before.repositories@.contains_key(active.0)
            && !after.repositories@.contains_key(active.0) ==> ({
            &&& effects.contains(GitStoreEffect::ActiveRepositoryChanged(after.active_repo_id))
            &&& match after.active_repo_id {
                Some(now) => after.repositories@.contains_key(now.0) && forall|id: u64| #[trigger]
                    after.repositories@.contains_key(id) ==> now.0 <= id,
                None => forall|id: u64| !#[trigger] after.repositories@.contains_key(id),
            }
        }),
        before.active_repo_id is None ==> after.active_repo_id is None,
        before.active_repo_id matches Some(active) && after.repositories@.contains_key(active.0)
            ==> after.active_repo_id == before.active_repo_id,
        forall|id: u64|
            before.worktree_ids@.contains_key(id) && before.worktree_ids@[id]@ == set![worktree]
                && shared ==> #[trigger] effects.contains(
                GitStoreEffect::SendRemove(RepositoryId(id)),
            ),
        forall|id: u64| #[trigger]
            effects.contains(GitStoreEffect::SendRemove(RepositoryId(id))) ==> shared
                && !after.repositories@.contains_key(id),
        after.next_repository_id == before.next_repository_id,
{
    let gone = choose|gone: Seq<u64>| #[trigger]
        ascending(gone) && (forall|id: u64| #[trigger]
            gone.contains(id) <==> emptied(before@, worktree, id)) && effects == (
        match before@.active {
            Some(active) if emptied(before@, worktree, active.0) => removal_effects(
                gone,
                shared,
            ).push(GitStoreEffect::ActiveRepositoryChanged(after@.active)),
            _ => removal_effects(gone, shared),
        });
    let told = removal_effects(gone, shared);
    assert forall|id: u64| #[trigger] after.worktree_ids@.contains_key(id) implies
        !after.worktree_ids@[id]@.contains(worktree) by {
        assert(after@.worktrees.contains_key(id));
    }
    assert forall|id: u64, other: u64|
        other != worktree && before.worktree_ids@.contains_key(id)
            && #[trigger] before.worktree_ids@[id]@.contains(other) implies
        after.worktree_ids@.contains_key(id) && after.worktree_ids@[id]@.contains(other) && (
    before.repositories@.contains_key(id) ==> after.repositories@.contains_key(id)) by {
        assert(before@.worktrees[id].remove(worktree).contains(other));
        assert(!emptied(before@, worktree, id));
        assert(after@.worktrees.contains_key(id));
        if before.repositories@.contains_key(id) {
            assert(after@.repositories.contains_key(id));
        }
    }
    assert forall|id: u64| #[trigger]
        before.worktree_ids@.contains_key(id) && before.worktree_ids@[id]@
            == set![worktree] implies !after.worktree_ids@.contains_key(id)
        && !after.repositories@.contains_key(id) by {
        assert(before@.worktrees[id].remove(worktree) =~= Set::<u64>::empty());
        assert(emptied(before@, worktree, id));
        assert(!after@.worktrees.contains_key(id));
        assert(!after@.repositories.contains_key(id));
    }
    assert forall|id: u64| #[trigger] after.repositories@.contains_key(id) implies
        before.repositories@.contains_key(id) && after.repositories@[id]@
        == before.repositories@[id]@ by {
        assert(after@.repositories.contains_key(id));
        assert(before@.repositories.contains_key(id));
    }
    if let Some(active) = before.active_repo_id {
        if before.repositories@.contains_key(active.0) {
            assert(before@.repositories.contains_key(active.0));
            assert(after@.repositories.contains_key(active.0) <==> !emptied(
                before@,
                worktree,
                active.0,
            ));
        }
        if after.repositories@.contains_key(active.0) {
            assert(after@.repositories.contains_key(active.0));
        }
        if emptied(before@, worktree, active.0) {
            let last = GitStoreEffect::ActiveRepositoryChanged(after.active_repo_id);
            assert(effects[told.len() as int] == last);
            if let Some(now) = after.active_repo_id {
                assert(after@.repositories.contains_key(now.0));
                assert forall|id: u64| #[trigger] after.repositories@.contains_key(id) implies now.0
                    <= id by {
                    assert(after@.repositories.contains_key(id));
                }
            } else {
                assert forall|id: u64| !#[trigger] after.repositories@.contains_key(id) by {
                    assert(!after@.repositories.contains_key(id));
                }
            }
        }
    }
    assert forall|id: u64|
        before.worktree_ids@.contains_key(id) && before.worktree_ids@[id]@ == set![worktree]
            && shared implies #[trigger] effects.contains(
        GitStoreEffect::SendRemove(RepositoryId(id)),
    ) by {
        assert(before@.worktrees[id].remove(worktree) =~= Set::<u64>::empty());
        assert(gone.contains(id));
        let k = choose|k: int| 0 <= k < gone.len() && gone[k] == id;
        assert(told[k] == GitStoreEffect::SendRemove(RepositoryId(id)));
        assert(effects[k] == told[k]);
    }
    assert forall|id: u64| #[trigger]
        effects.contains(GitStoreEffect::SendRemove(RepositoryId(id))) implies shared
        && !after.repositories@.contains_key(id) by {
        let sent = GitStoreEffect::SendRemove(RepositoryId(id));
        let k = choose|k: int| 0 <= k < effects.len() && effects[k] == sent;
        assert(k < told.len());
        assert(told[k] == sent);
        assert(gone[k] == id);
        assert(gone.contains(id));
        assert(!after@.repositories.contains_key(id));
    }
}

/// A path belongs to the repository that holds it most closely: its work directory and the path
/// inside it make up the path, and no repository with a longer work directory holds it.
pub proof fn paths_belong_to_the_closest_repository(
    store: GitStore,
    id: u64,
    path: Seq<Seq<char>>,
    other: u64,
    inside: Seq<Seq<char>>,
)
    requires
        is_innermost(store@.repositories, id, path),
    ensures
        store.repositories@.contains_key(id),
        ({
            let held = store.repositories@[id].work_directory@;
            held + path.skip(held.len() as int) == path
        }),
        store.repositories@.contains_key(other) && store.repositories@[other].work_directory@
            + inside == path ==> store.repositories@[other].work_directory@.len()
            <= store.repositories@[id].work_directory@.len(),
{
    let held = store.repositories@[id].work_directory@;
    assert(store@.repositories.contains_key(id));
    assert(path.take(held.len() as int) =~= held);
    assert(held + path.skip(held.len() as int) =~= path);
    if store.repositories@.contains_key(other) {
        let around = store.repositories@[other].work_directory@;
        if around + inside == path {
            assert((around + inside).take(around.len() as int) =~= around);
            assert(store@.repositories.contains_key(other));
            assert(has_prefix(path, around));
            assert(repository_holds(store@.repositories, other, path));
        }
    }
}

/// A path that some repository's work directory leads to is held.
pub proof fn paths_below_a_repository_are_held(
    store: GitStore,
    id: u64,
    inside: Seq<Seq<char>>,
)
    requires
        store.repositories@.contains_key(id),
    ensures
        repository_holds(
            store@.repositories,
            id,
            store.repositories@[id].work_directory@ + inside,
        ),
{
    let around = store.repositories@[id].work_directory@;
    assert((around + inside).take(around.len() as int) =~= around);
    assert(store@.repositories.contains_key(id));
}

/// A repository belongs to just the worktrees that are entered for it. The repository that speaks
/// for a worktree is the active one, if it belongs to the worktree, and else the one with the
/// lowest number that does.
pub proof fn worktrees_are_spoken_for(store: GitStore, worktree: u64, id: u64)
    ensures
        in_worktree(store@, id, worktree) <==> store.worktree_ids@.contains_key(id)
            && store.worktree_ids@[id]@.contains(worktree),
        store.active_repo_id == Some(RepositoryId(id)) && store.worktree_ids@.contains_key(id)
            && store.worktree_ids@[id]@.contains(worktree) ==> repository_of_worktree(
            store@,
            worktree,
        ) == Some(id),
        repository_of_worktree(store@, worktree) == Some(id) ==> store.worktree_ids@.contains_key(id)
            && store.worktree_ids@[id]@.contains(worktree) && (store.active_repo_id == Some(
            RepositoryId(id),
        ) || forall|other: u64| #[trigger]
            store.worktree_ids@.contains_key(other) && store.worktree_ids@[other]@.contains(
                worktree,
            ) ==> id <= other),
        original_repo_path(store@, worktree) == (match repository_of_worktree(store@, worktree) {
            Some(found) if store.repositories@.contains_key(found) => main_worktree(
                store.repositories@[found]@,
            ),
            _ => None,
        }),
{
    if repository_of_worktree(store@, worktree) == Some(id) && store.active_repo_id != Some(
        RepositoryId(id),
    ) {
        assert(is_first_in_worktree(store@, id, worktree));
        assert forall|other: u64| #[trigger]
            store.worktree_ids@.contains_key(other) && store.worktree_ids@[other]@.contains(
                worktree,
            ) implies id <= other by {
            assert(in_worktree(store@, other, worktree));
        }
    }
}

/// A report speaks of just the known repositories whose work directory is the old or the new one
/// of some update.
pub proof fn reports_speak_of_repositories(
    store: GitStore,
    updates: Seq<UpdatedGitRepository>,
    id: u64,
)
    ensures
        reported(store@, id, update_views(updates)) <==> store.repositories@.contains_key(id)
            && exists|u: int|
            0 <= u < updates.len() && (((#[trigger] updates[u]).old_work_directory matches Some(
                path,
            ) && path@ == store.repositories@[id].work_directory@) || (
            updates[u].new_work_directory matches Some(path) && path@
                == store.repositories@[id].work_directory@)),
{
    let views = update_views(updates);
    assert forall|u: int| 0 <= u < updates.len() implies #[trigger] views[u] == updates[u]@ by {}
    if reported(store@, id, views) {
        let u = choose|u: int|
            0 <= u < views.len() && concerns(#[trigger] views[u], store@.repositories[id]);
        assert(views[u] == updates[u]@);
    }
    if store.repositories@.contains_key(id) && exists|u: int|
        0 <= u < updates.len() && (((#[trigger] updates[u]).old_work_directory matches Some(path)
            && path@ == store.repositories@[id].work_directory@) || (
        updates[u].new_work_directory matches Some(path) && path@
            == store.repositories@[id].work_directory@)) {
        let u = choose|u: int|
            0 <= u < updates.len() && (((#[trigger] updates[u]).old_work_directory matches Some(
                path,
            ) && path@ == store.repositories@[id].work_directory@) || (
            updates[u].new_work_directory matches Some(path) && path@
                == store.repositories@[id].work_directory@));
        assert(views[u] == updates[u]@);
        assert(concerns(views[u], store@.repositories[id]));
    }
}
/// The active repository is the one that was made active, and that says whether it was another
/// before. Nothing else changes.
pub proof fn repositories_are_made_active(
    store: &mut GitStore,
    repo_id: RepositoryId,
    changed: bool,
    other: &mut GitStore,
    known: bool,
)
    requires
        call_ensures(GitStore::set_active_repo_id, (store, repo_id), changed),
        call_ensures(GitStore::set_as_active_repository, (other, repo_id), known),
    ensures
        final(store).active_repo_id == Some(repo_id),
        changed <==> old(store).active_repo_id != Some(repo_id),
        final(store)@.repositories == old(store)@.repositories,
        final(store)@.worktrees == old(store)@.worktrees,
        final(store).next_repository_id == old(store).next_repository_id,
        known <==> old(other).repositories@.contains_key(repo_id.0),
        known ==> final(other).active_repo_id == Some(repo_id),
        !known ==> final(other).active_repo_id == old(other).active_repo_id,
        final(other)@.repositories == old(other)@.repositories,
{
    assert(final(store)@.active == final(store).active_repo_id);
    assert(final(other)@.active == final(other).active_repo_id);
    assert(final(store)@.next_id == final(store).next_repository_id);
}

/// The active repository is given with its own directories.
pub proof fn the_active_repository_is_given(
    store: GitStore,
    active: Option<(RepositoryId, &RepositoryDirs)>,
    changed: bool,
    unchanged: &mut GitStore,
)
    requires
        call_ensures(GitStore::active_repository, (&store,), active),
        call_ensures(GitStore::set_active_repo_for_worktree, (unchanged, None), changed),
    ensures
        active is Some <==> store.active_repo_id is Some,
        active matches Some((id, dirs)) ==> store.active_repo_id == Some(id) && dirs@
            == store@.repositories[id.0],
        !changed,
        final(unchanged)@ == old(unchanged)@,
{
}

/// The path in the repository of a path of the project is the path without the work directory.
pub proof fn paths_are_found_in_their_repository(
    store: GitStore,
    abs_path: RelPath,
    found: Option<(RepositoryId, RepoPath)>,
)
    requires
        call_ensures(GitStore::repository_and_path_for_project_path, (&store, &abs_path), found),
    ensures
        found matches Some((id, path)) ==> {
            &&& store.repositories@.contains_key(id.0)
            &&& store.repositories@[id.0].work_directory@ + path@ == abs_path@
        },
{
    if found is Some {
        let id = (found->0).0;
        let path = (found->0).1;
        let base = store@.repositories[id.0].work_directory;
        assert(repository_holds(store@.repositories, id.0, abs_path@));
        assert(base == store.repositories@[id.0].work_directory@);
        assert(base + path@ =~= abs_path@.take(base.len() as int) + abs_path@.skip(
            base.len() as int,
        ));
        assert(abs_path@.take(base.len() as int) + abs_path@.skip(base.len() as int) =~= abs_path@);
    }
}

} // verus!
