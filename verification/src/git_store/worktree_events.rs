//! What the store does when something happens to a worktree.
use vstd::prelude::*;

use crate::git_store::changed_paths::{
    are_changes, process_updated_entries, views, ChangedPaths, RepositoryRoot,
};
use crate::git_store::registry::{
    forgets_worktree, reported, scan_report, update_views, well_formed, DirsView, GitStore,
    GitStoreEffect, UpdatedGitRepository,
};
use crate::git_store::RepositoryId;
use crate::ids::{ascending, map_get, map_keys};
use crate::rel_path::RelPath;

verus! {

/// Something that happened to a worktree of the project.
#[derive(Debug)]
pub enum WorktreeStoreEvent {
    /// Entries changed. The root is that of the worktree, while it is known.
    UpdatedEntries { root: Option<RelPath>, entries: Vec<RelPath> },
    /// A scan found repositories, or found that some are gone.
    UpdatedGitRepositories {
        worktree: u64,
        is_known: bool,
        is_trusted: bool,
        updates: Vec<UpdatedGitRepository>,
    },
    Removed(u64),
    /// Nothing that the store takes an interest in.
    Other,
}

/// What has to be done after it.
#[derive(Debug)]
pub enum WorktreeResponse {
    Nothing,
    /// The repositories look at these paths again.
    LookAtPaths(Vec<ChangedPaths>),
    /// The effects take place, and the diff bases of these repositories are read again.
    Repositories { effects: Vec<GitStoreEffect>, reload: Vec<u64> },
}

pub open spec fn root_ids(roots: Seq<RepositoryRoot>) -> Seq<u64> {
    Seq::new(roots.len(), |i: int| roots[i].id.0)
}

/// The roots are the work directories of all repositories, in the order of their numbers.
pub open spec fn are_roots(roots: Seq<RepositoryRoot>, repositories: Map<u64, DirsView>) -> bool {
    &&& ascending(root_ids(roots))
    &&& forall|i: int|
        0 <= i < roots.len() ==> repositories.contains_key((#[trigger] roots[i]).id.0)
            && roots[i].work_directory@ == repositories[roots[i].id.0].work_directory
    &&& forall|id: u64| #[trigger]
        repositories.contains_key(id) ==> root_ids(roots).contains(id)
}

impl GitStore {
    /// The work directories of the repositories.
    pub fn repository_roots(&self) -> (roots: Vec<RepositoryRoot>)
        ensures
            are_roots(roots@, self@.repositories),
    {
        let keys: Vec<u64> = map_keys(&self.repositories);
        let mut roots: Vec<RepositoryRoot> = Vec::new();
        let mut i: usize = 0;
        while i < keys.len()
            invariant
                i <= keys@.len(),
                forall|k: u64| #[trigger] keys@.contains(k) <==> self.repositories@.contains_key(k),
                root_ids(roots@) == keys@.take(i as int),
                forall|j: int|
                    0 <= j < roots@.len() ==> self@.repositories.contains_key(
                        (#[trigger] roots@[j]).id.0,
                    ) && roots@[j].work_directory@
                        == self@.repositories[roots@[j].id.0].work_directory,
            decreases keys@.len() - i,
        {
            let id: u64 = keys[i];
            let ghost before = root_ids(roots@);
            assert(keys@.contains(keys@[i as int]));
            if let Some(dirs) = map_get(&self.repositories, id) {
                assert(self@.repositories[id] == dirs@);
                roots.push(
                    RepositoryRoot {
                        id: RepositoryId(id),
                        work_directory: dirs.work_directory.clone(),
                    },
                );
                assert(root_ids(roots@) =~= before.push(id));
                assert(keys@.take(i + 1) =~= keys@.take(i as int).push(id));
            }
            i += 1;
        }
        assert(keys@.take(i as int) =~= keys@);
        roots
    }

    /// Follows what happens to the worktrees of the project. Changed entries are told to the
    /// repositories that hold them. Repositories that a scan reports are entered or forgotten,
    /// and those that are known afterwards read their diff bases again. Repositories of a
    /// removed worktree go with it.
    pub fn on_worktree_store_event(&mut self, event: &WorktreeStoreEvent, shared: bool) -> (
    response: WorktreeResponse)
        requires
            well_formed(old(self)@),
            event matches WorktreeStoreEvent::UpdatedGitRepositories { updates, .. } ==> old(
                self,
            ).next_repository_id + updates@.len() <= u64::MAX,
        ensures
            well_formed(final(self)@),
            match *event {
                WorktreeStoreEvent::UpdatedEntries { root: Some(root), entries } => {
                    &&& final(self)@ == old(self)@
                    &&& response matches WorktreeResponse::LookAtPaths(changes) && exists|
                        roots: Seq<RepositoryRoot>,
                    | #[trigger]
                        are_roots(roots, old(self)@.repositories) && are_changes(
                            changes@,
                            roots,
                            root@,
                            views(entries@),
                        )
                },
                WorktreeStoreEvent::UpdatedGitRepositories {
                    worktree,
                    is_known: true,
                    is_trusted,
                    updates,
                } => {
                    let report = scan_report(
                        old(self)@,
                        update_views(updates@),
                        worktree,
                        is_trusted,
                        shared,
                    );
                    &&& final(self)@ == report.store
                    &&& response matches WorktreeResponse::Repositories { effects, reload }
                        && effects@ == report.effects && ascending(reload@) && forall|id: u64|
                        #[trigger]
                        reload@.contains(id) <==> reported(
                            report.store,
                            id,
                            update_views(updates@),
                        )
                },
                WorktreeStoreEvent::Removed(worktree) => {
                    response matches WorktreeResponse::Repositories { effects, reload }
                        && reload@.len() == 0 && forgets_worktree(
                        old(self)@,
                        worktree,
                        shared,
                        final(self)@,
                        effects@,
                    )
                },
                _ => response is Nothing && final(self)@ == old(self)@,
            },
    {
        match event {
            WorktreeStoreEvent::UpdatedEntries { root: Some(root), entries } => {
                let roots: Vec<RepositoryRoot> = self.repository_roots();
                let changes: Vec<ChangedPaths> = process_updated_entries(&roots, root, entries);
                assert(are_roots(roots@, old(self)@.repositories));
                WorktreeResponse::LookAtPaths(changes)
            },
            WorktreeStoreEvent::UpdatedGitRepositories {
                worktree,
                is_known: true,
                is_trusted,
                updates,
            } => {
                let effects: Vec<GitStoreEffect> = self.update_repositories_from_worktree(
                    *worktree,
                    updates,
                    *is_trusted,
                    shared,
                );
                let reload: Vec<u64> = self.local_worktree_git_repos_changed(updates);
                WorktreeResponse::Repositories { effects, reload }
            },
            WorktreeStoreEvent::Removed(worktree) => {
                let effects: Vec<GitStoreEffect> = self.remove_worktree(*worktree, shared);
                WorktreeResponse::Repositories { effects, reload: Vec::new() }
            },
            _ => WorktreeResponse::Nothing,
        }
    }
}

/// What is of no interest, what concerns a worktree that is not known any more, and entries
/// without a root change nothing and call for nothing.
pub proof fn other_events_change_nothing(
    store: &mut GitStore,
    event: WorktreeStoreEvent,
    shared: bool,
    response: WorktreeResponse,
)
    requires
        call_ensures(GitStore::on_worktree_store_event, (store, &event, shared), response),
        event is Other || (event matches WorktreeStoreEvent::UpdatedEntries { root: None, .. }) || (
        event matches WorktreeStoreEvent::UpdatedGitRepositories { is_known: false, .. }),
    ensures
        response is Nothing,
        final(store)@ == old(store)@,
{
}

/// Repositories that a scan reports and that are known afterwards read their diff bases again, and
/// no others do.
pub proof fn reported_repositories_are_read_again(
    store: &mut GitStore,
    worktree: u64,
    is_trusted: bool,
    updates: Vec<UpdatedGitRepository>,
    shared: bool,
    response: WorktreeResponse,
    id: u64,
)
    requires
        call_ensures(
            GitStore::on_worktree_store_event,
            (
                store,
                &WorktreeStoreEvent::UpdatedGitRepositories {
                    worktree,
                    is_known: true,
                    is_trusted,
                    updates,
                },
                shared,
            ),
            response,
        ),
    ensures
        response matches WorktreeResponse::Repositories { reload, .. } && (reload@.contains(id)
            <==> final(store).repositories@.contains_key(id) && exists|u: int|
            0 <= u < updates@.len() && (((#[trigger] updates@[u]).old_work_directory matches Some(
                path,
            ) && path@ == final(store).repositories@[id].work_directory@) || (
            updates@[u].new_work_directory matches Some(path) && path@ == final(store).repositories@[id].work_directory@))),
{
    crate::git_store::registry::reports_speak_of_repositories(*final(store), updates@, id);
}

/// A worktree that was removed leaves no repository that belonged to it alone, and nothing is read
/// again.
pub proof fn removed_worktrees_take_their_repositories(
    store: &mut GitStore,
    worktree: u64,
    shared: bool,
    response: WorktreeResponse,
    id: u64,
)
    requires
        call_ensures(
            GitStore::on_worktree_store_event,
            (store, &WorktreeStoreEvent::Removed(worktree), shared),
            response,
        ),
    ensures
        response matches WorktreeResponse::Repositories { reload, .. } && reload@.len() == 0,
        old(store).worktree_ids@.contains_key(id) && old(store).worktree_ids@[id]@ == set![worktree]
            ==> !final(store).repositories@.contains_key(id),
        final(store).worktree_ids@.contains_key(id) ==> !final(store).worktree_ids@[id]@.contains(worktree),
{
    if let WorktreeResponse::Repositories { effects, reload } = response {
        crate::git_store::registry::forgotten_worktrees_leave_nothing(
            *old(store),
            worktree,
            shared,
            *final(store),
            effects@,
        );
    }
}

/// Changed entries change nothing of the store. The repositories that hold them look at paths
/// again.
pub proof fn changed_entries_are_looked_at(
    store: &mut GitStore,
    root: RelPath,
    entries: Vec<RelPath>,
    shared: bool,
    response: WorktreeResponse,
    id: u64,
    e: int,
    inside: Seq<Seq<char>>,
)
    requires
        call_ensures(
            GitStore::on_worktree_store_event,
            (
                store,
                &WorktreeStoreEvent::UpdatedEntries { root: Some(root), entries },
                shared,
            ),
            response,
        ),
        0 <= e < entries@.len(),
        old(store).repositories@.contains_key(id),
        old(store).repositories@[id].work_directory@ + inside == root@ + entries@[e]@,
    ensures
        final(store)@ == old(store)@,
        response matches WorktreeResponse::LookAtPaths(changes) && exists|k: int|
            0 <= k < changes@.len() && (#[trigger] changes@[k]).repository.0 == id,
{
    if let WorktreeResponse::LookAtPaths(changes) = response {
        let roots = choose|roots: Seq<RepositoryRoot>| #[trigger]
            are_roots(roots, old(store)@.repositories) && are_changes(
                changes@,
                roots,
                root@,
                views(entries@),
            );
        assert(old(store)@.repositories.contains_key(id));
        let ids = root_ids(roots);
        assert(ids.contains(id));
        let i = choose|i: int| 0 <= i < ids.len() && ids[i] == id;
        let dir = old(store).repositories@[id].work_directory@;
        assert(roots[i].id.0 == id);
        assert(roots[i].work_directory@ == dir);
        let path = root@ + entries@[e]@;
        assert(path.take(dir.len() as int) =~= dir);
        assert(views(entries@)[e] == entries@[e]@);
        assert(crate::git_store::changed_paths::holds(roots, i, root@ + views(entries@)[e]));
        assert(crate::git_store::changed_paths::touched(roots, i, root@, views(entries@)));
        let of = choose|of: Seq<int>| #[trigger]
            of.no_duplicates() && of.len() == changes@.len() && (forall|k: int|
                0 <= k < of.len() ==> crate::git_store::changed_paths::is_change_for(
                    #[trigger] changes@[k],
                    roots,
                    of[k],
                    root@,
                    views(entries@),
                )) && (forall|i: int| #[trigger]
                crate::git_store::changed_paths::touched(roots, i, root@, views(entries@))
                    ==> of.contains(i));
        let k = choose|k: int| 0 <= k < of.len() && of[k] == i;
        assert(crate::git_store::changed_paths::is_change_for(
            changes@[k],
            roots,
            i,
            root@,
            views(entries@),
        ));
        assert(changes@[k].repository.0 == id);
    }
}

} // verus!
