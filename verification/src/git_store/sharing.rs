//! What whom a project is shared with is told about its repositories.
use std::collections::BTreeMap;
use vstd::prelude::*;

use crate::git_store::changed_paths::views;
use crate::git_store::snapshot::{
    delta_restores, describes, entry_views, is_delta, lists, proto_views, status_at, wire_entries,
    RepositorySnapshot, UpdateRepository,
};
use crate::git_store::status::StatusView;
use crate::git_store::RepositoryId;
use crate::ids::{map_put, map_take};

verus! {

/// Something to tell.
#[derive(Debug)]
pub enum DownstreamUpdate {
    UpdateRepository(RepositorySnapshot),
    RemoveRepository(RepositoryId),
}

/// A message about a repository.
#[derive(Debug)]
pub enum DownstreamMessage {
    Update(UpdateRepository),
    Remove { project_id: u64, id: u64 },
}

/// The message takes guests who know the old snapshot, or none, to the new one: the first
/// one lists all statuses, a later one those that changed.
pub open spec fn is_message_for(
    old: Option<RepositorySnapshot>,
    new: RepositorySnapshot,
    message: UpdateRepository,
) -> bool {
    match old {
        None => {
            &&& message.entry_ids@ == seq![new.id.0]
            &&& proto_views(message.updated_statuses@) == wire_entries(
                entry_views(new.statuses_by_path@),
            )
            &&& message.removed_statuses@.len() == 0
        },
        Some(old) => {
            &&& message.entry_ids@.len() == 0
            &&& exists|updated: Seq<StatusView>| #[trigger]
                wire_entries(updated) == proto_views(message.updated_statuses@) && is_delta(
                    entry_views(old.statuses_by_path@),
                    entry_views(new.statuses_by_path@),
                    updated,
                    views(message.removed_statuses@),
                )
        },
    }
}

pub open spec fn known_snapshot(
    snapshots: Map<u64, RepositorySnapshot>,
    id: RepositoryId,
) -> Option<RepositorySnapshot> {
    if snapshots.contains_key(id.0) {
        Some(snapshots[id.0])
    } else {
        None
    }
}

/// What guests have been told so far: the last snapshot of each repository.
#[derive(Debug)]
pub struct SharedRepositories {
    pub project_id: u64,
    pub snapshots: BTreeMap<u64, RepositorySnapshot>,
}

impl SharedRepositories {
    /// The statuses of all snapshots are in order.
    pub open spec fn well_formed(self) -> bool {
        forall|id: u64| #[trigger]
            self.snapshots@.contains_key(id) ==> self.snapshots@[id].well_formed()
    }

    /// The project is shared, and nothing has been told yet.
    pub fn new(project_id: u64) -> (shared: Self)
        ensures
            shared.well_formed(),
            shared.project_id == project_id,
            shared.snapshots@ == Map::<u64, RepositorySnapshot>::empty(),
    {
        SharedRepositories { project_id, snapshots: BTreeMap::new() }
    }

    /// The message that tells of an update.
    pub fn tell(&mut self, update: DownstreamUpdate) -> (message: DownstreamMessage)
        requires
            old(self).well_formed(),
            update matches DownstreamUpdate::UpdateRepository(snapshot) ==> snapshot.well_formed(),
        ensures
            final(self).well_formed(),
            final(self).project_id == old(self).project_id,
            match update {
                DownstreamUpdate::UpdateRepository(snapshot) => {
                    &&& message is Update
                    &&& describes(message->Update_0, snapshot, old(self).project_id)
                    &&& is_message_for(
                        known_snapshot(old(self).snapshots@, snapshot.id),
                        snapshot,
                        message->Update_0,
                    )
                    &&& final(self).snapshots@ == old(self).snapshots@.insert(
                        snapshot.id.0,
                        snapshot,
                    )
                },
                DownstreamUpdate::RemoveRepository(id) => {
                    &&& message == (DownstreamMessage::Remove {
                        project_id: old(self).project_id,
                        id: id.0,
                    })
                    &&& final(self).snapshots == old(self).snapshots
                },
            },
    {
        match update {
            DownstreamUpdate::UpdateRepository(snapshot) => {
                let id: u64 = snapshot.id.to_proto();
                let ghost before = self.snapshots@;
                let message: UpdateRepository = match map_take(&mut self.snapshots, id) {
                    Some(old_snapshot) => snapshot.build_update(&old_snapshot, self.project_id),
                    None => snapshot.initial_update(self.project_id),
                };
                map_put(&mut self.snapshots, id, snapshot);
                assert(self.snapshots@ =~= before.insert(id, snapshot));
                DownstreamMessage::Update(message)
            },
            DownstreamUpdate::RemoveRepository(id) => DownstreamMessage::Remove {
                project_id: self.project_id,
                id: id.to_proto(),
            },
        }
    }
}

/// What a guest makes of a message about a path: what it updates counts, what it removes is
/// gone, and the rest stays as it was.
pub open spec fn received_status(
    before: Seq<StatusView>,
    updated: Seq<StatusView>,
    removed: Seq<Seq<Seq<char>>>,
    path: Seq<Seq<char>>,
) -> Option<StatusView> {
    if lists(updated, path) {
        status_at(updated, path)
    } else if removed.contains(path) {
        None
    } else {
        status_at(before, path)
    }
}

/// Guests follow: whoever held the statuses of the last snapshot that was told, or none
/// where none was, holds those of the new one after its message.
pub proof fn guests_follow(
    told: Option<RepositorySnapshot>,
    new: RepositorySnapshot,
    updated: Seq<StatusView>,
    removed: Seq<Seq<Seq<char>>>,
    path: Seq<Seq<char>>,
)
    requires
        new.well_formed(),
        match told {
            Some(old) => old.well_formed() && is_delta(
                entry_views(old.statuses_by_path@),
                entry_views(new.statuses_by_path@),
                updated,
                removed,
            ),
            None => updated == entry_views(new.statuses_by_path@) && removed.len() == 0,
        },
    ensures
        status_at(entry_views(new.statuses_by_path@), path) == received_status(
            match told {
                Some(old) => entry_views(old.statuses_by_path@),
                None => Seq::empty(),
            },
            updated,
            removed,
            path,
        ),
{
    if let Some(old) = told {
        delta_restores(
            entry_views(old.statuses_by_path@),
            entry_views(new.statuses_by_path@),
            updated,
            removed,
            path,
        );
    }
}

/// The first message about a repository lists all its statuses and names it as new; later ones
/// name nothing as new. What was told last is remembered, and a removal is told by its number.
pub proof fn repositories_are_told_of(
    shared: &mut SharedRepositories,
    snapshot: RepositorySnapshot,
    message: DownstreamMessage,
    removing: &mut SharedRepositories,
    id: RepositoryId,
    removal: DownstreamMessage,
    made: SharedRepositories,
    project_id: u64,
)
    requires
        call_ensures(
            SharedRepositories::tell,
            (shared, DownstreamUpdate::UpdateRepository(snapshot)),
            message,
        ),
        call_ensures(
            SharedRepositories::tell,
            (removing, DownstreamUpdate::RemoveRepository(id)),
            removal,
        ),
        call_ensures(SharedRepositories::new, (project_id,), made),
    ensures
        message matches DownstreamMessage::Update(update) && {
            &&& update.project_id == old(shared).project_id
            &&& update.id == snapshot.id.0
            &&& update.abs_path@ == snapshot.dirs.work_directory@
            &&& update.scan_id == snapshot.scan_id
            &&& !old(shared).snapshots@.contains_key(snapshot.id.0) ==> update.entry_ids@ == seq![
                snapshot.id.0,
            ] && update.updated_statuses@.len() == snapshot.statuses_by_path@.len()
                && update.removed_statuses@.len() == 0
            &&& old(shared).snapshots@.contains_key(snapshot.id.0) ==> update.entry_ids@.len() == 0
        },
        final(shared).snapshots@.contains_key(snapshot.id.0),
        final(shared).snapshots@[snapshot.id.0] == snapshot,
        final(shared).project_id == old(shared).project_id,
        removal matches DownstreamMessage::Remove { project_id: project, id: removed } && project
            == old(removing).project_id && removed == id.0,
        final(removing).snapshots == old(removing).snapshots,
        made.project_id == project_id,
        made.snapshots@.len() == 0,
{
    if let DownstreamMessage::Update(update) = message {
        assert(proto_views(update.updated_statuses@).len() == update.updated_statuses@.len());
        assert(wire_entries(entry_views(snapshot.statuses_by_path@)).len()
            == snapshot.statuses_by_path@.len());
    }
}

} // verus!
