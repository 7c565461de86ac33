//! Everything that is kept of language servers and of the buffers that are open in them.
use std::collections::{BTreeMap, BTreeSet};
use vstd::prelude::*;

use crate::globs::set_globs;
use crate::ids::{map_get, map_has, map_keys, map_put, map_take, set_copy};
use crate::lsp_store::buffer_versions::{first_version, BufferVersions, Histories};
use crate::lsp_store::capabilities::{RegisteredServers, ServerCapabilities};
use crate::lsp_store::lsp_data::{
    document_colors, is_color_request, latest, latest_lsp_data, untold, BufferLspData,
    BufferVersion, ColorPlan, LspDataView,
};
use crate::lsp_store::open_buffers::{
    action_of, after_open, after_release, count_of, lists, new_server_action, NewServerAction,
    OpenBuffer, OpenPlan, RegisteredBuffers,
};
use crate::lsp_store::progress::{LanguageServerStatuses, ServerAbout, StatusView};
use crate::lsp_store::registration::opened_in;
use crate::lsp_store::renames::{
    are_compilable, servers_told_of_rename, told_of_rename, usable_of, FileOperationFilter,
    RenameMoment, RenamePathsWatchedForServer,
};
use crate::lsp_store::servers::{
    is_closed_in, is_retained, only_in_worktree, runs, serves, serves_worktree, worktree_servers,
    LanguageServerSeed, LanguageServerState, LocalLspStore, LocalView, SeedView, StopPlan,
};
use crate::lsp_store::watched_paths::{
    all_watchers, are_distinct, can_be_watched, is_built, lsp_notify_abs_paths_changed,
    part_views, told_outside, watched, DynamicRegistrations, FileEvent,
    LanguageServerWatchedPaths, PathEvent, PathPart, PathParts, WatchRoot,
};

verus! {

/// What is kept of language servers and open buffers.
#[derive(Debug)]
pub struct LspStore {
    pub local: LocalLspStore,
    pub versions: BufferVersions,
    pub registered_buffers: RegisteredBuffers,
    pub language_server_statuses: LanguageServerStatuses,
    /// What the servers can do, and what they registered for.
    pub registered: RegisteredServers,
    /// What each server is told of when it changes on disk.
    pub watched_paths: BTreeMap<u64, LanguageServerWatchedPaths>,
    /// What each server is told of when it is renamed.
    pub renames: BTreeMap<u64, RenamePathsWatchedForServer>,
    pub lsp_data: BTreeMap<u64, BufferLspData>,
}

/// What a server that has just started can do, and what it wants to know of.
#[derive(Debug)]
pub struct StartedServer {
    pub about: ServerAbout,
    pub capabilities: ServerCapabilities,
    pub did_rename: Option<Vec<FileOperationFilter>>,
    pub will_rename: Option<Vec<FileOperationFilter>>,
}

/// What follows when something happened below a path outside the worktrees.
#[derive(Debug)]
pub enum AbsPathStep {
    /// The path is no longer watched.
    StopWatching,
    /// The server is told of the events, if there are any, and the path goes on being watched.
    Tell { events: Vec<FileEvent> },
}

/// An open buffer that a server which has just started may take on. Whether a handle for it was
/// asked for is known to the store.
#[derive(Clone, Copy, Debug, PartialEq, Eq, Structural)]
pub struct OfferedBuffer {
    pub buffer: OpenBuffer,
    /// The server is one for the buffer's language.
    pub is_served: bool,
    pub snapshot: u64,
}

pub open spec fn data_views(data: Map<u64, BufferLspData>) -> Map<u64, LspDataView> {
    Map::new(|buffer: u64| data.contains_key(buffer), |buffer: u64| data[buffer]@)
}

/// What is known of a buffer, if anything is.
pub open spec fn known_data(data: Map<u64, LspDataView>, buffer: u64) -> Option<LspDataView> {
    if data.contains_key(buffer) {
        Some(data[buffer])
    } else {
        None
    }
}

/// What is known of all buffers without what a server told.
pub open spec fn all_untold(data: Map<u64, LspDataView>, server: u64) -> Map<u64, LspDataView> {
    data.map_values(|known: LspDataView| untold(known, server))
}

/// A buffer, registered if handles for it are counted.
pub open spec fn as_counted(buffer: OpenBuffer, counts: Map<u64, usize>) -> OpenBuffer {
    OpenBuffer { is_registered: counts.contains_key(buffer.id), ..buffer }
}

/// The versions, the open buffers and the actions after a new server went through buffers.
pub ghost struct TakenOn {
    pub histories: Histories,
    pub opened: Map<u64, Set<u64>>,
    pub actions: Seq<NewServerAction>,
}

pub open spec fn taken_on(
    histories: Histories,
    opened: Map<u64, Set<u64>>,
    counts: Map<u64, usize>,
    server: u64,
    worktrees: Seq<u64>,
    buffers: Seq<OfferedBuffer>,
) -> TakenOn
    decreases buffers.len(),
{
    if buffers.len() == 0 {
        TakenOn { histories, opened, actions: Seq::empty() }
    } else {
        let before = taken_on(histories, opened, counts, server, worktrees, buffers.drop_last());
        let offered = buffers.last();
        let action = action_of(as_counted(offered.buffer, counts), worktrees, offered.is_served);
        if action == NewServerAction::Register {
            TakenOn {
                histories: before.histories.insert(
                    (offered.buffer.id, server),
                    first_version(offered.snapshot),
                ),
                opened: opened_in(before.opened, offered.buffer.id, seq![server]),
                actions: before.actions.push(action),
            }
        } else {
            TakenOn { actions: before.actions.push(action), ..before }
        }
    }
}

/// The buffers are different ones, and the server knows none of those that it takes on.
pub open spec fn are_unknown(
    histories: Histories,
    counts: Map<u64, usize>,
    server: u64,
    worktrees: Seq<u64>,
    buffers: Seq<OfferedBuffer>,
) -> bool {
    &&& forall|i: int|
        0 <= i < buffers.len() && action_of(
            as_counted((#[trigger] buffers[i]).buffer, counts),
            worktrees,
            buffers[i].is_served,
        ) == NewServerAction::Register ==> !histories.contains_key((buffers[i].buffer.id, server))
    &&& forall|i: int, j: int|
        0 <= i < j < buffers.len() ==> (#[trigger] buffers[i]).buffer.id != (
        #[trigger] buffers[j]).buffer.id
}

/// What a server told is forgotten, and no buffer is open in it any more.
pub open spec fn is_cleaned(before: LspStore, server: u64, after: LspStore) -> bool {
    &&& data_views(after.lsp_data@) == all_untold(data_views(before.lsp_data@), server)
    &&& is_closed_in(after.local@.opened, before.local@.opened, seq![server].to_set())
    &&& after.local@ == (LocalView { opened: after.local@.opened, ..before.local@ })
    &&& after.versions == before.versions
    &&& after.registered_buffers == before.registered_buffers
    &&& after.language_server_statuses == before.language_server_statuses
    &&& after.registered.servers@ == before.registered.servers@.remove(server)
    &&& after.registered.registrations == before.registered.registrations
    &&& after.watched_paths == before.watched_paths
    &&& after.renames == before.renames
}

/// What a server that has started is entered with: what it said of itself, what it can do, and
/// the renames that it watches, if it watches any.
pub open spec fn is_entered(
    before: LspStore,
    after: LspStore,
    worktree: u64,
    server: u64,
    started: StartedServer,
) -> bool {
    &&& after.language_server_statuses.views() == before.language_server_statuses.views().insert(
        server,
        StatusView {
            about: ServerAbout { worktree: Some(worktree), ..started.about },
            tokens: Set::empty(),
            work: Map::empty(),
        },
    )
    &&& after.registered.servers@ == before.registered.servers@.insert(
        server,
        started.capabilities,
    )
    &&& after.registered.registrations == before.registered.registrations
    &&& if started.did_rename is Some || started.will_rename is Some {
        &&& after.renames@ == before.renames@.insert(server, after.renames@[server])
        &&& after.renames@[server].asks_with(
            usable_of(started.did_rename),
            usable_of(started.will_rename),
        )
    } else {
        after.renames == before.renames
    }
    &&& after.watched_paths == before.watched_paths
}

/// What the running servers can do stays known where no further ones run, and of those that do
/// nothing is dropped.
proof fn running_stay_known(before: LspStore, after: LspStore)
    requires
        before.well_formed(),
        forall|server: u64| #[trigger]
            after.local@.servers.contains_key(server) ==> before.local@.servers.contains_key(server)
                && after.local@.servers[server] == before.local@.servers[server],
        forall|server: u64|
            before.registered.servers@.contains_key(server) && #[trigger] runs(after.local@, server)
                ==> after.registered.servers@.contains_key(server),
    ensures
        forall|server: u64| #[trigger]
            runs(after.local@, server) ==> after.registered.servers@.contains_key(server),
{
    assert forall|server: u64| #[trigger] runs(
        after.local@,
        server,
    ) implies after.registered.servers@.contains_key(server) by {
        assert(after.local@.servers.contains_key(server));
        assert(runs(before.local@, server));
    }
}

/// Those of some worktrees in which a server runs, in their order.
pub open spec fn roots_of(
    local: LocalView,
    server: u64,
    worktrees: Seq<WatchRoot>,
) -> Seq<WatchRoot>
    decreases worktrees.len(),
{
    if worktrees.len() == 0 {
        Seq::empty()
    } else {
        let earlier = roots_of(local, server, worktrees.drop_last());
        if runs(local, server) && serves_worktree(local.ids, worktrees.last().id, server) {
            earlier.push(worktrees.last())
        } else {
            earlier
        }
    }
}

/// A server that does not run does so in no worktree.
proof fn runs_nowhere(local: LocalView, server: u64, worktrees: Seq<WatchRoot>)
    requires
        !runs(local, server),
    ensures
        roots_of(local, server, worktrees) == Seq::<WatchRoot>::empty(),
    decreases worktrees.len(),
{
    if worktrees.len() > 0 {
        runs_nowhere(local, server, worktrees.drop_last());
    }
}

/// Of different worktrees different ones are left.
proof fn roots_are_distinct(local: LocalView, server: u64, worktrees: Seq<WatchRoot>)
    requires
        are_distinct(worktrees),
    ensures
        are_distinct(roots_of(local, server, worktrees)),
        forall|i: int|
            0 <= i < roots_of(local, server, worktrees).len() ==> worktrees.contains(
                #[trigger] roots_of(local, server, worktrees)[i],
            ),
    decreases worktrees.len(),
{
    if worktrees.len() > 0 {
        let earlier = worktrees.drop_last();
        let last = worktrees.len() - 1;
        assert forall|i: int, j: int| 0 <= i < j < earlier.len() implies (
        #[trigger] earlier[i]).id != (#[trigger] earlier[j]).id by {
            assert(worktrees[i].id != worktrees[j].id);
        }
        roots_are_distinct(local, server, earlier);
        let before = roots_of(local, server, earlier);
        assert forall|i: int| 0 <= i < before.len() implies worktrees.contains(
            #[trigger] before[i],
        ) && before[i].id != worktrees[last].id by {
            assert(earlier.contains(before[i]));
            let k = choose|k: int| 0 <= k < earlier.len() && earlier[k] == before[i];
            assert(worktrees[k] == before[i]);
            assert(worktrees[k].id != worktrees[last].id);
        }
        assert(worktrees.contains(worktrees[last]));
        let after = roots_of(local, server, worktrees);
        assert forall|i: int| 0 <= i < after.len() implies worktrees.contains(
            #[trigger] after[i],
        ) by {
            if i < before.len() {
                assert(after[i] == before[i]);
            }
        }
        assert forall|i: int, j: int| 0 <= i < j < after.len() implies (
        #[trigger] after[i]).id != (#[trigger] after[j]).id by {
            assert(after[i] == before[i]);
            if j < before.len() {
                assert(after[j] == before[j]);
            }
        }
    }
}

impl LspStore {
    /// What every server that runs can do is known.
    pub open spec fn well_formed(&self) -> bool {
        &&& self.local.well_formed()
        &&& self.versions.well_formed()
        &&& self.registered.well_formed()
        &&& forall|server: u64| #[trigger]
            runs(self.local@, server) ==> self.registered.servers@.contains_key(server)
    }

    /// Nothing is left of a server but the versions that it was sent, what it registered while it
    /// ran, and the renames that it watched.
    pub open spec fn knows_no_server(&self, server: u64) -> bool {
        &&& !self.local@.servers.contains_key(server)
        &&& !self.registered.servers@.contains_key(server)
        &&& !self.watched_paths@.contains_key(server)
        &&& forall|seed: SeedView| !#[trigger] serves(self.local@.ids, seed, server)
        &&& forall|buffer: u64| #[trigger]
            self.local@.opened.contains_key(buffer) ==> !self.local@.opened[buffer].contains(server)
        &&& !self.language_server_statuses.views().contains_key(server)
        &&& forall|buffer: u64| #[trigger]
            self.lsp_data@.contains_key(buffer) ==> tells_nothing(
                self.lsp_data@[buffer]@,
                server,
            )
    }

    /// Nothing is left of a buffer but perhaps the versions that servers were sent.
    pub open spec fn knows_no_buffer(&self, buffer: u64) -> bool {
        &&& !self.registered_buffers.counts@.contains_key(buffer)
        &&& !self.lsp_data@.contains_key(buffer)
        &&& !self.local@.opened.contains_key(buffer)
    }

    /// A store without servers and buffers.
    pub fn new_local() -> (store: Self)
        ensures
            store.well_formed(),
            forall|server: u64| #[trigger] store.knows_no_server(server),
            forall|buffer: u64| #[trigger] store.knows_no_buffer(buffer),
            store.versions@ == Histories::empty(),
            store.registered.registrations@ == Map::<u64, DynamicRegistrations>::empty(),
            store.renames@ == Map::<u64, RenamePathsWatchedForServer>::empty(),
    {
        LspStore {
            local: LocalLspStore::new(),
            versions: BufferVersions::new(),
            registered_buffers: RegisteredBuffers::new(),
            language_server_statuses: LanguageServerStatuses::new(),
            registered: RegisteredServers::new(),
            watched_paths: BTreeMap::new(),
            renames: BTreeMap::new(),
            lsp_data: BTreeMap::new(),
        }
    }

    /// Brings what is known of a buffer up to its version. Nothing else changes.
    pub fn latest_lsp_data(&mut self, buffer: u64, version: &BufferVersion)
        ensures
            data_views(final(self).lsp_data@) == data_views(old(self).lsp_data@).insert(
                buffer,
                latest(known_data(data_views(old(self).lsp_data@), buffer), version@),
            ),
            *final(self) == (LspStore { lsp_data: final(self).lsp_data, ..*old(self) }),
    {
        let data: Option<BufferLspData> = map_take(&mut self.lsp_data, buffer);
        let data: BufferLspData = latest_lsp_data(data, version);
        map_put(&mut self.lsp_data, buffer, data);
        assert(data_views(self.lsp_data@) =~= data_views(old(self).lsp_data@).insert(
            buffer,
            data@,
        ));
    }

    /// Decides how a request for the colors of a buffer is served. Where the buffer is open in
    /// no server, there are no servers to ask.
    pub fn document_colors(&mut self, buffer: u64, version: &BufferVersion) -> (plan: ColorPlan)
        ensures
            is_color_request(
                known_data(data_views(old(self).lsp_data@), buffer),
                version@,
                if old(self).local@.opened.contains_key(buffer) {
                    old(self).local@.opened[buffer]
                } else {
                    Set::empty()
                },
                data_views(final(self).lsp_data@)[buffer],
                plan,
            ),
            data_views(final(self).lsp_data@) == data_views(old(self).lsp_data@).insert(
                buffer,
                data_views(final(self).lsp_data@)[buffer],
            ),
            *final(self) == (LspStore { lsp_data: final(self).lsp_data, ..*old(self) }),
    {
        let servers: BTreeSet<u64> = match map_get(&self.local.buffers_opened_in_servers, buffer) {
            Some(servers) => set_copy(servers),
            None => BTreeSet::new(),
        };
        let data: Option<BufferLspData> = map_take(&mut self.lsp_data, buffer);
        let (data, plan) = document_colors(data, version, &servers);
        map_put(&mut self.lsp_data, buffer, data);
        assert(data_views(self.lsp_data@) =~= data_views(old(self).lsp_data@).insert(
            buffer,
            data@,
        ));
        plan
    }

    /// Those of some worktrees in which a server runs.
    fn worktrees_of(&self, server: u64, worktrees: Vec<WatchRoot>) -> (found: Vec<WatchRoot>)
        requires
            self.well_formed(),
        ensures
            found@ == roots_of(self.local@, server, worktrees@),
    {
        let mut found: Vec<WatchRoot> = Vec::new();
        if !self.local.running_language_server_for_id(server) {
            proof {
                runs_nowhere(self.local@, server, worktrees@);
            }
            return found;
        }
        let ghost given = worktrees@;
        let mut rest: Vec<WatchRoot> = worktrees;
        let ghost mut done: int = 0;
        assert(given.take(0) =~= Seq::<WatchRoot>::empty());
        while rest.len() > 0
            invariant
                0 <= done <= given.len(),
                rest@ == given.skip(done),
                self.well_formed(),
                runs(self.local@, server),
                found@ == roots_of(self.local@, server, given.take(done)),
            decreases rest@.len(),
        {
            let root: WatchRoot = rest.remove(0);
            proof {
                assert(root == given[done]);
                assert(rest@ =~= given.skip(done + 1));
                assert(given.take(done + 1).drop_last() =~= given.take(done));
                assert(given.take(done + 1).last() == given[done]);
            }
            let servers: Vec<u64> = self.local.language_server_ids_for_worktree(root.id);
            if lists(&servers, server) {
                found.push(root);
            }
            proof {
                done = done + 1;
            }
        }
        assert(given.take(done) =~= given);
        found
    }

    /// What a server wants to have watched changed: builds its patterns anew, for those of the
    /// worktrees in which it runs, and returns what they have to scan for it. A server that never
    /// registered any changes nothing.
    pub fn rebuild_watched_paths(&mut self, server: u64, worktrees: Vec<WatchRoot>) -> (scans:
        Option<Vec<(u64, Vec<PathPart>)>>)
        requires
            old(self).well_formed(),
            are_distinct(worktrees@),
            old(self).registered.registrations@.contains_key(server) ==> can_be_watched(
                all_watchers(
                    old(
                        self,
                    ).registered.registrations@[server].did_change_watched_files.entries@,
                ),
            ),
        ensures
            final(self).well_formed(),
            scans is Some <==> old(self).registered.registrations@.contains_key(server),
            *final(self) == (LspStore { watched_paths: final(self).watched_paths, ..*old(self) }),
            match scans {
                None => final(self).watched_paths == old(self).watched_paths,
                Some(scans) => {
                    let watch = watched(
                        roots_of(old(self).local@, server, worktrees@),
                        all_watchers(
                            old(
                                self,
                            ).registered.registrations@[server].did_change_watched_files.entries@,
                        ),
                    );
                    let paths = final(self).watched_paths@[server];
                    &&& final(self).watched_paths@ == old(self).watched_paths@.insert(
                        server,
                        paths,
                    )
                    &&& is_built(paths.worktree_paths@, watch.worktree_patterns)
                    &&& is_built(paths.abs_paths@, watch.abs_patterns)
                    &&& scans@.map_values(|s: (u64, Vec<PathPart>)| (s.0, part_views(s.1@)))
                        == watch.scans
                },
            },
    {
        proof {
            roots_are_distinct(self.local@, server, worktrees@);
        }
        let worktrees: Vec<WatchRoot> = self.worktrees_of(server, worktrees);
        match map_get(&self.registered.registrations, server) {
            None => None,
            Some(registrations) => {
                let (paths, scans) = registrations.rebuild_watched_paths(&worktrees);
                map_put(&mut self.watched_paths, server, paths);
                Some(scans)
            },
        }
    }

    /// Something happened below a path outside the worktrees that is watched for a server. Says
    /// what the server is told, which is nothing unless it runs. A server that watches nothing
    /// any more has the path no longer watched.
    pub fn abs_path_changed(&self, server: u64, path: &PathParts, events: &Vec<PathEvent>) -> (step:
        AbsPathStep)
        requires
            self.watched_paths@.contains_key(server)
                ==> self.watched_paths@[server].abs_paths@.contains_key(path@),
        ensures
            match step {
                AbsPathStep::StopWatching => !self.watched_paths@.contains_key(server),
                AbsPathStep::Tell { events: told } => self.watched_paths@.contains_key(server)
                    && told@ == (if runs(self.local@, server) {
                    told_outside(
                        set_globs(self.watched_paths@[server].abs_paths@[path@]),
                        events@,
                    )
                } else {
                    Seq::empty()
                }),
            },
    {
        match map_get(&self.watched_paths, server) {
            None => AbsPathStep::StopWatching,
            Some(paths) => {
                let mut told: Vec<FileEvent> = Vec::new();
                if self.local.running_language_server_for_id(server) {
                    if let Some(globs) = paths.abs_paths.get(path) {
                        told = lsp_notify_abs_paths_changed(globs, events);
                    }
                }
                AbsPathStep::Tell { events: told }
            },
        }
    }

    /// Something in a worktree was renamed, or is about to be. Picks the servers that run there
    /// and are told or asked, once for each seed that stands for them; none, if either path
    /// cannot be written as a URI.
    pub fn servers_for_rename(
        &self,
        worktree_id: u64,
        moment: RenameMoment,
        old_uri: &Option<String>,
        new_uri: &Option<String>,
        is_dir: bool,
    ) -> (told: Vec<u64>)
        ensures
            told@ == (match (*old_uri, *new_uri) {
                (Some(old_uri), Some(_)) => told_of_rename(
                    worktree_servers(
                        self.local.language_server_ids.entries@,
                        self.local@.servers,
                        worktree_id,
                    ),
                    self.renames@,
                    moment,
                    old_uri@,
                    is_dir,
                ),
                _ => Seq::empty(),
            }),
    {
        match (old_uri, new_uri) {
            (Some(old_uri), Some(_)) => {
                let servers: Vec<u64> = self.local.language_servers_for_worktree(worktree_id);
                servers_told_of_rename(&servers, &self.renames, moment, old_uri.as_str(), is_dir)
            },
            _ => Vec::new(),
        }
    }

    /// Forgets what a server told of the buffers.
    fn drop_server_data(&mut self, server: u64)
        ensures
            data_views(final(self).lsp_data@) == all_untold(
                data_views(old(self).lsp_data@),
                server,
            ),
            *final(self) == (LspStore { lsp_data: final(self).lsp_data, ..*old(self) }),
    {
        let buffers: Vec<u64> = map_keys(&self.lsp_data);
        let ghost before = data_views(self.lsp_data@);
        let mut i: usize = 0;
        while i < buffers.len()
            invariant
                i <= buffers@.len(),
                crate::ids::ascending(buffers@),
                forall|k: u64| #[trigger] buffers@.contains(k) <==> before.contains_key(k),
                data_views(self.lsp_data@).dom() == before.dom(),
                forall|j: int|
                    0 <= j < i ==> data_views(self.lsp_data@)[#[trigger] buffers@[j]] == untold(
                        before[buffers@[j]],
                        server,
                    ),
                forall|j: int|
                    i <= j < buffers@.len() ==> data_views(self.lsp_data@)[#[trigger] buffers@[j]]
                        == before[buffers@[j]],
                *self == (LspStore { lsp_data: self.lsp_data, ..*old(self) }),
            decreases buffers@.len() - i,
        {
            let buffer: u64 = buffers[i];
            assert(buffers@.contains(buffers@[i as int]));
            let ghost now = data_views(self.lsp_data@);
            if let Some(data) = map_take(&mut self.lsp_data, buffer) {
                let mut data: BufferLspData = data;
                data.remove_server_data(server);
                map_put(&mut self.lsp_data, buffer, data);
                assert(data_views(self.lsp_data@) =~= now.insert(
                    buffer,
                    untold(now[buffer], server),
                ));
            } else {
                assert(now.contains_key(buffer));
            }
            assert(data_views(self.lsp_data@).dom() =~= before.dom());
            i += 1;
        }
        proof {
            let after = data_views(self.lsp_data@);
            assert forall|buffer: u64| after.contains_key(buffer) implies after[buffer]
                == all_untold(before, server)[buffer] by {
                assert(buffers@.contains(buffer));
                let k = choose|k: int| 0 <= k < buffers@.len() && buffers@[k] == buffer;
                assert(buffers@[k] == buffer);
            }
            assert(after =~= all_untold(before, server));
        }
    }

    /// Forgets what a server told and can do that does not run, and that buffers are open in it.
    pub fn cleanup_lsp_data(&mut self, for_server: u64)
        requires
            old(self).well_formed(),
            !runs(old(self).local@, for_server),
        ensures
            final(self).well_formed(),
            is_cleaned(*old(self), for_server, *final(self)),
    {
        let _ = map_take(&mut self.registered.servers, for_server);
        self.drop_server_data(for_server);
        let mut servers: Vec<u64> = Vec::new();
        servers.push(for_server);
        assert(servers@ =~= seq![for_server]);
        self.local.close_in_buffers(&servers);
        proof {
            running_stay_known(*old(self), *self);
        }
    }

    /// Stops a server. Of what the store holds nothing is kept but the versions that the server
    /// was sent, what it registered while it ran, and the renames that it watched.
    pub fn stop_local_language_server(&mut self, server_id: u64) -> (plan: StopPlan)
        requires
            old(self).well_formed(),
        ensures
            final(self).well_formed(),
            final(self).knows_no_server(server_id),
            plan == (if old(self).language_server_statuses.views().contains_key(server_id) || (
            old(self).local@.servers.contains_key(server_id) && old(self).local@.servers[server_id]
                == LanguageServerState::Running) {
                StopPlan::ShutDown
            } else if old(self).local@.servers.contains_key(server_id) {
                StopPlan::AnnounceRemoval
            } else {
                StopPlan::Nothing
            }),
            is_retained(final(self).local@.ids, old(self).local@.ids, None, set![server_id]),
            final(self).local@.servers == old(self).local@.servers.remove(server_id),
            is_closed_in(
                final(self).local@.opened,
                old(self).local@.opened,
                set![server_id],
            ),
            final(self).local@.restricted == old(self).local@.restricted,
            final(self).language_server_statuses.views() == old(
                self,
            ).language_server_statuses.views().remove(server_id),
            data_views(final(self).lsp_data@) == all_untold(
                data_views(old(self).lsp_data@),
                server_id,
            ),
            final(self).registered.servers@ == old(self).registered.servers@.remove(server_id),
            final(self).registered.registrations == old(self).registered.registrations,
            final(self).watched_paths@ == old(self).watched_paths@.remove(server_id),
            final(self).renames == old(self).renames,
            final(self).versions == old(self).versions,
            final(self).registered_buffers == old(self).registered_buffers,
    {
        let _ = map_take(&mut self.registered.servers, server_id);
        let _ = map_take(&mut self.watched_paths, server_id);
        self.drop_server_data(server_id);
        let has_status: bool = self.language_server_statuses.remove_server(server_id);
        let plan = self.local.stop_local_language_server(server_id, has_status);
        proof {
            running_stay_known(*old(self), *self);
            assert forall|seed: SeedView| !#[trigger] serves(
                self.local@.ids,
                seed,
                server_id,
            ) by {
                assert(self.local@.ids.contains_key(seed) ==> !set![server_id].contains(
                    self.local@.ids[seed].id,
                ));
            }
            assert forall|buffer: u64| #[trigger]
                self.lsp_data@.contains_key(buffer) implies tells_nothing(
                self.lsp_data@[buffer]@,
                server_id,
            ) by {
                let views = data_views(self.lsp_data@);
                assert(views.contains_key(buffer));
                assert(views[buffer] == untold(data_views(old(self).lsp_data@)[buffer], server_id));
            }
        }
        plan
    }

    /// Forgets a worktree, and returns the servers that went with it.
    pub fn remove_worktree(&mut self, id_to_remove: u64) -> (removed: Vec<u64>)
        requires
            old(self).well_formed(),
        ensures
            final(self).well_formed(),
            crate::ids::ascending(removed@),
            forall|server: u64| #[trigger]
                removed@.contains(server) <==> only_in_worktree(
                    old(self).local@.ids,
                    id_to_remove,
                    server,
                ),
            is_retained(
                final(self).local@.ids,
                old(self).local@.ids,
                Some(id_to_remove),
                removed@.to_set(),
            ),
            final(self).local@.servers == old(self).local@.servers.remove_keys(removed@.to_set()),
            final(self).local@.restricted == old(self).local@.restricted.remove(id_to_remove),
            is_closed_in(
                final(self).local@.opened,
                old(self).local@.opened,
                removed@.to_set(),
            ),
            final(self).language_server_statuses.views() == old(
                self,
            ).language_server_statuses.views().remove_keys(removed@.to_set()),
            final(self).watched_paths@ == old(self).watched_paths@.remove_keys(removed@.to_set()),
            final(self).renames@ == old(self).renames@.remove_keys(removed@.to_set()),
            final(self).registered == old(self).registered,
            final(self).lsp_data == old(self).lsp_data,
            final(self).versions == old(self).versions,
            final(self).registered_buffers == old(self).registered_buffers,
    {
        let removed: Vec<u64> = self.local.remove_worktree(id_to_remove);
        let ghost before = self.language_server_statuses.views();
        let ghost local = self.local;
        let mut i: usize = 0;
        proof {
            let none = removed@.take(0).to_set();
            assert(before.remove_keys(none) =~= before);
            assert(self.watched_paths@.remove_keys(none) =~= self.watched_paths@);
            assert(self.renames@.remove_keys(none) =~= self.renames@);
        }
        while i < removed.len()
            invariant
                i <= removed@.len(),
                self.language_server_statuses.views() == before.remove_keys(
                    removed@.take(i as int).to_set(),
                ),
                self.watched_paths@ == old(self).watched_paths@.remove_keys(
                    removed@.take(i as int).to_set(),
                ),
                self.renames@ == old(self).renames@.remove_keys(
                    removed@.take(i as int).to_set(),
                ),
                self.local == local,
                self.registered == old(self).registered,
                self.lsp_data == old(self).lsp_data,
                self.versions == old(self).versions,
                self.registered_buffers == old(self).registered_buffers,
            decreases removed@.len() - i,
        {
            let _ = self.language_server_statuses.remove_server(removed[i]);
            let _ = map_take(&mut self.watched_paths, removed[i]);
            let _ = map_take(&mut self.renames, removed[i]);
            proof {
                let seen = removed@.take(i as int);
                let next = removed@.take(i + 1);
                assert(next =~= seen.push(removed@[i as int]));
                assert forall|s: u64| next.to_set().contains(s) <==> seen.to_set().contains(s) || s
                    == removed@[i as int] by {
                    crate::ids::contains_push(seen, removed@[i as int], s);
                }
                assert(self.language_server_statuses.views() =~= before.remove_keys(
                    next.to_set(),
                ));
                assert(self.watched_paths@ =~= old(self).watched_paths@.remove_keys(
                    next.to_set(),
                ));
                assert(self.renames@ =~= old(self).renames@.remove_keys(next.to_set()));
            }
            i += 1;
        }
        assert(removed@.take(i as int) =~= removed@);
        proof {
            running_stay_known(*old(self), *self);
        }
        removed
    }

    /// A handle for a buffer was asked for.
    pub fn register_buffer_with_language_servers(
        &mut self,
        buffer: u64,
        has_local_file: bool,
        ignore_refcounts: bool,
    ) -> (plan: OpenPlan)
        requires
            old(self).well_formed(),
            count_of(old(self).registered_buffers.counts@, buffer) < usize::MAX,
        ensures
            final(self).well_formed(),
            final(self).registered_buffers.counts@ == after_open(
                old(self).registered_buffers.counts@,
                buffer,
                ignore_refcounts,
            ),
            plan.register == (has_local_file && (ignore_refcounts || count_of(
                old(self).registered_buffers.counts@,
                buffer,
            ) == 0)),
            plan.observe == (has_local_file && !ignore_refcounts),
            *final(self) == (LspStore {
                registered_buffers: final(self).registered_buffers,
                ..*old(self)
            }),
    {
        self.registered_buffers.open(buffer, has_local_file, ignore_refcounts)
    }

    /// A handle for a buffer was released. With the last one what is known of the buffer is
    /// dropped; if its path can be written as a URI, the running servers of the buffer that know
    /// it are told that it was closed, and are returned.
    pub fn buffer_handle_released(
        &mut self,
        buffer: u64,
        has_uri: bool,
        running_servers: &Vec<u64>,
    ) -> (closed: Vec<u64>)
        requires
            old(self).well_formed(),
            count_of(old(self).registered_buffers.counts@, buffer) > 0,
        ensures
            final(self).well_formed(),
            final(self).registered_buffers.counts@ == after_release(
                old(self).registered_buffers.counts@,
                buffer,
            ),
            *final(self) == (LspStore {
                local: final(self).local,
                versions: final(self).versions,
                registered_buffers: final(self).registered_buffers,
                lsp_data: final(self).lsp_data,
                ..*old(self)
            }),
            if count_of(old(self).registered_buffers.counts@, buffer) > 1 {
                &&& closed@.len() == 0
                &&& final(self).local == old(self).local
                &&& final(self).versions == old(self).versions
                &&& final(self).lsp_data == old(self).lsp_data
            } else {
                &&& final(self).knows_no_buffer(buffer)
                &&& final(self).lsp_data@ == old(self).lsp_data@.remove(buffer)
                &&& final(self).local@ == (LocalView {
                    opened: old(self).local@.opened.remove(buffer),
                    ..old(self).local@
                })
                &&& if has_uri {
                    &&& closed@ == crate::lsp_store::buffer_versions::closed_in(
                        Set::new(
                            |server: u64| old(self).versions@.contains_key((buffer, server)),
                        ),
                        running_servers@,
                    )
                    &&& is_forgotten(old(self).versions@, final(self).versions@, buffer)
                } else {
                    closed@.len() == 0 && final(self).versions == old(self).versions
                }
            },
    {
        let last: bool = self.registered_buffers.release(buffer);
        if !last {
            return Vec::new();
        }
        let _ = map_take(&mut self.lsp_data, buffer);
        let ghost local = self.local@;
        let _ = map_take(&mut self.local.buffers_opened_in_servers, buffer);
        proof {
            assert(self.local@.opened =~= local.opened.remove(buffer));
            assert(self.local@.ids == local.ids);
            running_stay_known(*old(self), *self);
        }
        if has_uri {
            self.versions.unregister_buffer_from_language_servers(buffer, running_servers)
        } else {
            Vec::new()
        }
    }

    /// A server has started. Unless another server has its seed by now, it is taken on: what it
    /// said of itself, what it can do and which renames it watches is entered, it has no work yet,
    /// and of the buffers that are open it takes on those that it serves. Returns what it does
    /// with each of them. A server that is not taken on is dropped.
    pub fn insert_newly_running_language_server(
        &mut self,
        seed: &LanguageServerSeed,
        server_id: u64,
        started: StartedServer,
        worktrees_using_server: &Vec<u64>,
        buffers: &Vec<OfferedBuffer>,
    ) -> (actions: Option<Vec<NewServerAction>>)
        requires
            old(self).well_formed(),
            are_unknown(
                old(self).versions@,
                old(self).registered_buffers.counts@,
                server_id,
                worktrees_using_server@,
                buffers@,
            ),
            are_compilable(started.did_rename),
            are_compilable(started.will_rename),
        ensures
            final(self).well_formed(),
            final(self).registered_buffers == old(self).registered_buffers,
            final(self).lsp_data == old(self).lsp_data,
            actions is None <==> old(self).local@.ids.contains_key(seed@) && old(
                self,
            ).local@.ids[seed@].id != server_id,
            match actions {
                None => {
                    &&& final(self).local@ == old(self).local@
                    &&& *final(self) == (LspStore { local: final(self).local, ..*old(self) })
                },
                Some(actions) => {
                    let taken = taken_on(
                        old(self).versions@,
                        old(self).local@.opened,
                        old(self).registered_buffers.counts@,
                        server_id,
                        worktrees_using_server@,
                        buffers@,
                    );
                    &&& actions@ == taken.actions
                    &&& final(self).versions@ == taken.histories
                    &&& final(self).local@ == (LocalView {
                        servers: old(self).local@.servers.insert(
                            server_id,
                            LanguageServerState::Running,
                        ),
                        opened: taken.opened,
                        ..old(self).local@
                    })
                    &&& is_entered(
                        *old(self),
                        *final(self),
                        seed.worktree_id,
                        server_id,
                        started,
                    )
                },
            },
    {
        if !self.local.insert_newly_running_language_server(seed, server_id) {
            return None;
        }
        let watched = RenamePathsWatchedForServer::for_server(
            &started.did_rename,
            &started.will_rename,
        );
        if let Some(watched) = watched {
            map_put(&mut self.renames, server_id, watched);
        }
        let mut about: ServerAbout = started.about;
        about.worktree = Some(seed.worktree_id);
        self.language_server_statuses.add_server(server_id, about);
        map_put(&mut self.registered.servers, server_id, started.capabilities);
        proof {
            assert forall|server: u64| #[trigger] runs(
                self.local@,
                server,
            ) implies self.registered.servers@.contains_key(server) by {
                if server != server_id {
                    assert(runs(old(self).local@, server));
                }
            }
        }
        let ghost histories = self.versions@;
        let ghost local = self.local@;
        let ghost entered = *self;
        let ghost counts = self.registered_buffers.counts@;
        let mut actions: Vec<NewServerAction> = Vec::new();
        let mut servers: Vec<u64> = Vec::new();
        servers.push(server_id);
        assert(servers@ =~= seq![server_id]);
        let mut i: usize = 0;
        assert(buffers@.skip(0) =~= buffers@);
        while i < buffers.len()
            invariant
                i <= buffers@.len(),
                servers@ == seq![server_id],
                self.well_formed(),
                are_unknown(histories, counts, server_id, worktrees_using_server@, buffers@),
                self.versions@ == taken_on(
                    histories,
                    local.opened,
                    counts,
                    server_id,
                    worktrees_using_server@,
                    buffers@.take(i as int),
                ).histories,
                actions@ == taken_on(
                    histories,
                    local.opened,
                    counts,
                    server_id,
                    worktrees_using_server@,
                    buffers@.take(i as int),
                ).actions,
                self.local@ == (LocalView {
                    opened: taken_on(
                        histories,
                        local.opened,
                        counts,
                        server_id,
                        worktrees_using_server@,
                        buffers@.take(i as int),
                    ).opened,
                    ..local
                }),
                are_unknown(
                    self.versions@,
                    counts,
                    server_id,
                    worktrees_using_server@,
                    buffers@.skip(i as int),
                ),
                counts == self.registered_buffers.counts@,
                *self == (LspStore { local: self.local, versions: self.versions, ..entered }),
            decreases buffers@.len() - i,
        {
            let offered: OfferedBuffer = buffers[i];
            let mut buffer: OpenBuffer = offered.buffer;
            buffer.is_registered = map_has(&self.registered_buffers.counts, buffer.id);
            assert(buffer == as_counted(offered.buffer, counts));
            proof {
                assert(buffers@.take(i + 1).drop_last() =~= buffers@.take(i as int));
                assert(buffers@.take(i + 1).last() == offered);
                assert(buffers@.skip(i as int)[0] == offered);
            }
            let ghost known = self.versions@;
            let ghost now = *self;
            let action = new_server_action(
                &buffer,
                worktrees_using_server,
                offered.is_served,
            );
            if action == NewServerAction::Register {
                let _ = self.versions.register(offered.buffer.id, server_id, offered.snapshot);
                self.local.open_in_servers(offered.buffer.id, &servers);
            }
            actions.push(action);
            proof {
                running_stay_known(now, *self);
                let later = buffers@.skip(i + 1);
                assert forall|k: int|
                    0 <= k < later.len() && action_of(
                        as_counted((#[trigger] later[k]).buffer, counts),
                        worktrees_using_server@,
                        later[k].is_served,
                    ) == NewServerAction::Register implies !self.versions@.contains_key(
                    (later[k].buffer.id, server_id),
                ) by {
                    assert(later[k] == buffers@.skip(i as int)[k + 1]);
                    assert(!known.contains_key((later[k].buffer.id, server_id)));
                    assert(buffers@[i as int].buffer.id != buffers@[i + 1 + k].buffer.id);
                }
                assert forall|k: int, j: int| 0 <= k < j < later.len() implies (
                #[trigger] later[k]).buffer.id != (#[trigger] later[j]).buffer.id by {
                    assert(buffers@[i + 1 + k].buffer.id != buffers@[i + 1 + j].buffer.id);
                }
            }
            i += 1;
        }
        assert(buffers@.take(i as int) =~= buffers@);
        Some(actions)
    }
}

/// What is known of a buffer comes from other servers.
pub open spec fn tells_nothing(data: LspDataView, server: u64) -> bool {
    &&& (data.document_colors matches Some(colors) ==> !colors.colors.contains_key(server))
    &&& (data.semantic_tokens matches Some(tokens) ==> !tokens.contains_key(server))
    &&& (data.folding_ranges matches Some(ranges) ==> !ranges.contains_key(server))
    &&& (data.document_symbols matches Some(symbols) ==> !symbols.contains_key(server))
}

/// No server knows a version of the buffer any more; the other buffers stay as they were.
pub open spec fn is_forgotten(before: Histories, after: Histories, buffer: u64) -> bool {
    forall|key: (u64, u64)|
        (#[trigger] after.contains_key(key) <==> before.contains_key(key) && key.0 != buffer) && (
        after.contains_key(key) ==> after[key] == before[key])
}

/// A server that has started is entered with what it said of itself and what it can do, and runs.
/// One whose seed another server has by now changes nothing.
pub proof fn started_servers_are_entered(
    store: &mut LspStore,
    seed: LanguageServerSeed,
    server: u64,
    started: StartedServer,
    worktrees: Vec<u64>,
    buffers: Vec<OfferedBuffer>,
    actions: Option<Vec<NewServerAction>>,
    other: u64,
)
    requires
        call_ensures(
            LspStore::insert_newly_running_language_server,
            (store, &seed, server, started, &worktrees, &buffers),
            actions,
        ),
        other != server,
    ensures
        actions is None <==> old(store).local.language_server_ids@.contains_key(seed@) && old(store).local.language_server_ids@[seed@].id != server,
        actions is None ==> final(store).local@ == old(store).local@ && final(store).registered == old(store).registered && final(store).versions == old(store).versions,
        actions is Some ==> {
            &&& final(store).local.language_servers@.contains_key(server)
            &&& final(store).local.language_servers@[server] is Running
            &&& final(store).registered.servers@.contains_key(server)
            &&& final(store).registered.servers@[server] == started.capabilities
            &&& final(store).language_server_statuses.statuses@.contains_key(server)
            &&& final(store).language_server_statuses.statuses@[server].about.name
                == started.about.name
            &&& final(store).language_server_statuses.statuses@[server].about.worktree == Some(
                seed.worktree_id,
            )
            &&& (started.did_rename is Some || started.will_rename is Some) ==> final(store).renames@.contains_key(server)
            &&& actions->0@.len() == buffers@.len()
        },
        final(store).local.language_servers@.contains_key(other) <==> old(store).local.language_servers@.contains_key(other),
        final(store).registered_buffers == old(store).registered_buffers,
{
    let ids = old(store).local@.ids;
    assert(ids.contains_key(seed@) <==> old(store).local.language_server_ids@.contains_key(seed@));
    if ids.contains_key(seed@) {
        assert(ids[seed@].id == old(store).local.language_server_ids@[seed@].id);
    }
    if actions is Some {
        let views = final(store).language_server_statuses.views();
        assert(views.contains_key(server));
        assert(views[server] == final(store).language_server_statuses.statuses@[server]@);
        lemma_taken_on_len(
            old(store).versions@,
            old(store).local@.opened,
            old(store).registered_buffers.counts@,
            server,
            worktrees@,
            buffers@,
        );
    }
}

proof fn lemma_taken_on_len(
    histories: Histories,
    opened: Map<u64, Set<u64>>,
    counts: Map<u64, usize>,
    server: u64,
    worktrees: Seq<u64>,
    buffers: Seq<OfferedBuffer>,
)
    ensures
        taken_on(histories, opened, counts, server, worktrees, buffers).actions.len()
            == buffers.len(),
    decreases buffers.len(),
{
    if buffers.len() > 0 {
        lemma_taken_on_len(histories, opened, counts, server, worktrees, buffers.drop_last());
    }
}

/// A buffer that a new server takes on is open in it from then on, and known to it as its first
/// version; one that it does not take on is not.
pub proof fn new_servers_know_what_they_take_on(
    store: &mut LspStore,
    seed: LanguageServerSeed,
    server: u64,
    started: StartedServer,
    worktrees: Vec<u64>,
    buffers: Vec<OfferedBuffer>,
    actions: Option<Vec<NewServerAction>>,
    action: NewServerAction,
    as_known: OpenBuffer,
)
    requires
        call_ensures(
            LspStore::insert_newly_running_language_server,
            (store, &seed, server, started, &worktrees, &buffers),
            actions,
        ),
        actions is Some,
        buffers@.len() == 1,
        as_known == (OpenBuffer {
            is_registered: old(store).registered_buffers.counts@.contains_key(
                buffers@[0].buffer.id,
            ),
            ..buffers@[0].buffer
        }),
        call_ensures(new_server_action, (&as_known, &worktrees, buffers@[0].is_served), action),
    ensures
        actions->0@ == seq![action],
        action is Register ==> {
            let id = buffers@[0].buffer.id;
            &&& final(store).versions@.contains_key((id, server))
            &&& final(store).versions@[(id, server)].len() == 1
            &&& final(store).versions@[(id, server)][0].version == 0
            &&& final(store).versions@[(id, server)][0].snapshot == buffers@[0].snapshot
            &&& final(store).local.buffers_opened_in_servers@.contains_key(id)
            &&& final(store).local.buffers_opened_in_servers@[id]@.contains(server)
        },
        !(action is Register) ==> final(store).versions@ == old(store).versions@ && final(store).local@.opened == old(store).local@.opened,
{
    reveal_with_fuel(taken_on, 2);
    reveal_with_fuel(opened_in, 2);
    assert(buffers@.drop_last() =~= Seq::<OfferedBuffer>::empty());
    assert(buffers@.last() == buffers@[0]);
    assert(actions->0@ =~= seq![action]);
    if action is Register {
        let id = buffers@[0].buffer.id;
        assert(seq![server].drop_last() =~= Seq::<u64>::empty());
        let opened = final(store).local@.opened;
        assert(opened.contains_key(id) && opened[id].contains(server));
        assert(opened[id] == final(store).local.buffers_opened_in_servers@[id]@);
    }
}

/// With the last handle for a buffer goes what is known of it, and with its URI the versions that
/// servers know. An earlier handle takes nothing along.
pub proof fn released_buffers_are_forgotten(
    store: &mut LspStore,
    buffer: u64,
    has_uri: bool,
    running: Vec<u64>,
    closed: Vec<u64>,
    server: u64,
    other: u64,
)
    requires
        call_ensures(
            LspStore::buffer_handle_released,
            (store, buffer, has_uri, &running),
            closed,
        ),
        old(store).registered_buffers.counts@.contains_key(buffer),
        other != buffer,
    ensures
        old(store).registered_buffers.counts@[buffer] > 1 ==> closed@.len() == 0 && final(store).registered_buffers.counts@[buffer] == old(store).registered_buffers.counts@[buffer] - 1
            && final(store).versions == old(store).versions && final(store).lsp_data == old(store).lsp_data,
        old(store).registered_buffers.counts@[buffer] == 1 ==> {
            &&& !final(store).registered_buffers.counts@.contains_key(buffer)
            &&& !final(store).lsp_data@.contains_key(buffer)
            &&& !final(store).local.buffers_opened_in_servers@.contains_key(buffer)
            &&& has_uri ==> !final(store).versions@.contains_key((buffer, server))
            &&& !has_uri ==> closed@.len() == 0 && final(store).versions == old(store).versions
            &&& final(store).versions@.contains_key((other, server)) <==> old(store).versions@.contains_key((other, server))
            &&& final(store).lsp_data@.contains_key(other) <==> old(store).lsp_data@.contains_key(
                other,
            )
        },
{
    let opened = final(store).local@.opened;
    assert(opened.contains_key(buffer) <==> final(store).local.buffers_opened_in_servers@.contains_key(buffer));
    if old(store).registered_buffers.counts@[buffer] == 1 && has_uri {
        assert(final(store).versions@.contains_key((buffer, server)) <==> old(store).versions@.contains_key((buffer, server)) && (buffer, server).0 != buffer);
        assert(final(store).versions@.contains_key((other, server)) <==> old(store).versions@.contains_key((other, server)) && (other, server).0 != buffer);
    }
}

/// Of a server that is stopped nothing is left that it can do, watches or told, and no buffer is
/// open in it. Other servers keep what they have.
pub proof fn stopped_servers_are_forgotten(
    store: &mut LspStore,
    server: u64,
    plan: StopPlan,
    other: u64,
    buffer: u64,
)
    requires
        call_ensures(LspStore::stop_local_language_server, (store, server), plan),
        other != server,
    ensures
        !final(store).local.language_servers@.contains_key(server),
        !final(store).registered.servers@.contains_key(server),
        !final(store).watched_paths@.contains_key(server),
        !final(store).language_server_statuses.statuses@.contains_key(server),
        final(store).local.buffers_opened_in_servers@.contains_key(buffer) ==> !final(store).local.buffers_opened_in_servers@[buffer]@.contains(server),
        final(store).local.language_servers@.contains_key(other) <==> old(store).local.language_servers@.contains_key(other),
        final(store).registered.servers@.contains_key(other) <==> old(store).registered.servers@.contains_key(other),
        final(store).watched_paths@.contains_key(other) <==> old(store).watched_paths@.contains_key(
            other,
        ),
        old(store).language_server_statuses.statuses@.contains_key(server) ==> plan is ShutDown,
        !old(store).language_server_statuses.statuses@.contains_key(server) && !old(store).local.language_servers@.contains_key(server) ==> plan is Nothing,
        final(store).renames == old(store).renames,
        final(store).versions == old(store).versions,
{
    let opened = final(store).local@.opened;
    assert(opened.contains_key(buffer) <==> final(store).local.buffers_opened_in_servers@.contains_key(buffer));
    if opened.contains_key(buffer) {
        assert(opened[buffer] == final(store).local.buffers_opened_in_servers@[buffer]@);
    }
    assert(final(store).language_server_statuses.views().contains_key(server) <==> final(store).language_server_statuses.statuses@.contains_key(server));
    assert(old(store).language_server_statuses.views().contains_key(server) <==> old(store).language_server_statuses.statuses@.contains_key(server));
}

/// With a worktree the servers go that it alone uses, with their statuses, watched paths and
/// renames.
pub proof fn removed_worktrees_take_their_servers(
    store: &mut LspStore,
    worktree: u64,
    removed: Vec<u64>,
    server: u64,
    seed: SeedView,
)
    requires
        call_ensures(LspStore::remove_worktree, (store, worktree), removed),
    ensures
        removed@.contains(server) ==> !final(store).local.language_servers@.contains_key(server)
            && !final(store).language_server_statuses.statuses@.contains_key(server) && !final(store).watched_paths@.contains_key(server) && !final(store).renames@.contains_key(server),
        !removed@.contains(server) ==> (final(store).local.language_servers@.contains_key(server)
            <==> old(store).local.language_servers@.contains_key(server)) && (final(store).renames@.contains_key(server) <==> old(store).renames@.contains_key(server)),
        seed.worktree_id == worktree ==> !final(store).local.language_server_ids@.contains_key(
            seed,
        ),
        old(store).local.language_server_ids@.contains_key(seed) && seed.worktree_id != worktree
            ==> !removed@.contains(old(store).local.language_server_ids@[seed].id),
{
    assert(removed@.to_set().contains(server) <==> removed@.contains(server));
    assert(final(store).language_server_statuses.views().contains_key(server) <==> final(store).language_server_statuses.statuses@.contains_key(server));
    let before = old(store).local@.ids;
    let after = final(store).local@.ids;
    assert(after.contains_key(seed) <==> final(store).local.language_server_ids@.contains_key(seed));
    assert(before.contains_key(seed) <==> old(store).local.language_server_ids@.contains_key(seed));
    if before.contains_key(seed) && seed.worktree_id != worktree {
        let id = before[seed].id;
        assert(serves(before, seed, id));
        assert(crate::lsp_store::servers::serves_elsewhere(before, worktree, id));
    }
}

/// Servers that run in a worktree are told of a rename there, where both paths have a URI; where
/// one has none nobody is told.
pub proof fn renames_without_a_uri_are_not_told(
    store: LspStore,
    worktree: u64,
    moment: RenameMoment,
    old_uri: Option<String>,
    new_uri: Option<String>,
    is_dir: bool,
    told: Vec<u64>,
)
    requires
        call_ensures(
            LspStore::servers_for_rename,
            (&store, worktree, moment, &old_uri, &new_uri, is_dir),
            told,
        ),
        old_uri is None || new_uri is None,
    ensures
        told@.len() == 0,
{
}

/// A path outside the worktrees is watched as long as its server watches anything; a server that
/// does not run is told nothing.
pub proof fn paths_outside_are_watched_for_servers(
    store: LspStore,
    server: u64,
    path: PathParts,
    events: Vec<PathEvent>,
    step: AbsPathStep,
)
    requires
        call_ensures(LspStore::abs_path_changed, (&store, server, &path, &events), step),
    ensures
        step is StopWatching <==> !store.watched_paths@.contains_key(server),
        step matches AbsPathStep::Tell { events: told } ==> !(
        store.local.language_servers@.contains_key(server) && store.local.language_servers@[server]
            is Running) ==> told@.len() == 0,
{
}

} // verus!
