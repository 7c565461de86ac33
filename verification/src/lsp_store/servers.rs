//! The language servers of the project: how they are told apart, started, shared
//! between worktrees and stopped.
use std::collections::{BTreeMap, BTreeSet};
use vstd::prelude::*;

use crate::ids::{
    ascending, map_get, map_keys, map_put, map_take, set_has, set_items, set_put, set_take,
};
use crate::list_map::{
    entry_is_found, has_distinct_keys, lookup, lookup_finds_entry, Key, ListMap,
};
use crate::rel_path::RelPath;
use crate::text::same_text;

verus! {

/// What makes a language server the same one: a second request with an equal seed is
/// served by the server that runs already. Settings that a server takes while it runs
/// are no part of it.
#[derive(Debug)]
pub struct LanguageServerSeed {
    pub worktree_id: u64,
    pub name: String,
    pub toolchain: Option<String>,
    /// The binary settings and initialization options, written out.
    pub settings: String,
}

pub ghost struct SeedView {
    pub worktree_id: u64,
    pub name: Seq<char>,
    pub toolchain: Option<Seq<char>>,
    pub settings: Seq<char>,
}

impl View for LanguageServerSeed {
    type V = SeedView;

    open spec fn view(&self) -> SeedView {
        SeedView {
            worktree_id: self.worktree_id,
            name: self.name@,
            toolchain: match self.toolchain {
                Some(toolchain) => Some(toolchain@),
                None => None,
            },
            settings: self.settings@,
        }
    }
}

impl Key for LanguageServerSeed {
    type Id = SeedView;

    open spec fn id(self) -> SeedView {
        self@
    }

    fn same(&self, other: &Self) -> (same: bool) {
        let same_toolchain: bool = match (&self.toolchain, &other.toolchain) {
            (Some(a), Some(b)) => same_text(a.as_str(), b.as_str()),
            (None, None) => true,
            _ => false,
        };
        self.worktree_id == other.worktree_id && same_toolchain && same_text(
            self.name.as_str(),
            other.name.as_str(),
        ) && same_text(self.settings.as_str(), other.settings.as_str())
    }
}

impl LanguageServerSeed {
    /// The same seed in another worktree.
    pub fn in_worktree(&self, worktree_id: u64) -> (seed: LanguageServerSeed)
        ensures
            seed@ == (SeedView { worktree_id, ..self@ }),
    {
        LanguageServerSeed {
            worktree_id,
            name: self.name.clone(),
            toolchain: match &self.toolchain {
                Some(toolchain) => Some(toolchain.clone()),
                None => None,
            },
            settings: self.settings.clone(),
        }
    }
}

/// A server, and the roots in its worktree that it serves.
#[derive(Debug)]
pub struct UnifiedLanguageServer {
    pub id: u64,
    pub project_roots: ListMap<RelPath, ()>,
}

pub ghost struct UnifiedView {
    pub id: u64,
    pub project_roots: Set<Seq<Seq<char>>>,
}

impl View for UnifiedLanguageServer {
    type V = UnifiedView;

    open spec fn view(&self) -> UnifiedView {
        UnifiedView { id: self.id, project_roots: self.project_roots@.dom() }
    }
}

#[derive(Clone, Copy, Debug, PartialEq, Eq, Structural)]
pub enum LanguageServerState {
    Starting,
    Running,
}

/// Where a workspace folder for a server goes.
#[derive(Clone, Copy, Debug, PartialEq, Eq, Structural)]
pub enum FolderTarget {
    /// The server is not known.
    Nowhere,
    /// Kept until the server runs.
    Pending,
    /// Told to the server.
    Server,
}

/// What has to be done to start a server.
#[derive(Clone, Copy, Debug, PartialEq, Eq, Structural)]
pub struct StartPlan {
    /// The binary is not looked for until the worktree is trusted.
    pub wait_for_trust: bool,
    /// Nobody waits for the trust of this worktree yet: begin to.
    pub watch_trust: bool,
    /// The server is shown as starting right away.
    pub report_starting: bool,
}

/// What stopping a server asks for.
#[derive(Clone, Copy, Debug, PartialEq, Eq, Structural)]
pub enum StopPlan {
    /// Shut the process down, and announce the removal when that is done.
    ShutDown,
    /// Nobody knows the server's name: only announce the removal.
    AnnounceRemoval,
    Nothing,
}

/// Servers picked by number or by name.
#[derive(Debug)]
pub enum LanguageServerSelector {
    Id(u64),
    Name(String),
}

#[derive(Debug)]
pub struct LocalLspStore {
    pub language_server_ids: ListMap<LanguageServerSeed, UnifiedLanguageServer>,
    pub language_servers: BTreeMap<u64, LanguageServerState>,
    /// Worktrees for whose trust a server waits.
    pub restricted_worktrees: BTreeSet<u64>,
    /// Buffers, and the servers in which they are open.
    pub buffers_opened_in_servers: BTreeMap<u64, BTreeSet<u64>>,
}

pub ghost struct LocalView {
    pub ids: Map<SeedView, UnifiedView>,
    pub servers: Map<u64, LanguageServerState>,
    pub restricted: Set<u64>,
    pub opened: Map<u64, Set<u64>>,
}

pub open spec fn ids_view(ids: Map<SeedView, UnifiedLanguageServer>) -> Map<SeedView, UnifiedView> {
    Map::new(|seed: SeedView| ids.contains_key(seed), |seed: SeedView| ids[seed]@)
}

pub open spec fn opened_view(opened: Map<u64, BTreeSet<u64>>) -> Map<u64, Set<u64>> {
    Map::new(|buffer: u64| opened.contains_key(buffer), |buffer: u64| opened[buffer]@)
}

impl View for LocalLspStore {
    type V = LocalView;

    open spec fn view(&self) -> LocalView {
        LocalView {
            ids: ids_view(self.language_server_ids@),
            servers: self.language_servers@,
            restricted: self.restricted_worktrees@,
            opened: opened_view(self.buffers_opened_in_servers@),
        }
    }
}

/// A seed stands for this server.
pub open spec fn serves(ids: Map<SeedView, UnifiedView>, seed: SeedView, server: u64) -> bool {
    ids.contains_key(seed) && ids[seed].id == server
}

/// Some seed in the worktree stands for this server.
pub open spec fn serves_worktree(
    ids: Map<SeedView, UnifiedView>,
    worktree: u64,
    server: u64,
) -> bool {
    exists|seed: SeedView| #[trigger] serves(ids, seed, server) && seed.worktree_id == worktree
}

/// Some seed in another worktree stands for this server.
pub open spec fn serves_elsewhere(
    ids: Map<SeedView, UnifiedView>,
    worktree: u64,
    server: u64,
) -> bool {
    exists|seed: SeedView| #[trigger] serves(ids, seed, server) && seed.worktree_id != worktree
}

/// The server is used by this worktree alone.
pub open spec fn only_in_worktree(
    ids: Map<SeedView, UnifiedView>,
    worktree: u64,
    server: u64,
) -> bool {
    serves_worktree(ids, worktree, server) && !serves_elsewhere(ids, worktree, server)
}

/// Every seed stands for a server that is starting or running.
pub open spec fn all_served(
    ids: Map<SeedView, UnifiedView>,
    servers: Map<u64, LanguageServerState>,
) -> bool {
    forall|seed: SeedView, server: u64| #[trigger]
        serves(ids, seed, server) ==> servers.contains_key(server)
}

/// The server of a seed: a new one only if the seed has none.
pub open spec fn server_for(ids: Map<SeedView, UnifiedView>, seed: SeedView, next_id: u64) -> u64 {
    if ids.contains_key(seed) {
        ids[seed].id
    } else {
        next_id
    }
}

/// The seeds after a server was asked for at a root.
pub open spec fn with_root(
    ids: Map<SeedView, UnifiedView>,
    seed: SeedView,
    root: Seq<Seq<char>>,
    next_id: u64,
) -> Map<SeedView, UnifiedView> {
    ids.insert(
        seed,
        UnifiedView {
            id: server_for(ids, seed, next_id),
            project_roots: if ids.contains_key(seed) {
                ids[seed].project_roots.insert(root)
            } else {
                Set::empty().insert(root)
            },
        },
    )
}

/// A worktree that is not trusted is waited for, one that is trusted no longer.
/// `can_trust` says which, where trust matters at all.
pub open spec fn restricted_after(
    restricted: Set<u64>,
    worktree: u64,
    can_trust: Option<bool>,
) -> Set<u64> {
    match can_trust {
        None => restricted,
        Some(true) => restricted.remove(worktree),
        Some(false) => restricted.insert(worktree),
    }
}

pub open spec fn start_plan(
    restricted: Set<u64>,
    worktree: u64,
    can_trust: Option<bool>,
) -> StartPlan {
    StartPlan {
        wait_for_trust: can_trust == Some(false),
        watch_trust: can_trust == Some(false) && !restricted.contains(worktree),
        report_starting: can_trust != Some(false),
    }
}

/// Two requests with the same seed are served by one server, whatever happens to be
/// the next free number and at whichever roots they are made.
pub proof fn equal_seeds_share_a_server(
    ids: Map<SeedView, UnifiedView>,
    seed: SeedView,
    root: Seq<Seq<char>>,
    next_id: u64,
    later_id: u64,
)
    ensures
        server_for(with_root(ids, seed, root, next_id), seed, later_id) == server_for(
            ids,
            seed,
            next_id,
        ),
{
}

/// Removing a worktree takes away no server that another worktree uses.
pub proof fn shared_servers_survive(
    before: LocalView,
    after: LocalView,
    removed: Set<u64>,
    worktree: u64,
    server: u64,
)
    requires
        all_served(before.ids, before.servers),
        forall|s: u64| #[trigger]
            removed.contains(s) <==> only_in_worktree(before.ids, worktree, s),
        after.servers == before.servers.remove_keys(removed),
        is_retained(after.ids, before.ids, Some(worktree), removed),
        serves_elsewhere(before.ids, worktree, server),
    ensures
        after.servers.contains_key(server),
        serves_elsewhere(after.ids, worktree, server),
{
    let seed = choose|seed: SeedView| #[trigger]
        serves(before.ids, seed, server) && seed.worktree_id != worktree;
    assert(!removed.contains(server));
    assert(after.ids.contains_key(seed));
    assert(serves(after.ids, seed, server));
}

/// What is left of the seeds without those of a worktree and of some servers.
pub open spec fn is_retained(
    after: Map<SeedView, UnifiedView>,
    before: Map<SeedView, UnifiedView>,
    worktree: Option<u64>,
    servers: Set<u64>,
) -> bool {
    forall|seed: SeedView|
        (#[trigger] after.contains_key(seed) <==> before.contains_key(seed) && Some(
            seed.worktree_id,
        ) != worktree && !servers.contains(before[seed].id)) && (after.contains_key(seed)
            ==> after[seed] == before[seed])
}

/// The servers are open in no buffer any more; the rest stays.
pub open spec fn is_closed_in(
    after: Map<u64, Set<u64>>,
    before: Map<u64, Set<u64>>,
    servers: Set<u64>,
) -> bool {
    &&& after.dom() == before.dom()
    &&& forall|buffer: u64| #[trigger]
        before.contains_key(buffer) ==> after[buffer] == before[buffer].difference(servers)
}

/// The running servers of a worktree, once for each seed that stands for them.
pub open spec fn worktree_servers(
    entries: Seq<(LanguageServerSeed, UnifiedLanguageServer)>,
    servers: Map<u64, LanguageServerState>,
    worktree: u64,
) -> Seq<u64>
    decreases entries.len(),
{
    if entries.len() == 0 {
        Seq::empty()
    } else {
        let earlier = worktree_servers(entries.drop_last(), servers, worktree);
        let (seed, state) = entries.last();
        if seed.worktree_id == worktree && servers.contains_key(state.id) && servers[state.id]
            == LanguageServerState::Running {
            earlier.push(state.id)
        } else {
            earlier
        }
    }
}

/// Where a workspace folder for a server goes.
pub open spec fn folder_target(servers: Map<u64, LanguageServerState>, server: u64) -> FolderTarget {
    if !servers.contains_key(server) {
        FolderTarget::Nowhere
    } else {
        match servers[server] {
            LanguageServerState::Starting => FolderTarget::Pending,
            LanguageServerState::Running => FolderTarget::Server,
        }
    }
}

/// The server runs.
pub open spec fn runs(local: LocalView, server: u64) -> bool {
    local.servers.contains_key(server) && local.servers[server] == LanguageServerState::Running
}

impl LocalLspStore {
    pub open spec fn well_formed(&self) -> bool {
        &&& all_served(self@.ids, self@.servers)
        &&& has_distinct_keys(self.language_server_ids.entries@)
    }

    /// A store without servers.
    pub fn new() -> (store: Self)
        ensures
            store.well_formed(),
            store@.ids == Map::<SeedView, UnifiedView>::empty(),
            store@.servers == Map::<u64, LanguageServerState>::empty(),
            store@.restricted == Set::<u64>::empty(),
            store@.opened == Map::<u64, Set<u64>>::empty(),
    {
        let store = LocalLspStore {
            language_server_ids: ListMap::new(),
            language_servers: BTreeMap::new(),
            restricted_worktrees: BTreeSet::new(),
            buffers_opened_in_servers: BTreeMap::new(),
        };
        assert(store@.ids =~= Map::<SeedView, UnifiedView>::empty());
        assert(store@.opened =~= Map::<u64, Set<u64>>::empty());
        store
    }

    /// Whether a server runs; one that is starting does not.
    pub fn running_language_server_for_id(&self, id: u64) -> (running: bool)
        ensures
            running == runs(self@, id),
    {
        match map_get(&self.language_servers, id) {
            Some(state) => *state == LanguageServerState::Running,
            None => false,
        }
    }

    /// Enters a server as starting. Where the worktree is not trusted yet, the start
    /// waits for its trust, which is watched once per worktree.
    pub fn start_language_server(
        &mut self,
        seed: LanguageServerSeed,
        server_id: u64,
        can_trust: Option<bool>,
    ) -> (plan: StartPlan)
        requires
            old(self).well_formed(),
        ensures
            final(self).well_formed(),
            final(self)@.servers == old(self)@.servers.insert(
                server_id,
                LanguageServerState::Starting,
            ),
            final(self)@.ids == (if old(self)@.ids.contains_key(seed@) {
                old(self)@.ids
            } else {
                old(self)@.ids.insert(
                    seed@,
                    UnifiedView { id: server_id, project_roots: Set::empty() },
                )
            }),
            final(self)@.restricted == restricted_after(
                old(self)@.restricted,
                seed@.worktree_id,
                can_trust,
            ),
            final(self)@.opened == old(self)@.opened,
            plan == start_plan(old(self)@.restricted, seed@.worktree_id, can_trust),
    {
        let ghost before = self@;
        let worktree_id: u64 = seed.worktree_id;
        let mut wait_for_trust: bool = false;
        let mut watch_trust: bool = false;
        match can_trust {
            None => {},
            Some(true) => {
                let had = set_take(&mut self.restricted_worktrees, worktree_id);
            },
            Some(false) => {
                wait_for_trust = true;
                watch_trust = set_put(&mut self.restricted_worktrees, worktree_id);
            },
        }
        map_put(&mut self.language_servers, server_id, LanguageServerState::Starting);
        let ghost ids_before = self.language_server_ids@;
        if !self.language_server_ids.contains_key(&seed) {
            let server = UnifiedLanguageServer { id: server_id, project_roots: ListMap::new() };
            self.language_server_ids.insert(seed, server);
            proof {
                assert(server@.project_roots =~= Set::empty());
                assert(self@.ids =~= before.ids.insert(
                    seed@,
                    UnifiedView { id: server_id, project_roots: Set::empty() },
                ));
            }
        }
        proof {
            assert forall|seed: SeedView, server: u64| #[trigger]
                serves(self@.ids, seed, server) implies self@.servers.contains_key(server) by {
                if server != server_id {
                    assert(serves(before.ids, seed, server));
                }
            }
        }
        StartPlan { wait_for_trust, watch_trust, report_starting: !wait_for_trust }
    }

    /// The server for a seed: the one that there is, or one that is started now under
    /// the number `next_id`. The root is entered as served by it.
    pub fn get_or_insert_language_server(
        &mut self,
        seed: LanguageServerSeed,
        root: RelPath,
        next_id: u64,
        can_trust: Option<bool>,
    ) -> (result: (u64, Option<StartPlan>))
        requires
            old(self).well_formed(),
        ensures
            final(self).well_formed(),
            result.0 == server_for(old(self)@.ids, seed@, next_id),
            final(self)@.ids == with_root(old(self)@.ids, seed@, root@, next_id),
            final(self)@.opened == old(self)@.opened,
            if old(self)@.ids.contains_key(seed@) {
                &&& result.1 is None
                &&& final(self)@.servers == old(self)@.servers
                &&& final(self)@.restricted == old(self)@.restricted
            } else {
                &&& result.1 == Some(
                    start_plan(old(self)@.restricted, seed@.worktree_id, can_trust),
                )
                &&& final(self)@.servers == old(self)@.servers.insert(
                    next_id,
                    LanguageServerState::Starting,
                )
                &&& final(self)@.restricted == restricted_after(
                    old(self)@.restricted,
                    seed@.worktree_id,
                    can_trust,
                )
            },
    {
        let ghost before = self@;
        let mut plan: Option<StartPlan> = None;
        let key: LanguageServerSeed = seed.in_worktree(seed.worktree_id);
        if !self.language_server_ids.contains_key(&key) {
            plan = Some(self.start_language_server(seed, next_id, can_trust));
        }
        let ghost started = self@;
        let ghost started_ids = self.language_server_ids@;
        assert(key@ == seed@);
        assert(started_ids.contains_key(key@)) by {
            assert(started.ids.contains_key(key@));
        }
        let mut id: u64 = next_id;
        if let Some(server) = self.language_server_ids.remove(&key) {
            let mut server: UnifiedLanguageServer = server;
            id = server.id;
            let ghost unified = server@;
            assert(unified == started.ids[key@]);
            server.project_roots.insert(root, ());
            assert(server@.project_roots =~= unified.project_roots.insert(root@));
            self.language_server_ids.insert(key, server);
            proof {
                assert(self@.ids =~= started.ids.insert(
                    key@,
                    UnifiedView {
                        id: unified.id,
                        project_roots: unified.project_roots.insert(root@),
                    },
                ));
                assert forall|seed: SeedView, server: u64| #[trigger]
                    serves(self@.ids, seed, server) implies self@.servers.contains_key(server) by {
                    assert(serves(started.ids, seed, server));
                }
                assert(self@.ids =~= with_root(before.ids, key@, root@, next_id));
            }
        }
        (id, plan)
    }

    /// The worktree is trusted now: nobody waits for its trust any more.
    pub fn worktree_trusted(&mut self, worktree_id: u64) -> (waited: bool)
        requires
            old(self).well_formed(),
        ensures
            final(self).well_formed(),
            final(self)@ == (LocalView {
                restricted: old(self)@.restricted.remove(worktree_id),
                ..old(self)@
            }),
            waited == old(self)@.restricted.contains(worktree_id),
    {
        let ghost before = self@;
        let waited: bool = set_take(&mut self.restricted_worktrees, worktree_id);
        assert(self@.ids == before.ids);
        waited
    }

    /// Where a workspace folder for a server goes.
    pub fn add_workspace_folder(&self, server_id: u64) -> (target: FolderTarget)
        ensures
            target == folder_target(self@.servers, server_id),
    {
        match map_get(&self.language_servers, server_id) {
            None => FolderTarget::Nowhere,
            Some(LanguageServerState::Starting) => FolderTarget::Pending,
            Some(LanguageServerState::Running) => FolderTarget::Server,
        }
    }

    /// A server has started. It is taken on unless another server has its seed by now;
    /// then it is dropped.
    pub fn insert_newly_running_language_server(
        &mut self,
        seed: &LanguageServerSeed,
        server_id: u64,
    ) -> (accepted: bool)
        requires
            old(self).well_formed(),
        ensures
            final(self).well_formed(),
            accepted == !(old(self)@.ids.contains_key(seed@) && old(self)@.ids[seed@].id
                != server_id),
            final(self)@ == (if accepted {
                LocalView {
                    servers: old(self)@.servers.insert(server_id, LanguageServerState::Running),
                    ..old(self)@
                }
            } else {
                old(self)@
            }),
    {
        let ghost before = self@;
        if let Some(server) = self.language_server_ids.get(seed) {
            if server.id != server_id {
                return false;
            }
        }
        map_put(&mut self.language_servers, server_id, LanguageServerState::Running);
        proof {
            assert(self@.ids == before.ids);
            assert forall|seed: SeedView, server: u64| #[trigger]
                serves(self@.ids, seed, server) implies self@.servers.contains_key(server) by {
                assert(serves(before.ids, seed, server));
            }
        }
        true
    }

    /// Keeps the seeds that are in no given worktree and stand for none of the servers.
    fn retain_seeds(&mut self, worktree: Option<u64>, servers: &BTreeSet<u64>)
        ensures
            is_retained(final(self)@.ids, old(self)@.ids, worktree, servers@),
            final(self)@.servers == old(self)@.servers,
            final(self)@.restricted == old(self)@.restricted,
            final(self)@.opened == old(self)@.opened,
            has_distinct_keys(final(self).language_server_ids.entries@),
    {
        let ghost before = self.language_server_ids@;
        let mut ids: ListMap<LanguageServerSeed, UnifiedLanguageServer> = ListMap::new();
        core::mem::swap(&mut ids, &mut self.language_server_ids);
        let mut rest: Vec<(LanguageServerSeed, UnifiedLanguageServer)> = ids.entries;
        let ghost given = rest@;
        let mut kept: ListMap<LanguageServerSeed, UnifiedLanguageServer> = ListMap::new();
        while rest.len() > 0
            invariant
                rest@.len() <= given.len(),
                rest@ == given.skip(given.len() - rest@.len()),
                kept_of(kept@, given.take(given.len() - rest@.len()), worktree, servers@),
                has_distinct_keys(kept.entries@),
                self.language_servers == old(self).language_servers,
                self.restricted_worktrees == old(self).restricted_worktrees,
                self.buffers_opened_in_servers == old(self).buffers_opened_in_servers,
            decreases rest@.len(),
        {
            let ghost done = given.len() - rest@.len();
            let ghost kept_before = kept@;
            let (seed, server) = rest.remove(0);
            assert(rest@ =~= given.skip(done + 1));
            assert(given.take(done + 1).drop_last() =~= given.take(done));
            assert(given.take(done + 1).last() == given[done]);
            let elsewhere: bool = match worktree {
                Some(worktree) => seed.worktree_id != worktree,
                None => true,
            };
            if elsewhere && !set_has(servers, server.id) {
                kept.insert(seed, server);
            } else {
                let dropped = kept.remove(&seed);
            }
            proof {
                assert forall|id: SeedView| #[trigger]
                    kept@.contains_key(id) <==> keeps(
                        lookup(given.take(done + 1), id),
                        id,
                        worktree,
                        servers@,
                    ) by {
                    assert(kept_before.contains_key(id) <==> keeps(
                        lookup(given.take(done), id),
                        id,
                        worktree,
                        servers@,
                    ));
                }
            }
        }
        assert(given.take(given.len() as int) =~= given);
        self.language_server_ids = kept;
        proof {
            let after = self@.ids;
            assert forall|seed: SeedView|
                (#[trigger] after.contains_key(seed) <==> old(self)@.ids.contains_key(seed) && Some(
                    seed.worktree_id,
                ) != worktree && !servers@.contains(old(self)@.ids[seed].id)) && (
                after.contains_key(seed) ==> after[seed] == old(self)@.ids[seed]) by {
                assert(kept@.contains_key(seed) <==> keeps(
                    lookup(given, seed),
                    seed,
                    worktree,
                    servers@,
                ));
            }
        }
    }

    /// Takes servers out of all buffers in which they are open.
    pub fn close_in_buffers(&mut self, servers: &Vec<u64>)
        ensures
            is_closed_in(final(self)@.opened, old(self)@.opened, servers@.to_set()),
            final(self).language_server_ids == old(self).language_server_ids,
            final(self)@.servers == old(self)@.servers,
            final(self)@.restricted == old(self)@.restricted,
    {
        let buffers: Vec<u64> = map_keys(&self.buffers_opened_in_servers);
        let ghost before = self.buffers_opened_in_servers@;
        let mut i: usize = 0;
        while i < buffers.len()
            invariant
                i <= buffers@.len(),
                ascending(buffers@),
                before == old(self).buffers_opened_in_servers@,
                forall|k: u64| #[trigger] buffers@.contains(k) <==> before.contains_key(k),
                self.buffers_opened_in_servers@.dom() == before.dom(),
                forall|j: int|
                    0 <= j < i ==> self.buffers_opened_in_servers@[#[trigger] buffers@[j]]@
                        == before[buffers@[j]]@.difference(servers@.to_set()),
                forall|j: int|
                    i <= j < buffers@.len()
                        ==> self.buffers_opened_in_servers@[#[trigger] buffers@[j]]
                        == before[buffers@[j]],
                self.language_server_ids == old(self).language_server_ids,
                self.language_servers == old(self).language_servers,
                self.restricted_worktrees == old(self).restricted_worktrees,
            decreases buffers@.len() - i,
        {
            let buffer: u64 = buffers[i];
            assert(buffers@.contains(buffers@[i as int]));
            if let Some(open) = map_take(&mut self.buffers_opened_in_servers, buffer) {
                let mut open: BTreeSet<u64> = open;
                let ghost all = open@;
                let mut j: usize = 0;
                assert(all.difference(servers@.take(0).to_set()) =~= all);
                while j < servers.len()
                    invariant
                        j <= servers@.len(),
                        open@ == all.difference(servers@.take(j as int).to_set()),
                    decreases servers@.len() - j,
                {
                    let had = set_take(&mut open, servers[j]);
                    proof {
                        let seen = servers@.take(j as int);
                        let next = servers@.take(j + 1);
                        assert(next =~= seen.push(servers@[j as int]));
                        assert(open@ =~= all.difference(next.to_set())) by {
                            assert forall|s: u64| next.to_set().contains(s) <==> seen.to_set().contains(
                                s,
                            ) || s == servers@[j as int] by {
                                if seen.contains(s) {
                                    let k = choose|k: int| 0 <= k < seen.len() && seen[k] == s;
                                    assert(next[k] == s);
                                }
                                if next.contains(s) {
                                    let k = choose|k: int| 0 <= k < next.len() && next[k] == s;
                                    if k < j {
                                        assert(seen[k] == s);
                                    }
                                }
                                assert(next[j as int] == servers@[j as int]);
                            }
                        }
                    }
                    j += 1;
                }
                assert(servers@.take(j as int) =~= servers@);
                map_put(&mut self.buffers_opened_in_servers, buffer, open);
            }
            assert(self.buffers_opened_in_servers@.dom() =~= before.dom());
            i += 1;
        }
        proof {
            let after = self@.opened;
            assert(after.dom() =~= old(self)@.opened.dom());
            assert forall|buffer: u64| #[trigger]
                old(self)@.opened.contains_key(buffer) implies after[buffer] == old(
                self,
            )@.opened[buffer].difference(servers@.to_set()) by {
                assert(buffers@.contains(buffer));
                let k = choose|k: int| 0 <= k < buffers@.len() && buffers@[k] == buffer;
                assert(buffers@[k] == buffer);
            }
        }
    }

    /// Forgets a worktree. The servers that no other worktree uses go with it, and are
    /// returned in ascending order.
    pub fn remove_worktree(&mut self, id_to_remove: u64) -> (removed: Vec<u64>)
        requires
            old(self).well_formed(),
        ensures
            final(self).well_formed(),
            ascending(removed@),
            forall|server: u64| #[trigger]
                removed@.contains(server) <==> only_in_worktree(
                    old(self)@.ids,
                    id_to_remove,
                    server,
                ),
            final(self)@.restricted == old(self)@.restricted.remove(id_to_remove),
            is_retained(
                final(self)@.ids,
                old(self)@.ids,
                Some(id_to_remove),
                removed@.to_set(),
            ),
            final(self)@.servers == old(self)@.servers.remove_keys(removed@.to_set()),
            is_closed_in(final(self)@.opened, old(self)@.opened, removed@.to_set()),
    {
        let ghost before = self@;
        let had = set_take(&mut self.restricted_worktrees, id_to_remove);
        let mut to_remove: BTreeSet<u64> = BTreeSet::new();
        let mut to_preserve: BTreeSet<u64> = BTreeSet::new();
        let mut i: usize = 0;
        let ghost entries = self.language_server_ids.entries@;
        let ghost inside = |seed: SeedView| seed.worktree_id == id_to_remove;
        let ghost outside = |seed: SeedView| seed.worktree_id != id_to_remove;
        while i < self.language_server_ids.entries.len()
            invariant
                i <= self.language_server_ids.entries@.len(),
                entries == self.language_server_ids.entries@,
                inside == (|seed: SeedView| seed.worktree_id == id_to_remove),
                outside == (|seed: SeedView| seed.worktree_id != id_to_remove),
                forall|server: u64| #[trigger]
                    to_remove@.contains(server) <==> listed_with(
                        entries.take(i as int),
                        inside,
                        server,
                    ),
                forall|server: u64| #[trigger]
                    to_preserve@.contains(server) <==> listed_with(
                        entries.take(i as int),
                        outside,
                        server,
                    ),
            decreases self.language_server_ids.entries@.len() - i,
        {
            let ghost removed_before = to_remove@;
            let ghost preserved_before = to_preserve@;
            let worktree: u64 = self.language_server_ids.entries[i].0.worktree_id;
            let server: u64 = self.language_server_ids.entries[i].1.id;
            if worktree == id_to_remove {
                let new = set_put(&mut to_remove, server);
            } else {
                let new = set_put(&mut to_preserve, server);
            }
            proof {
                assert(entries.take(i + 1).drop_last() =~= entries.take(i as int));
                assert(entries.take(i + 1).last() == entries[i as int]);
                assert forall|s: u64|
                    #![trigger to_remove@.contains(s)]
                    #![trigger to_preserve@.contains(s)]
                    (to_remove@.contains(s) <==> listed_with(
                        entries.take(i + 1),
                        inside,
                        s,
                    )) && (to_preserve@.contains(s) <==> listed_with(
                        entries.take(i + 1),
                        outside,
                        s,
                    )) by {
                    assert(removed_before.contains(s) <==> listed_with(
                        entries.take(i as int),
                        inside,
                        s,
                    ));
                    assert(preserved_before.contains(s) <==> listed_with(
                        entries.take(i as int),
                        outside,
                        s,
                    ));
                }
            }
            i += 1;
        }
        assert(entries.take(i as int) =~= entries);
        let candidates: Vec<u64> = set_items(&to_remove);
        let mut removed: Vec<u64> = Vec::new();
        let mut gone: BTreeSet<u64> = BTreeSet::new();
        let mut j: usize = 0;
        while j < candidates.len()
            invariant
                j <= candidates@.len(),
                ascending(candidates@),
                ascending(removed@),
                forall|k: int|
                    0 <= k < removed@.len() && j < candidates@.len() ==> #[trigger] removed@[k]
                        < candidates@[j as int],
                forall|s: u64| #[trigger]
                    removed@.contains(s) <==> candidates@.take(j as int).contains(s)
                        && !to_preserve@.contains(s),
                forall|s: u64| #[trigger] gone@.contains(s) <==> removed@.contains(s),
            decreases candidates@.len() - j,
        {
            let server: u64 = candidates[j];
            let ghost removed_before = removed@;
            let ghost gone_before = gone@;
            if !set_has(&to_preserve, server) {
                removed.push(server);
                let new = set_put(&mut gone, server);
            }
            proof {
                let seen = candidates@.take(j as int);
                let next = candidates@.take(j + 1);
                assert(next =~= seen.push(server));
                assert forall|s: u64| #[trigger]
                    removed@.contains(s) <==> next.contains(s) && !to_preserve@.contains(s) by {
                    crate::ids::contains_push(seen, server, s);
                    crate::ids::contains_push(removed_before, server, s);
                }
                assert forall|s: u64| #[trigger] gone@.contains(s) <==> removed@.contains(s) by {
                    crate::ids::contains_push(removed_before, server, s);
                }
            }
            j += 1;
        }
        assert(candidates@.take(j as int) =~= candidates@);
        assert(gone@ =~= removed@.to_set());
        proof {
            listing_is_complete(self.language_server_ids, inside);
            listing_is_complete(self.language_server_ids, outside);
            assert(self@.ids == before.ids);
            assert forall|server: u64| #[trigger]
                removed@.contains(server) <==> only_in_worktree(
                    before.ids,
                    id_to_remove,
                    server,
                ) by {
                assert(to_remove@.contains(server) <==> listed_with(entries, inside, server));
                assert(to_preserve@.contains(server) <==> listed_with(entries, outside, server));
                assert(candidates@.contains(server) <==> to_remove@.contains(server));
                assert(serves_picked(before.ids, inside, server) <==> serves_worktree(
                    before.ids,
                    id_to_remove,
                    server,
                ));
                assert(serves_picked(before.ids, outside, server) <==> serves_elsewhere(
                    before.ids,
                    id_to_remove,
                    server,
                ));
            }
        }
        self.retain_seeds(Some(id_to_remove), &gone);
        self.close_in_buffers(&removed);
        let mut k: usize = 0;
        assert(before.servers.remove_keys(removed@.take(0).to_set()) =~= before.servers);
        let ghost ids = self.language_server_ids;
        let ghost opened = self.buffers_opened_in_servers;
        let ghost restricted = self.restricted_worktrees;
        while k < removed.len()
            invariant
                k <= removed@.len(),
                self.language_servers@ == before.servers.remove_keys(
                    removed@.take(k as int).to_set(),
                ),
                self.language_server_ids == ids,
                self.buffers_opened_in_servers == opened,
                self.restricted_worktrees == restricted,
            decreases removed@.len() - k,
        {
            let state = map_take(&mut self.language_servers, removed[k]);
            proof {
                let seen = removed@.take(k as int);
                let next = removed@.take(k + 1);
                assert(next =~= seen.push(removed@[k as int]));
                assert forall|s: u64| next.to_set().contains(s) <==> seen.to_set().contains(s) || s
                    == removed@[k as int] by {
                    crate::ids::contains_push(seen, removed@[k as int], s);
                }
                assert(self.language_servers@ =~= before.servers.remove_keys(next.to_set()));
            }
            k += 1;
        }
        assert(removed@.take(k as int) =~= removed@);
        proof {
            assert forall|seed: SeedView, server: u64| #[trigger]
                serves(self@.ids, seed, server) implies self@.servers.contains_key(server) by {
                assert(self@.ids.contains_key(seed));
                assert(serves(before.ids, seed, server));
            }
        }
        removed
    }

    /// Forgets a server: its seeds, its state, and that buffers are open in it. A server
    /// whose name is known, from its status or because it runs, is shut down.
    pub fn stop_local_language_server(&mut self, server_id: u64, has_status: bool) -> (plan:
        StopPlan)
        requires
            old(self).well_formed(),
        ensures
            final(self).well_formed(),
            is_retained(final(self)@.ids, old(self)@.ids, None, set![server_id]),
            final(self)@.servers == old(self)@.servers.remove(server_id),
            is_closed_in(final(self)@.opened, old(self)@.opened, set![server_id]),
            final(self)@.restricted == old(self)@.restricted,
            plan == (if has_status || (old(self)@.servers.contains_key(server_id) && old(
                self,
            )@.servers[server_id] == LanguageServerState::Running) {
                StopPlan::ShutDown
            } else if old(self)@.servers.contains_key(server_id) {
                StopPlan::AnnounceRemoval
            } else {
                StopPlan::Nothing
            }),
    {
        let ghost before = self@;
        let mut gone: BTreeSet<u64> = BTreeSet::new();
        let new = set_put(&mut gone, server_id);
        assert(gone@ =~= set![server_id]);
        self.retain_seeds(None, &gone);
        let mut servers: Vec<u64> = Vec::new();
        servers.push(server_id);
        proof {
            assert forall|s: u64| servers@.to_set().contains(s) <==> s == server_id by {
                assert(servers@[0] == server_id);
            }
            assert(servers@.to_set() =~= set![server_id]);
        }
        self.close_in_buffers(&servers);
        let ghost closed = self@;
        let state: Option<LanguageServerState> = map_take(&mut self.language_servers, server_id);
        proof {
            assert(self@.ids == closed.ids);
            assert forall|seed: SeedView, server: u64| #[trigger]
                serves(self@.ids, seed, server) implies self@.servers.contains_key(server) by {
                assert(self@.ids.contains_key(seed));
                assert(serves(before.ids, seed, server));
            }
        }
        if has_status {
            return StopPlan::ShutDown;
        }
        match state {
            Some(LanguageServerState::Running) => StopPlan::ShutDown,
            Some(LanguageServerState::Starting) => StopPlan::AnnounceRemoval,
            None => StopPlan::Nothing,
        }
    }

    /// The running servers of a worktree.
    pub fn language_servers_for_worktree(&self, worktree_id: u64) -> (servers: Vec<u64>)
        ensures
            servers@ == worktree_servers(
                self.language_server_ids.entries@,
                self@.servers,
                worktree_id,
            ),
    {
        let mut servers: Vec<u64> = Vec::new();
        let mut i: usize = 0;
        let ghost entries = self.language_server_ids.entries@;
        while i < self.language_server_ids.entries.len()
            invariant
                i <= self.language_server_ids.entries@.len(),
                entries == self.language_server_ids.entries@,
                servers@ == worktree_servers(
                    entries.take(i as int),
                    self.language_servers@,
                    worktree_id,
                ),
            decreases self.language_server_ids.entries@.len() - i,
        {
            let worktree: u64 = self.language_server_ids.entries[i].0.worktree_id;
            let server: u64 = self.language_server_ids.entries[i].1.id;
            assert(entries.take(i + 1).drop_last() =~= entries.take(i as int));
            assert(entries.take(i + 1).last() == entries[i as int]);
            if worktree == worktree_id && self.running_language_server_for_id(server) {
                servers.push(server);
            }
            i += 1;
        }
        assert(entries.take(i as int) =~= entries);
        servers
    }
}

/// What was under a seed stays.
spec fn keeps(
    server: Option<UnifiedLanguageServer>,
    seed: SeedView,
    worktree: Option<u64>,
    servers: Set<u64>,
) -> bool {
    server matches Some(server) && Some(seed.worktree_id) != worktree && !servers.contains(
        server.id,
    )
}

spec fn kept_of(
    kept: Map<SeedView, UnifiedLanguageServer>,
    entries: Seq<(LanguageServerSeed, UnifiedLanguageServer)>,
    worktree: Option<u64>,
    servers: Set<u64>,
) -> bool {
    forall|id: SeedView|
        (#[trigger] kept.contains_key(id) <==> keeps(lookup(entries, id), id, worktree, servers))
            && (kept.contains_key(id) ==> Some(kept[id]) == lookup(entries, id))
}

/// Some entry with a seed that is picked stands for the server.
pub open spec fn listed_with(
    entries: Seq<(LanguageServerSeed, UnifiedLanguageServer)>,
    picks: spec_fn(SeedView) -> bool,
    server: u64,
) -> bool
    decreases entries.len(),
{
    entries.len() > 0 && (listed_with(entries.drop_last(), picks, server) || (picks(
        entries.last().0@,
    ) && entries.last().1.id == server))
}

/// Some seed that is picked stands for the server.
pub open spec fn serves_picked(
    ids: Map<SeedView, UnifiedView>,
    picks: spec_fn(SeedView) -> bool,
    server: u64,
) -> bool {
    exists|seed: SeedView| #[trigger] serves(ids, seed, server) && picks(seed)
}

proof fn lemma_listed_at(
    entries: Seq<(LanguageServerSeed, UnifiedLanguageServer)>,
    picks: spec_fn(SeedView) -> bool,
    server: u64,
)
    ensures
        listed_with(entries, picks, server) <==> exists|i: int|
            0 <= i < entries.len() && picks((#[trigger] entries[i]).0@) && entries[i].1.id
                == server,
    decreases entries.len(),
{
    if entries.len() > 0 {
        let earlier = entries.drop_last();
        lemma_listed_at(earlier, picks, server);
        if listed_with(earlier, picks, server) {
            let i = choose|i: int|
                0 <= i < earlier.len() && picks((#[trigger] earlier[i]).0@) && earlier[i].1.id
                    == server;
            assert(entries[i] == earlier[i]);
        }
        assert(entries[entries.len() - 1] == entries.last());
        if exists|i: int|
            0 <= i < entries.len() && picks((#[trigger] entries[i]).0@) && entries[i].1.id
                == server {
            let i = choose|i: int|
                0 <= i < entries.len() && picks((#[trigger] entries[i]).0@) && entries[i].1.id
                    == server;
            if i < earlier.len() {
                assert(earlier[i] == entries[i]);
            }
        }
    }
}

/// Going through the entries finds what the seeds stand for.
pub proof fn listing_is_complete(
    ids: ListMap<LanguageServerSeed, UnifiedLanguageServer>,
    picks: spec_fn(SeedView) -> bool,
)
    requires
        has_distinct_keys(ids.entries@),
    ensures
        forall|server: u64| #[trigger]
            listed_with(ids.entries@, picks, server) <==> serves_picked(
                ids_view(ids@),
                picks,
                server,
            ),
{
    let entries = ids.entries@;
    let view = ids_view(ids@);
    assert forall|server: u64| #[trigger]
        listed_with(entries, picks, server) <==> serves_picked(view, picks, server) by {
        lemma_listed_at(entries, picks, server);
        if listed_with(entries, picks, server) {
            let i = choose|i: int|
                0 <= i < entries.len() && picks((#[trigger] entries[i]).0@) && entries[i].1.id
                    == server;
            entry_is_found(entries, i);
            assert(serves(view, entries[i].0@, server));
        }
        if serves_picked(view, picks, server) {
            let seed = choose|seed: SeedView| #[trigger] serves(view, seed, server) && picks(seed);
            let i = lookup_finds_entry(entries, seed);
            assert(picks(entries[i].0@));
        }
    }
}

/// Two seeds are the same just if they agree in the worktree, the name, the toolchain and the
/// settings. A seed in another worktree differs in that alone.
pub proof fn seeds_agree_in_all_they_say(
    a: LanguageServerSeed,
    b: LanguageServerSeed,
    same: bool,
    worktree_id: u64,
    elsewhere: LanguageServerSeed,
)
    requires
        call_ensures(LanguageServerSeed::same, (&a, &b), same),
        call_ensures(LanguageServerSeed::in_worktree, (&a, worktree_id), elsewhere),
    ensures
        same <==> a.worktree_id == b.worktree_id && a.name@ == b.name@ && (a.toolchain is Some
            <==> b.toolchain is Some) && (a.toolchain is Some ==> a.toolchain->0@
            == b.toolchain->0@) && a.settings@ == b.settings@,
        elsewhere.worktree_id == worktree_id,
        elsewhere.name@ == a.name@,
        elsewhere.toolchain is Some <==> a.toolchain is Some,
        elsewhere.toolchain is Some ==> elsewhere.toolchain->0@ == a.toolchain->0@,
        elsewhere.settings@ == a.settings@,
{
    assert(elsewhere@.worktree_id == worktree_id);
    assert(elsewhere@.name == a@.name);
    assert(elsewhere@.toolchain == a@.toolchain);
    assert(elsewhere@.settings == a@.settings);
}

/// A server that is asked for with a seed that has one is that one, with the root added; nothing
/// is started. Otherwise a server starts under the new number, at that root alone.
pub proof fn servers_start_once_for_a_seed(
    store: &mut LocalLspStore,
    seed: LanguageServerSeed,
    root: RelPath,
    next_id: u64,
    can_trust: Option<bool>,
    result: (u64, Option<StartPlan>),
    other: SeedView,
)
    requires
        call_ensures(
            LocalLspStore::get_or_insert_language_server,
            (store, seed, root, next_id, can_trust),
            result,
        ),
        other != seed@,
    ensures
        final(store).language_server_ids@.contains_key(seed@),
        final(store).language_server_ids@[seed@].id == result.0,
        final(store).language_server_ids@[seed@].project_roots@.contains_key(root@),
        old(store).language_server_ids@.contains_key(seed@) ==> {
            &&& result.0 == old(store).language_server_ids@[seed@].id
            &&& result.1 is None
            &&& final(store).language_servers@ == old(store).language_servers@
        },
        !old(store).language_server_ids@.contains_key(seed@) ==> {
            &&& result.0 == next_id
            &&& result.1 is Some
            &&& final(store).language_servers@.contains_key(next_id)
            &&& final(store).language_servers@[next_id] is Starting
        },
        final(store).language_server_ids@.contains_key(other) <==> old(store).language_server_ids@.contains_key(other),
        old(store).language_server_ids@.contains_key(other) ==> final(store).language_server_ids@[other].id == old(store).language_server_ids@[other].id,
{
    let before = old(store)@.ids;
    let after = final(store)@.ids;
    assert(after.contains_key(seed@));
    assert(after[seed@] == final(store).language_server_ids@[seed@]@);
    assert(after[seed@].project_roots.contains(root@));
    assert(before.contains_key(seed@) <==> old(store).language_server_ids@.contains_key(seed@));
    assert(before.contains_key(other) <==> old(store).language_server_ids@.contains_key(other));
    assert(after.contains_key(other) <==> final(store).language_server_ids@.contains_key(other));
    if before.contains_key(seed@) {
        assert(before[seed@].id == old(store).language_server_ids@[seed@].id);
    }
    if before.contains_key(other) {
        assert(after[other] == before[other]);
        assert(after[other].id == final(store).language_server_ids@[other].id);
        assert(before[other].id == old(store).language_server_ids@[other].id);
    }
}

/// A server whose worktree is not trusted waits, and its start is not shown; somebody begins to
/// watch for the trust of the worktree unless somebody does. Every other server is shown as
/// starting.
pub proof fn servers_wait_for_trust(
    untrusted: &mut LocalLspStore,
    trusted: &mut LocalLspStore,
    indifferent: &mut LocalLspStore,
    seed: LanguageServerSeed,
    server_id: u64,
    waiting: StartPlan,
    ready: StartPlan,
    unasked: StartPlan,
)
    requires
        call_ensures(
            LocalLspStore::start_language_server,
            (untrusted, seed, server_id, Some(false)),
            waiting,
        ),
        call_ensures(
            LocalLspStore::start_language_server,
            (trusted, seed, server_id, Some(true)),
            ready,
        ),
        call_ensures(
            LocalLspStore::start_language_server,
            (indifferent, seed, server_id, None::<bool>),
            unasked,
        ),
    ensures
        waiting.wait_for_trust,
        !waiting.report_starting,
        waiting.watch_trust == !old(untrusted).restricted_worktrees@.contains(seed.worktree_id),
        final(untrusted).restricted_worktrees@.contains(seed.worktree_id),
        !ready.wait_for_trust && !ready.watch_trust && ready.report_starting,
        !final(trusted).restricted_worktrees@.contains(seed.worktree_id),
        !unasked.wait_for_trust && !unasked.watch_trust && unasked.report_starting,
        final(indifferent).restricted_worktrees@ == old(indifferent).restricted_worktrees@,
        final(trusted).language_servers@.contains_key(server_id) && final(trusted).language_servers@[server_id] is Starting,
        final(trusted).language_server_ids@.contains_key(seed@),
        !old(trusted).language_server_ids@.contains_key(seed@) ==> final(trusted).language_server_ids@[seed@].id == server_id,
{
    let before = old(trusted)@.ids;
    let after = final(trusted)@.ids;
    assert(before.contains_key(seed@) <==> old(trusted).language_server_ids@.contains_key(seed@));
    assert(after.contains_key(seed@) <==> final(trusted).language_server_ids@.contains_key(seed@));
    assert(after[seed@].id == final(trusted).language_server_ids@[seed@].id);
}

/// A server that has started runs, unless another one has its seed by now. A worktree that became
/// trusted is not waited for any more.
pub proof fn started_servers_run(
    store: &mut LocalLspStore,
    seed: LanguageServerSeed,
    server_id: u64,
    accepted: bool,
    trusting: &mut LocalLspStore,
    worktree_id: u64,
    waited: bool,
    running: bool,
)
    requires
        call_ensures(
            LocalLspStore::insert_newly_running_language_server,
            (store, &seed, server_id),
            accepted,
        ),
        call_ensures(LocalLspStore::worktree_trusted, (trusting, worktree_id), waited),
        call_ensures(
            LocalLspStore::running_language_server_for_id,
            (&*final(store), server_id),
            running,
        ),
    ensures
        old(store).language_server_ids@.contains_key(seed@) ==> (accepted <==> old(store).language_server_ids@[seed@].id == server_id),
        !old(store).language_server_ids@.contains_key(seed@) ==> accepted,
        accepted ==> running,
        accepted ==> final(store).language_servers@.contains_key(server_id) && final(store).language_servers@[server_id] is Running,
        !accepted ==> final(store).language_servers@ == old(store).language_servers@,
        waited == old(trusting).restricted_worktrees@.contains(worktree_id),
        !final(trusting).restricted_worktrees@.contains(worktree_id),
        final(trusting).language_servers@ == old(trusting).language_servers@,
{
    let before = old(store)@.ids;
    assert(before.contains_key(seed@) <==> old(store).language_server_ids@.contains_key(seed@));
    if before.contains_key(seed@) {
        assert(before[seed@].id == old(store).language_server_ids@[seed@].id);
    }
}

/// A workspace folder is told to a server that runs, kept for one that starts, and goes nowhere
/// for one that is not known.
pub proof fn folders_go_to_their_server(store: LocalLspStore, server_id: u64, target: FolderTarget)
    requires
        call_ensures(LocalLspStore::add_workspace_folder, (&store, server_id), target),
    ensures
        target is Nowhere <==> !store.language_servers@.contains_key(server_id),
        target is Pending <==> store.language_servers@.contains_key(server_id)
            && store.language_servers@[server_id] is Starting,
        target is Server <==> store.language_servers@.contains_key(server_id)
            && store.language_servers@[server_id] is Running,
{
}

/// With a worktree its seeds go, and the servers that no seed of another worktree stands for. They
/// are closed in all buffers. All other seeds and servers stay.
pub proof fn worktrees_take_their_own_servers(
    store: &mut LocalLspStore,
    worktree: u64,
    removed: Vec<u64>,
    seed: SeedView,
    elsewhere: SeedView,
    buffer: u64,
    server: u64,
)
    requires
        call_ensures(LocalLspStore::remove_worktree, (store, worktree), removed),
        elsewhere.worktree_id != worktree,
    ensures
        seed.worktree_id == worktree ==> !final(store).language_server_ids@.contains_key(seed),
        old(store).language_server_ids@.contains_key(elsewhere) ==> {
            &&& final(store).language_server_ids@.contains_key(elsewhere)
            &&& !removed@.contains(old(store).language_server_ids@[elsewhere].id)
        },
        old(store).language_server_ids@.contains_key(seed) && seed.worktree_id == worktree && (
        forall|other: SeedView| #[trigger]
            old(store).language_server_ids@.contains_key(other) && other.worktree_id != worktree
                ==> old(store).language_server_ids@[other].id != old(store).language_server_ids@[seed].id) ==> {
            &&& removed@.contains(old(store).language_server_ids@[seed].id)
            &&& !final(store).language_servers@.contains_key(
                old(store).language_server_ids@[seed].id,
            )
        },
        !removed@.contains(server) ==> (final(store).language_servers@.contains_key(server) <==> old(store).language_servers@.contains_key(server)),
        old(store).buffers_opened_in_servers@.contains_key(buffer) ==> (final(store).buffers_opened_in_servers@[buffer]@.contains(server) <==> old(store).buffers_opened_in_servers@[buffer]@.contains(server) && !removed@.contains(server)),
        !final(store).restricted_worktrees@.contains(worktree),
{
    let before = old(store)@.ids;
    let after = final(store)@.ids;
    assert(after.contains_key(seed) <==> final(store).language_server_ids@.contains_key(seed));
    assert(before.contains_key(seed) <==> old(store).language_server_ids@.contains_key(seed));
    assert(after.contains_key(elsewhere) <==> final(store).language_server_ids@.contains_key(
        elsewhere,
    ));
    assert(before.contains_key(elsewhere) <==> old(store).language_server_ids@.contains_key(
        elsewhere,
    ));
    if before.contains_key(elsewhere) {
        let shared = before[elsewhere].id;
        assert(serves(before, elsewhere, shared));
        assert(serves_elsewhere(before, worktree, shared));
        assert(!removed@.contains(shared));
    }
    if before.contains_key(seed) && seed.worktree_id == worktree && (forall|other: SeedView|
        #[trigger] old(store).language_server_ids@.contains_key(other) && other.worktree_id
            != worktree ==> old(store).language_server_ids@[other].id != old(store).language_server_ids@[seed].id) {
        let own = before[seed].id;
        assert(serves(before, seed, own));
        assert(!serves_elsewhere(before, worktree, own)) by {
            if serves_elsewhere(before, worktree, own) {
                let other = choose|other: SeedView| #[trigger]
                    serves(before, other, own) && other.worktree_id != worktree;
                assert(old(store).language_server_ids@.contains_key(other));
            }
        }
        assert(removed@.contains(own));
    }
    let opened = old(store)@.opened;
    if old(store).buffers_opened_in_servers@.contains_key(buffer) {
        assert(opened.contains_key(buffer));
        assert(final(store)@.opened[buffer] == opened[buffer].difference(removed@.to_set()));
        assert(final(store)@.opened.dom().contains(buffer));
        assert(opened[buffer] == old(store).buffers_opened_in_servers@[buffer]@);
        assert(final(store)@.opened[buffer] == final(store).buffers_opened_in_servers@[buffer]@);
    }
}

/// A server that is stopped leaves no seed, and is open in no buffer. One whose name is known is
/// shut down, another one that is known is announced as removed.
pub proof fn stopped_servers_leave_nothing(
    store: &mut LocalLspStore,
    server: u64,
    has_status: bool,
    plan: StopPlan,
    seed: SeedView,
    buffer: u64,
)
    requires
        call_ensures(
            LocalLspStore::stop_local_language_server,
            (store, server, has_status),
            plan,
        ),
    ensures
        !final(store).language_servers@.contains_key(server),
        final(store).language_server_ids@.contains_key(seed) <==> old(store).language_server_ids@.contains_key(seed) && old(store).language_server_ids@[seed].id
            != server,
        old(store).buffers_opened_in_servers@.contains_key(buffer) ==> !final(store).buffers_opened_in_servers@[buffer]@.contains(server),
        has_status ==> plan is ShutDown,
        old(store).language_servers@.contains_key(server) && old(store).language_servers@[server]
            is Running ==> plan is ShutDown,
        !has_status && old(store).language_servers@.contains_key(server) && old(store).language_servers@[server] is Starting ==> plan is AnnounceRemoval,
        !has_status && !old(store).language_servers@.contains_key(server) ==> plan is Nothing,
{
    let before = old(store)@.ids;
    let after = final(store)@.ids;
    assert(after.contains_key(seed) <==> final(store).language_server_ids@.contains_key(seed));
    assert(before.contains_key(seed) <==> old(store).language_server_ids@.contains_key(seed));
    if before.contains_key(seed) {
        assert(before[seed].id == old(store).language_server_ids@[seed].id);
    }
    let opened = old(store)@.opened;
    if old(store).buffers_opened_in_servers@.contains_key(buffer) {
        assert(opened.contains_key(buffer));
        assert(final(store)@.opened[buffer] == opened[buffer].difference(set![server]));
        assert(final(store)@.opened.dom().contains(buffer));
        assert(final(store)@.opened[buffer] == final(store).buffers_opened_in_servers@[buffer]@);
    }
}

proof fn lemma_worktree_servers(
    entries: Seq<(LanguageServerSeed, UnifiedLanguageServer)>,
    servers: Map<u64, LanguageServerState>,
    worktree: u64,
    server: u64,
)
    ensures
        worktree_servers(entries, servers, worktree).contains(server) <==> exists|i: int|
            0 <= i < entries.len() && (#[trigger] entries[i]).0.worktree_id == worktree
                && entries[i].1.id == server && servers.contains_key(server) && servers[server]
                is Running,
    decreases entries.len(),
{
    if entries.len() > 0 {
        let earlier = entries.drop_last();
        lemma_worktree_servers(earlier, servers, worktree, server);
        let before = worktree_servers(earlier, servers, worktree);
        crate::ids::contains_push(before, entries.last().1.id, server);
        assert(forall|i: int|
            0 <= i < earlier.len() ==> #[trigger] earlier[i] == entries[i]);
        if worktree_servers(entries, servers, worktree).contains(server) {
            if before.contains(server) {
                let i = choose|i: int|
                    0 <= i < earlier.len() && (#[trigger] earlier[i]).0.worktree_id == worktree
                        && earlier[i].1.id == server;
                assert(entries[i].1.id == server);
            } else {
                assert(entries[entries.len() - 1].1.id == server);
            }
        }
        if exists|i: int|
            0 <= i < entries.len() && (#[trigger] entries[i]).0.worktree_id == worktree
                && entries[i].1.id == server && servers.contains_key(server) && servers[server]
                is Running {
            let i = choose|i: int|
                0 <= i < entries.len() && (#[trigger] entries[i]).0.worktree_id == worktree
                    && entries[i].1.id == server;
            if i < earlier.len() {
                assert(earlier[i].1.id == server);
            }
        }
    }
}

/// The servers of a worktree are those that run and that a seed of the worktree stands for.
pub proof fn worktrees_have_their_running_servers(
    store: LocalLspStore,
    worktree: u64,
    servers: Vec<u64>,
    server: u64,
)
    requires
        call_ensures(LocalLspStore::language_servers_for_worktree, (&store, worktree), servers),
    ensures
        servers@.contains(server) <==> exists|i: int|
            0 <= i < store.language_server_ids.entries@.len() && (
            #[trigger] store.language_server_ids.entries@[i]).0.worktree_id == worktree
                && store.language_server_ids.entries@[i].1.id == server
                && store.language_servers@.contains_key(server) && store.language_servers@[server]
                is Running,
{
    lemma_worktree_servers(
        store.language_server_ids.entries@,
        store@.servers,
        worktree,
        server,
    );
}

/// Servers that are closed are open in no buffer any more; others stay open.
pub proof fn closed_servers_are_open_nowhere(
    store: &mut LocalLspStore,
    servers: Vec<u64>,
    buffer: u64,
    server: u64,
)
    requires
        call_ensures(LocalLspStore::close_in_buffers, (store, &servers), ()),
        old(store).buffers_opened_in_servers@.contains_key(buffer),
    ensures
        final(store).buffers_opened_in_servers@.contains_key(buffer),
        final(store).buffers_opened_in_servers@[buffer]@.contains(server) <==> old(store).buffers_opened_in_servers@[buffer]@.contains(server) && !servers@.contains(server),
{
    let opened = old(store)@.opened;
    assert(opened.contains_key(buffer));
    assert(final(store)@.opened.dom().contains(buffer));
    assert(final(store)@.opened[buffer] == opened[buffer].difference(servers@.to_set()));
    assert(opened[buffer] == old(store).buffers_opened_in_servers@[buffer]@);
    assert(final(store)@.opened[buffer] == final(store).buffers_opened_in_servers@[buffer]@);
}

} // verus!
