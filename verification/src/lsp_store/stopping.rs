//! Stopping several language servers at once.
use std::collections::BTreeSet;
use vstd::prelude::*;

use crate::ids::{ascending, set_items};
use crate::lsp_store::lsp_data::{untold, LspDataView};
use crate::lsp_store::registration::{is_in_use, is_named, selects_id};
use crate::lsp_store::servers::{
    is_closed_in, is_retained, serves, LanguageServerSelector, LanguageServerState, SeedView,
    StopPlan, UnifiedView,
};
use crate::lsp_store::store::{all_untold, data_views, tells_nothing, LspStore};

verus! {

/// How a server is stopped, by what is known of it.
pub open spec fn stop_plan(store: LspStore, server: u64) -> StopPlan {
    if store.language_server_statuses.views().contains_key(server) || (
    store.local@.servers.contains_key(server) && store.local@.servers[server]
        == LanguageServerState::Running) {
        StopPlan::ShutDown
    } else if store.local@.servers.contains_key(server) {
        StopPlan::AnnounceRemoval
    } else {
        StopPlan::Nothing
    }
}

/// What is known of all buffers without what some servers told.
pub open spec fn untold_by(data: Map<u64, LspDataView>, servers: Seq<u64>) -> Map<u64, LspDataView>
    decreases servers.len(),
{
    if servers.len() == 0 {
        data
    } else {
        all_untold(untold_by(data, servers.drop_last()), servers.last())
    }
}

/// The store without some servers.
pub open spec fn is_without(after: LspStore, before: LspStore, servers: Seq<u64>) -> bool {
    &&& is_retained(after.local@.ids, before.local@.ids, None, servers.to_set())
    &&& after.local@.servers == before.local@.servers.remove_keys(servers.to_set())
    &&& is_closed_in(after.local@.opened, before.local@.opened, servers.to_set())
    &&& after.local@.restricted == before.local@.restricted
    &&& after.language_server_statuses.views()
        == before.language_server_statuses.views().remove_keys(servers.to_set())
    &&& data_views(after.lsp_data@) == untold_by(data_views(before.lsp_data@), servers)
    &&& after.registered.servers@ == before.registered.servers@.remove_keys(servers.to_set())
    &&& after.registered.registrations == before.registered.registrations
    &&& after.watched_paths@ == before.watched_paths@.remove_keys(servers.to_set())
    &&& after.renames == before.renames
    &&& after.versions == before.versions
    &&& after.registered_buffers == before.registered_buffers
}

/// The stops of servers, each as it was known before.
pub open spec fn are_stops(stops: Seq<(u64, StopPlan)>, store: LspStore, servers: Seq<u64>) -> bool {
    &&& stops.len() == servers.len()
    &&& forall|i: int|
        0 <= i < servers.len() ==> #[trigger] stops[i] == (
            servers[i],
            stop_plan(store, servers[i]),
        )
}

impl LspStore {
    /// Stops servers, one after the other.
    fn stop_servers(&mut self, servers: &Vec<u64>) -> (stops: Vec<(u64, StopPlan)>)
        requires
            old(self).well_formed(),
            ascending(servers@),
        ensures
            final(self).well_formed(),
            are_stops(stops@, *old(self), servers@),
            is_without(*final(self), *old(self), servers@),
            forall|server: u64| #[trigger]
                servers@.contains(server) ==> final(self).knows_no_server(server),
    {
        let ghost before = *self;
        let mut stops: Vec<(u64, StopPlan)> = Vec::new();
        let mut i: usize = 0;
        proof {
            assert(servers@.take(0) =~= Seq::<u64>::empty());
            assert(servers@.take(0).to_set() =~= Set::<u64>::empty());
            assert(before.local@.servers.remove_keys(Set::<u64>::empty())
                =~= before.local@.servers);
            assert(before.language_server_statuses.views().remove_keys(Set::<u64>::empty())
                =~= before.language_server_statuses.views());
            assert(before.registered.servers@.remove_keys(Set::<u64>::empty())
                =~= before.registered.servers@);
            assert(before.watched_paths@.remove_keys(Set::<u64>::empty())
                =~= before.watched_paths@);
            assert forall|buffer: u64| #[trigger]
                before.local@.opened.contains_key(buffer) implies before.local@.opened[buffer]
                == before.local@.opened[buffer].difference(Set::<u64>::empty()) by {
                assert(before.local@.opened[buffer] =~= before.local@.opened[buffer].difference(
                    Set::<u64>::empty(),
                ));
            }
        }
        while i < servers.len()
            invariant
                i <= servers@.len(),
                ascending(servers@),
                self.well_formed(),
                are_stops(stops@, before, servers@.take(i as int)),
                is_without(*self, before, servers@.take(i as int)),
                forall|j: int|
                    0 <= j < i ==> self.knows_no_server(#[trigger] servers@[j]),
            decreases servers@.len() - i,
        {
            let server: u64 = servers[i];
            let ghost now = *self;
            let ghost stopped = servers@.take(i as int);
            proof {
                assert(servers@.take(i + 1).drop_last() =~= stopped);
                assert(servers@.take(i + 1).last() == server);
                assert(servers@.take(i + 1) =~= stopped.push(server));
                assert(servers@.take(i + 1).to_set() =~= stopped.to_set().insert(server)) by {
                    assert forall|s: u64| servers@.take(i + 1).contains(s) == (stopped.contains(s)
                        || s == server) by {
                        crate::ids::contains_push(stopped, server, s);
                    }
                }
                assert(!stopped.contains(server));
            }
            let plan: StopPlan = self.stop_local_language_server(server);
            assert(plan == stop_plan(before, server));
            stops.push((server, plan));
            proof {
                let gone = servers@.take(i + 1).to_set();
                assert(self.local@.servers =~= before.local@.servers.remove_keys(gone));
                assert(self.language_server_statuses.views()
                    =~= before.language_server_statuses.views().remove_keys(gone));
                assert(self.registered.servers@ =~= before.registered.servers@.remove_keys(gone));
                assert(self.watched_paths@ =~= before.watched_paths@.remove_keys(gone));
                assert forall|buffer: u64| #[trigger]
                    before.local@.opened.contains_key(buffer) implies self.local@.opened[buffer]
                    == before.local@.opened[buffer].difference(gone) by {
                    assert(now.local@.opened.contains_key(buffer));
                    assert(self.local@.opened[buffer] =~= before.local@.opened[buffer].difference(
                        gone,
                    ));
                }
                assert forall|j: int| 0 <= j < i + 1 implies self.knows_no_server(
                    #[trigger] servers@[j],
                ) by {
                    if j < i {
                        still_unknown(now, *self, servers@[j], server);
                    }
                }
            }
            i += 1;
        }
        assert(servers@.take(i as int) =~= servers@);
        stops
    }

    /// Stops all servers that have a seed, in ascending order.
    pub fn stop_all_language_servers(&mut self) -> (stops: Vec<(u64, StopPlan)>)
        requires
            old(self).well_formed(),
        ensures
            final(self).well_formed(),
            exists|servers: Seq<u64>| #[trigger]
                are_stops(stops@, *old(self), servers) && ascending(servers) && is_without(
                    *final(self),
                    *old(self),
                    servers,
                ) && forall|server: u64| #[trigger]
                    servers.contains(server) <==> is_in_use(old(self).local@.ids, server),
            final(self).local@.ids == Map::<SeedView, UnifiedView>::empty(),
    {
        let ghost before = self.local@.ids;
        let servers: Vec<u64> = self.local.shutdown_all_language_servers();
        let stops: Vec<(u64, StopPlan)> = self.stop_servers(&servers);
        proof {
            assert forall|seed: SeedView| !self.local@.ids.contains_key(seed) by {
                if before.contains_key(seed) {
                    assert(serves(before, seed, before[seed].id));
                    assert(is_in_use(before, before[seed].id));
                    assert(servers@.contains(before[seed].id));
                }
            }
            assert(self.local@.ids =~= Map::empty());
        }
        stops
    }

    /// Stops the servers of buffers and those that are picked besides, in ascending order.
    pub fn stop_language_servers_for_buffers(
        &mut self,
        also_stop_servers: &Vec<LanguageServerSelector>,
        buffer_servers: &Vec<u64>,
    ) -> (stops: Vec<(u64, StopPlan)>)
        requires
            old(self).well_formed(),
        ensures
            final(self).well_formed(),
            exists|servers: Seq<u64>| #[trigger]
                are_stops(stops@, *old(self), servers) && ascending(servers) && is_without(
                    *final(self),
                    *old(self),
                    servers,
                ) && forall|server: u64| #[trigger]
                    servers.contains(server) <==> selects_id(also_stop_servers@, server)
                        || buffer_servers@.contains(server) || is_named(
                        old(self).local@.ids,
                        also_stop_servers@,
                        server,
                    ),
            forall|server: u64| #[trigger]
                buffer_servers@.contains(server) ==> final(self).knows_no_server(server),
    {
        let servers: Vec<u64> = self.local.stop_local_language_servers_for_buffers(
            also_stop_servers,
            buffer_servers,
        );
        self.stop_servers(&servers)
    }

    /// Stops the servers that nothing asks for any more once servers have been assigned anew,
    /// in ascending order.
    pub fn server_tree_refreshed(&mut self, to_stop: &BTreeSet<u64>) -> (stops: Vec<
        (u64, StopPlan),
    >)
        requires
            old(self).well_formed(),
        ensures
            final(self).well_formed(),
            exists|servers: Seq<u64>| #[trigger]
                are_stops(stops@, *old(self), servers) && ascending(servers) && is_without(
                    *final(self),
                    *old(self),
                    servers,
                ) && forall|server: u64| #[trigger]
                    servers.contains(server) <==> to_stop@.contains(server),
            forall|server: u64| #[trigger]
                to_stop@.contains(server) ==> final(self).knows_no_server(server),
    {
        let servers: Vec<u64> = set_items(to_stop);
        self.stop_servers(&servers)
    }

    /// Stops the servers that a restart stops: those that are picked, or if none is, those of
    /// the buffers.
    pub fn restart_language_servers_for_buffers(
        &mut self,
        only_restart_servers: &Vec<LanguageServerSelector>,
        buffer_servers: &Vec<u64>,
    ) -> (stops: Vec<(u64, StopPlan)>)
        requires
            old(self).well_formed(),
        ensures
            final(self).well_formed(),
            exists|servers: Seq<u64>| #[trigger]
                are_stops(stops@, *old(self), servers) && ascending(servers) && is_without(
                    *final(self),
                    *old(self),
                    servers,
                ) && forall|server: u64| #[trigger]
                    servers.contains(server) <==> if only_restart_servers@.len() == 0 {
                        buffer_servers@.contains(server)
                    } else {
                        selects_id(only_restart_servers@, server) || is_named(
                            old(self).local@.ids,
                            only_restart_servers@,
                            server,
                        )
                    },
    {
        let servers: Vec<u64> = self.local.restart_language_servers_for_buffers(
            only_restart_servers,
            buffer_servers,
        );
        self.stop_servers(&servers)
    }
}

/// A server of which nothing is kept stays so when another is stopped.
proof fn still_unknown(before: LspStore, after: LspStore, server: u64, stopped: u64)
    requires
        before.knows_no_server(server),
        is_retained(after.local@.ids, before.local@.ids, None, set![stopped]),
        after.local@.servers == before.local@.servers.remove(stopped),
        is_closed_in(after.local@.opened, before.local@.opened, set![stopped]),
        after.language_server_statuses.views()
            == before.language_server_statuses.views().remove(stopped),
        data_views(after.lsp_data@) == all_untold(data_views(before.lsp_data@), stopped),
        after.registered.servers@ == before.registered.servers@.remove(stopped),
        after.watched_paths@ == before.watched_paths@.remove(stopped),
    ensures
        after.knows_no_server(server),
{
    assert forall|seed: SeedView| !#[trigger] serves(after.local@.ids, seed, server) by {
        assert(!serves(before.local@.ids, seed, server));
        assert(after.local@.ids.contains_key(seed) ==> before.local@.ids.contains_key(seed));
    }
    assert forall|buffer: u64| #[trigger]
        after.local@.opened.contains_key(buffer) implies !after.local@.opened[buffer].contains(
        server,
    ) by {
        assert(before.local@.opened.contains_key(buffer));
    }
    assert forall|buffer: u64| #[trigger] after.lsp_data@.contains_key(buffer) implies tells_nothing(
        after.lsp_data@[buffer]@,
        server,
    ) by {
        let views = data_views(after.lsp_data@);
        assert(views.contains_key(buffer));
        assert(data_views(before.lsp_data@).contains_key(buffer));
        assert(before.lsp_data@.contains_key(buffer));
        assert(views[buffer] == untold(before.lsp_data@[buffer]@, stopped));
    }
}

/// A server that is shut down is one whose status is known or that runs.
pub proof fn known_servers_are_shut_down(store: LspStore, server: u64)
    ensures
        stop_plan(store, server) is ShutDown
            <==> store.language_server_statuses.views().contains_key(server) || (
        store.local.language_servers@.contains_key(server) && store.local.language_servers@[server]
            is Running),
        stop_plan(store, server) is Nothing
            <==> !store.language_server_statuses.views().contains_key(server)
            && !store.local.language_servers@.contains_key(server),
{
}

/// Stopping everything stops every server that a seed stands for, and leaves no seed.
pub proof fn all_servers_are_stopped(
    store: &mut LspStore,
    stops: Vec<(u64, StopPlan)>,
    seed: SeedView,
    k: int,
)
    requires
        call_ensures(LspStore::stop_all_language_servers, (store,), stops),
    ensures
        !final(store).local.language_server_ids@.contains_key(seed),
        old(store).local.language_server_ids@.contains_key(seed) ==> exists|i: int|
            0 <= i < stops@.len() && (#[trigger] stops@[i]).0
                == old(store).local.language_server_ids@[seed].id,
        0 <= k < stops@.len() ==> !final(store).local.language_servers@.contains_key(stops@[k].0),
        0 <= k < stops@.len() ==> stops@[k].1 == stop_plan(*old(store), stops@[k].0),
{
    let before = old(store).local@.ids;
    let after = final(store).local@.ids;
    assert(after.contains_key(seed) <==> final(store).local.language_server_ids@.contains_key(seed));
    let servers = choose|servers: Seq<u64>| #[trigger]
        are_stops(stops@, *old(store), servers) && ascending(servers) && is_without(
            *final(store),
            *old(store),
            servers,
        ) && forall|server: u64| #[trigger]
            servers.contains(server) <==> is_in_use(old(store).local@.ids, server);
    if old(store).local.language_server_ids@.contains_key(seed) {
        let id = old(store).local.language_server_ids@[seed].id;
        assert(serves(before, seed, id));
        assert(is_in_use(before, id));
        assert(servers.contains(id));
        let i = choose|i: int| 0 <= i < servers.len() && servers[i] == id;
        assert(stops@[i] == (servers[i], stop_plan(*old(store), servers[i])));
    }
    if 0 <= k < stops@.len() {
        assert(stops@[k] == (servers[k], stop_plan(*old(store), servers[k])));
        assert(servers.contains(servers[k]));
        assert(servers.to_set().contains(servers[k]));
    }
}

/// Stopping the servers of buffers stops those and the ones that are picked besides. Restarting
/// stops the picked ones alone, or where none is picked those of the buffers.
pub proof fn asked_servers_are_stopped(
    stopping: &mut LspStore,
    restarting: &mut LspStore,
    selectors: Vec<LanguageServerSelector>,
    buffer_servers: Vec<u64>,
    stops: Vec<(u64, StopPlan)>,
    restarts: Vec<(u64, StopPlan)>,
    server: u64,
)
    requires
        call_ensures(
            LspStore::stop_language_servers_for_buffers,
            (stopping, &selectors, &buffer_servers),
            stops,
        ),
        call_ensures(
            LspStore::restart_language_servers_for_buffers,
            (restarting, &selectors, &buffer_servers),
            restarts,
        ),
    ensures
        buffer_servers@.contains(server) || selectors@.contains(LanguageServerSelector::Id(server))
            ==> exists|i: int| 0 <= i < stops@.len() && (#[trigger] stops@[i]).0 == server,
        buffer_servers@.contains(server) ==> !final(stopping).local.language_servers@.contains_key(server),
        selectors@.contains(LanguageServerSelector::Id(server)) ==> exists|i: int|
            0 <= i < restarts@.len() && (#[trigger] restarts@[i]).0 == server,
        selectors@.len() == 0 ==> ((exists|i: int|
            0 <= i < restarts@.len() && (#[trigger] restarts@[i]).0 == server)
            <==> buffer_servers@.contains(server)),
{
    let stopped = choose|servers: Seq<u64>| #[trigger]
        are_stops(stops@, *old(stopping), servers) && ascending(servers) && is_without(
            *final(stopping),
            *old(stopping),
            servers,
        ) && forall|server: u64| #[trigger]
            servers.contains(server) <==> selects_id(selectors@, server)
                || buffer_servers@.contains(server) || is_named(
                old(stopping).local@.ids,
                selectors@,
                server,
            );
    let restarted = choose|servers: Seq<u64>| #[trigger]
        are_stops(restarts@, *old(restarting), servers) && ascending(servers) && is_without(
            *final(restarting),
            *old(restarting),
            servers,
        ) && forall|server: u64| #[trigger]
            servers.contains(server) <==> if selectors@.len() == 0 {
                buffer_servers@.contains(server)
            } else {
                selects_id(selectors@, server) || is_named(
                    old(restarting).local@.ids,
                    selectors@,
                    server,
                )
            };
    if selectors@.contains(LanguageServerSelector::Id(server)) {
        let k = choose|k: int|
            0 <= k < selectors@.len() && selectors@[k] == LanguageServerSelector::Id(server);
        assert(selectors@[k] matches LanguageServerSelector::Id(given) && given == server);
        assert(selects_id(selectors@, server));
    }
    if stopped.contains(server) {
        let i = choose|i: int| 0 <= i < stopped.len() && stopped[i] == server;
        assert(stops@[i] == (stopped[i], stop_plan(*old(stopping), stopped[i])));
        assert(stopped.to_set().contains(server));
    }
    if restarted.contains(server) {
        let i = choose|i: int| 0 <= i < restarted.len() && restarted[i] == server;
        assert(restarts@[i] == (restarted[i], stop_plan(*old(restarting), restarted[i])));
    }
    if exists|i: int| 0 <= i < restarts@.len() && (#[trigger] restarts@[i]).0 == server {
        let i = choose|i: int| 0 <= i < restarts@.len() && (#[trigger] restarts@[i]).0 == server;
        assert(restarts@[i] == (restarted[i], stop_plan(*old(restarting), restarted[i])));
        assert(restarted.contains(server));
    }
}

} // verus!
