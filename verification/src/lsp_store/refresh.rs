//! Bringing language servers in line with changed settings, saved buffers and restarts.
use std::collections::BTreeSet;
use vstd::prelude::*;

use crate::ids::set_has;
use crate::list_map::has_distinct_keys;
use crate::lsp_store::open_buffers::{of_turn, visible_first, OpenBuffer};
use crate::lsp_store::registration::{folder_views, is_named, selects_id, FolderView, ServerNode};
use crate::lsp_store::servers::{
    all_served, folder_target, restricted_after, server_for, serves, start_plan, with_root,
    FolderTarget, LanguageServerSeed, LanguageServerSelector, LanguageServerState, LocalLspStore,
    LocalView, SeedView, StartPlan, UnifiedLanguageServer,
};
use crate::rel_path::RelPath;
use crate::text::text_view;

verus! {

/// The buffer takes part when servers are assigned anew: it is open somewhere and has a file
/// and a language.
pub open spec fn takes_part(buffer: OpenBuffer) -> bool {
    buffer.is_registered && buffer.worktree is Some && buffer.has_language
}

pub open spec fn taking_part(buffers: Seq<OpenBuffer>) -> Seq<OpenBuffer>
    decreases buffers.len(),
{
    if buffers.len() == 0 {
        Seq::empty()
    } else if takes_part(buffers.last()) {
        taking_part(buffers.drop_last()).push(buffers.last())
    } else {
        taking_part(buffers.drop_last())
    }
}

/// The order in which servers are assigned anew: to the buffers of visible worktrees first,
/// so that the others can share theirs.
pub fn refresh_order(buffers: &Vec<OpenBuffer>) -> (order: Vec<u64>)
    ensures
        order@ == of_turn(taking_part(buffers@), 0) + of_turn(taking_part(buffers@), 1) + of_turn(
            taking_part(buffers@),
            2,
        ),
{
    let mut part: Vec<OpenBuffer> = Vec::new();
    let mut i: usize = 0;
    while i < buffers.len()
        invariant
            i <= buffers@.len(),
            part@ == taking_part(buffers@.take(i as int)),
        decreases buffers@.len() - i,
    {
        let buffer: OpenBuffer = buffers[i];
        assert(buffers@.take(i + 1).drop_last() =~= buffers@.take(i as int));
        assert(buffers@.take(i + 1).last() == buffers@[i as int]);
        if buffer.is_registered && buffer.worktree.is_some() && buffer.has_language {
            part.push(buffer);
        }
        i += 1;
    }
    assert(buffers@.take(i as int) =~= buffers@);
    visible_first(&part)
}

/// How the servers of one buffer are assigned anew.
#[derive(Clone, Copy, Debug, PartialEq, Eq, Structural)]
pub enum RefreshStep {
    Skip,
    /// Servers of another worktree serve it too.
    Reuse,
    /// Its servers are looked up from its directory on.
    Walk,
}

/// Decides how the servers of a buffer are assigned anew.
pub fn refresh_step(worktree_is_known: bool, can_reuse: bool, has_adapters: bool) -> (step:
    RefreshStep)
    ensures
        step == if !worktree_is_known {
            RefreshStep::Skip
        } else if can_reuse {
            RefreshStep::Reuse
        } else if has_adapters {
            RefreshStep::Walk
        } else {
            RefreshStep::Skip
        },
{
    if !worktree_is_known {
        RefreshStep::Skip
    } else if can_reuse {
        RefreshStep::Reuse
    } else if has_adapters {
        RefreshStep::Walk
    } else {
        RefreshStep::Skip
    }
}

/// The directory from which the servers of a file are looked up: the one it lies in, or
/// itself where it lies in none.
pub fn lookup_path(path: &RelPath) -> (dir: RelPath)
    ensures
        dir@ == if path@.len() > 0 {
            path@.drop_last()
        } else {
            path@
        },
{
    match path.parent() {
        Some(parent) => parent,
        None => path.clone(),
    }
}

/// The servers that are told their configuration, once for each seed: those that run, for
/// seeds in known worktrees.
pub open spec fn configured_servers(
    entries: Seq<(LanguageServerSeed, UnifiedLanguageServer)>,
    servers: Map<u64, LanguageServerState>,
    worktrees: Set<u64>,
) -> Seq<u64>
    decreases entries.len(),
{
    if entries.len() == 0 {
        Seq::empty()
    } else {
        let earlier = configured_servers(entries.drop_last(), servers, worktrees);
        let (seed, state) = entries.last();
        if worktrees.contains(seed.worktree_id) && servers.contains_key(state.id)
            && servers[state.id] == LanguageServerState::Running {
            earlier.push(state.id)
        } else {
            earlier
        }
    }
}

/// The store after the places of a buffer were gone through, the servers that are reported
/// with the names of their places, and those that were started.
pub ghost struct Refreshed {
    pub store: LocalView,
    pub reports: Seq<(u64, Option<Seq<char>>)>,
    pub started: Seq<(u64, StartPlan)>,
    /// The roots that were added to servers as workspace folders.
    pub folders: Seq<FolderView>,
}

/// The seed with another toolchain.
pub open spec fn with_toolchain(seed: SeedView, toolchain: Option<Seq<char>>) -> SeedView {
    SeedView { toolchain, ..seed }
}

/// The server that the seed had with the active toolchain is given up. The seed gets a new
/// server, unless it asks for another toolchain and has a server for that.
pub open spec fn replaced(
    store: LocalView,
    seed: SeedView,
    active_toolchain: Option<Seq<char>>,
    root: Seq<Seq<char>>,
    next_id: u64,
    can_trust: Option<bool>,
) -> LocalView {
    let ids = store.ids.remove(with_toolchain(seed, active_toolchain));
    LocalView {
        ids: with_root(ids, seed, root, next_id),
        servers: if ids.contains_key(seed) {
            store.servers
        } else {
            store.servers.insert(next_id, LanguageServerState::Starting)
        },
        restricted: if ids.contains_key(seed) {
            store.restricted
        } else {
            restricted_after(store.restricted, seed.worktree_id, can_trust)
        },
        opened: store.opened,
    }
}

/// A place that has its server keeps it; one that is alive and has none gets a new one.
pub open spec fn refreshed(
    store: LocalView,
    nodes: Seq<ServerNode>,
    can_trust: Option<bool>,
) -> Refreshed
    decreases nodes.len(),
{
    if nodes.len() == 0 {
        Refreshed {
            store,
            reports: Seq::empty(),
            started: Seq::empty(),
            folders: Seq::empty(),
        }
    } else {
        let before = refreshed(store, nodes.drop_last(), can_trust);
        let node = nodes.last();
        let name = match node.name {
            Some(name) => Some(name@),
            None => None,
        };
        match (node.server_id, name) {
            (Some(id), _) => Refreshed { reports: before.reports.push((id, name)), ..before },
            (None, None) => before,
            (None, Some(_)) => {
                let active = text_view(node.active_toolchain);
                let kept = before.store.ids.remove(with_toolchain(node.seed@, active));
                let id = server_for(kept, node.seed@, node.next_id);
                let after = replaced(
                    before.store,
                    node.seed@,
                    active,
                    node.root@,
                    node.next_id,
                    can_trust,
                );
                Refreshed {
                    store: after,
                    reports: before.reports.push((id, name)),
                    started: if kept.contains_key(node.seed@) {
                        before.started
                    } else {
                        before.started.push(
                            (
                                id,
                                start_plan(
                                    before.store.restricted,
                                    node.seed@.worktree_id,
                                    can_trust,
                                ),
                            ),
                        )
                    },
                    folders: before.folders.push(
                        (id, node.root@, folder_target(after.servers, id)),
                    ),
                }
            },
        }
    }
}

/// Where every place has its server, nothing is started, and each server is reported.
pub proof fn kept_servers_are_not_restarted(
    store: LocalView,
    nodes: Seq<ServerNode>,
    can_trust: Option<bool>,
)
    requires
        forall|i: int| 0 <= i < nodes.len() ==> (#[trigger] nodes[i]).server_id is Some,
    ensures
        refreshed(store, nodes, can_trust).store == store,
        refreshed(store, nodes, can_trust).started == Seq::<(u64, StartPlan)>::empty(),
        refreshed(store, nodes, can_trust).folders == Seq::<FolderView>::empty(),
        refreshed(store, nodes, can_trust).reports.len() == nodes.len(),
        forall|i: int|
            0 <= i < nodes.len() ==> (#[trigger] refreshed(store, nodes, can_trust).reports[i]).0
                == nodes[i].server_id->0,
    decreases nodes.len(),
{
    if nodes.len() > 0 {
        let earlier = nodes.drop_last();
        assert forall|i: int| 0 <= i < earlier.len() implies (
        #[trigger] earlier[i]).server_id is Some by {
            assert(earlier[i] == nodes[i]);
        }
        kept_servers_are_not_restarted(store, earlier, can_trust);
        assert(nodes[nodes.len() - 1].server_id is Some);
        let before = refreshed(store, earlier, can_trust).reports;
        let after = refreshed(store, nodes, can_trust).reports;
        assert forall|i: int| 0 <= i < nodes.len() implies (#[trigger] after[i]).0
            == nodes[i].server_id->0 by {
            if i < earlier.len() {
                assert(after[i] == before[i]);
                assert(earlier[i] == nodes[i]);
            }
        }
    }
}

pub open spec fn report_views(reports: Seq<(u64, Option<String>)>) -> Seq<
    (u64, Option<Seq<char>>),
> {
    reports.map_values(
        |report: (u64, Option<String>)|
            (
                report.0,
                match report.1 {
                    Some(name) => Some(name@),
                    None => None,
                },
            ),
    )
}

impl LocalLspStore {
    /// Gives the server up that a seed had with the active toolchain, which is stopped later if
    /// nothing uses it any more. Returns the server of the seed: a new one, unless the seed asks
    /// for another toolchain and has a server for that.
    pub fn replace_language_server(
        &mut self,
        seed: LanguageServerSeed,
        active_toolchain: Option<String>,
        root: RelPath,
        next_id: u64,
        can_trust: Option<bool>,
    ) -> (result: (u64, Option<StartPlan>))
        requires
            old(self).well_formed(),
        ensures
            final(self).well_formed(),
            final(self)@ == replaced(
                old(self)@,
                seed@,
                text_view(active_toolchain),
                root@,
                next_id,
                can_trust,
            ),
            ({
                let kept = old(self)@.ids.remove(
                    with_toolchain(seed@, text_view(active_toolchain)),
                );
                &&& result.0 == server_for(kept, seed@, next_id)
                &&& result.1 == if kept.contains_key(seed@) {
                    None
                } else {
                    Some(start_plan(old(self)@.restricted, seed@.worktree_id, can_trust))
                }
            }),
    {
        let ghost before = self@;
        let mut given_up: LanguageServerSeed = seed.in_worktree(seed.worktree_id);
        given_up.toolchain = active_toolchain;
        assert(given_up@ == with_toolchain(seed@, text_view(active_toolchain)));
        let _ = self.language_server_ids.remove(&given_up);
        proof {
            assert(self@.ids =~= before.ids.remove(given_up@));
            assert forall|seed: SeedView, server: u64| #[trigger]
                serves(self@.ids, seed, server) implies self@.servers.contains_key(server) by {
                assert(serves(before.ids, seed, server));
            }
            assert(all_served(self@.ids, self@.servers));
            assert(has_distinct_keys(self.language_server_ids.entries@));
        }
        self.get_or_insert_language_server(seed, root, next_id, can_trust)
    }

    /// Assigns servers anew to a buffer at its turn: to the places in the tree that it asks
    /// for, each as it is then. Returns the servers that are reported, those that were started,
    /// and the roots that were added to servers as workspace folders.
    pub fn refresh_server_tree(&mut self, nodes: Vec<ServerNode>, can_trust: Option<bool>) -> (
        result: (
            Vec<(u64, Option<String>)>,
            Vec<(u64, StartPlan)>,
            Vec<(u64, RelPath, FolderTarget)>,
        ))
        requires
            old(self).well_formed(),
        ensures
            final(self).well_formed(),
            (Refreshed {
                store: final(self)@,
                reports: report_views(result.0@),
                started: result.1@,
                folders: folder_views(result.2@),
            }) == refreshed(old(self)@, nodes@, can_trust),
    {
        let ghost given = nodes@;
        let ghost before = self@;
        let mut rest: Vec<ServerNode> = nodes;
        let mut reports: Vec<(u64, Option<String>)> = Vec::new();
        let mut started: Vec<(u64, StartPlan)> = Vec::new();
        let mut folders: Vec<(u64, RelPath, FolderTarget)> = Vec::new();
        assert(report_views(reports@) =~= Seq::<(u64, Option<Seq<char>>)>::empty());
        assert(folder_views(folders@) =~= Seq::<FolderView>::empty());
        while rest.len() > 0
            invariant
                rest@.len() <= given.len(),
                rest@ == given.skip(given.len() - rest@.len()),
                self.well_formed(),
                (Refreshed {
                    store: self@,
                    reports: report_views(reports@),
                    started: started@,
                    folders: folder_views(folders@),
                }) == refreshed(before, given.take(given.len() - rest@.len()), can_trust),
            decreases rest@.len(),
        {
            let ghost done = given.len() - rest@.len();
            let ghost told = report_views(reports@);
            let ghost added = folder_views(folders@);
            let node: ServerNode = rest.remove(0);
            proof {
                assert(rest@ =~= given.skip(done + 1));
                assert(given.take(done + 1).drop_last() =~= given.take(done));
                assert(given.take(done + 1).last() == node);
            }
            match (node.server_id, node.name) {
                (Some(id), name) => {
                    reports.push((id, name));
                    assert(report_views(reports@) =~= told.push(
                        report_views(reports@)[told.len() as int],
                    ));
                },
                (None, None) => {},
                (None, Some(name)) => {
                    let root: RelPath = node.root.clone();
                    let (id, plan) = self.replace_language_server(
                        node.seed,
                        node.active_toolchain,
                        node.root,
                        node.next_id,
                        can_trust,
                    );
                    if let Some(plan) = plan {
                        started.push((id, plan));
                    }
                    folders.push((id, root, self.add_workspace_folder(id)));
                    assert(folder_views(folders@) =~= added.push(
                        folder_views(folders@)[added.len() as int],
                    ));
                    reports.push((id, Some(name)));
                    assert(report_views(reports@) =~= told.push(
                        report_views(reports@)[told.len() as int],
                    ));
                },
            }
        }
        assert(given.take(given.len() as int) =~= given);
        (reports, started, folders)
    }

    /// The servers that are told their configuration again.
    pub fn refresh_workspace_configurations(&self, worktrees: &BTreeSet<u64>) -> (servers: Vec<u64>)
        ensures
            servers@ == configured_servers(
                self.language_server_ids.entries@,
                self@.servers,
                worktrees@,
            ),
    {
        let mut servers: Vec<u64> = Vec::new();
        let ghost entries = self.language_server_ids.entries@;
        let mut i: usize = 0;
        while i < self.language_server_ids.entries.len()
            invariant
                i <= self.language_server_ids.entries@.len(),
                entries == self.language_server_ids.entries@,
                servers@ == configured_servers(
                    entries.take(i as int),
                    self@.servers,
                    worktrees@,
                ),
            decreases self.language_server_ids.entries@.len() - i,
        {
            assert(entries.take(i + 1).drop_last() =~= entries.take(i as int));
            assert(entries.take(i + 1).last() == entries[i as int]);
            let worktree: u64 = self.language_server_ids.entries[i].0.worktree_id;
            let server: u64 = self.language_server_ids.entries[i].1.id;
            if set_has(worktrees, worktree) && self.running_language_server_for_id(server) {
                servers.push(server);
            }
            i += 1;
        }
        assert(entries.take(i as int) =~= entries);
        servers
    }

    /// The servers that a restart stops, in ascending order. Where some are named only those
    /// restart, else those of the buffers.
    pub fn restart_language_servers_for_buffers(
        &self,
        selectors: &Vec<LanguageServerSelector>,
        buffer_servers: &Vec<u64>,
    ) -> (servers: Vec<u64>)
        requires
            self.well_formed(),
        ensures
            crate::ids::ascending(servers@),
            forall|server: u64| #[trigger]
                servers@.contains(server) <==> if selectors@.len() == 0 {
                    buffer_servers@.contains(server)
                } else {
                    selects_id(selectors@, server) || is_named(self@.ids, selectors@, server)
                },
    {
        if selectors.len() == 0 {
            self.stop_local_language_servers_for_buffers(selectors, buffer_servers)
        } else {
            let none: Vec<u64> = Vec::new();
            self.stop_local_language_servers_for_buffers(selectors, &none)
        }
    }
}

/// A server is told that a buffer was saved.
#[derive(Clone, Copy, Debug, PartialEq, Eq, Structural)]
pub struct SaveNotice {
    pub server: u64,
    pub with_text: bool,
}

/// The servers that want to know, and whether they want the text.
pub open spec fn save_notices(servers: Seq<(u64, Option<bool>)>) -> Seq<SaveNotice>
    decreases servers.len(),
{
    if servers.len() == 0 {
        Seq::empty()
    } else {
        let earlier = save_notices(servers.drop_last());
        match servers.last() {
            (server, Some(with_text)) => earlier.push(SaveNotice { server, with_text }),
            _ => earlier,
        }
    }
}

/// Whom to tell that a buffer was saved. `servers` are the running ones of its worktree, each
/// with whether it wants the text, if it wants to know at all.
pub fn on_buffer_saved(servers: &Vec<(u64, Option<bool>)>) -> (notices: Vec<SaveNotice>)
    ensures
        notices@ == save_notices(servers@),
{
    let mut notices: Vec<SaveNotice> = Vec::new();
    let mut i: usize = 0;
    while i < servers.len()
        invariant
            i <= servers@.len(),
            notices@ == save_notices(servers@.take(i as int)),
        decreases servers@.len() - i,
    {
        assert(servers@.take(i + 1).drop_last() =~= servers@.take(i as int));
        assert(servers@.take(i + 1).last() == servers@[i as int]);
        if let (server, Some(with_text)) = servers[i] {
            notices.push(SaveNotice { server, with_text });
        }
        i += 1;
    }
    assert(servers@.take(i as int) =~= servers@);
    notices
}

/// How long a server that is starting may take before it is shut down, in seconds.
pub const SERVER_LAUNCHING_BEFORE_SHUTDOWN_TIMEOUT: u64 = 5;

/// How a server is shut down.
#[derive(Clone, Copy, Debug, PartialEq, Eq, Structural)]
pub enum ShutdownPlan {
    Nothing,
    /// Wait until it has started, but not too long.
    WaitForLaunch,
    ShutDown,
}

/// Says how a server is shut down, given what was known of it.
pub fn shutdown_language_server(state: Option<LanguageServerState>) -> (plan: ShutdownPlan)
    ensures
        plan == match state {
            None => ShutdownPlan::Nothing,
            Some(LanguageServerState::Starting) => ShutdownPlan::WaitForLaunch,
            Some(LanguageServerState::Running) => ShutdownPlan::ShutDown,
        },
{
    match state {
        None => ShutdownPlan::Nothing,
        Some(LanguageServerState::Starting) => ShutdownPlan::WaitForLaunch,
        Some(LanguageServerState::Running) => ShutdownPlan::ShutDown,
    }
}

/// The characters at which completion starts, as a server states them: none, if it does not
/// offer completion or names none.
pub fn completion_triggers(provider: Option<Option<Vec<String>>>) -> (triggers: Vec<String>)
    ensures
        triggers@ == match provider {
            Some(Some(characters)) => characters@,
            _ => Seq::empty(),
        },
{
    match provider {
        Some(Some(characters)) => characters,
        _ => Vec::new(),
    }
}

/// Servers are assigned anew to buffers that are registered and have a file and a language; those
/// in visible worktrees come before the others.
pub proof fn visible_buffers_are_refreshed_first(
    buffers: Vec<OpenBuffer>,
    order: Vec<u64>,
    i: int,
    j: int,
    id: u64,
)
    requires
        call_ensures(refresh_order, (&buffers,), order),
        forall|a: int, b: int|
            0 <= a < b < buffers@.len() ==> (#[trigger] buffers@[a]).id != (
            #[trigger] buffers@[b]).id,
    ensures
        order@.contains(id) <==> exists|k: int|
            0 <= k < buffers@.len() && (#[trigger] buffers@[k]).id == id && buffers@[k].is_registered
                && buffers@[k].worktree is Some && buffers@[k].has_language,
        0 <= i < buffers@.len() && 0 <= j < buffers@.len() && buffers@[i].worktree_is_visible
            && !buffers@[j].worktree_is_visible && order@.contains(buffers@[i].id)
            && order@.contains(buffers@[j].id) ==> order@.index_of(buffers@[i].id)
            < order@.index_of(buffers@[j].id),
{
    let part = taking_part(buffers@);
    let first = of_turn(part, 0);
    let second = of_turn(part, 1);
    let third = of_turn(part, 2);
    lemma_turn(buffers@, 0, id);
    lemma_turn(buffers@, 1, id);
    lemma_turn(buffers@, 2, id);
    lemma_in_parts(first, second, third, id);
    if 0 <= i < buffers@.len() && 0 <= j < buffers@.len() && buffers@[i].worktree_is_visible
        && !buffers@[j].worktree_is_visible && order@.contains(buffers@[i].id) && order@.contains(
        buffers@[j].id,
    ) {
        let a = buffers@[i].id;
        let b = buffers@[j].id;
        lemma_turn(buffers@, 0, a);
        lemma_turn(buffers@, 1, a);
        lemma_turn(buffers@, 2, a);
        lemma_turn(buffers@, 0, b);
        lemma_turn(buffers@, 1, b);
        lemma_turn(buffers@, 2, b);
        lemma_in_parts(first, second, third, a);
        lemma_in_parts(first, second, third, b);
        assert(first.contains(a)) by {
            if second.contains(a) {
                let k = choose|k: int|
                    0 <= k < buffers@.len() && (#[trigger] buffers@[k]).id == a && takes_part(
                        buffers@[k],
                    ) && crate::lsp_store::open_buffers::turn(buffers@[k]) == 1;
                assert(k == i);
            }
            if third.contains(a) {
                let k = choose|k: int|
                    0 <= k < buffers@.len() && (#[trigger] buffers@[k]).id == a && takes_part(
                        buffers@[k],
                    ) && crate::lsp_store::open_buffers::turn(buffers@[k]) == 2;
                assert(k == i);
            }
        }
        assert(!first.contains(b)) by {
            if first.contains(b) {
                let k = choose|k: int|
                    0 <= k < buffers@.len() && (#[trigger] buffers@[k]).id == b && takes_part(
                        buffers@[k],
                    ) && crate::lsp_store::open_buffers::turn(buffers@[k]) == 0;
                assert(k == j);
            }
        }
        let at = choose|at: int| 0 <= at < first.len() && first[at] == a;
        assert(order@[at] == a);
        let at_a = order@.index_of(a);
        let at_b = order@.index_of(b);
        assert(order@[at_a] == a && order@[at_b] == b);
        assert(at_b >= first.len()) by {
            if at_b < first.len() {
                assert(first[at_b] == b);
            }
        }
        if at_a >= first.len() {
            if at_a < first.len() + second.len() {
                assert(second[at_a - first.len()] == a);
                let k = choose|k: int|
                    0 <= k < buffers@.len() && (#[trigger] buffers@[k]).id == a && takes_part(
                        buffers@[k],
                    ) && crate::lsp_store::open_buffers::turn(buffers@[k]) == 1;
                assert(k == i);
            } else {
                assert(third[at_a - first.len() - second.len()] == a);
                let k = choose|k: int|
                    0 <= k < buffers@.len() && (#[trigger] buffers@[k]).id == a && takes_part(
                        buffers@[k],
                    ) && crate::lsp_store::open_buffers::turn(buffers@[k]) == 2;
                assert(k == i);
            }
        }
    }
    if exists|k: int|
        0 <= k < buffers@.len() && (#[trigger] buffers@[k]).id == id && buffers@[k].is_registered
            && buffers@[k].worktree is Some && buffers@[k].has_language {
        let k = choose|k: int|
            0 <= k < buffers@.len() && (#[trigger] buffers@[k]).id == id
                && buffers@[k].is_registered && buffers@[k].worktree is Some
                && buffers@[k].has_language;
        assert(takes_part(buffers@[k]));
    }
}

proof fn lemma_in_parts(a: Seq<u64>, b: Seq<u64>, c: Seq<u64>, id: u64)
    ensures
        (a + b + c).contains(id) <==> a.contains(id) || b.contains(id) || c.contains(id),
{
    let all = a + b + c;
    if a.contains(id) {
        let k = choose|k: int| 0 <= k < a.len() && a[k] == id;
        assert(all[k] == id);
    }
    if b.contains(id) {
        let k = choose|k: int| 0 <= k < b.len() && b[k] == id;
        assert(all[a.len() + k] == id);
    }
    if c.contains(id) {
        let k = choose|k: int| 0 <= k < c.len() && c[k] == id;
        assert(all[a.len() + b.len() + k] == id);
    }
    if all.contains(id) {
        let k = choose|k: int| 0 <= k < all.len() && all[k] == id;
        if k < a.len() {
            assert(a[k] == id);
        } else if k < a.len() + b.len() {
            assert(b[k - a.len()] == id);
        } else {
            assert(c[k - a.len() - b.len()] == id);
        }
    }
}

proof fn lemma_turn(buffers: Seq<OpenBuffer>, at: int, id: u64)
    ensures
        of_turn(taking_part(buffers), at).contains(id) <==> exists|k: int|
            0 <= k < buffers.len() && (#[trigger] buffers[k]).id == id && takes_part(buffers[k])
                && crate::lsp_store::open_buffers::turn(buffers[k]) == at,
    decreases buffers.len(),
{
    if buffers.len() > 0 {
        let earlier = buffers.drop_last();
        let last = buffers.last();
        lemma_turn(earlier, at, id);
        let before = taking_part(earlier);
        assert(before.push(last).drop_last() =~= before);
        crate::ids::contains_push(of_turn(before, at), last.id, id);
        assert(forall|k: int| 0 <= k < earlier.len() ==> #[trigger] earlier[k] == buffers[k]);
        assert(buffers[buffers.len() - 1] == last);
        if of_turn(before, at).contains(id) {
            let k = choose|k: int|
                0 <= k < earlier.len() && (#[trigger] earlier[k]).id == id && takes_part(
                    earlier[k],
                ) && crate::lsp_store::open_buffers::turn(earlier[k]) == at;
            assert(buffers[k].id == id);
        }
        if exists|k: int|
            0 <= k < buffers.len() && (#[trigger] buffers[k]).id == id && takes_part(buffers[k])
                && crate::lsp_store::open_buffers::turn(buffers[k]) == at {
            let k = choose|k: int|
                0 <= k < buffers.len() && (#[trigger] buffers[k]).id == id && takes_part(
                    buffers[k],
                ) && crate::lsp_store::open_buffers::turn(buffers[k]) == at;
            if k < earlier.len() {
                assert(earlier[k].id == id);
            }
        }
    }
}

/// A buffer in a worktree that is not known is passed over. Else it shares servers where it can,
/// and looks for its own, from the directory of its file on, where its language has any.
pub proof fn servers_are_shared_or_looked_up(
    worktree_is_known: bool,
    can_reuse: bool,
    has_adapters: bool,
    step: RefreshStep,
    path: RelPath,
    dir: RelPath,
    parent: Seq<Seq<char>>,
    name: Seq<char>,
)
    requires
        call_ensures(refresh_step, (worktree_is_known, can_reuse, has_adapters), step),
        call_ensures(lookup_path, (&path,), dir),
    ensures
        step is Reuse <==> worktree_is_known && can_reuse,
        step is Walk <==> worktree_is_known && !can_reuse && has_adapters,
        path@ == parent.push(name) ==> dir@ == parent,
        path@.len() == 0 ==> dir@.len() == 0,
{
    if path@ == parent.push(name) {
        assert(path@.drop_last() =~= parent);
    }
}

proof fn lemma_configured(
    entries: Seq<(LanguageServerSeed, UnifiedLanguageServer)>,
    servers: Map<u64, LanguageServerState>,
    worktrees: Set<u64>,
    server: u64,
)
    ensures
        configured_servers(entries, servers, worktrees).contains(server) <==> exists|i: int|
            0 <= i < entries.len() && worktrees.contains((#[trigger] entries[i]).0.worktree_id)
                && entries[i].1.id == server && servers.contains_key(server) && servers[server]
                is Running,
    decreases entries.len(),
{
    if entries.len() > 0 {
        let earlier = entries.drop_last();
        lemma_configured(earlier, servers, worktrees, server);
        let before = configured_servers(earlier, servers, worktrees);
        crate::ids::contains_push(before, entries.last().1.id, server);
        assert(forall|i: int| 0 <= i < earlier.len() ==> #[trigger] earlier[i] == entries[i]);
        assert(entries[entries.len() - 1] == entries.last());
        if before.contains(server) {
            let i = choose|i: int|
                0 <= i < earlier.len() && worktrees.contains((#[trigger] earlier[i]).0.worktree_id)
                    && earlier[i].1.id == server;
            assert(entries[i].1.id == server);
        }
        if exists|i: int|
            0 <= i < entries.len() && worktrees.contains((#[trigger] entries[i]).0.worktree_id)
                && entries[i].1.id == server && servers.contains_key(server) && servers[server]
                is Running {
            let i = choose|i: int|
                0 <= i < entries.len() && worktrees.contains((#[trigger] entries[i]).0.worktree_id)
                    && entries[i].1.id == server;
            if i < earlier.len() {
                assert(earlier[i].1.id == server);
            }
        }
    }
}

/// Servers that run for a seed in a known worktree are told their configuration, and no others.
pub proof fn running_servers_are_configured(
    store: LocalLspStore,
    worktrees: BTreeSet<u64>,
    servers: Vec<u64>,
    server: u64,
)
    requires
        call_ensures(
            LocalLspStore::refresh_workspace_configurations,
            (&store, &worktrees),
            servers,
        ),
    ensures
        servers@.contains(server) <==> exists|i: int|
            0 <= i < store.language_server_ids.entries@.len() && worktrees@.contains(
                (#[trigger] store.language_server_ids.entries@[i]).0.worktree_id,
            ) && store.language_server_ids.entries@[i].1.id == server
                && store.language_servers@.contains_key(server) && store.language_servers@[server]
                is Running,
{
    lemma_configured(store.language_server_ids.entries@, store@.servers, worktrees@, server);
}

/// A seed that kept its toolchain gets a new server in place of the one that it had, at the root
/// that was named. One that asks for another toolchain, for which it has a server, gets that.
pub proof fn servers_are_replaced(
    store: &mut LocalLspStore,
    seed: LanguageServerSeed,
    active_toolchain: Option<String>,
    root: RelPath,
    next_id: u64,
    can_trust: Option<bool>,
    result: (u64, Option<StartPlan>),
)
    requires
        call_ensures(
            LocalLspStore::replace_language_server,
            (store, seed, active_toolchain, root, next_id, can_trust),
            result,
        ),
    ensures
        final(store).language_server_ids@.contains_key(seed@),
        final(store).language_server_ids@[seed@].id == result.0,
        final(store).language_server_ids@[seed@].project_roots@.contains_key(root@),
        text_view(active_toolchain) == text_view(seed.toolchain) ==> {
            &&& result.0 == next_id
            &&& result.1 is Some
            &&& final(store).language_servers@.contains_key(next_id)
            &&& final(store).language_servers@[next_id] is Starting
        },
        text_view(active_toolchain) != text_view(seed.toolchain) && old(store).language_server_ids@.contains_key(seed@) ==> {
            &&& result.0 == old(store).language_server_ids@[seed@].id
            &&& result.1 is None
            &&& final(store).language_servers@ == old(store).language_servers@
            &&& !final(store).language_server_ids@.contains_key(
                with_toolchain(seed@, text_view(active_toolchain)),
            )
        },
{
    let before = old(store)@.ids;
    let after = final(store)@.ids;
    let given_up = with_toolchain(seed@, text_view(active_toolchain));
    assert(seed@.toolchain == text_view(seed.toolchain));
    if text_view(active_toolchain) == text_view(seed.toolchain) {
        assert(given_up == seed@);
    } else {
        assert(given_up.toolchain != seed@.toolchain);
    }
    assert(after.contains_key(seed@));
    assert(after[seed@] == final(store).language_server_ids@[seed@]@);
    assert(after[seed@].project_roots.contains(root@));
    assert(before.contains_key(seed@) <==> old(store).language_server_ids@.contains_key(seed@));
    assert(after.contains_key(given_up) <==> final(store).language_server_ids@.contains_key(
        given_up,
    ));
    if before.contains_key(seed@) {
        assert(before[seed@].id == old(store).language_server_ids@[seed@].id);
    }
}

/// A place that has its server reports it and changes nothing. One that is alive and has none gets
/// a server, which is reported and told of the root. One that is gone reports nothing.
pub proof fn places_report_their_servers(
    store: &mut LocalLspStore,
    nodes: Vec<ServerNode>,
    can_trust: Option<bool>,
    result: (Vec<(u64, Option<String>)>, Vec<(u64, StartPlan)>, Vec<(u64, RelPath, FolderTarget)>),
)
    requires
        call_ensures(LocalLspStore::refresh_server_tree, (store, nodes, can_trust), result),
        nodes@.len() == 1,
    ensures
        nodes@[0].server_id matches Some(id) ==> result.0@.len() == 1 && result.0@[0].0 == id
            && result.1@.len() == 0 && result.2@.len() == 0 && final(store)@ == old(store)@,
        nodes@[0].server_id is None && nodes@[0].name is None ==> result.0@.len() == 0
            && result.1@.len() == 0 && final(store)@ == old(store)@,
        nodes@[0].server_id is None && nodes@[0].name is Some && text_view(
            nodes@[0].active_toolchain,
        ) == text_view(nodes@[0].seed.toolchain) ==> {
            &&& result.0@.len() == 1
            &&& result.0@[0].0 == nodes@[0].next_id
            &&& result.0@[0].1 is Some
            &&& result.0@[0].1->0@ == nodes@[0].name->0@
            &&& result.1@.len() == 1
            &&& result.1@[0].0 == nodes@[0].next_id
            &&& result.2@.len() == 1
            &&& result.2@[0].0 == nodes@[0].next_id
            &&& result.2@[0].1@ == nodes@[0].root@
            &&& result.2@[0].2 is Pending
        },
{
    let node = nodes@[0];
    assert(nodes@.drop_last() =~= Seq::<ServerNode>::empty());
    assert(nodes@.last() == node);
    reveal_with_fuel(refreshed, 2);
    let reports = report_views(result.0@);
    assert(reports.len() == result.0@.len());
    if result.0@.len() > 0 {
        assert(reports[0].0 == result.0@[0].0);
        assert(reports[0].1 is Some <==> result.0@[0].1 is Some);
        if result.0@[0].1 is Some {
            assert(reports[0].1->0 == result.0@[0].1->0@);
        }
    }
    let folders = folder_views(result.2@);
    assert(folders.len() == result.2@.len());
    if result.2@.len() > 0 {
        assert(folders[0] == (result.2@[0].0, result.2@[0].1@, result.2@[0].2));
    }
    assert(node.seed@.toolchain == text_view(node.seed.toolchain));
    if text_view(node.active_toolchain) == text_view(node.seed.toolchain) {
        assert(with_toolchain(node.seed@, text_view(node.active_toolchain)) == node.seed@);
    }
}

proof fn lemma_save_notices(servers: Seq<(u64, Option<bool>)>, i: int)
    requires
        0 <= i < servers.len(),
        servers[i].1 is Some,
    ensures
        save_notices(servers).contains(
            SaveNotice { server: servers[i].0, with_text: servers[i].1->0 },
        ),
    decreases servers.len(),
{
    let earlier = save_notices(servers.drop_last());
    let all = save_notices(servers);
    let notice = SaveNotice { server: servers[i].0, with_text: servers[i].1->0 };
    if i < servers.len() - 1 {
        assert(servers.drop_last()[i] == servers[i]);
        lemma_save_notices(servers.drop_last(), i);
        let at = choose|at: int| 0 <= at < earlier.len() && earlier[at] == notice;
        assert(all[at] == notice);
    } else {
        assert(all[all.len() - 1] == notice);
    }
}

proof fn lemma_save_notices_from(servers: Seq<(u64, Option<bool>)>, k: int)
    requires
        0 <= k < save_notices(servers).len(),
    ensures
        exists|i: int|
            0 <= i < servers.len() && (#[trigger] servers[i]).0 == save_notices(servers)[k].server
                && servers[i].1 == Some(save_notices(servers)[k].with_text),
    decreases servers.len(),
{
    let earlier = save_notices(servers.drop_last());
    if k < earlier.len() {
        lemma_save_notices_from(servers.drop_last(), k);
        let i = choose|i: int|
            0 <= i < servers.drop_last().len() && (#[trigger] servers.drop_last()[i]).0
                == earlier[k].server && servers.drop_last()[i].1 == Some(earlier[k].with_text);
        assert(servers[i] == servers.drop_last()[i]);
    } else {
        assert(servers[servers.len() - 1] == servers.last());
    }
}

/// A server that wants to know of saves is told, with the text just if it wants that. Others are
/// not told.
pub proof fn saves_are_told_to_who_wants_to_know(
    servers: Vec<(u64, Option<bool>)>,
    notices: Vec<SaveNotice>,
    i: int,
    k: int,
)
    requires
        call_ensures(on_buffer_saved, (&servers,), notices),
    ensures
        0 <= i < servers@.len() ==> (servers@[i].1 matches Some(with_text) ==> notices@.contains(
            SaveNotice { server: servers@[i].0, with_text },
        )),
        0 <= k < notices@.len() ==> exists|at: int|
            0 <= at < servers@.len() && (#[trigger] servers@[at]).0 == notices@[k].server
                && servers@[at].1 == Some(notices@[k].with_text),
{
    if 0 <= i < servers@.len() && servers@[i].1 is Some {
        lemma_save_notices(servers@, i);
    }
    if 0 <= k < notices@.len() {
        lemma_save_notices_from(servers@, k);
    }
}

/// A server that runs is shut down, one that starts is waited for, and of one that is not known
/// nothing is left to do. Completion starts at the characters that a server names.
pub proof fn servers_end_as_they_are(
    none: ShutdownPlan,
    starting: ShutdownPlan,
    running: ShutdownPlan,
    characters: Vec<String>,
    named: Vec<String>,
    unnamed: Vec<String>,
    without: Vec<String>,
)
    requires
        call_ensures(shutdown_language_server, (None::<LanguageServerState>,), none),
        call_ensures(shutdown_language_server, (Some(LanguageServerState::Starting),), starting),
        call_ensures(shutdown_language_server, (Some(LanguageServerState::Running),), running),
        call_ensures(completion_triggers, (Some(Some(characters)),), named),
        call_ensures(completion_triggers, (Some(None::<Vec<String>>),), unnamed),
        call_ensures(completion_triggers, (None::<Option<Vec<String>>>,), without),
    ensures
        none is Nothing,
        starting is WaitForLaunch,
        running is ShutDown,
        named@ == characters@,
        unnamed@.len() == 0,
        without@.len() == 0,
{
}

/// A restart stops the servers that it names, or those of the buffers where it names none.
pub proof fn restarts_stop_what_they_name(
    store: LocalLspStore,
    selectors: Vec<LanguageServerSelector>,
    buffer_servers: Vec<u64>,
    servers: Vec<u64>,
    server: u64,
)
    requires
        call_ensures(
            LocalLspStore::restart_language_servers_for_buffers,
            (&store, &selectors, &buffer_servers),
            servers,
        ),
    ensures
        selectors@.len() == 0 ==> (servers@.contains(server) <==> buffer_servers@.contains(server)),
        selectors@.contains(LanguageServerSelector::Id(server)) ==> servers@.contains(server),
{
    if selectors@.contains(LanguageServerSelector::Id(server)) {
        let k = choose|k: int|
            0 <= k < selectors@.len() && selectors@[k] == LanguageServerSelector::Id(server);
        assert(selectors@[k] matches LanguageServerSelector::Id(given) && given == server);
        assert(selects_id(selectors@, server));
    }
}

} // verus!
