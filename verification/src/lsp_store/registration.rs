//! Which language servers a buffer is opened in, and which servers a request to stop
//! or restart picks.
use std::collections::BTreeSet;
use vstd::prelude::*;

use crate::ids::{ascending, contains_push, map_put, map_take, set_items, set_put};
use crate::list_map::ListMap;
use crate::lsp_store::buffer_versions::{first_version, BufferVersions, Histories};
use crate::lsp_store::servers::{
    folder_target, listed_with, listing_is_complete, opened_view, restricted_after, server_for,
    serves, serves_picked, serves_worktree, start_plan, with_root, FolderTarget,
    LanguageServerSeed, LanguageServerSelector, LanguageServerState, LocalLspStore, LocalView,
    SeedView, StartPlan, UnifiedView,
};
use crate::rel_path::RelPath;
use crate::text::same_text;

verus! {

/// A server that the manifests of the project ask for at some path.
#[derive(Debug)]
pub struct ServerNode {
    /// The server, where it has been started for this node.
    pub server_id: Option<u64>,
    /// The name, while the node is alive.
    pub name: Option<String>,
    /// With what the server is started, and at which root.
    pub seed: LanguageServerSeed,
    pub root: RelPath,
    /// The toolchain that is active at the root now.
    pub active_toolchain: Option<String>,
    /// The number that a newly started server gets.
    pub next_id: u64,
}

/// A number is among the selectors.
pub open spec fn selects_id(selectors: Seq<LanguageServerSelector>, id: u64) -> bool {
    exists|i: int|
        0 <= i < selectors.len() && (#[trigger] selectors[i] matches LanguageServerSelector::Id(
            given,
        ) && given == id)
}

/// A name is among the selectors.
pub open spec fn selects_name(selectors: Seq<LanguageServerSelector>, name: Seq<char>) -> bool {
    exists|i: int|
        0 <= i < selectors.len() && (#[trigger] selectors[i] matches LanguageServerSelector::Name(
            given,
        ) && given@ == name)
}

/// The node is asked for: where servers are reused only if it has one, and where
/// selectors are given only if they hold its number and its name, as far as it has them.
pub open spec fn is_wanted(
    node: ServerNode,
    reused: bool,
    selectors: Seq<LanguageServerSelector>,
) -> bool {
    &&& !(reused && node.server_id is None)
    &&& (selectors.len() > 0 ==> {
        &&& (node.server_id matches Some(id) ==> selects_id(selectors, id))
        &&& (node.name matches Some(name) ==> selects_name(selectors, name@))
    })
}

/// The store and the servers after some nodes were gone through.
pub ghost struct Selection {
    pub store: LocalView,
    /// Running servers that the buffer is opened in.
    pub running: Seq<u64>,
    /// Servers that were started, with what has to be done for it.
    pub started: Seq<(u64, StartPlan)>,
    /// The roots that were added to servers as workspace folders.
    pub folders: Seq<FolderView>,
}

/// A server, a root that it is told of as a workspace folder, and how.
pub type FolderView = (u64, Seq<Seq<char>>, FolderTarget);

pub open spec fn folder_views(folders: Seq<(u64, RelPath, FolderTarget)>) -> Seq<FolderView> {
    folders.map_values(|folder: (u64, RelPath, FolderTarget)| (folder.0, folder.1@, folder.2))
}

pub open spec fn selection(
    store: LocalView,
    nodes: Seq<ServerNode>,
    reused: bool,
    selectors: Seq<LanguageServerSelector>,
    can_trust: Option<bool>,
) -> Selection
    decreases nodes.len(),
{
    if nodes.len() == 0 {
        Selection {
            store,
            running: Seq::empty(),
            started: Seq::empty(),
            folders: Seq::empty(),
        }
    } else {
        let before = selection(store, nodes.drop_last(), reused, selectors, can_trust);
        let node = nodes.last();
        if !is_wanted(node, reused, selectors) {
            before
        } else {
            match (node.server_id, node.name) {
                (Some(id), _) => Selection { running: with_running(before, id), ..before },
                // The node is gone.
                (None, None) => before,
                (None, Some(_)) => {
                    let id = server_for(before.store.ids, node.seed@, node.next_id);
                    let known = before.store.ids.contains_key(node.seed@);
                    let worktree = node.seed@.worktree_id;
                    let after = Selection {
                        store: LocalView {
                            ids: with_root(
                                before.store.ids,
                                node.seed@,
                                node.root@,
                                node.next_id,
                            ),
                            servers: if known {
                                before.store.servers
                            } else {
                                before.store.servers.insert(id, LanguageServerState::Starting)
                            },
                            restricted: if known {
                                before.store.restricted
                            } else {
                                restricted_after(before.store.restricted, worktree, can_trust)
                            },
                            opened: before.store.opened,
                        },
                        running: before.running,
                        started: if known {
                            before.started
                        } else {
                            before.started.push(
                                (id, start_plan(before.store.restricted, worktree, can_trust)),
                            )
                        },
                        folders: before.folders,
                    };
                    let after = Selection {
                        folders: before.folders.push(
                            (id, node.root@, folder_target(after.store.servers, id)),
                        ),
                        ..after
                    };
                    Selection { running: with_running(after, id), ..after }
                },
            }
        }
    }
}

pub open spec fn with_running(selection: Selection, id: u64) -> Seq<u64> {
    if selection.store.servers.contains_key(id) && selection.store.servers[id]
        == LanguageServerState::Running {
        selection.running.push(id)
    } else {
        selection.running
    }
}

fn has_id(selectors: &Vec<LanguageServerSelector>, id: u64) -> (found: bool)
    ensures
        found == selects_id(selectors@, id),
{
    let mut i: usize = 0;
    while i < selectors.len()
        invariant
            i <= selectors@.len(),
            forall|j: int|
                0 <= j < i ==> !(#[trigger] selectors@[j] matches LanguageServerSelector::Id(given)
                    && given == id),
        decreases selectors@.len() - i,
    {
        if let LanguageServerSelector::Id(given) = &selectors[i] {
            if *given == id {
                return true;
            }
        }
        i += 1;
    }
    false
}

fn has_name(selectors: &Vec<LanguageServerSelector>, name: &str) -> (found: bool)
    ensures
        found == selects_name(selectors@, name@),
{
    let mut i: usize = 0;
    while i < selectors.len()
        invariant
            i <= selectors@.len(),
            forall|j: int|
                0 <= j < i ==> !(#[trigger] selectors@[j] matches LanguageServerSelector::Name(
                    given,
                ) && given@ == name@),
        decreases selectors@.len() - i,
    {
        if let LanguageServerSelector::Name(given) = &selectors[i] {
            if same_text(given.as_str(), name) {
                return true;
            }
        }
        i += 1;
    }
    false
}

fn wants(node: &ServerNode, reused: bool, selectors: &Vec<LanguageServerSelector>) -> (wanted: bool)
    ensures
        wanted == is_wanted(*node, reused, selectors@),
{
    if reused && node.server_id.is_none() {
        return false;
    }
    if selectors.len() > 0 {
        if let Some(id) = node.server_id {
            if !has_id(selectors, id) {
                return false;
            }
        }
        if let Some(name) = &node.name {
            if !has_name(selectors, name.as_str()) {
                return false;
            }
        }
    }
    true
}

/// What registering a buffer with its servers brings about.
#[derive(Debug)]
pub struct Registration {
    /// Running servers that the buffer is open in now.
    pub running: Vec<u64>,
    /// Servers among them that did not know the buffer and are told of it.
    pub registered: Vec<u64>,
    /// Servers that were started.
    pub started: Vec<(u64, StartPlan)>,
    /// Roots that were given their server, with how the server is told of them as workspace
    /// folders.
    pub folders: Vec<(u64, RelPath, FolderTarget)>,
}

/// The buffer is entered as open in a server.
pub open spec fn opened_in(
    opened: Map<u64, Set<u64>>,
    buffer: u64,
    servers: Seq<u64>,
) -> Map<u64, Set<u64>>
    decreases servers.len(),
{
    if servers.len() == 0 {
        opened
    } else {
        let before = opened_in(opened, buffer, servers.drop_last());
        before.insert(
            buffer,
            if before.contains_key(buffer) {
                before[buffer].insert(servers.last())
            } else {
                Set::empty().insert(servers.last())
            },
        )
    }
}

/// The versions and the newly told servers after a buffer was made known to servers.
pub open spec fn made_known(
    all: Histories,
    buffer: u64,
    servers: Seq<u64>,
    snapshot: u64,
) -> (Histories, Seq<u64>)
    decreases servers.len(),
{
    if servers.len() == 0 {
        (all, Seq::empty())
    } else {
        let (before, told) = made_known(all, buffer, servers.drop_last(), snapshot);
        let server = servers.last();
        if before.contains_key((buffer, server)) {
            (before, told)
        } else {
            (before.insert((buffer, server), first_version(snapshot)), told.push(server))
        }
    }
}

impl LocalLspStore {
    /// Goes through the nodes, starts the servers that are missing, and collects those
    /// that run.
    fn select_servers(
        &mut self,
        nodes: Vec<ServerNode>,
        reused: bool,
        selectors: &Vec<LanguageServerSelector>,
        can_trust: Option<bool>,
    ) -> (result: (Vec<u64>, Vec<(u64, StartPlan)>, Vec<(u64, RelPath, FolderTarget)>))
        requires
            old(self).well_formed(),
        ensures
            final(self).well_formed(),
            (Selection {
                store: final(self)@,
                running: result.0@,
                started: result.1@,
                folders: folder_views(result.2@),
            }) == selection(old(self)@, nodes@, reused, selectors@, can_trust),
    {
        let ghost given = nodes@;
        let ghost before = self@;
        let mut rest: Vec<ServerNode> = nodes;
        let mut running: Vec<u64> = Vec::new();
        let mut started: Vec<(u64, StartPlan)> = Vec::new();
        let mut folders: Vec<(u64, RelPath, FolderTarget)> = Vec::new();
        assert(folder_views(folders@) =~= Seq::<FolderView>::empty());
        while rest.len() > 0
            invariant
                rest@.len() <= given.len(),
                rest@ == given.skip(given.len() - rest@.len()),
                self.well_formed(),
                (Selection {
                    store: self@,
                    running: running@,
                    started: started@,
                    folders: folder_views(folders@),
                }) == selection(
                    before,
                    given.take(given.len() - rest@.len()),
                    reused,
                    selectors@,
                    can_trust,
                ),
            decreases rest@.len(),
        {
            let ghost done = given.len() - rest@.len();
            let ghost added = folder_views(folders@);
            let node: ServerNode = rest.remove(0);
            proof {
                assert(rest@ =~= given.skip(done + 1));
                assert(given.take(done + 1).drop_last() =~= given.take(done));
                assert(given.take(done + 1).last() == node);
            }
            if wants(&node, reused, selectors) {
                let id: Option<u64> = match (node.server_id, node.name) {
                    (Some(id), _) => Some(id),
                    (None, None) => None,
                    (None, Some(_)) => {
                        let root: RelPath = node.root.clone();
                        let (id, plan) = self.get_or_insert_language_server(
                            node.seed,
                            node.root,
                            node.next_id,
                            can_trust,
                        );
                        if let Some(plan) = plan {
                            started.push((id, plan));
                        }
                        folders.push((id, root, self.add_workspace_folder(id)));
                        assert(folder_views(folders@) =~= added.push(
                            folder_views(folders@)[added.len() as int],
                        ));
                        Some(id)
                    },
                };
                if let Some(id) = id {
                    if self.running_language_server_for_id(id) {
                        running.push(id);
                    }
                }
            }
            proof {
                let expected = selection(
                    before,
                    given.take(done + 1),
                    reused,
                    selectors@,
                    can_trust,
                );
                assert(self@ == expected.store);
                assert(running@ == expected.running);
                assert(started@ == expected.started);
                assert(folder_views(folders@) == expected.folders);
            }
        }
        assert(given.take(given.len() as int) =~= given);
        (running, started, folders)
    }

    /// Opens a buffer in the running servers that are asked for it, and starts those
    /// that are missing. A server that does not know the buffer is told of it, as
    /// version zero.
    pub fn register_buffer_with_language_servers(
        &mut self,
        versions: &mut BufferVersions,
        buffer: u64,
        snapshot: u64,
        nodes: Vec<ServerNode>,
        reused: bool,
        only_register_servers: &Vec<LanguageServerSelector>,
        can_trust: Option<bool>,
    ) -> (registration: Registration)
        requires
            old(self).well_formed(),
            old(versions).well_formed(),
        ensures
            final(self).well_formed(),
            final(versions).well_formed(),
            ({
                let selected = selection(
                    old(self)@,
                    nodes@,
                    reused,
                    only_register_servers@,
                    can_trust,
                );
                let (histories, told) = made_known(
                    old(versions)@,
                    buffer,
                    selected.running,
                    snapshot,
                );
                &&& registration.running@ == selected.running
                &&& registration.started@ == selected.started
                &&& folder_views(registration.folders@) == selected.folders
                &&& registration.registered@ == told
                &&& final(versions)@ == histories
                &&& final(self)@ == (LocalView {
                    opened: opened_in(selected.store.opened, buffer, selected.running),
                    ..selected.store
                })
            }),
    {
        let (running, started, folders) = self.select_servers(
            nodes,
            reused,
            only_register_servers,
            can_trust,
        );
        let ghost selected = self@;
        let ghost all = versions@;
        let mut registered: Vec<u64> = Vec::new();
        let mut i: usize = 0;
        while i < running.len()
            invariant
                i <= running@.len(),
                all == old(versions)@,
                versions.well_formed(),
                (versions@, registered@) == made_known(
                    all,
                    buffer,
                    running@.take(i as int),
                    snapshot,
                ),
            decreases running@.len() - i,
        {
            proof {
                assert(running@.take(i + 1).drop_last() =~= running@.take(i as int));
                assert(running@.take(i + 1).last() == running@[i as int]);
            }
            if versions.register(buffer, running[i], snapshot) {
                registered.push(running[i]);
            }
            i += 1;
        }
        assert(running@.take(i as int) =~= running@);
        self.open_in_servers(buffer, &running);
        Registration { running, registered, started, folders }
    }

    /// Enters a buffer as open in servers.
    pub fn open_in_servers(&mut self, buffer: u64, servers: &Vec<u64>)
        requires
            old(self).well_formed(),
        ensures
            final(self).well_formed(),
            final(self)@ == (LocalView {
                opened: opened_in(old(self)@.opened, buffer, servers@),
                ..old(self)@
            }),
    {
        let ghost before = self@;
        let mut i: usize = 0;
        while i < servers.len()
            invariant
                i <= servers@.len(),
                opened_view(self.buffers_opened_in_servers@) == opened_in(
                    before.opened,
                    buffer,
                    servers@.take(i as int),
                ),
                self.language_server_ids == old(self).language_server_ids,
                self.language_servers == old(self).language_servers,
                self.restricted_worktrees == old(self).restricted_worktrees,
            decreases servers@.len() - i,
        {
            let ghost now = opened_view(self.buffers_opened_in_servers@);
            assert(servers@.take(i + 1).drop_last() =~= servers@.take(i as int));
            assert(servers@.take(i + 1).last() == servers@[i as int]);
            let mut open: BTreeSet<u64> = match map_take(
                &mut self.buffers_opened_in_servers,
                buffer,
            ) {
                Some(open) => open,
                None => BTreeSet::new(),
            };
            let ghost were_open = open@;
            let new = set_put(&mut open, servers[i]);
            map_put(&mut self.buffers_opened_in_servers, buffer, open);
            proof {
                assert(!now.contains_key(buffer) ==> were_open =~= Set::<u64>::empty());
                assert(opened_view(self.buffers_opened_in_servers@) =~= opened_in(
                    before.opened,
                    buffer,
                    servers@.take(i + 1),
                ));
            }
            i += 1;
        }
        assert(servers@.take(i as int) =~= servers@);
    }

    /// Lets a server serve a worktree that is not shown, under the seed that it has
    /// elsewhere. A server that has no seed, and a seed that is taken, stay as they are.
    pub fn register_language_server_for_invisible_worktree(
        &mut self,
        worktree_id: u64,
        language_server_id: u64,
    )
        requires
            old(self).well_formed(),
        ensures
            final(self).well_formed(),
            final(self)@.servers == old(self)@.servers,
            final(self)@.restricted == old(self)@.restricted,
            final(self)@.opened == old(self)@.opened,
            serves_invisibly(
                old(self)@.ids,
                final(self)@.ids,
                worktree_id,
                language_server_id,
            ),
    {
        let ghost before = self@;
        let ghost entries = self.language_server_ids.entries@;
        let mut i: usize = 0;
        let mut at: Option<usize> = None;
        while i < self.language_server_ids.entries.len() && at.is_none()
            invariant
                i <= self.language_server_ids.entries@.len(),
                entries == self.language_server_ids.entries@,
                match at {
                    Some(at) => at < entries.len() && entries[at as int].1.id
                        == language_server_id,
                    None => forall|j: int|
                        0 <= j < i ==> (#[trigger] entries[j]).1.id != language_server_id,
                },
            decreases self.language_server_ids.entries@.len() - i,
        {
            if self.language_server_ids.entries[i].1.id == language_server_id {
                at = Some(i);
            }
            i += 1;
        }
        match at {
            None => {
                proof {
                    if exists|seed: SeedView| serves(before.ids, seed, language_server_id) {
                        let seed = choose|seed: SeedView|
                            serves(before.ids, seed, language_server_id);
                        let j = crate::list_map::lookup_finds_entry(entries, seed);
                        assert(entries[j].1.id == language_server_id);
                    }
                }
            },
            Some(at) => {
                let origin: &LanguageServerSeed = &self.language_server_ids.entries[at].0;
                let ghost origin_view = origin@;
                proof {
                    crate::list_map::entry_is_found(entries, at as int);
                    assert(serves(before.ids, origin_view, language_server_id));
                }
                let seed: LanguageServerSeed = origin.in_worktree(worktree_id);
                if !self.language_server_ids.contains_key(&seed) {
                    let server = crate::lsp_store::servers::UnifiedLanguageServer {
                        id: language_server_id,
                        project_roots: ListMap::new(),
                    };
                    assert(server@.project_roots =~= Set::empty());
                    self.language_server_ids.insert(seed, server);
                }
                proof {
                    assert(self@.ids =~= also_in_worktree(before.ids, origin_view, worktree_id));
                    assert forall|seed: SeedView, server: u64| #[trigger]
                        serves(self@.ids, seed, server) implies self@.servers.contains_key(
                        server,
                    ) by {
                        if before.ids.contains_key(seed) {
                            assert(serves(before.ids, seed, server));
                        } else {
                            assert(serves(before.ids, origin_view, server));
                        }
                    }
                }
            },
        }
    }

    /// The servers that a request to stop picks: by number, by name, and those of the
    /// buffers that it names. In ascending order.
    pub fn stop_local_language_servers_for_buffers(
        &self,
        selectors: &Vec<LanguageServerSelector>,
        buffer_servers: &Vec<u64>,
    ) -> (servers: Vec<u64>)
        requires
            self.well_formed(),
        ensures
            ascending(servers@),
            forall|server: u64| #[trigger]
                servers@.contains(server) <==> selects_id(selectors@, server)
                    || buffer_servers@.contains(server) || is_named(self@.ids, selectors@, server),
    {
        let mut picked: BTreeSet<u64> = BTreeSet::new();
        let mut i: usize = 0;
        let ghost none = selectors@.take(0);
        while i < selectors.len()
            invariant
                i <= selectors@.len(),
                forall|server: u64| #[trigger]
                    picked@.contains(server) <==> selects_id(selectors@.take(i as int), server),
            decreases selectors@.len() - i,
        {
            let ghost before = picked@;
            if let LanguageServerSelector::Id(id) = &selectors[i] {
                let new = set_put(&mut picked, *id);
            }
            proof {
                let seen = selectors@.take(i as int);
                let next = selectors@.take(i + 1);
                assert(next =~= seen.push(selectors@[i as int]));
                assert forall|server: u64| #[trigger]
                    picked@.contains(server) <==> selects_id(next, server) by {
                    assert(before.contains(server) <==> selects_id(seen, server));
                    if selects_id(seen, server) {
                        let k = choose|k: int|
                            0 <= k < seen.len() && (
                            #[trigger] seen[k] matches LanguageServerSelector::Id(given) && given
                                == server);
                        assert(next[k] == seen[k]);
                    }
                    if selects_id(next, server) {
                        let k = choose|k: int|
                            0 <= k < next.len() && (
                            #[trigger] next[k] matches LanguageServerSelector::Id(given) && given
                                == server);
                        if k < i {
                            assert(next[k] == seen[k]);
                        }
                    }
                    assert(next[i as int] == selectors@[i as int]);
                }
            }
            i += 1;
        }
        assert(selectors@.take(i as int) =~= selectors@);
        let mut j: usize = 0;
        while j < buffer_servers.len()
            invariant
                j <= buffer_servers@.len(),
                forall|server: u64| #[trigger]
                    picked@.contains(server) <==> selects_id(selectors@, server)
                        || buffer_servers@.take(j as int).contains(server),
            decreases buffer_servers@.len() - j,
        {
            let ghost before = picked@;
            let new = set_put(&mut picked, buffer_servers[j]);
            proof {
                let seen = buffer_servers@.take(j as int);
                let next = buffer_servers@.take(j + 1);
                assert(next =~= seen.push(buffer_servers@[j as int]));
                assert forall|server: u64| #[trigger]
                    picked@.contains(server) <==> selects_id(selectors@, server)
                        || next.contains(server) by {
                    assert(before.contains(server) <==> selects_id(selectors@, server)
                        || seen.contains(server));
                    contains_push(seen, buffer_servers@[j as int], server);
                }
            }
            j += 1;
        }
        assert(buffer_servers@.take(j as int) =~= buffer_servers@);
        let mut k: usize = 0;
        let ghost entries = self.language_server_ids.entries@;
        let ghost picks = |seed: SeedView| selects_name(selectors@, seed.name);
        while k < self.language_server_ids.entries.len()
            invariant
                k <= self.language_server_ids.entries@.len(),
                entries == self.language_server_ids.entries@,
                picks == (|seed: SeedView| selects_name(selectors@, seed.name)),
                forall|server: u64| #[trigger]
                    picked@.contains(server) <==> selects_id(selectors@, server)
                        || buffer_servers@.contains(server) || listed_with(
                        entries.take(k as int),
                        picks,
                        server,
                    ),
            decreases self.language_server_ids.entries@.len() - k,
        {
            let ghost before = picked@;
            let server_id: u64 = self.language_server_ids.entries[k].1.id;
            if has_name(selectors, self.language_server_ids.entries[k].0.name.as_str()) {
                let new = set_put(&mut picked, server_id);
            }
            proof {
                let next = entries.take(k + 1);
                assert(next.drop_last() =~= entries.take(k as int));
                assert(next.last() == entries[k as int]);
                assert forall|server: u64| #[trigger]
                    picked@.contains(server) <==> selects_id(selectors@, server)
                        || buffer_servers@.contains(server) || listed_with(
                        next,
                        picks,
                        server,
                    ) by {
                    assert(before.contains(server) <==> selects_id(selectors@, server)
                        || buffer_servers@.contains(server) || listed_with(
                        entries.take(k as int),
                        picks,
                        server,
                    ));
                }
            }
            k += 1;
        }
        assert(entries.take(k as int) =~= entries);
        let servers: Vec<u64> = set_items(&picked);
        proof {
            listing_is_complete(self.language_server_ids, picks);
            assert forall|server: u64| #[trigger]
                servers@.contains(server) <==> selects_id(selectors@, server)
                    || buffer_servers@.contains(server) || is_named(
                    self@.ids,
                    selectors@,
                    server,
                ) by {
                assert(picked@.contains(server) <==> servers@.contains(server));
                assert(listed_with(entries, picks, server) <==> serves_picked(
                    self@.ids,
                    picks,
                    server,
                ));
                assert(serves_picked(self@.ids, picks, server) <==> is_named(
                    self@.ids,
                    selectors@,
                    server,
                ));
            }
        }
        servers
    }

    /// The servers of a worktree, whether they run or not, in ascending order.
    pub fn language_server_ids_for_worktree(&self, worktree_id: u64) -> (servers: Vec<u64>)
        requires
            self.well_formed(),
        ensures
            ascending(servers@),
            forall|server: u64| #[trigger]
                servers@.contains(server) <==> serves_worktree(self@.ids, worktree_id, server),
    {
        let mut picked: BTreeSet<u64> = BTreeSet::new();
        let mut k: usize = 0;
        let ghost entries = self.language_server_ids.entries@;
        let ghost picks = |seed: SeedView| seed.worktree_id == worktree_id;
        while k < self.language_server_ids.entries.len()
            invariant
                k <= self.language_server_ids.entries@.len(),
                entries == self.language_server_ids.entries@,
                picks == (|seed: SeedView| seed.worktree_id == worktree_id),
                forall|server: u64| #[trigger]
                    picked@.contains(server) <==> listed_with(
                        entries.take(k as int),
                        picks,
                        server,
                    ),
            decreases self.language_server_ids.entries@.len() - k,
        {
            let ghost before = picked@;
            let server_id: u64 = self.language_server_ids.entries[k].1.id;
            if self.language_server_ids.entries[k].0.worktree_id == worktree_id {
                let new = set_put(&mut picked, server_id);
            }
            proof {
                let next = entries.take(k + 1);
                assert(next.drop_last() =~= entries.take(k as int));
                assert(next.last() == entries[k as int]);
                assert forall|server: u64| #[trigger]
                    picked@.contains(server) <==> listed_with(next, picks, server) by {
                    assert(before.contains(server) <==> listed_with(
                        entries.take(k as int),
                        picks,
                        server,
                    ));
                }
            }
            k += 1;
        }
        assert(entries.take(k as int) =~= entries);
        let servers: Vec<u64> = set_items(&picked);
        proof {
            listing_is_complete(self.language_server_ids, picks);
            assert forall|server: u64| #[trigger]
                servers@.contains(server) <==> serves_worktree(
                    self@.ids,
                    worktree_id,
                    server,
                ) by {
                assert(picked@.contains(server) <==> servers@.contains(server));
                assert(serves_picked(self@.ids, picks, server) <==> serves_worktree(
                    self@.ids,
                    worktree_id,
                    server,
                ));
            }
        }
        servers
    }

    /// Whether a worktree has a server, running or not.
    pub fn has_language_server_seed_for_worktree(&self, worktree_id: u64) -> (has: bool)
        requires
            self.well_formed(),
        ensures
            has == exists|server: u64| #[trigger]
                serves_worktree(self@.ids, worktree_id, server),
    {
        let servers: Vec<u64> = self.language_server_ids_for_worktree(worktree_id);
        proof {
            if servers@.len() > 0 {
                assert(servers@.contains(servers@[0]));
            } else {
                assert forall|server: u64| !#[trigger] serves_worktree(
                    self@.ids,
                    worktree_id,
                    server,
                ) by {
                    assert(!servers@.contains(server));
                }
            }
        }
        servers.len() > 0
    }

    /// The servers that a request to stop everything stops: all that have a seed, in
    /// ascending order.
    pub fn shutdown_all_language_servers(&self) -> (servers: Vec<u64>)
        requires
            self.well_formed(),
        ensures
            ascending(servers@),
            forall|server: u64| #[trigger]
                servers@.contains(server) <==> is_in_use(self@.ids, server),
    {
        let mut picked: BTreeSet<u64> = BTreeSet::new();
        let mut k: usize = 0;
        let ghost entries = self.language_server_ids.entries@;
        let ghost picks = |seed: SeedView| true;
        while k < self.language_server_ids.entries.len()
            invariant
                k <= self.language_server_ids.entries@.len(),
                entries == self.language_server_ids.entries@,
                picks == (|seed: SeedView| true),
                forall|server: u64| #[trigger]
                    picked@.contains(server) <==> listed_with(
                        entries.take(k as int),
                        picks,
                        server,
                    ),
            decreases self.language_server_ids.entries@.len() - k,
        {
            let ghost before = picked@;
            let new = set_put(&mut picked, self.language_server_ids.entries[k].1.id);
            proof {
                let next = entries.take(k + 1);
                assert(next.drop_last() =~= entries.take(k as int));
                assert(next.last() == entries[k as int]);
                assert forall|server: u64| #[trigger]
                    picked@.contains(server) <==> listed_with(next, picks, server) by {
                    assert(before.contains(server) <==> listed_with(
                        entries.take(k as int),
                        picks,
                        server,
                    ));
                }
            }
            k += 1;
        }
        assert(entries.take(k as int) =~= entries);
        let servers: Vec<u64> = set_items(&picked);
        proof {
            listing_is_complete(self.language_server_ids, picks);
            assert forall|server: u64| #[trigger]
                servers@.contains(server) <==> is_in_use(self@.ids, server) by {
                assert(picked@.contains(server) <==> servers@.contains(server));
                assert(serves_picked(self@.ids, picks, server) <==> is_in_use(self@.ids, server));
            }
        }
        servers
    }
}

/// Some seed stands for the server.
pub open spec fn is_in_use(ids: Map<SeedView, UnifiedView>, server: u64) -> bool {
    exists|seed: SeedView| serves(ids, seed, server)
}

/// The server has a name that is among the selectors.
pub open spec fn is_named(
    ids: Map<SeedView, UnifiedView>,
    selectors: Seq<LanguageServerSelector>,
    server: u64,
) -> bool {
    exists|seed: SeedView| #[trigger]
        serves(ids, seed, server) && selects_name(selectors, seed.name)
}

/// The seeds, with one of them entered for another worktree too.
pub open spec fn also_in_worktree(
    ids: Map<SeedView, UnifiedView>,
    seed: SeedView,
    worktree: u64,
) -> Map<SeedView, UnifiedView> {
    let there = SeedView { worktree_id: worktree, ..seed };
    if ids.contains_key(there) {
        ids
    } else {
        ids.insert(there, UnifiedView { id: ids[seed].id, project_roots: Set::empty() })
    }
}

/// The server serves the worktree as it serves the others, if it serves any.
pub open spec fn serves_invisibly(
    before: Map<SeedView, UnifiedView>,
    after: Map<SeedView, UnifiedView>,
    worktree: u64,
    server: u64,
) -> bool {
    if exists|seed: SeedView| serves(before, seed, server) {
        exists|seed: SeedView| #[trigger]
            serves(before, seed, server) && after == also_in_worktree(before, seed, worktree)
    } else {
        after == before
    }
}

/// A buffer is opened in a running server that a node has, and the server is told of it just if it
/// did not know it. A node that has no server gets one, which starts unless its seed has one.
pub proof fn nodes_bring_buffers_to_their_servers(
    store: &mut LocalLspStore,
    versions: &mut BufferVersions,
    buffer: u64,
    snapshot: u64,
    nodes: Vec<ServerNode>,
    selectors: Vec<LanguageServerSelector>,
    can_trust: Option<bool>,
    registration: Registration,
)
    requires
        call_ensures(
            LocalLspStore::register_buffer_with_language_servers,
            (store, versions, buffer, snapshot, nodes, false, &selectors, can_trust),
            registration,
        ),
        nodes@.len() == 1,
        selectors@.len() == 0,
    ensures
        nodes@[0].server_id matches Some(id) ==> {
            let running = old(store).language_servers@.contains_key(id) && old(store).language_servers@[id] is Running;
            &&& registration.running@ == (if running {
                seq![id]
            } else {
                Seq::empty()
            })
            &&& registration.registered@.contains(id) <==> running && !old(versions)@.contains_key((buffer, id))
            &&& registration.started@.len() == 0
            &&& registration.folders@.len() == 0
            &&& running ==> final(store).buffers_opened_in_servers@.contains_key(buffer) && final(store).buffers_opened_in_servers@[buffer]@.contains(id)
            &&& running ==> final(versions)@.contains_key((buffer, id))
            &&& final(store).language_servers@ == old(store).language_servers@
        },
        nodes@[0].server_id is None && nodes@[0].name is Some && !old(store).language_server_ids@.contains_key(nodes@[0].seed@) ==> {
            &&& registration.started@.len() == 1
            &&& registration.started@[0].0 == nodes@[0].next_id
            &&& registration.running@.len() == 0
            &&& registration.folders@.len() == 1
            &&& registration.folders@[0].0 == nodes@[0].next_id
            &&& registration.folders@[0].1@ == nodes@[0].root@
            &&& registration.folders@[0].2 is Pending
            &&& final(store).language_servers@.contains_key(nodes@[0].next_id) && final(store).language_servers@[nodes@[0].next_id] is Starting
            &&& final(store).language_server_ids@.contains_key(nodes@[0].seed@) && final(store).language_server_ids@[nodes@[0].seed@].id == nodes@[0].next_id
        },
        nodes@[0].server_id is None && nodes@[0].name is Some && old(store).language_server_ids@.contains_key(nodes@[0].seed@) ==> {
            let id = old(store).language_server_ids@[nodes@[0].seed@].id;
            &&& registration.started@.len() == 0
            &&& registration.folders@.len() == 1
            &&& registration.folders@[0].0 == id
            &&& registration.running@ == (if old(store).language_servers@.contains_key(id) && old(store).language_servers@[id] is Running {
                seq![id]
            } else {
                Seq::empty()
            })
        },
        nodes@[0].server_id is None && nodes@[0].name is None ==> registration.running@.len() == 0
            && registration.started@.len() == 0 && registration.folders@.len() == 0,
{
    let node = nodes@[0];
    assert(nodes@.drop_last() =~= Seq::<ServerNode>::empty());
    assert(nodes@.last() == node);
    reveal_with_fuel(selection, 2);
    reveal_with_fuel(made_known, 2);
    reveal_with_fuel(opened_in, 2);
    let selected = selection(old(store)@, nodes@, false, selectors@, can_trust);
    let before = old(store)@.ids;
    assert(before.contains_key(node.seed@) <==> old(store).language_server_ids@.contains_key(
        node.seed@,
    ));
    if before.contains_key(node.seed@) {
        assert(before[node.seed@].id == old(store).language_server_ids@[node.seed@].id);
    }
    let folders = folder_views(registration.folders@);
    assert(folders.len() == registration.folders@.len());
    if registration.folders@.len() > 0 {
        assert(folders[0] == (
            registration.folders@[0].0,
            registration.folders@[0].1@,
            registration.folders@[0].2,
        ));
    }
    if selected.running.len() > 0 {
        assert(selected.running =~= seq![selected.running[0]]);
        assert(selected.running.drop_last() =~= Seq::<u64>::empty());
        let id = selected.running[0];
        let opened = final(store)@.opened;
        assert(opened.contains_key(buffer));
        assert(opened[buffer].contains(id));
        assert(opened[buffer] == final(store).buffers_opened_in_servers@[buffer]@);
        if registration.registered@.len() > 0 {
            assert(registration.registered@[0] == id);
        }
    }
    let after = final(store)@.ids;
    assert(after.contains_key(node.seed@) <==> final(store).language_server_ids@.contains_key(
        node.seed@,
    ));
    if after.contains_key(node.seed@) {
        assert(after[node.seed@].id == final(store).language_server_ids@[node.seed@].id);
    }
}

/// Where servers are picked, a node whose server or name is not among them brings nothing; where
/// servers are only reused, a node without one brings nothing.
pub proof fn unwanted_nodes_bring_nothing(
    store: &mut LocalLspStore,
    versions: &mut BufferVersions,
    buffer: u64,
    snapshot: u64,
    nodes: Vec<ServerNode>,
    reused: bool,
    selectors: Vec<LanguageServerSelector>,
    can_trust: Option<bool>,
    registration: Registration,
)
    requires
        call_ensures(
            LocalLspStore::register_buffer_with_language_servers,
            (store, versions, buffer, snapshot, nodes, reused, &selectors, can_trust),
            registration,
        ),
        nodes@.len() == 1,
        reused && nodes@[0].server_id is None || selectors@.len() > 0 && (nodes@[0].server_id
            matches Some(id) && forall|i: int|
            0 <= i < selectors@.len() ==> #[trigger] selectors@[i] != LanguageServerSelector::Id(id))
            || selectors@.len() > 0 && (nodes@[0].name matches Some(name) && forall|i: int|
            0 <= i < selectors@.len() ==> (#[trigger] selectors@[i]
                matches LanguageServerSelector::Name(given) ==> given@ != name@)),
    ensures
        registration.running@.len() == 0,
        registration.registered@.len() == 0,
        registration.started@.len() == 0,
        registration.folders@.len() == 0,
        final(store).language_servers@ == old(store).language_servers@,
{
    let node = nodes@[0];
    assert(nodes@.drop_last() =~= Seq::<ServerNode>::empty());
    assert(nodes@.last() == node);
    reveal_with_fuel(selection, 2);
    if selects_id(selectors@, node.server_id->0) {
        let i = choose|i: int|
            0 <= i < selectors@.len() && (#[trigger] selectors@[i]
                matches LanguageServerSelector::Id(given) && given == node.server_id->0);
        assert(selectors@[i] == LanguageServerSelector::Id(node.server_id->0));
    }
    if node.name is Some && selects_name(selectors@, node.name->0@) {
        let i = choose|i: int|
            0 <= i < selectors@.len() && (#[trigger] selectors@[i]
                matches LanguageServerSelector::Name(given) && given@ == node.name->0@);
        assert(selectors@[i]->Name_0@ == node.name->0@);
    }
    assert(folder_views(registration.folders@).len() == registration.folders@.len());
}

/// The nodes of a buffer are gone through one after the other: what the first ones bring about is
/// what the last one finds.
pub proof fn nodes_are_gone_through_in_order(
    store: LocalView,
    nodes: Seq<ServerNode>,
    node: ServerNode,
    reused: bool,
    selectors: Seq<LanguageServerSelector>,
    can_trust: Option<bool>,
)
    ensures
        ({
            let before = selection(store, nodes, reused, selectors, can_trust);
            let last = selection(before.store, seq![node], reused, selectors, can_trust);
            let all = selection(store, nodes.push(node), reused, selectors, can_trust);
            &&& all.store == last.store
            &&& all.running == before.running + last.running
            &&& all.started == before.started + last.started
            &&& all.folders == before.folders + last.folders
        }),
{
    reveal_with_fuel(selection, 2);
    assert(nodes.push(node).drop_last() =~= nodes);
    assert(seq![node].drop_last() =~= Seq::<ServerNode>::empty());
    let before = selection(store, nodes, reused, selectors, can_trust);
    let last = selection(before.store, seq![node], reused, selectors, can_trust);
    let all = selection(store, nodes.push(node), reused, selectors, can_trust);
    assert(all.running =~= before.running + last.running);
    assert(all.started =~= before.started + last.started);
    assert(all.folders =~= before.folders + last.folders);
}

proof fn lemma_opened_in(opened: Map<u64, Set<u64>>, buffer: u64, servers: Seq<u64>, server: u64)
    requires
        servers.len() > 0,
    ensures
        opened_in(opened, buffer, servers).contains_key(buffer),
        opened_in(opened, buffer, servers)[buffer].contains(server) <==> servers.contains(server)
            || opened.contains_key(buffer) && opened[buffer].contains(server),
    decreases servers.len(),
{
    let earlier = servers.drop_last();
    contains_push(earlier, servers.last(), server);
    assert(earlier.push(servers.last()) =~= servers);
    if earlier.len() > 0 {
        lemma_opened_in(opened, buffer, earlier, server);
    } else {
        assert(opened_in(opened, buffer, earlier) == opened);
    }
}

/// A buffer that is opened in servers is open in them and in those that it was open in before.
pub proof fn opened_buffers_are_open(
    store: &mut LocalLspStore,
    buffer: u64,
    servers: Vec<u64>,
    server: u64,
)
    requires
        call_ensures(LocalLspStore::open_in_servers, (store, buffer, &servers), ()),
        servers@.len() > 0,
    ensures
        final(store).buffers_opened_in_servers@.contains_key(buffer),
        final(store).buffers_opened_in_servers@[buffer]@.contains(server) <==> servers@.contains(
            server,
        ) || old(store).buffers_opened_in_servers@.contains_key(buffer) && old(store).buffers_opened_in_servers@[buffer]@.contains(server),
        final(store).language_servers@ == old(store).language_servers@,
{
    let before = old(store)@.opened;
    let after = final(store)@.opened;
    lemma_opened_in(before, buffer, servers@, server);
    assert(after.contains_key(buffer) <==> final(store).buffers_opened_in_servers@.contains_key(buffer));
    assert(after[buffer] == final(store).buffers_opened_in_servers@[buffer]@);
    assert(before.contains_key(buffer) <==> old(store).buffers_opened_in_servers@.contains_key(
        buffer,
    ));
    if before.contains_key(buffer) {
        assert(before[buffer] == old(store).buffers_opened_in_servers@[buffer]@);
    }
}

/// A request to stop picks the servers whose numbers it names, those whose names it names, and
/// those of its buffers, and no others.
pub proof fn requests_pick_what_they_name(
    store: LocalLspStore,
    selectors: Vec<LanguageServerSelector>,
    buffer_servers: Vec<u64>,
    servers: Vec<u64>,
    server: u64,
    seed: SeedView,
    name: String,
    i: int,
)
    requires
        call_ensures(
            LocalLspStore::stop_local_language_servers_for_buffers,
            (&store, &selectors, &buffer_servers),
            servers,
        ),
    ensures
        buffer_servers@.contains(server) ==> servers@.contains(server),
        selectors@.contains(LanguageServerSelector::Id(server)) ==> servers@.contains(server),
        0 <= i < selectors@.len() && selectors@[i] == LanguageServerSelector::Name(name)
            && store.language_server_ids@.contains_key(seed) && seed.name == name@
            ==> servers@.contains(store.language_server_ids@[seed].id),
        selectors@.len() == 0 && !buffer_servers@.contains(server) ==> !servers@.contains(server),
{
    let ids = store@.ids;
    if selectors@.contains(LanguageServerSelector::Id(server)) {
        let k = choose|k: int|
            0 <= k < selectors@.len() && selectors@[k] == LanguageServerSelector::Id(server);
        assert(selectors@[k] matches LanguageServerSelector::Id(given) && given == server);
        assert(selects_id(selectors@, server));
    }
    if 0 <= i < selectors@.len() && selectors@[i] == LanguageServerSelector::Name(name)
        && store.language_server_ids@.contains_key(seed) && seed.name == name@ {
        assert(ids.contains_key(seed));
        let named = store.language_server_ids@[seed].id;
        assert(ids[seed].id == named);
        assert(serves(ids, seed, named));
        assert(selectors@[i] matches LanguageServerSelector::Name(given) && given@ == name@);
        assert(selects_name(selectors@, seed.name));
        assert(is_named(ids, selectors@, named));
    }
    if selectors@.len() == 0 && is_named(ids, selectors@, server) {
        let other = choose|other: SeedView| #[trigger]
            serves(ids, other, server) && selects_name(selectors@, other.name);
        assert(false);
    }
}

/// The servers of a worktree, and all servers, are those that seeds stand for.
pub proof fn seeds_stand_for_servers(
    store: LocalLspStore,
    worktree: u64,
    of_worktree: Vec<u64>,
    all: Vec<u64>,
    seed: SeedView,
    server: u64,
)
    requires
        call_ensures(
            LocalLspStore::language_server_ids_for_worktree,
            (&store, worktree),
            of_worktree,
        ),
        call_ensures(LocalLspStore::shutdown_all_language_servers, (&store,), all),
    ensures
        store.language_server_ids@.contains_key(seed) ==> all@.contains(
            store.language_server_ids@[seed].id,
        ),
        store.language_server_ids@.contains_key(seed) && seed.worktree_id == worktree
            ==> of_worktree@.contains(store.language_server_ids@[seed].id),
        all@.contains(server) ==> exists|s: SeedView| #[trigger]
            store.language_server_ids@.contains_key(s) && store.language_server_ids@[s].id
                == server,
        of_worktree@.contains(server) ==> exists|s: SeedView| #[trigger]
            store.language_server_ids@.contains_key(s) && store.language_server_ids@[s].id
                == server && s.worktree_id == worktree,
{
    let ids = store@.ids;
    if store.language_server_ids@.contains_key(seed) {
        let id = store.language_server_ids@[seed].id;
        assert(serves(ids, seed, id));
        assert(is_in_use(ids, id));
        if seed.worktree_id == worktree {
            assert(serves_worktree(ids, worktree, id));
        }
    }
    if all@.contains(server) {
        let s = choose|s: SeedView| serves(ids, s, server);
        assert(store.language_server_ids@.contains_key(s));
    }
    if of_worktree@.contains(server) {
        let s = choose|s: SeedView| #[trigger]
            serves(ids, s, server) && s.worktree_id == worktree;
        assert(store.language_server_ids@.contains_key(s));
    }
}

} // verus!
