//! What is told about language servers to whom a project is shared with.
use std::collections::{BTreeMap, BTreeSet};
use vstd::prelude::*;

use crate::ids::{ascending, map_get, map_keys, map_put, set_has};
use crate::text::same_text;

verus! {

/// A server as it is shown.
#[derive(Debug)]
pub struct ServerInfo {
    pub name: String,
    pub language_name: Option<String>,
    pub worktree: Option<u64>,
}

/// A server on the wire.
#[derive(Debug)]
pub struct ProtoLanguageServer {
    pub id: u64,
    pub name: String,
    pub language_name: Option<String>,
    pub worktree_id: Option<u64>,
}

/// Its wire form.
pub open spec fn wire_server(id: u64, info: ServerInfo) -> ProtoLanguageServer {
    ProtoLanguageServer {
        id,
        name: info.name,
        language_name: info.language_name,
        worktree_id: info.worktree,
    }
}

pub open spec fn read_server(server: ProtoLanguageServer) -> ServerInfo {
    ServerInfo {
        name: server.name,
        language_name: server.language_name,
        worktree: server.worktree_id,
    }
}

/// A server survives the wire.
pub proof fn server_round_trip(id: u64, info: ServerInfo)
    ensures
        read_server(wire_server(id, info)) == info,
        wire_server(id, info).id == id,
{
}

fn clone_opt(text: &Option<String>) -> (copy: Option<String>)
    ensures
        copy == *text,
{
    match text {
        Some(text) => Some(text.clone()),
        None => None,
    }
}

impl ServerInfo {
    pub fn to_proto(&self, id: u64) -> (wire: ProtoLanguageServer)
        ensures
            wire == wire_server(id, *self),
    {
        ProtoLanguageServer {
            id,
            name: self.name.clone(),
            language_name: clone_opt(&self.language_name),
            worktree_id: self.worktree,
        }
    }
}

/// The wire forms of those of the servers that exist.
pub open spec fn shared_servers(
    ids: Seq<u64>,
    infos: Map<u64, ServerInfo>,
    existing: Set<u64>,
) -> Seq<ProtoLanguageServer>
    decreases ids.len(),
{
    if ids.len() == 0 {
        Seq::empty()
    } else {
        let earlier = shared_servers(ids.drop_last(), infos, existing);
        let id = ids.last();
        if infos.contains_key(id) && existing.contains(id) {
            earlier.push(wire_server(id, infos[id]))
        } else {
            earlier
        }
    }
}

/// The servers are these, in ascending order of their numbers.
pub open spec fn lists_shared(
    wire: Seq<ProtoLanguageServer>,
    infos: Map<u64, ServerInfo>,
    existing: Set<u64>,
) -> bool {
    exists|ids: Seq<u64>| #[trigger]
        shared_servers(ids, infos, existing) == wire && ascending(ids) && forall|id: u64|
            ids.contains(id) <==> infos.contains_key(id)
}

/// What is told when a project is shared: all servers with a status that exist.
pub fn shared(infos: &BTreeMap<u64, ServerInfo>, existing: &BTreeSet<u64>) -> (wire: Vec<
    ProtoLanguageServer,
>)
    ensures
        lists_shared(wire@, infos@, existing@),
{
    let ids: Vec<u64> = map_keys(infos);
    let mut wire: Vec<ProtoLanguageServer> = Vec::new();
    let mut i: usize = 0;
    while i < ids.len()
        invariant
            i <= ids@.len(),
            wire@ == shared_servers(ids@.take(i as int), infos@, existing@),
        decreases ids@.len() - i,
    {
        assert(ids@.take(i + 1).drop_last() =~= ids@.take(i as int));
        assert(ids@.take(i + 1).last() == ids@[i as int]);
        if let Some(info) = map_get(infos, ids[i]) {
            if set_has(existing, ids[i]) {
                wire.push(info.to_proto(ids[i]));
            }
        }
        i += 1;
    }
    assert(ids@.take(i as int) =~= ids@);
    assert(shared_servers(ids@, infos@, existing@) == wire@);
    wire
}

/// The servers that were told of, by their numbers. Only as many are taken as there are
/// capabilities with them.
pub open spec fn received_servers(servers: Seq<ProtoLanguageServer>) -> Map<u64, ServerInfo>
    decreases servers.len(),
{
    if servers.len() == 0 {
        Map::empty()
    } else {
        received_servers(servers.drop_last()).insert(
            servers.last().id,
            read_server(servers.last()),
        )
    }
}

/// As many as there are of both.
pub open spec fn paired_count(servers: nat, capabilities: nat) -> nat {
    if servers <= capabilities {
        servers
    } else {
        capabilities
    }
}

/// Takes over the servers that a host tells of, in place of what was known.
pub fn set_language_server_statuses_from_proto(
    servers: &Vec<ProtoLanguageServer>,
    capability_count: usize,
) -> (infos: BTreeMap<u64, ServerInfo>)
    ensures
        infos@ == received_servers(
            servers@.take(paired_count(servers@.len(), capability_count as nat) as int),
        ),
{
    let count: usize = if servers.len() <= capability_count {
        servers.len()
    } else {
        capability_count
    };
    let mut infos: BTreeMap<u64, ServerInfo> = BTreeMap::new();
    let mut i: usize = 0;
    while i < count
        invariant
            i <= count <= servers@.len(),
            infos@ == received_servers(servers@.take(i as int)),
        decreases count - i,
    {
        assert(servers@.take(i + 1).drop_last() =~= servers@.take(i as int));
        assert(servers@.take(i + 1).last() == servers@[i as int]);
        let server: &ProtoLanguageServer = &servers[i];
        let info = ServerInfo {
            name: server.name.clone(),
            language_name: clone_opt(&server.language_name),
            worktree: server.worktree_id,
        };
        map_put(&mut infos, server.id, info);
        i += 1;
    }
    infos
}

/// Where the adapter of a server comes from.
#[derive(Debug)]
pub enum AdapterSource {
    /// The server runs here and has it.
    Server,
    /// It is looked up by the name of the server.
    Registry(String),
    Unknown,
}

/// Says where the adapter of a server comes from. A server that runs elsewhere is known by its
/// name.
pub fn language_server_adapter_for_id(
    infos: &BTreeMap<u64, ServerInfo>,
    id: u64,
    is_running_here: bool,
) -> (source: AdapterSource)
    ensures
        source == if is_running_here {
            AdapterSource::Server
        } else if infos@.contains_key(id) {
            AdapterSource::Registry(infos@[id].name)
        } else {
            AdapterSource::Unknown
        },
{
    if is_running_here {
        return AdapterSource::Server;
    }
    match map_get(infos, id) {
        Some(info) => AdapterSource::Registry(info.name.clone()),
        None => AdapterSource::Unknown,
    }
}

/// What becomes of the adapter of a server that runs elsewhere.
#[derive(Clone, Copy, Debug, PartialEq, Eq, Structural)]
pub enum AdapterRegistration {
    AlreadyRegistered,
    Register,
    NotAvailable,
}

/// An adapter with this name is among those of the language.
pub open spec fn names_adapter(names: Seq<String>, name: Seq<char>) -> bool {
    exists|i: int| 0 <= i < names.len() && (#[trigger] names[i])@ == name
}

/// Decides whether the adapter of a server that runs elsewhere is registered here.
pub fn try_register_remote_adapter_locally(
    registered: &Vec<String>,
    server_name: &str,
    is_available: bool,
) -> (registration: AdapterRegistration)
    ensures
        registration == if names_adapter(registered@, server_name@) {
            AdapterRegistration::AlreadyRegistered
        } else if is_available {
            AdapterRegistration::Register
        } else {
            AdapterRegistration::NotAvailable
        },
{
    let mut i: usize = 0;
    while i < registered.len()
        invariant
            i <= registered@.len(),
            forall|k: int| 0 <= k < i ==> (#[trigger] registered@[k])@ != server_name@,
        decreases registered@.len() - i,
    {
        if same_text(registered[i].as_str(), server_name) {
            assert(names_adapter(registered@, server_name@));
            return AdapterRegistration::AlreadyRegistered;
        }
        i += 1;
    }
    if is_available {
        AdapterRegistration::Register
    } else {
        AdapterRegistration::NotAvailable
    }
}

proof fn lemma_received_contains(servers: Seq<ProtoLanguageServer>, at: int)
    requires
        0 <= at < servers.len(),
        forall|i: int, j: int|
            0 <= i < j < servers.len() ==> (#[trigger] servers[i]).id < (#[trigger] servers[j]).id,
    ensures
        received_servers(servers).contains_key(servers[at].id),
        received_servers(servers)[servers[at].id] == read_server(servers[at]),
    decreases servers.len(),
{
    if at < servers.len() - 1 {
        let earlier = servers.drop_last();
        assert(servers[at].id < servers[servers.len() - 1].id);
        assert forall|i: int, j: int| 0 <= i < j < earlier.len() implies (
        #[trigger] earlier[i]).id < (#[trigger] earlier[j]).id by {
            assert(earlier[i] == servers[i] && earlier[j] == servers[j]);
        }
        lemma_received_contains(earlier, at);
    }
}

/// A guest learns of each server what the host knows of it.
pub proof fn guests_know_shared_servers(servers: Seq<ProtoLanguageServer>, at: int, info: ServerInfo)
    requires
        0 <= at < servers.len(),
        forall|i: int, j: int|
            0 <= i < j < servers.len() ==> (#[trigger] servers[i]).id < (#[trigger] servers[j]).id,
        servers[at] == wire_server(servers[at].id, info),
    ensures
        received_servers(servers).contains_key(servers[at].id),
        received_servers(servers)[servers[at].id] == info,
{
    lemma_received_contains(servers, at);
}
proof fn servers_are_found_by_their_ids(
    ids: Seq<u64>,
    infos: Map<u64, ServerInfo>,
    existing: Set<u64>,
)
    requires
        ascending(ids),
    ensures
        ({
            let wire = shared_servers(ids, infos, existing);
            &&& forall|i: int|
                0 <= i < wire.len() ==> {
                    let server = #[trigger] wire[i];
                    &&& ids.contains(server.id)
                    &&& infos.contains_key(server.id)
                    &&& existing.contains(server.id)
                    &&& server == wire_server(server.id, infos[server.id])
                }
            &&& forall|i: int, j: int|
                0 <= i < j < wire.len() ==> (#[trigger] wire[i]).id < (#[trigger] wire[j]).id
            &&& forall|id: u64| #[trigger]
                ids.contains(id) && infos.contains_key(id) && existing.contains(id) ==> exists|i: int|
                    0 <= i < wire.len() && (#[trigger] wire[i]).id == id
        }),
    decreases ids.len(),
{
    if ids.len() > 0 {
        let shorter = ids.drop_last();
        servers_are_found_by_their_ids(shorter, infos, existing);
        let earlier = shared_servers(shorter, infos, existing);
        let wire = shared_servers(ids, infos, existing);
        assert(ids[ids.len() - 1] == ids.last());
        assert forall|id: u64| shorter.contains(id) implies ids.contains(id) && id < ids.last() by {
            let k = choose|k: int| 0 <= k < shorter.len() && shorter[k] == id;
            assert(ids[k] == id);
        }
        assert forall|id: u64| #[trigger]
            ids.contains(id) && infos.contains_key(id) && existing.contains(id) implies exists|
            i: int,
        | 0 <= i < wire.len() && (#[trigger] wire[i]).id == id by {
            let k = choose|k: int| 0 <= k < ids.len() && ids[k] == id;
            if k < ids.len() - 1 {
                assert(shorter[k] == id);
                assert(shorter.contains(id));
                let i = choose|i: int| 0 <= i < earlier.len() && (#[trigger] earlier[i]).id == id;
                assert(wire[i] == earlier[i]);
            } else {
                assert(wire[wire.len() - 1].id == id);
            }
        }
    }
}

/// Exactly the servers with a status that exist are told of, each once and with all that is
/// known of it, in ascending order of their numbers.
pub proof fn existing_servers_are_shared(
    infos: BTreeMap<u64, ServerInfo>,
    existing: BTreeSet<u64>,
    wire: Vec<ProtoLanguageServer>,
    i: int,
    j: int,
    id: u64,
)
    requires
        call_ensures(shared, (&infos, &existing), wire),
        0 <= i < j < wire@.len(),
    ensures
        wire@[i].id < wire@[j].id,
        infos@.contains_key(wire@[i].id) && existing@.contains(wire@[i].id),
        wire@[i].name == infos@[wire@[i].id].name,
        wire@[i].language_name == infos@[wire@[i].id].language_name,
        wire@[i].worktree_id == infos@[wire@[i].id].worktree,
        infos@.contains_key(id) && existing@.contains(id) ==> exists|k: int|
            0 <= k < wire@.len() && (#[trigger] wire@[k]).id == id,
{
    let ids = choose|ids: Seq<u64>| #[trigger]
        shared_servers(ids, infos@, existing@) == wire@ && ascending(ids) && forall|id: u64|
            ids.contains(id) <==> infos@.contains_key(id);
    servers_are_found_by_their_ids(ids, infos@, existing@);
    assert(ids.contains(id) <==> infos@.contains_key(id));
}

proof fn received_servers_are_the_last_ones(servers: Seq<ProtoLanguageServer>, at: int, id: u64)
    requires
        0 <= at < servers.len(),
        forall|i: int| at < i < servers.len() ==> (#[trigger] servers[i]).id != servers[at].id,
    ensures
        received_servers(servers).contains_key(servers[at].id),
        received_servers(servers)[servers[at].id] == read_server(servers[at]),
        received_servers(servers).contains_key(id) ==> exists|i: int|
            0 <= i < servers.len() && (#[trigger] servers[i]).id == id,
    decreases servers.len(),
{
    let shorter = servers.drop_last();
    assert(servers.last() == servers[servers.len() - 1]);
    if at < servers.len() - 1 {
        assert forall|i: int| at < i < shorter.len() implies (#[trigger] shorter[i]).id
            != shorter[at].id by {
            assert(shorter[i] == servers[i]);
        }
        received_servers_are_the_last_ones(shorter, at, id);
    }
    received_servers_come_from_somewhere(servers, id);
}

proof fn received_servers_come_from_somewhere(servers: Seq<ProtoLanguageServer>, id: u64)
    ensures
        received_servers(servers).contains_key(id) ==> exists|i: int|
            0 <= i < servers.len() && (#[trigger] servers[i]).id == id,
    decreases servers.len(),
{
    if servers.len() > 0 {
        let shorter = servers.drop_last();
        received_servers_come_from_somewhere(shorter, id);
        if received_servers(shorter).contains_key(id) {
            let i = choose|i: int| 0 <= i < shorter.len() && (#[trigger] shorter[i]).id == id;
            assert(servers[i].id == id);
        }
        assert(servers[servers.len() - 1] == servers.last());
    }
}

/// A guest knows of a server what the last word about it said, and of no other servers. Those
/// without capabilities are left out.
pub proof fn guests_know_the_last_word(
    servers: Vec<ProtoLanguageServer>,
    capability_count: usize,
    infos: BTreeMap<u64, ServerInfo>,
    at: int,
    id: u64,
)
    requires
        call_ensures(
            set_language_server_statuses_from_proto,
            (&servers, capability_count),
            infos,
        ),
        0 <= at < servers@.len(),
        at < capability_count,
        forall|i: int| at < i < servers@.len() ==> (#[trigger] servers@[i]).id != servers@[at].id,
    ensures
        infos@.contains_key(servers@[at].id),
        infos@[servers@[at].id].name == servers@[at].name,
        infos@[servers@[at].id].language_name == servers@[at].language_name,
        infos@[servers@[at].id].worktree == servers@[at].worktree_id,
        infos@.contains_key(id) ==> exists|i: int|
            0 <= i < servers@.len() && i < capability_count && (#[trigger] servers@[i]).id == id,
{
    let count = paired_count(servers@.len(), capability_count as nat) as int;
    let paired = servers@.take(count);
    assert forall|i: int| at < i < paired.len() implies (#[trigger] paired[i]).id
        != paired[at].id by {
        assert(paired[i] == servers@[i]);
    }
    received_servers_are_the_last_ones(paired, at, id);
    if infos@.contains_key(id) {
        let i = choose|i: int| 0 <= i < paired.len() && (#[trigger] paired[i]).id == id;
        assert(servers@[i].id == id);
    }
}

/// A server on the wire has the number it is asked for under, and all that is known of it.
pub proof fn servers_are_sent_whole(info: ServerInfo, id: u64, wire: ProtoLanguageServer)
    requires
        call_ensures(ServerInfo::to_proto, (&info, id), wire),
    ensures
        wire.id == id,
        wire.name == info.name,
        wire.language_name == info.language_name,
        wire.worktree_id == info.worktree,
{
}

/// The adapter of a server that runs here is its own; that of another is known by the name of
/// the server, if the server is known at all.
pub proof fn adapters_come_from_their_servers(
    infos: BTreeMap<u64, ServerInfo>,
    id: u64,
    is_running_here: bool,
    source: AdapterSource,
)
    requires
        call_ensures(language_server_adapter_for_id, (&infos, id, is_running_here), source),
    ensures
        is_running_here <==> source is Server,
        !is_running_here && infos@.contains_key(id) <==> source is Registry,
        source is Registry ==> source->Registry_0 == infos@[id].name,
{
}

/// An adapter is registered here only if there is one and none of that name is there yet.
pub proof fn adapters_are_registered_once(
    registered: Vec<String>,
    server_name: &str,
    is_available: bool,
    registration: AdapterRegistration,
    i: int,
)
    requires
        call_ensures(
            try_register_remote_adapter_locally,
            (&registered, server_name, is_available),
            registration,
        ),
    ensures
        0 <= i < registered@.len() && registered@[i]@ == server_name@ ==> registration
            is AlreadyRegistered,
        registered@.len() == 0 ==> !(registration is AlreadyRegistered),
        registration is AlreadyRegistered ==> exists|k: int|
            0 <= k < registered@.len() && (#[trigger] registered@[k])@ == server_name@,
        registration is Register ==> is_available,
        registration is NotAvailable ==> !is_available,
{
    assert(0 <= i < registered@.len() && registered@[i]@ == server_name@ ==> names_adapter(
        registered@,
        server_name@,
    ));
}

} // verus!
