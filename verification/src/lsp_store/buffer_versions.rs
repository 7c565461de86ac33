//! The versions of each buffer that its language servers know.
use std::collections::BTreeMap;
use vstd::prelude::*;

use crate::ids::{map_get, map_has, map_put, map_take};

verus! {

/// A state of a buffer that was sent to a server under a version. The snapshot itself
/// is found by its number.
#[derive(Clone, Copy, Debug, PartialEq, Eq, Structural)]
pub struct LspBufferSnapshot {
    pub version: i32,
    pub snapshot: u64,
}

/// How a server wants to be told of changes.
#[derive(Clone, Copy, Debug, PartialEq, Eq, Structural)]
pub enum SyncKind {
    Full,
    Incremental,
    /// No changes are sent.
    Off,
}

/// A change to send to a server.
#[derive(Clone, Copy, Debug, PartialEq, Eq, Structural)]
pub struct ChangeNotice {
    pub server_id: u64,
    pub version: i32,
    /// The whole text is sent; otherwise the edits since the snapshot `since`.
    pub full: bool,
    pub since: u64,
}

/// Why there is no snapshot of a version.
#[derive(Clone, Copy, Debug, PartialEq, Eq, Structural)]
pub enum VersionError {
    /// The server does not know the buffer.
    NoSnapshots,
    /// The server was never sent that version, or it was dropped.
    NotFound,
}

pub const OLD_VERSIONS_TO_RETAIN: i32 = 10;

/// The versions that servers know, by buffer and server.
#[derive(Debug)]
pub struct BufferVersions {
    pub snapshots: BTreeMap<u64, BTreeMap<u64, Vec<LspBufferSnapshot>>>,
}

pub type Histories = Map<(u64, u64), Seq<LspBufferSnapshot>>;

pub open spec fn histories(
    snapshots: Map<u64, BTreeMap<u64, Vec<LspBufferSnapshot>>>,
) -> Histories {
    Map::new(
        |key: (u64, u64)| snapshots.contains_key(key.0) && snapshots[key.0]@.contains_key(key.1),
        |key: (u64, u64)| snapshots[key.0]@[key.1]@,
    )
}

impl View for BufferVersions {
    type V = Histories;

    open spec fn view(&self) -> Histories {
        histories(self.snapshots@)
    }
}

/// The versions that one server knows of one buffer: at least one, in ascending order,
/// with room for the arithmetic on them.
pub open spec fn is_history(history: Seq<LspBufferSnapshot>) -> bool {
    &&& history.len() > 0
    &&& forall|i: int, j: int|
        0 <= i < j < history.len() ==> history[i].version < history[j].version
    &&& history.last().version <= i32::MAX - OLD_VERSIONS_TO_RETAIN
}

pub open spec fn all_histories(all: Histories) -> bool {
    forall|key: (u64, u64)| #[trigger] all.contains_key(key) ==> is_history(all[key])
}

pub open spec fn first_version(snapshot: u64) -> Seq<LspBufferSnapshot> {
    seq![LspBufferSnapshot { version: 0, snapshot }]
}

/// The snapshot with a version.
pub open spec fn has_version(history: Seq<LspBufferSnapshot>, version: i32, snapshot: u64) -> bool {
    history.contains(LspBufferSnapshot { version, snapshot })
}

pub open spec fn knows_version(history: Seq<LspBufferSnapshot>, version: i32) -> bool {
    exists|snapshot: u64| #[trigger] has_version(history, version, snapshot)
}

/// The history without what is too old to be asked for again.
pub open spec fn recent(history: Seq<LspBufferSnapshot>, version: i32) -> Seq<LspBufferSnapshot> {
    history.filter(|s: LspBufferSnapshot| s.version + OLD_VERSIONS_TO_RETAIN >= version)
}

/// The versions and what is sent after a buffer was edited: every server that takes
/// changes gets a new version, up to the first server that does not know the buffer.
pub ghost struct Edited {
    pub histories: Histories,
    pub notices: Seq<ChangeNotice>,
    /// A server did not know the buffer.
    pub stopped: bool,
}

pub open spec fn edited(
    all: Histories,
    buffer: u64,
    servers: Seq<(u64, SyncKind)>,
    snapshot: u64,
) -> Edited
    decreases servers.len(),
{
    if servers.len() == 0 {
        Edited { histories: all, notices: Seq::empty(), stopped: false }
    } else {
        let before = edited(all, buffer, servers.drop_last(), snapshot);
        let (server, sync) = servers.last();
        if before.stopped {
            before
        } else if !before.histories.contains_key((buffer, server)) {
            Edited { stopped: true, ..before }
        } else if sync == SyncKind::Off {
            before
        } else {
            let history = before.histories[(buffer, server)];
            let version = (history.last().version + 1) as i32;
            Edited {
                histories: before.histories.insert(
                    (buffer, server),
                    history.push(LspBufferSnapshot { version, snapshot }),
                ),
                notices: before.notices.push(
                    ChangeNotice {
                        server_id: server,
                        version,
                        full: sync == SyncKind::Full,
                        since: history.last().snapshot,
                    },
                ),
                stopped: false,
            }
        }
    }
}

/// The servers among the given ones that know the buffer, each of them once.
pub open spec fn closed_in(known: Set<u64>, servers: Seq<u64>) -> Seq<u64>
    decreases servers.len(),
{
    if servers.len() == 0 {
        Seq::empty()
    } else {
        let earlier = closed_in(known, servers.drop_last());
        if known.contains(servers.last()) && !earlier.contains(servers.last()) {
            earlier.push(servers.last())
        } else {
            earlier
        }
    }
}

impl BufferVersions {
    pub open spec fn well_formed(&self) -> bool {
        all_histories(self@)
    }

    /// No server knows any buffer.
    pub fn new() -> (versions: Self)
        ensures
            versions.well_formed(),
            versions@ == Map::<(u64, u64), Seq<LspBufferSnapshot>>::empty(),
    {
        let versions = BufferVersions { snapshots: BTreeMap::new() };
        assert(versions@ =~= Map::<(u64, u64), Seq<LspBufferSnapshot>>::empty());
        versions
    }

    /// Puts a history in place.
    fn put(&mut self, buffer: u64, server: u64, history: Vec<LspBufferSnapshot>)
        ensures
            final(self)@ == old(self)@.insert((buffer, server), history@),
    {
        let ghost before = self.snapshots@;
        let mut known: BTreeMap<u64, Vec<LspBufferSnapshot>> = match map_take(
            &mut self.snapshots,
            buffer,
        ) {
            Some(known) => known,
            None => BTreeMap::new(),
        };
        map_put(&mut known, server, history);
        map_put(&mut self.snapshots, buffer, known);
        proof {
            let after = self.snapshots@;
            assert forall|key: (u64, u64)|
                histories(after).contains_key(key) <==> histories(before).contains_key(key) || key
                    == (buffer, server) by {}
            assert(self@ =~= old(self)@.insert((buffer, server), history@));
        }
    }

    /// Takes a history out.
    fn take(&mut self, buffer: u64, server: u64) -> (history: Option<Vec<LspBufferSnapshot>>)
        ensures
            history is Some <==> old(self)@.contains_key((buffer, server)),
            history matches Some(history) ==> history@ == old(self)@[(buffer, server)],
            final(self)@ == old(self)@.remove((buffer, server)),
    {
        let ghost before = self.snapshots@;
        match map_take(&mut self.snapshots, buffer) {
            None => {
                assert(self@ =~= old(self)@.remove((buffer, server)));
                None
            },
            Some(known) => {
                let mut known: BTreeMap<u64, Vec<LspBufferSnapshot>> = known;
                let history = map_take(&mut known, server);
                map_put(&mut self.snapshots, buffer, known);
                assert(self@ =~= old(self)@.remove((buffer, server)));
                history
            },
        }
    }

    /// Whether a server knows a buffer.
    pub fn is_registered(&self, buffer: u64, server: u64) -> (known: bool)
        ensures
            known == self@.contains_key((buffer, server)),
    {
        match map_get(&self.snapshots, buffer) {
            Some(known) => map_has(known, server),
            None => false,
        }
    }

    /// Makes a buffer known to a server, as its version zero, unless it is known
    /// already. Says whether the server has to be told.
    pub fn register(&mut self, buffer: u64, server: u64, snapshot: u64) -> (registered: bool)
        requires
            old(self).well_formed(),
        ensures
            final(self).well_formed(),
            registered == !old(self)@.contains_key((buffer, server)),
            final(self)@ == (if registered {
                old(self)@.insert((buffer, server), first_version(snapshot))
            } else {
                old(self)@
            }),
    {
        if self.is_registered(buffer, server) {
            return false;
        }
        let mut history: Vec<LspBufferSnapshot> = Vec::new();
        history.push(LspBufferSnapshot { version: 0, snapshot });
        assert(history@ =~= first_version(snapshot));
        self.put(buffer, server, history);
        true
    }

    /// The snapshot that a server means by a version, or the current one where it names
    /// none. Snapshots that are more than ten versions older are dropped.
    pub fn buffer_snapshot_for_lsp_version(
        &mut self,
        buffer: u64,
        server: u64,
        version: Option<i32>,
        current: u64,
    ) -> (found: Result<u64, VersionError>)
        requires
            old(self).well_formed(),
        ensures
            final(self).well_formed(),
            match version {
                None => found == Ok::<u64, VersionError>(current) && final(self)@ == old(self)@,
                Some(version) => if !old(self)@.contains_key((buffer, server)) {
                    // A server may name version zero of a buffer that it does not know.
                    &&& final(self)@ == old(self)@
                    &&& found == (if version == 0 {
                        Ok(current)
                    } else {
                        Err(VersionError::NoSnapshots)
                    })
                } else {
                    let history = old(self)@[(buffer, server)];
                    match found {
                        Ok(snapshot) => has_version(history, version, snapshot) && final(self)@
                            == old(self)@.insert((buffer, server), recent(history, version)),
                        Err(error) => !knows_version(history, version) && error
                            == VersionError::NotFound && final(self)@ == old(self)@,
                    }
                },
            },
    {
        let version: i32 = match version {
            Some(version) => version,
            None => return Ok(current),
        };
        let ghost before = self@;
        match self.take(buffer, server) {
            None => {
                assert(self@ =~= before);
                if version == 0 {
                    Ok(current)
                } else {
                    Err(VersionError::NoSnapshots)
                }
            },
            Some(history) => {
                let ghost given = history@;
                assert(is_history(given));
                let mut found: Option<u64> = None;
                let mut kept: Vec<LspBufferSnapshot> = Vec::new();
                let ghost keep = |s: LspBufferSnapshot|
                    s.version + OLD_VERSIONS_TO_RETAIN >= version;
                let mut i: usize = 0;
                assert(given.take(0).filter(keep) =~= Seq::<LspBufferSnapshot>::empty()) by {
                    reveal(Seq::filter);
                }
                while i < history.len()
                    invariant
                        i <= history@.len(),
                        given == history@,
                        is_history(given),
                        keep == (|s: LspBufferSnapshot|
                            s.version + OLD_VERSIONS_TO_RETAIN >= version),
                        kept@ == given.take(i as int).filter(keep),
                        found matches Some(snapshot) ==> has_version(given, version, snapshot),
                        found is None ==> forall|j: int|
                            0 <= j < i ==> (#[trigger] given[j]).version != version,
                        found is Some ==> kept@.len() > 0,
                        forall|j: int|
                            0 <= j < kept@.len() ==> (#[trigger] kept@[j]).version
                                <= i32::MAX - OLD_VERSIONS_TO_RETAIN,
                        forall|j: int|
                            0 <= j < kept@.len() && i < given.len() ==> (#[trigger] kept@[j]).version
                                < given[i as int].version,
                        forall|j: int, k: int|
                            0 <= j < k < kept@.len() ==> kept@[j].version < kept@[k].version,
                    decreases history@.len() - i,
                {
                    let entry: LspBufferSnapshot = history[i];
                    proof {
                        assert(given.take(i + 1) =~= given.take(i as int).push(entry));
                        assert(given.take(i + 1).drop_last() =~= given.take(i as int));
                        assert(entry.version <= given.last().version) by {
                            if i < given.len() - 1 {
                                assert(given[i as int].version < given[given.len() - 1].version);
                            }
                        }
                        assert(given.take(i + 1).filter(keep) == (if keep(entry) {
                            given.take(i as int).filter(keep).push(entry)
                        } else {
                            given.take(i as int).filter(keep)
                        })) by {
                            reveal(Seq::filter);
                        }
                    }
                    if entry.version == version {
                        assert(given[i as int] == LspBufferSnapshot {
                            version,
                            snapshot: entry.snapshot,
                        });
                        found = Some(entry.snapshot);
                    }
                    if entry.version + OLD_VERSIONS_TO_RETAIN >= version {
                        kept.push(entry);
                    }
                    i += 1;
                }
                assert(given.take(i as int) =~= given);
                match found {
                    Some(snapshot) => {
                        self.put(buffer, server, kept);
                        assert(self@ =~= before.insert((buffer, server), recent(given, version)));
                        Ok(snapshot)
                    },
                    None => {
                        self.put(buffer, server, history);
                        assert(self@ =~= before);
                        Err(VersionError::NotFound)
                    },
                }
            },
        }
    }

    /// A buffer was edited: makes the new version and says what to send.
    pub fn on_buffer_edited(
        &mut self,
        buffer: u64,
        servers: &Vec<(u64, SyncKind)>,
        snapshot: u64,
    ) -> (notices: Vec<ChangeNotice>)
        requires
            old(self).well_formed(),
            // Versions do not run out.
            forall|key: (u64, u64)| #[trigger]
                old(self)@.contains_key(key) ==> old(self)@[key].last().version + servers@.len()
                    <= i32::MAX - OLD_VERSIONS_TO_RETAIN,
        ensures
            final(self).well_formed(),
            final(self)@ == edited(old(self)@, buffer, servers@, snapshot).histories,
            notices@ == edited(old(self)@, buffer, servers@, snapshot).notices,
    {
        let mut notices: Vec<ChangeNotice> = Vec::new();
        let mut stopped: bool = false;
        let mut i: usize = 0;
        let ghost all = self@;
        while i < servers.len()
            invariant
                i <= servers@.len(),
                all == old(self)@,
                self.well_formed(),
                self@ == edited(all, buffer, servers@.take(i as int), snapshot).histories,
                notices@ == edited(all, buffer, servers@.take(i as int), snapshot).notices,
                stopped == edited(all, buffer, servers@.take(i as int), snapshot).stopped,
                forall|key: (u64, u64)| #[trigger]
                    self@.contains_key(key) ==> self@[key].last().version + (servers@.len() - i)
                        <= i32::MAX - OLD_VERSIONS_TO_RETAIN,
            decreases servers@.len() - i,
        {
            let (server, sync) = servers[i];
            proof {
                assert(servers@.take(i + 1).drop_last() =~= servers@.take(i as int));
                assert(servers@.take(i + 1).last() == servers@[i as int]);
            }
            if !stopped {
                if !self.is_registered(buffer, server) {
                    stopped = true;
                } else if sync != SyncKind::Off {
                    let ghost before = self@;
                    if let Some(history) = self.take(buffer, server) {
                        let mut history: Vec<LspBufferSnapshot> = history;
                        let ghost given = history@;
                        assert(is_history(given));
                        let last: LspBufferSnapshot = history[history.len() - 1];
                        assert(before[(buffer, server)].last().version + (servers@.len() - i)
                            <= i32::MAX - OLD_VERSIONS_TO_RETAIN);
                        let version: i32 = last.version + 1;
                        history.push(LspBufferSnapshot { version, snapshot });
                        notices.push(
                            ChangeNotice {
                                server_id: server,
                                version,
                                full: sync == SyncKind::Full,
                                since: last.snapshot,
                            },
                        );
                        proof {
                            assert forall|j: int, k: int| 0 <= j < k < history@.len() implies
                                history@[j].version < history@[k].version by {
                                if k == given.len() && j < given.len() - 1 {
                                    assert(given[j].version < given[given.len() - 1].version);
                                }
                            }
                            assert(is_history(history@));
                        }
                        self.put(buffer, server, history);
                        assert(self@ =~= before.insert((buffer, server), history@));
                    }
                }
            }
            i += 1;
        }
        assert(servers@.take(i as int) =~= servers@);
        notices
    }

    /// Forgets a buffer. Says which of the given running servers have to be told that it
    /// was closed.
    pub fn unregister_buffer_from_language_servers(&mut self, buffer: u64, servers: &Vec<u64>) -> (
        closed: Vec<u64>)
        requires
            old(self).well_formed(),
        ensures
            final(self).well_formed(),
            closed@ == closed_in(
                Set::new(|server: u64| old(self)@.contains_key((buffer, server))),
                servers@,
            ),
            forall|key: (u64, u64)|
                (#[trigger] final(self)@.contains_key(key) <==> old(self)@.contains_key(key)
                    && key.0 != buffer) && (final(self)@.contains_key(key) ==> final(self)@[key]
                    == old(self)@[key]),
    {
        let ghost all = self@;
        let ghost known = Set::new(|server: u64| all.contains_key((buffer, server)));
        let mut closed: Vec<u64> = Vec::new();
        let mut map: BTreeMap<u64, Vec<LspBufferSnapshot>> = match map_take(
            &mut self.snapshots,
            buffer,
        ) {
            Some(map) => map,
            None => BTreeMap::new(),
        };
        let mut i: usize = 0;
        while i < servers.len()
            invariant
                i <= servers@.len(),
                closed@ == closed_in(known, servers@.take(i as int)),
                forall|server: u64| #[trigger]
                    map@.contains_key(server) <==> known.contains(server) && !closed@.contains(
                        server,
                    ),
            decreases servers@.len() - i,
        {
            let server: u64 = servers[i];
            let ghost before = closed@;
            assert(servers@.take(i + 1).drop_last() =~= servers@.take(i as int));
            assert(servers@.take(i + 1).last() == servers@[i as int]);
            if map_take(&mut map, server).is_some() {
                closed.push(server);
                assert forall|s: u64| #[trigger]
                    map@.contains_key(s) <==> known.contains(s) && !closed@.contains(s) by {
                    crate::ids::contains_push(before, server, s);
                }
            }
            i += 1;
        }
        assert(servers@.take(i as int) =~= servers@);
        proof {
            assert forall|key: (u64, u64)|
                (#[trigger] self@.contains_key(key) <==> all.contains_key(key) && key.0 != buffer)
                    && (self@.contains_key(key) ==> self@[key] == all[key]) by {}
        }
        closed
    }
}

/// A server that is asked about an edit that it was just sent finds it: the version in
/// the notice stands for the new state of the buffer.
pub proof fn sent_version_is_known(all: Histories, buffer: u64, server: u64, sync: SyncKind, snapshot: u64)
    requires
        all_histories(all),
        all.contains_key((buffer, server)),
        all[(buffer, server)].last().version < i32::MAX - OLD_VERSIONS_TO_RETAIN,
        sync != SyncKind::Off,
    ensures
        ({
            let result = edited(all, buffer, seq![(server, sync)], snapshot);
            &&& result.notices.len() == 1
            &&& has_version(
                result.histories[(buffer, server)],
                result.notices[0].version,
                snapshot,
            )
            &&& result.notices[0].version > all[(buffer, server)].last().version
        }),
{
    let servers = seq![(server, sync)];
    assert(servers.drop_last() =~= Seq::<(u64, SyncKind)>::empty());
    reveal_with_fuel(edited, 2);
    let history = all[(buffer, server)];
    let result = edited(all, buffer, servers, snapshot);
    assert(result.histories[(buffer, server)][history.len() as int] == LspBufferSnapshot {
        version: result.notices[0].version,
        snapshot,
    });
}

/// How many of the servers come before the first that does not know the buffer.
pub open spec fn known_prefix(all: Histories, buffer: u64, servers: Seq<(u64, SyncKind)>) -> int
    decreases servers.len(),
{
    if servers.len() == 0 {
        0
    } else {
        let earlier = known_prefix(all, buffer, servers.drop_last());
        if earlier == servers.len() - 1 && all.contains_key((buffer, servers.last().0)) {
            servers.len() as int
        } else {
            earlier
        }
    }
}

/// No server is listed twice.
pub open spec fn each_once(servers: Seq<(u64, SyncKind)>) -> bool {
    forall|i: int, j: int| 0 <= i < j < servers.len() ==> (#[trigger] servers[i]).0 != (
    #[trigger] servers[j]).0
}

/// What a server is told of an edit that has some versions of the buffer.
pub open spec fn notice_for(
    history: Seq<LspBufferSnapshot>,
    server: u64,
    sync: SyncKind,
    notice: ChangeNotice,
) -> bool {
    &&& notice.server_id == server
    &&& sync != SyncKind::Off
    &&& notice.full <==> sync == SyncKind::Full
    &&& notice.version == history.last().version + 1
    &&& notice.since == history.last().snapshot
}

proof fn lemma_known_prefix(all: Histories, buffer: u64, servers: Seq<(u64, SyncKind)>)
    ensures
        0 <= known_prefix(all, buffer, servers) <= servers.len(),
        forall|i: int|
            0 <= i < known_prefix(all, buffer, servers) ==> all.contains_key(
                (buffer, (#[trigger] servers[i]).0),
            ),
    decreases servers.len(),
{
    if servers.len() > 0 {
        lemma_known_prefix(all, buffer, servers.drop_last());
        let earlier = servers.drop_last();
        assert forall|i: int| 0 <= i < known_prefix(all, buffer, servers) implies all.contains_key(
            (buffer, (#[trigger] servers[i]).0),
        ) by {
            if i < earlier.len() {
                assert(earlier[i] == servers[i]);
            }
        }
    }
}

/// There is room for as many more versions.
spec fn has_room(all: Histories, count: int) -> bool {
    &&& all_histories(all)
    &&& forall|key: (u64, u64)| #[trigger]
        all.contains_key(key) ==> all[key].last().version + count <= i32::MAX
            - OLD_VERSIONS_TO_RETAIN
}

proof fn lemma_stopped(all: Histories, buffer: u64, servers: Seq<(u64, SyncKind)>, snapshot: u64)
    ensures
        edited(all, buffer, servers, snapshot).stopped <==> known_prefix(all, buffer, servers)
            < servers.len(),
        edited(all, buffer, servers, snapshot).histories.dom() == all.dom(),
    decreases servers.len(),
{
    lemma_known_prefix(all, buffer, servers);
    if servers.len() > 0 {
        lemma_stopped(all, buffer, servers.drop_last(), snapshot);
        lemma_known_prefix(all, buffer, servers.drop_last());
        assert(edited(all, buffer, servers, snapshot).histories.dom() =~= all.dom());
    }
}

proof fn lemma_untold(
    all: Histories,
    buffer: u64,
    servers: Seq<(u64, SyncKind)>,
    snapshot: u64,
    key: (u64, u64),
)
    requires
        all.contains_key(key),
        key.0 != buffer || forall|i: int|
            0 <= i < known_prefix(all, buffer, servers) && (#[trigger] servers[i]).0 == key.1
                ==> servers[i].1 == SyncKind::Off,
    ensures
        edited(all, buffer, servers, snapshot).histories[key] == all[key],
    decreases servers.len(),
{
    if servers.len() > 0 {
        let earlier = servers.drop_last();
        lemma_known_prefix(all, buffer, servers);
        lemma_known_prefix(all, buffer, earlier);
        lemma_stopped(all, buffer, earlier, snapshot);
        if key.0 == buffer {
            assert forall|i: int|
                0 <= i < known_prefix(all, buffer, earlier) && (#[trigger] earlier[i]).0
                    == key.1 implies earlier[i].1 == SyncKind::Off by {
                assert(servers[i] == earlier[i]);
            }
            assert(servers[servers.len() - 1] == servers.last());
        }
        lemma_untold(all, buffer, earlier, snapshot, key);
    }
}

proof fn lemma_told(
    all: Histories,
    buffer: u64,
    servers: Seq<(u64, SyncKind)>,
    snapshot: u64,
    i: int,
) -> (n: int)
    requires
        has_room(all, 1),
        each_once(servers),
        0 <= i < known_prefix(all, buffer, servers),
        servers[i].1 != SyncKind::Off,
    ensures
        ({
            let result = edited(all, buffer, servers, snapshot);
            let history = all[(buffer, servers[i].0)];
            let now = result.histories[(buffer, servers[i].0)];
            &&& 0 <= n < result.notices.len()
            &&& notice_for(history, servers[i].0, servers[i].1, result.notices[n])
            &&& now == history.push(
                LspBufferSnapshot { version: result.notices[n].version, snapshot },
            )
        }),
    decreases servers.len(),
{
    lemma_known_prefix(all, buffer, servers);
    let earlier = servers.drop_last();
    lemma_known_prefix(all, buffer, earlier);
    lemma_stopped(all, buffer, earlier, snapshot);
    let before = edited(all, buffer, earlier, snapshot);
    let key = (buffer, servers[i].0);
    assert(all.contains_key(key));
    if i < servers.len() - 1 {
        assert(earlier[i] == servers[i]);
        assert(servers[i].0 != servers[servers.len() - 1].0);
        assert forall|a: int, b: int| 0 <= a < b < earlier.len() implies (
        #[trigger] earlier[a]).0 != (#[trigger] earlier[b]).0 by {
            assert(servers[a].0 != servers[b].0);
        }
        lemma_told(all, buffer, earlier, snapshot, i)
    } else {
        assert forall|a: int|
            0 <= a < known_prefix(all, buffer, earlier) && (#[trigger] earlier[a]).0
                == key.1 implies earlier[a].1 == SyncKind::Off by {
            assert(servers[a].0 != servers[i].0);
        }
        lemma_untold(all, buffer, earlier, snapshot, key);
        before.notices.len() as int
    }
}

proof fn lemma_notice(
    all: Histories,
    buffer: u64,
    servers: Seq<(u64, SyncKind)>,
    snapshot: u64,
    n: int,
) -> (i: int)
    requires
        has_room(all, 1),
        each_once(servers),
        0 <= n < edited(all, buffer, servers, snapshot).notices.len(),
    ensures
        0 <= i < known_prefix(all, buffer, servers),
        notice_for(
            all[(buffer, servers[i].0)],
            servers[i].0,
            servers[i].1,
            edited(all, buffer, servers, snapshot).notices[n],
        ),
    decreases servers.len(),
{
    lemma_known_prefix(all, buffer, servers);
    let earlier = servers.drop_last();
    let before = edited(all, buffer, earlier, snapshot);
    lemma_stopped(all, buffer, earlier, snapshot);
    if n < before.notices.len() {
        lemma_known_prefix(all, buffer, earlier);
        assert forall|a: int, b: int| 0 <= a < b < earlier.len() implies (
        #[trigger] earlier[a]).0 != (#[trigger] earlier[b]).0 by {
            assert(servers[a].0 != servers[b].0);
        }
        let i = lemma_notice(all, buffer, earlier, snapshot, n);
        assert(earlier[i] == servers[i]);
        i
    } else {
        let last = servers.len() - 1;
        let key = (buffer, servers[last].0);
        lemma_known_prefix(all, buffer, earlier);
        assert forall|a: int|
            0 <= a < known_prefix(all, buffer, earlier) && (#[trigger] earlier[a]).0
                == key.1 implies earlier[a].1 == SyncKind::Off by {
            assert(servers[a].0 != servers[last].0);
        }
        lemma_untold(all, buffer, earlier, snapshot, key);
        last
    }
}

/// When a buffer is edited, each server that knows it and takes changes is told once, up to the
/// first that does not know it: under the version after the one that it has, to send the whole
/// text if and only if it asked for that, and otherwise what changed since the snapshot that it
/// was sent last. From then on it has the new snapshot under that version. No other server is
/// told, and no other history changes.
pub proof fn edits_are_told_as_servers_ask(
    versions: &mut BufferVersions,
    buffer: u64,
    servers: Vec<(u64, SyncKind)>,
    snapshot: u64,
    notices: Vec<ChangeNotice>,
    i: int,
    n: int,
    key: (u64, u64),
)
    requires
        call_ensures(
            BufferVersions::on_buffer_edited,
            (versions, buffer, &servers, snapshot),
            notices,
        ),
        old(versions).well_formed(),
        each_once(servers@),
        forall|key: (u64, u64)| #[trigger]
            old(versions)@.contains_key(key) ==> old(versions)@[key].last().version
                + servers@.len() <= i32::MAX - OLD_VERSIONS_TO_RETAIN,
        0 <= i < servers@.len(),
    ensures
        final(versions)@.dom() == old(versions)@.dom(),
        ({
            let known = known_prefix(old(versions)@, buffer, servers@);
            let (server, sync) = servers@[i];
            let had = old(versions)@[(buffer, server)];
            let has = final(versions)@[(buffer, server)];
            &&& i < known && sync != SyncKind::Off ==> {
                &&& exists|m: int|
                    0 <= m < notices@.len() && notice_for(had, server, sync, #[trigger] notices@[m])
                &&& has.drop_last() == had
                &&& has.last().version == had.last().version + 1
                &&& has.last().snapshot == snapshot
            }
            &&& 0 <= n < notices@.len() ==> exists|k: int|
                0 <= k < known && notice_for(
                    old(versions)@[(buffer, servers@[k].0)],
                    (#[trigger] servers@[k]).0,
                    servers@[k].1,
                    notices@[n],
                )
            &&& old(versions)@.contains_key(key) && (key.0 != buffer || forall|k: int|
                0 <= k < known && (#[trigger] servers@[k]).0 == key.1 ==> servers@[k].1
                    == SyncKind::Off) ==> final(versions)@[key] == old(versions)@[key]
        }),
{
    let all = old(versions)@;
    lemma_stopped(all, buffer, servers@, snapshot);
    lemma_known_prefix(all, buffer, servers@);
    let known = known_prefix(all, buffer, servers@);
    if i < known && servers@[i].1 != SyncKind::Off {
        let m = lemma_told(all, buffer, servers@, snapshot, i);
        let had = all[(buffer, servers@[i].0)];
        assert(notice_for(had, servers@[i].0, servers@[i].1, notices@[m]));
        assert(final(versions)@[(buffer, servers@[i].0)].drop_last() =~= had);
    }
    if 0 <= n < notices@.len() {
        let k = lemma_notice(all, buffer, servers@, snapshot, n);
        assert(notice_for(all[(buffer, servers@[k].0)], servers@[k].0, servers@[k].1, notices@[n]));
    }
    if all.contains_key(key) && (key.0 != buffer || forall|k: int|
        0 <= k < known && (#[trigger] servers@[k]).0 == key.1 ==> servers@[k].1 == SyncKind::Off) {
        lemma_untold(all, buffer, servers@, snapshot, key);
    }
}

/// What is seen of the versions is what they hold.
pub proof fn histories_are_seen_as_they_are(versions: BufferVersions, buffer: u64, server: u64)
    ensures
        versions@.contains_key((buffer, server)) <==> versions.snapshots@.contains_key(buffer)
            && versions.snapshots@[buffer]@.contains_key(server),
        versions@.contains_key((buffer, server)) ==> versions@[(buffer, server)]
            == versions.snapshots@[buffer]@[server]@,
{
}

/// A server that gets to know a buffer has it as version zero, with the snapshot that it was told
/// of, and can be asked for it; one that knows it already keeps what it has.
pub proof fn first_versions_are_zero(
    versions: &mut BufferVersions,
    buffer: u64,
    server: u64,
    snapshot: u64,
    told: bool,
)
    requires
        call_ensures(BufferVersions::register, (versions, buffer, server, snapshot), told),
        old(versions).well_formed(),
    ensures
        told <==> !old(versions)@.contains_key((buffer, server)),
        final(versions)@.contains_key((buffer, server)),
        told ==> final(versions)@[(buffer, server)] == seq![
            LspBufferSnapshot { version: 0, snapshot },
        ],
        forall|key: (u64, u64)|
            key != (buffer, server) || !told ==> (#[trigger] final(versions)@.contains_key(key)
                <==> old(versions)@.contains_key(key)) && (final(versions)@.contains_key(key)
                ==> final(versions)@[key] == old(versions)@[key]),
{
    if told {
        assert(final(versions)@[(buffer, server)] =~= seq![
            LspBufferSnapshot { version: 0, snapshot },
        ]);
    }
}

/// A server that names a version means the snapshot that it was sent under it; one that names
/// none means the current one. What it may still name is kept: the versions that are no more than
/// ten older. Of a buffer that it does not know it may name version zero alone.
pub proof fn versions_stand_for_what_was_sent(
    versions: &mut BufferVersions,
    buffer: u64,
    server: u64,
    version: Option<i32>,
    current: u64,
    found: Result<u64, VersionError>,
    other: LspBufferSnapshot,
)
    requires
        call_ensures(
            BufferVersions::buffer_snapshot_for_lsp_version,
            (versions, buffer, server, version, current),
            found,
        ),
        old(versions).well_formed(),
    ensures
        version is None ==> found == Ok::<u64, VersionError>(current),
        !old(versions)@.contains_key((buffer, server)) && version == Some(0i32) ==> found == Ok::<
            u64,
            VersionError,
        >(current),
        !old(versions)@.contains_key((buffer, server)) && version is Some && version != Some(0i32)
            ==> found == Err::<u64, VersionError>(VersionError::NoSnapshots),
        old(versions)@.contains_key((buffer, server)) && version is Some ==> ({
            let sent = old(versions)@[(buffer, server)];
            let kept = final(versions)@[(buffer, server)];
            &&& sent.contains(other) && other.version == version->0 ==> found == Ok::<
                u64,
                VersionError,
            >(other.snapshot)
            &&& (found matches Ok(snapshot) ==> sent.contains(
                LspBufferSnapshot { version: version->0, snapshot },
            ) && (kept.contains(other) <==> sent.contains(other) && version->0 - other.version
                <= 10))
            &&& (found matches Err(error) ==> error == VersionError::NotFound && kept == sent)
        }),
        forall|key: (u64, u64)|
            key != (buffer, server) ==> (#[trigger] final(versions)@.contains_key(key)
                <==> old(versions)@.contains_key(key)) && (final(versions)@.contains_key(key)
                ==> final(versions)@[key] == old(versions)@[key]),
{
    if old(versions)@.contains_key((buffer, server)) && version is Some {
        let sent = old(versions)@[(buffer, server)];
        let named = version->0;
        assert(is_history(sent));
        let keep = |s: LspBufferSnapshot| s.version + OLD_VERSIONS_TO_RETAIN >= named;
        lemma_filter_contains(sent, keep, other);
        if sent.contains(other) && other.version == named {
            assert(has_version(sent, named, other.snapshot));
            assert(knows_version(sent, named));
            if let Ok(snapshot) = found {
                let i = choose|i: int| 0 <= i < sent.len() && sent[i] == other;
                let means = LspBufferSnapshot { version: named, snapshot };
                let j = choose|j: int| 0 <= j < sent.len() && sent[j] == means;
                if i < j {
                    assert(sent[i].version < sent[j].version);
                } else if j < i {
                    assert(sent[j].version < sent[i].version);
                }
            }
        }
    }
}

/// What passes a filter is what was there and is to be kept.
proof fn lemma_filter_contains(
    history: Seq<LspBufferSnapshot>,
    keep: spec_fn(LspBufferSnapshot) -> bool,
    entry: LspBufferSnapshot,
)
    ensures
        history.filter(keep).contains(entry) <==> history.contains(entry) && keep(entry),
    decreases history.len(),
{
    reveal(Seq::filter);
    if history.len() > 0 {
        let earlier = history.drop_last();
        lemma_filter_contains(earlier, keep, entry);
        assert(history =~= earlier.push(history.last()));
        crate::ids::contains_push(earlier, history.last(), entry);
        if keep(history.last()) {
            crate::ids::contains_push(earlier.filter(keep), history.last(), entry);
        }
    }
}

/// When a buffer is closed, just those of the running servers are told that know it, each once,
/// and no server knows it any more.
pub proof fn closed_buffers_are_forgotten(
    versions: &mut BufferVersions,
    buffer: u64,
    servers: Vec<u64>,
    closed: Vec<u64>,
    server: u64,
)
    requires
        call_ensures(
            BufferVersions::unregister_buffer_from_language_servers,
            (versions, buffer, &servers),
            closed,
        ),
        old(versions).well_formed(),
    ensures
        closed@.contains(server) <==> servers@.contains(server) && old(versions)@.contains_key(
            (buffer, server),
        ),
        closed@.no_duplicates(),
        !final(versions)@.contains_key((buffer, server)),
        forall|other: u64|
            other != buffer ==> (#[trigger] final(versions)@.contains_key((other, server))
                <==> old(versions)@.contains_key((other, server))) && (
            final(versions)@.contains_key((other, server)) ==> final(versions)@[(other, server)]
                == old(versions)@[(other, server)]),
{
    let known = Set::new(|s: u64| old(versions)@.contains_key((buffer, s)));
    lemma_closed_in(known, servers@, server);
    assert(known.contains(server) <==> old(versions)@.contains_key((buffer, server)));
}

proof fn lemma_closed_in(known: Set<u64>, servers: Seq<u64>, server: u64)
    ensures
        closed_in(known, servers).contains(server) <==> servers.contains(server)
            && known.contains(server),
        closed_in(known, servers).no_duplicates(),
    decreases servers.len(),
{
    if servers.len() > 0 {
        let earlier = servers.drop_last();
        lemma_closed_in(known, earlier, server);
        lemma_closed_in(known, earlier, servers.last());
        assert(servers =~= earlier.push(servers.last()));
        crate::ids::contains_push(earlier, servers.last(), server);
        crate::ids::contains_push(closed_in(known, earlier), servers.last(), server);
        let before = closed_in(known, earlier);
        let after = closed_in(known, servers);
        if after != before {
            assert forall|i: int, j: int| 0 <= i < after.len() && 0 <= j < after.len() && i
                != j implies after[i] != after[j] by {
                if i < before.len() && j < before.len() {
                    assert(before[i] != before[j]);
                } else if i < before.len() {
                    assert(before.contains(before[i]));
                } else {
                    assert(before.contains(before[j]));
                }
            }
        }
    }
}

} // verus!
