//! What language servers have told about a buffer: colors, tokens, folds and symbols.
use std::collections::{BTreeMap, BTreeSet};
use vstd::prelude::*;

use crate::ids::{
    contains_push, map_get, map_has, map_keys, map_put, map_take, set_copy, set_has, set_items,
    set_put,
};

verus! {

/// Items by the server that told them. An item is found by its number.
#[derive(Debug)]
pub struct ServerData {
    pub items: BTreeMap<u64, BTreeSet<u64>>,
}

pub type ServerDataView = Map<u64, Set<u64>>;

impl View for ServerData {
    type V = ServerDataView;

    open spec fn view(&self) -> ServerDataView {
        Map::new(
            |server: u64| self.items@.contains_key(server),
            |server: u64| self.items@[server]@,
        )
    }
}

/// Some server told the item.
pub open spec fn is_told(data: ServerDataView, item: u64) -> bool {
    exists|server: u64| #[trigger] data.contains_key(server) && data[server].contains(item)
}

/// All items of all servers.
pub open spec fn all_items(data: ServerDataView) -> Set<u64> {
    Set::new(|item: u64| is_told(data, item))
}

impl ServerData {
    pub fn new() -> (data: ServerData)
        ensures
            data@ == Map::<u64, Set<u64>>::empty(),
    {
        let data = ServerData { items: BTreeMap::new() };
        assert(data@ =~= Map::<u64, Set<u64>>::empty());
        data
    }

    /// Forgets what a server told.
    pub fn remove_server_data(&mut self, server: u64)
        ensures
            final(self)@ == old(self)@.remove(server),
    {
        let ghost before = self@;
        let dropped = map_take(&mut self.items, server);
        assert(self@ =~= before.remove(server));
    }

    /// Takes over what a server told, in place of what it told before.
    pub fn replace(&mut self, server: u64, items: BTreeSet<u64>)
        ensures
            final(self)@ == old(self)@.insert(server, items@),
    {
        let ghost before = self@;
        map_put(&mut self.items, server, items);
        assert(self@ =~= before.insert(server, items@));
    }

    /// Adds to what a server told.
    pub fn add(&mut self, server: u64, items: &Vec<u64>)
        ensures
            final(self)@ == old(self)@.insert(
                server,
                (if old(self)@.contains_key(server) {
                    old(self)@[server]
                } else {
                    Set::empty()
                }).union(items@.to_set()),
            ),
    {
        let ghost before = self@;
        let mut known: BTreeSet<u64> = match map_take(&mut self.items, server) {
            Some(known) => known,
            None => BTreeSet::new(),
        };
        let ghost were_known = known@;
        let mut i: usize = 0;
        assert(were_known.union(items@.take(0).to_set()) =~= were_known);
        while i < items.len()
            invariant
                i <= items@.len(),
                known@ == were_known.union(items@.take(i as int).to_set()),
            decreases items@.len() - i,
        {
            let new = set_put(&mut known, items[i]);
            proof {
                let seen = items@.take(i as int);
                let next = items@.take(i + 1);
                assert(next =~= seen.push(items@[i as int]));
                assert forall|item: u64| next.to_set().contains(item) <==> seen.to_set().contains(
                    item,
                ) || item == items@[i as int] by {
                    contains_push(seen, items@[i as int], item);
                }
                assert(known@ =~= were_known.union(next.to_set()));
            }
            i += 1;
        }
        assert(items@.take(i as int) =~= items@);
        map_put(&mut self.items, server, known);
        proof {
            assert(!before.contains_key(server) ==> were_known =~= Set::<u64>::empty());
            assert(self@ =~= before.insert(server, were_known.union(items@.to_set())));
        }
    }

    /// Takes over what other data hold, server by server.
    pub fn extend(&mut self, other: &ServerData)
        ensures
            final(self)@ == old(self)@.union_prefer_right(other@),
    {
        let ghost before = self@;
        let servers: Vec<u64> = map_keys(&other.items);
        let mut i: usize = 0;
        proof {
            assert(before.union_prefer_right(other@.restrict(servers@.take(0).to_set())) =~= before)
                by {
                assert(other@.restrict(servers@.take(0).to_set()) =~= Map::empty());
            }
        }
        while i < servers.len()
            invariant
                i <= servers@.len(),
                forall|k: u64| #[trigger] servers@.contains(k) <==> other.items@.contains_key(k),
                self@ == before.union_prefer_right(
                    other@.restrict(servers@.take(i as int).to_set()),
                ),
            decreases servers@.len() - i,
        {
            let server: u64 = servers[i];
            assert(servers@.contains(servers@[i as int]));
            let ghost now = self@;
            if let Some(items) = map_get(&other.items, server) {
                self.replace(server, set_copy(items));
            }
            proof {
                let seen = servers@.take(i as int);
                let next = servers@.take(i + 1);
                assert(next =~= seen.push(server));
                assert forall|s: u64| next.to_set().contains(s) <==> seen.to_set().contains(s) || s
                    == server by {
                    contains_push(seen, server, s);
                }
                assert(self@ =~= before.union_prefer_right(other@.restrict(next.to_set())));
            }
            i += 1;
        }
        proof {
            assert(servers@.take(i as int) =~= servers@);
            assert(other@.restrict(servers@.to_set()) =~= other@) by {
                assert forall|k: u64| other@.contains_key(k) implies servers@.to_set().contains(
                    k,
                ) by {
                    assert(servers@.contains(k));
                }
            }
        }
    }

    /// All items of all servers.
    pub fn flatten(&self) -> (items: BTreeSet<u64>)
        ensures
            items@ == all_items(self@),
    {
        let servers: Vec<u64> = map_keys(&self.items);
        let mut items: BTreeSet<u64> = BTreeSet::new();
        let mut i: usize = 0;
        while i < servers.len()
            invariant
                i <= servers@.len(),
                forall|k: u64| #[trigger] servers@.contains(k) <==> self.items@.contains_key(k),
                forall|item: u64| #[trigger]
                    items@.contains(item) <==> told_by(self@, servers@.take(i as int), item),
            decreases servers@.len() - i,
        {
            let server: u64 = servers[i];
            assert(servers@.contains(servers@[i as int]));
            let ghost before = items@;
            let ghost seen = servers@.take(i as int);
            let ghost next = servers@.take(i + 1);
            assert(next =~= seen.push(server));
            if let Some(own) = map_get(&self.items, server) {
                let list: Vec<u64> = set_items(own);
                let mut j: usize = 0;
                assert(list@.take(0).len() == 0);
                while j < list.len()
                    invariant
                        j <= list@.len(),
                        forall|item: u64| #[trigger]
                            items@.contains(item) <==> before.contains(item) || list@.take(
                                j as int,
                            ).contains(item),
                    decreases list@.len() - j,
                {
                    let ghost now = items@;
                    let new = set_put(&mut items, list[j]);
                    proof {
                        assert(list@.take(j + 1) =~= list@.take(j as int).push(list@[j as int]));
                        assert forall|item: u64| #[trigger]
                            items@.contains(item) <==> before.contains(item) || list@.take(
                                j + 1,
                            ).contains(item) by {
                            assert(now.contains(item) <==> before.contains(item) || list@.take(
                                j as int,
                            ).contains(item));
                            contains_push(list@.take(j as int), list@[j as int], item);
                        }
                    }
                    j += 1;
                }
                proof {
                    assert(list@.take(j as int) =~= list@);
                    assert forall|item: u64| #[trigger]
                        items@.contains(item) <==> told_by(self@, next, item) by {
                        assert(before.contains(item) <==> told_by(self@, seen, item));
                        assert(list@.contains(item) <==> own@.contains(item));
                        if told_by(self@, seen, item) {
                            let k = choose|k: int|
                                0 <= k < seen.len() && self@.contains_key(#[trigger] seen[k])
                                    && self@[seen[k]].contains(item);
                            assert(next[k] == seen[k]);
                        }
                        if told_by(self@, next, item) {
                            let k = choose|k: int|
                                0 <= k < next.len() && self@.contains_key(#[trigger] next[k])
                                    && self@[next[k]].contains(item);
                            if k < i {
                                assert(seen[k] == next[k]);
                            }
                        }
                        assert(next[i as int] == server);
                    }
                }
            }
            i += 1;
        }
        proof {
            assert(servers@.take(i as int) =~= servers@);
            assert forall|item: u64| items@.contains(item) <==> is_told(self@, item) by {
                if is_told(self@, item) {
                    let server = choose|server: u64| #[trigger]
                        self@.contains_key(server) && self@[server].contains(item);
                    assert(servers@.contains(server));
                    let k = choose|k: int| 0 <= k < servers@.len() && servers@[k] == server;
                    assert(self@.contains_key(servers@[k]));
                }
            }
            assert(items@ =~= all_items(self@));
        }
        items
    }

    /// Whether exactly the given servers told something.
    pub fn is_from(&self, servers: &BTreeSet<u64>) -> (result: bool)
        ensures
            result == (self@.dom() == servers@),
    {
        let known: Vec<u64> = map_keys(&self.items);
        let given: Vec<u64> = set_items(servers);
        let mut i: usize = 0;
        while i < known.len()
            invariant
                i <= known@.len(),
                forall|k: u64| #[trigger] known@.contains(k) <==> self.items@.contains_key(k),
                forall|j: int| 0 <= j < i ==> servers@.contains(#[trigger] known@[j]),
            decreases known@.len() - i,
        {
            if !set_has(servers, known[i]) {
                proof {
                    assert(known@.contains(known@[i as int]));
                    assert(self@.dom().contains(known@[i as int]));
                }
                return false;
            }
            i += 1;
        }
        let mut j: usize = 0;
        while j < given.len()
            invariant
                j <= given@.len(),
                forall|k: u64| #[trigger] given@.contains(k) <==> servers@.contains(k),
                forall|l: int| 0 <= l < j ==> self.items@.contains_key(#[trigger] given@[l]),
            decreases given@.len() - j,
        {
            if !map_has(&self.items, given[j]) {
                proof {
                    assert(given@.contains(given@[j as int]));
                    assert(!self@.dom().contains(given@[j as int]));
                }
                return false;
            }
            j += 1;
        }
        proof {
            assert forall|k: u64| self@.dom().contains(k) <==> servers@.contains(k) by {
                if self@.dom().contains(k) {
                    assert(known@.contains(k));
                    let l = choose|l: int| 0 <= l < known@.len() && known@[l] == k;
                    assert(servers@.contains(known@[l]));
                }
                if servers@.contains(k) {
                    assert(given@.contains(k));
                    let l = choose|l: int| 0 <= l < given@.len() && given@[l] == k;
                    assert(self.items@.contains_key(given@[l]));
                }
            }
            assert(self@.dom() =~= servers@);
        }
        true
    }
}

/// One of the listed servers told the item.
spec fn told_by(data: ServerDataView, servers: Seq<u64>, item: u64) -> bool {
    exists|k: int|
        0 <= k < servers.len() && data.contains_key(#[trigger] servers[k])
            && data[servers[k]].contains(item)
}

/// A version of a buffer: how many of the edits of each replica it holds.
#[derive(Debug)]
pub struct BufferVersion {
    pub seen: Vec<u32>,
}

impl View for BufferVersion {
    type V = Seq<u32>;

    open spec fn view(&self) -> Seq<u32> {
        self.seen@
    }
}

/// How many of the edits of a replica a version holds.
pub open spec fn seen_of(version: Seq<u32>, replica: int) -> u32 {
    if 0 <= replica < version.len() {
        version[replica]
    } else {
        0
    }
}

/// The version holds an edit that the other one does not.
pub open spec fn is_changed_since(version: Seq<u32>, other: Seq<u32>) -> bool {
    exists|replica: int| #[trigger] seen_of(version, replica) > seen_of(other, replica)
}

impl BufferVersion {
    /// The version holds an edit that the other one does not.
    pub fn changed_since(&self, other: &BufferVersion) -> (changed: bool)
        ensures
            changed == is_changed_since(self@, other@),
    {
        let mut i: usize = 0;
        while i < self.seen.len()
            invariant
                i <= self@.len(),
                forall|replica: int|
                    0 <= replica < i ==> #[trigger] seen_of(self@, replica) <= seen_of(
                        other@,
                        replica,
                    ),
            decreases self@.len() - i,
        {
            let seen: u32 = if i < other.seen.len() {
                other.seen[i]
            } else {
                0
            };
            if self.seen[i] > seen {
                assert(seen_of(self@, i as int) > seen_of(other@, i as int));
                return true;
            }
            i += 1;
        }
        false
    }

    pub fn is_same(&self, other: &BufferVersion) -> (same: bool)
        ensures
            same == (self@ == other@),
    {
        if self.seen.len() != other.seen.len() {
            return false;
        }
        let mut i: usize = 0;
        while i < self.seen.len()
            invariant
                i <= self@.len(),
                self@.len() == other@.len(),
                forall|k: int| 0 <= k < i ==> #[trigger] self@[k] == other@[k],
            decreases self@.len() - i,
        {
            if self.seen[i] != other.seen[i] {
                return false;
            }
            i += 1;
        }
        assert(self@ =~= other@);
        true
    }

    pub fn copy(&self) -> (version: BufferVersion)
        ensures
            version@ == self@,
    {
        let mut seen: Vec<u32> = Vec::new();
        let mut i: usize = 0;
        while i < self.seen.len()
            invariant
                i <= self@.len(),
                seen@ == self@.take(i as int),
            decreases self@.len() - i,
        {
            seen.push(self.seen[i]);
            assert(self@.take(i as int).push(self@[i as int]) =~= self@.take(i + 1));
            i += 1;
        }
        assert(self@.take(i as int) =~= self@);
        BufferVersion { seen }
    }
}

/// The colors of a buffer, and the version for which they are being asked for.
#[derive(Debug)]
pub struct DocumentColorData {
    pub colors: ServerData,
    pub updating_for: Option<BufferVersion>,
}

/// What servers told about a version of a buffer.
#[derive(Debug)]
pub struct BufferLspData {
    pub version: BufferVersion,
    pub document_colors: Option<DocumentColorData>,
    pub semantic_tokens: Option<ServerData>,
    pub folding_ranges: Option<ServerData>,
    pub document_symbols: Option<ServerData>,
}

pub open spec fn data_view(data: Option<ServerData>) -> Option<ServerDataView> {
    match data {
        Some(data) => Some(data@),
        None => None,
    }
}

pub open spec fn opt_version(version: Option<BufferVersion>) -> Option<Seq<u32>> {
    match version {
        Some(version) => Some(version@),
        None => None,
    }
}

pub ghost struct ColorView {
    pub colors: ServerDataView,
    pub updating_for: Option<Seq<u32>>,
}

pub ghost struct LspDataView {
    pub version: Seq<u32>,
    pub document_colors: Option<ColorView>,
    pub semantic_tokens: Option<ServerDataView>,
    pub folding_ranges: Option<ServerDataView>,
    pub document_symbols: Option<ServerDataView>,
}

impl View for BufferLspData {
    type V = LspDataView;

    open spec fn view(&self) -> LspDataView {
        LspDataView {
            version: self.version@,
            document_colors: match self.document_colors {
                Some(colors) => Some(
                    ColorView {
                        colors: colors.colors@,
                        updating_for: opt_version(colors.updating_for),
                    },
                ),
                None => None,
            },
            semantic_tokens: data_view(self.semantic_tokens),
            folding_ranges: data_view(self.folding_ranges),
            document_symbols: data_view(self.document_symbols),
        }
    }
}

pub open spec fn without_server(data: Option<ServerDataView>, server: u64) -> Option<
    ServerDataView,
> {
    match data {
        Some(data) => Some(data.remove(server)),
        None => None,
    }
}

fn drop_server(data: Option<ServerData>, server: u64) -> (result: Option<ServerData>)
    ensures
        data_view(result) == without_server(data_view(data), server),
{
    match data {
        Some(data) => {
            let mut data: ServerData = data;
            data.remove_server_data(server);
            Some(data)
        },
        None => None,
    }
}

/// What is known of a buffer without what a server told.
pub open spec fn untold(data: LspDataView, server: u64) -> LspDataView {
    LspDataView {
        version: data.version,
        document_colors: match data.document_colors {
            Some(colors) => Some(ColorView { colors: colors.colors.remove(server), ..colors }),
            None => None,
        },
        semantic_tokens: without_server(data.semantic_tokens, server),
        folding_ranges: without_server(data.folding_ranges, server),
        document_symbols: without_server(data.document_symbols, server),
    }
}

/// Nothing is known of a version of the buffer.
pub open spec fn no_data(version: Seq<u32>) -> LspDataView {
    LspDataView {
        version,
        document_colors: None,
        semantic_tokens: None,
        folding_ranges: None,
        document_symbols: None,
    }
}

impl BufferLspData {
    pub fn new(version: BufferVersion) -> (data: BufferLspData)
        ensures
            data@ == no_data(version@),
    {
        BufferLspData {
            version,
            document_colors: None,
            semantic_tokens: None,
            folding_ranges: None,
            document_symbols: None,
        }
    }

    /// Forgets what a server told.
    pub fn remove_server_data(&mut self, for_server: u64)
        ensures
            final(self)@ == untold(old(self)@, for_server),
    {
        if let Some(colors) = self.document_colors.take() {
            let mut colors: DocumentColorData = colors;
            colors.colors.remove_server_data(for_server);
            self.document_colors = Some(colors);
        }
        self.semantic_tokens = drop_server(self.semantic_tokens.take(), for_server);
        self.folding_ranges = drop_server(self.folding_ranges.take(), for_server);
        self.document_symbols = drop_server(self.document_symbols.take(), for_server);
    }
}

/// What is known of a version of a buffer. Where nothing is known yet, or the buffer changed
/// since it was told, that is nothing but the tokens, which later ones are stated as differences
/// from.
pub open spec fn latest(data: Option<LspDataView>, version: Seq<u32>) -> LspDataView {
    match data {
        None => no_data(version),
        Some(data) => if is_changed_since(version, data.version) {
            LspDataView { semantic_tokens: data.semantic_tokens, ..no_data(version) }
        } else {
            data
        },
    }
}

pub open spec fn opt_data(data: Option<BufferLspData>) -> Option<LspDataView> {
    match data {
        Some(data) => Some(data@),
        None => None,
    }
}

/// Brings what is known of a buffer up to its version.
pub fn latest_lsp_data(data: Option<BufferLspData>, version: &BufferVersion) -> (result:
    BufferLspData)
    ensures
        result@ == latest(opt_data(data), version@),
{
    match data {
        None => BufferLspData::new(version.copy()),
        Some(data) => {
            if version.changed_since(&data.version) {
                let mut result = BufferLspData::new(version.copy());
                result.semantic_tokens = data.semantic_tokens;
                result
            } else {
                data
            }
        },
    }
}

/// What is known of a buffer is never behind it: it holds every edit that the buffer holds.
pub proof fn latest_data_are_up_to_date(data: Option<LspDataView>, version: Seq<u32>)
    ensures
        !is_changed_since(version, latest(data, version).version),
        latest(Some(latest(data, version)), version) == latest(data, version),
{
}

/// What a request for the colors of a buffer leads to.
#[derive(Debug)]
pub enum ColorPlan {
    /// They are known.
    Cached { colors: BTreeSet<u64> },
    /// Somebody asks for them already.
    JoinUpdate,
    /// The servers are asked.
    StartUpdate,
}

/// The colors that are known still hold: the buffer has not changed since, and the
/// servers in which it is open are those that told them.
pub open spec fn colors_hold(
    data: Option<LspDataView>,
    version: Seq<u32>,
    current_servers: Set<u64>,
) -> bool {
    &&& data matches Some(data)
    &&& data.document_colors matches Some(colors)
    &&& !is_changed_since(version, data.version)
    &&& current_servers == colors.colors.dom()
}

/// The colors of the latest version, as far as they are known.
pub open spec fn colors_of(data: LspDataView) -> ColorView {
    match data.document_colors {
        Some(colors) => colors,
        None => ColorView { colors: Map::empty(), updating_for: None },
    }
}

/// The colors are being asked for, and the buffer has not changed since that began.
pub open spec fn is_running(colors: ColorView, version: Seq<u32>) -> bool {
    colors.updating_for matches Some(updating_for) && !is_changed_since(version, updating_for)
}

/// How a request for the colors of a buffer is served, and what is known of it then.
pub open spec fn is_color_request(
    before: Option<LspDataView>,
    version: Seq<u32>,
    current_servers: Set<u64>,
    after: LspDataView,
    plan: ColorPlan,
) -> bool {
    let colors = colors_of(latest(before, version));
    if colors_hold(before, version, current_servers) {
        &&& after == before->0
        &&& plan matches ColorPlan::Cached { colors: cached } && cached@ == all_items(
            before->0.document_colors->0.colors,
        )
    } else if is_running(colors, version) {
        &&& after == (LspDataView { document_colors: Some(colors), ..latest(before, version) })
        &&& plan is JoinUpdate
    } else {
        &&& after == (LspDataView {
            document_colors: Some(ColorView { updating_for: Some(version), ..colors }),
            ..latest(before, version)
        })
        &&& plan is StartUpdate
    }
}

/// Decides how a request for the colors of a buffer is served.
pub fn document_colors(
    data: Option<BufferLspData>,
    version: &BufferVersion,
    current_servers: &BTreeSet<u64>,
) -> (result: (BufferLspData, ColorPlan))
    ensures
        is_color_request(opt_data(data), version@, current_servers@, result.0@, result.1),
{
    let mut cached: Option<BTreeSet<u64>> = None;
    if let Some(known) = &data {
        if let Some(colors) = &known.document_colors {
            if !version.changed_since(&known.version) && colors.colors.is_from(current_servers) {
                cached = Some(colors.colors.flatten());
            }
        }
    }
    if let Some(colors) = cached {
        if let Some(known) = data {
            return (known, ColorPlan::Cached { colors });
        }
    }
    let mut latest_data: BufferLspData = latest_lsp_data(data, version);
    let mut colors: DocumentColorData = match latest_data.document_colors.take() {
        Some(colors) => colors,
        None => DocumentColorData { colors: ServerData::new(), updating_for: None },
    };
    let join: bool = match &colors.updating_for {
        Some(updating_for) => !version.changed_since(updating_for),
        None => false,
    };
    if !join {
        colors.updating_for = Some(version.copy());
    }
    latest_data.document_colors = Some(colors);
    if join {
        (latest_data, ColorPlan::JoinUpdate)
    } else {
        (latest_data, ColorPlan::StartUpdate)
    }
}

/// What is known of a buffer after the servers answered for a version. Answers for the version
/// that the data are for are added. Where the data are not for a later version, answers replace
/// the colors that were known. Answers for an earlier version are ignored.
pub open spec fn with_fetched(
    data: LspDataView,
    queried_for: Seq<u32>,
    fetched: ServerDataView,
) -> LspDataView {
    let known = colors_of(data).colors;
    if data.version == queried_for {
        LspDataView {
            document_colors: Some(
                ColorView { colors: known.union_prefer_right(fetched), updating_for: None },
            ),
            ..data
        }
    } else if !is_changed_since(data.version, queried_for) {
        LspDataView {
            version: queried_for,
            document_colors: Some(ColorView { colors: fetched, updating_for: None }),
            ..data
        }
    } else {
        LspDataView {
            document_colors: Some(ColorView { colors: known, updating_for: None }),
            ..data
        }
    }
}

/// Takes over what the servers answered for a version of a buffer, and returns all colors that
/// are known then. If the buffer is at another version by now, the answers are dropped.
pub fn colors_fetched(
    data: Option<BufferLspData>,
    version: &BufferVersion,
    queried_for: &BufferVersion,
    fetched: ServerData,
) -> (result: (Option<BufferLspData>, BTreeSet<u64>))
    ensures
        if version@ != queried_for@ {
            result.0 == data && result.1@ == Set::<u64>::empty()
        } else {
            let after = with_fetched(latest(opt_data(data), version@), queried_for@, fetched@);
            opt_data(result.0) == Some(after) && result.1@ == all_items(
                after.document_colors->0.colors,
            )
        },
{
    if !version.is_same(queried_for) {
        return (data, BTreeSet::new());
    }
    let mut latest_data: BufferLspData = latest_lsp_data(data, version);
    let mut colors: DocumentColorData = match latest_data.document_colors.take() {
        Some(colors) => colors,
        None => DocumentColorData { colors: ServerData::new(), updating_for: None },
    };
    if latest_data.version.is_same(queried_for) {
        colors.colors.extend(&fetched);
    } else if !latest_data.version.changed_since(queried_for) {
        latest_data.version = queried_for.copy();
        colors.colors = fetched;
    }
    colors.updating_for = None;
    let all: BTreeSet<u64> = colors.colors.flatten();
    latest_data.document_colors = Some(colors);
    (Some(latest_data), all)
}

/// The servers could not be asked: the next request asks them again.
pub fn colors_failed(data: BufferLspData) -> (result: BufferLspData)
    ensures
        result@ == (LspDataView {
            document_colors: match data@.document_colors {
                Some(colors) => Some(ColorView { updating_for: None, ..colors }),
                None => None,
            },
            ..data@
        }),
{
    let mut data: BufferLspData = data;
    if let Some(colors) = data.document_colors.take() {
        let mut colors: DocumentColorData = colors;
        colors.updating_for = None;
        data.document_colors = Some(colors);
    }
    data
}

/// What the servers answered, put together by server.
pub open spec fn collected(responses: Seq<(u64, Vec<u64>)>) -> ServerDataView
    decreases responses.len(),
{
    if responses.len() == 0 {
        Map::empty()
    } else {
        let before = collected(responses.drop_last());
        let (server, items) = responses.last();
        before.insert(
            server,
            (if before.contains_key(server) {
                before[server]
            } else {
                Set::empty()
            }).union(items@.to_set()),
        )
    }
}

/// Puts the answers of the servers together.
pub fn collect_responses(responses: &Vec<(u64, Vec<u64>)>) -> (data: ServerData)
    ensures
        data@ == collected(responses@),
{
    let mut data = ServerData::new();
    let mut i: usize = 0;
    while i < responses.len()
        invariant
            i <= responses@.len(),
            data@ == collected(responses@.take(i as int)),
        decreases responses@.len() - i,
    {
        assert(responses@.take(i + 1).drop_last() =~= responses@.take(i as int));
        assert(responses@.take(i + 1).last() == responses@[i as int]);
        data.add(responses[i].0, &responses[i].1);
        i += 1;
    }
    assert(responses@.take(i as int) =~= responses@);
    data
}

/// Once the colors of a version are fetched, asking for them again finds them, as long
/// as the buffer stays as it is and open in the servers that answered.
pub proof fn fetched_colors_hold(
    before: Option<LspDataView>,
    version: Seq<u32>,
    fetched: ServerDataView,
)
    requires
        latest(before, version).version == version,
        colors_of(latest(before, version)).colors.dom().subset_of(fetched.dom()),
    ensures
        colors_hold(
            Some(with_fetched(latest(before, version), version, fetched)),
            version,
            fetched.dom(),
        ),
{
    let known = colors_of(latest(before, version)).colors;
    assert(known.union_prefer_right(fetched).dom() =~= fetched.dom());
}

/// A version is later than another just if it holds more edits of some replica; versions are the
/// same just if they hold as many of each, in the same list.
pub proof fn versions_are_compared_by_replica(
    a: BufferVersion,
    b: BufferVersion,
    changed: bool,
    same: bool,
    replica: int,
)
    requires
        call_ensures(BufferVersion::changed_since, (&a, &b), changed),
        call_ensures(BufferVersion::is_same, (&a, &b), same),
    ensures
        0 <= replica < a.seen@.len() && a.seen@[replica] > (if replica < b.seen@.len() {
            b.seen@[replica]
        } else {
            0
        }) ==> changed,
        (forall|k: int|
            0 <= k < a.seen@.len() ==> k < b.seen@.len() && #[trigger] a.seen@[k] <= b.seen@[k])
            ==> !changed,
        same <==> a.seen@ == b.seen@,
        same ==> !changed,
{
    if 0 <= replica < a.seen@.len() && a.seen@[replica] > (if replica < b.seen@.len() {
        b.seen@[replica]
    } else {
        0
    }) {
        assert(seen_of(a@, replica) > seen_of(b@, replica));
    }
    if changed {
        let k = choose|k: int| #[trigger] seen_of(a@, k) > seen_of(b@, k);
        assert(0 <= k < a.seen@.len());
        assert(a.seen@[k] > (if k < b.seen@.len() {
            b.seen@[k]
        } else {
            0
        }));
    }
}

/// What is known of a buffer that changed is forgotten, but for its tokens; what is known of one
/// that did not change stays. What one server told is forgotten alone.
pub proof fn changed_buffers_are_known_anew(
    data: BufferLspData,
    version: BufferVersion,
    changed: bool,
    latest_data: BufferLspData,
    first: BufferLspData,
    removing: &mut BufferLspData,
    server: u64,
    other: u64,
)
    requires
        call_ensures(BufferVersion::changed_since, (&version, &data.version), changed),
        call_ensures(latest_lsp_data, (Some(data), &version), latest_data),
        call_ensures(latest_lsp_data, (None::<BufferLspData>, &version), first),
        call_ensures(BufferLspData::remove_server_data, (removing, server), ()),
        other != server,
    ensures
        changed ==> {
            &&& latest_data.version@ == version@
            &&& latest_data.document_colors is None
            &&& latest_data.folding_ranges is None
            &&& latest_data.document_symbols is None
            &&& data_view(latest_data.semantic_tokens) == data_view(data.semantic_tokens)
        },
        !changed ==> latest_data@ == data@,
        first.version@ == version@,
        first.document_colors is None,
        first.semantic_tokens is None,
        first.folding_ranges is None,
        first.document_symbols is None,
        old(removing).semantic_tokens is Some ==> final(removing).semantic_tokens is Some && !final(removing).semantic_tokens->0.items@.contains_key(server) && (final(removing).semantic_tokens->0.items@.contains_key(other) <==> old(removing).semantic_tokens->0.items@.contains_key(other)),
        old(removing).folding_ranges is Some ==> final(removing).folding_ranges is Some && !final(removing).folding_ranges->0.items@.contains_key(server),
        old(removing).document_symbols is Some ==> final(removing).document_symbols is Some
            && !final(removing).document_symbols->0.items@.contains_key(server),
        old(removing).document_colors is Some ==> final(removing).document_colors is Some && !final(removing).document_colors->0.colors.items@.contains_key(server),
        final(removing).version@ == old(removing).version@,
{
    assert(latest_data@.version == latest_data.version@);
    assert(latest_data@.semantic_tokens == data_view(latest_data.semantic_tokens));
    let after = final(removing)@;
    let before = old(removing)@;
    assert(after.semantic_tokens == data_view(final(removing).semantic_tokens));
    assert(after.folding_ranges == data_view(final(removing).folding_ranges));
    assert(after.document_symbols == data_view(final(removing).document_symbols));
    if old(removing).semantic_tokens is Some {
        assert(!after.semantic_tokens->0.contains_key(server));
        assert(after.semantic_tokens->0.contains_key(other)
            <==> before.semantic_tokens->0.contains_key(other));
    }
    if old(removing).folding_ranges is Some {
        assert(!after.folding_ranges->0.contains_key(server));
    }
    if old(removing).document_symbols is Some {
        assert(!after.document_symbols->0.contains_key(server));
    }
    if old(removing).document_colors is Some {
        assert(!after.document_colors->0.colors.contains_key(server));
    }
}

/// Colors that are known of a buffer that did not change, from just the servers that it is open
/// in, are used. Else they are asked for, unless they are being asked for already for what the
/// buffer is.
pub proof fn colors_are_asked_for_when_needed(
    data: BufferLspData,
    version: BufferVersion,
    current_servers: BTreeSet<u64>,
    changed: bool,
    result: (BufferLspData, ColorPlan),
    none: (BufferLspData, ColorPlan),
)
    requires
        call_ensures(BufferVersion::changed_since, (&version, &data.version), changed),
        call_ensures(document_colors, (Some(data), &version, &current_servers), result),
        call_ensures(
            document_colors,
            (None::<BufferLspData>, &version, &current_servers),
            none,
        ),
    ensures
        !changed && data.document_colors is Some && data.document_colors->0.colors.items@.dom()
            == current_servers@ ==> result.1 is Cached && result.0@ == data@,
        changed ==> result.1 is StartUpdate && (result.0.document_colors matches Some(colors)
            && colors.updating_for is Some && colors.updating_for->0@ == version@),
        !changed && data.document_colors is Some && data.document_colors->0.colors.items@.dom()
            != current_servers@ && data.document_colors->0.updating_for is None ==> result.1
            is StartUpdate,
        !changed && data.document_colors is Some && data.document_colors->0.colors.items@.dom()
            != current_servers@ && data.document_colors->0.updating_for is Some
            && data.document_colors->0.updating_for->0@ == version@ ==> result.1 is JoinUpdate,
        none.1 is StartUpdate,
{
    if data.document_colors is Some {
        let colors = data.document_colors->0.colors;
        assert(colors@.dom() =~= colors.items@.dom());
        if data.document_colors->0.updating_for is Some
            && data.document_colors->0.updating_for->0@ == version@ {
            assert(!is_changed_since(version@, version@));
        }
    }
    assert(result.0@.document_colors is Some <==> result.0.document_colors is Some);
    if changed {
        assert(result.0@.document_colors->0.updating_for == Some(version@));
    }
}

/// Answers for a version that the buffer left are dropped. Answers for the version that it is at
/// are taken over server by server, and then nobody asks any more.
pub proof fn fetched_colors_are_taken_over(
    data: BufferLspData,
    version: BufferVersion,
    queried_for: BufferVersion,
    fetched: ServerData,
    result: (Option<BufferLspData>, BTreeSet<u64>),
    server: u64,
    item: u64,
    failed: BufferLspData,
)
    requires
        call_ensures(colors_fetched, (Some(data), &version, &queried_for, fetched), result),
        call_ensures(colors_failed, (data,), failed),
    ensures
        version@ != queried_for@ ==> result.0 == Some(data) && result.1@.len() == 0,
        version@ == queried_for@ && data.version@ == version@ ==> {
            &&& result.0 matches Some(after) && after.document_colors is Some
                && after.document_colors->0.updating_for is None && (
            fetched.items@.contains_key(server)
                ==> after.document_colors->0.colors.items@.contains_key(server)
                && after.document_colors->0.colors.items@[server]@ == fetched.items@[server]@)
            &&& fetched.items@.contains_key(server) && fetched.items@[server]@.contains(item)
                ==> result.1@.contains(item)
        },
        failed.document_colors is Some <==> data.document_colors is Some,
        failed.document_colors is Some ==> failed.document_colors->0.updating_for is None
            && failed.document_colors->0.colors@ == data.document_colors->0.colors@,
{
    if version@ == queried_for@ && data.version@ == version@ {
        assert(!is_changed_since(version@, version@));
        assert(latest(opt_data(Some(data)), version@) == data@);
        let after = with_fetched(data@, queried_for@, fetched@);
        assert(opt_data(result.0) == Some(after));
        let kept = result.0->0;
        assert(kept@ == after);
        let colors = after.document_colors->0.colors;
        assert(kept.document_colors is Some);
        assert(kept.document_colors->0.colors@ == colors);
        if fetched.items@.contains_key(server) {
            assert(fetched@.contains_key(server));
            assert(colors.contains_key(server));
            assert(colors[server] == fetched@[server]);
            assert(kept.document_colors->0.colors@.contains_key(server));
            if fetched.items@[server]@.contains(item) {
                assert(is_told(colors, item));
            }
        }
    }
    assert(failed@.document_colors is Some <==> failed.document_colors is Some);
    assert(data@.document_colors is Some <==> data.document_colors is Some);
}

/// What a server tells anew replaces what it told; what it tells besides is added. All items of
/// all servers are collected, and servers are compared as sets.
pub proof fn server_data_is_kept_by_server(
    replacing: &mut ServerData,
    adding: &mut ServerData,
    forgetting: &mut ServerData,
    data: ServerData,
    server: u64,
    other: u64,
    items: BTreeSet<u64>,
    more: Vec<u64>,
    item: u64,
    all: BTreeSet<u64>,
    servers: BTreeSet<u64>,
    is_from: bool,
)
    requires
        call_ensures(ServerData::replace, (replacing, server, items), ()),
        call_ensures(ServerData::add, (adding, server, &more), ()),
        call_ensures(ServerData::remove_server_data, (forgetting, server), ()),
        call_ensures(ServerData::flatten, (&data,), all),
        call_ensures(ServerData::is_from, (&data, &servers), is_from),
        other != server,
    ensures
        final(replacing).items@.contains_key(server) && final(replacing).items@[server]@ == items@,
        final(replacing).items@.contains_key(other) <==> old(replacing).items@.contains_key(other),
        final(adding).items@.contains_key(server),
        final(adding).items@[server]@.contains(item) <==> more@.contains(item) || old(adding).items@.contains_key(server) && old(adding).items@[server]@.contains(item),
        !final(forgetting).items@.contains_key(server),
        final(forgetting).items@.contains_key(other) <==> old(forgetting).items@.contains_key(
            other,
        ),
        data.items@.contains_key(server) && data.items@[server]@.contains(item) ==> all@.contains(
            item,
        ),
        is_from <==> (forall|s: u64| #[trigger] data.items@.contains_key(s) <==> servers@.contains(s)),
{
    assert(final(replacing)@.contains_key(server));
    assert(final(replacing)@[server] == final(replacing).items@[server]@);
    assert(final(replacing)@.contains_key(other) <==> final(replacing).items@.contains_key(other));
    assert(old(replacing)@.contains_key(other) <==> old(replacing).items@.contains_key(other));
    assert(final(adding)@.contains_key(server));
    assert(final(adding)@[server] == final(adding).items@[server]@);
    assert(old(adding)@.contains_key(server) <==> old(adding).items@.contains_key(server));
    if old(adding)@.contains_key(server) {
        assert(old(adding)@[server] == old(adding).items@[server]@);
    }
    assert(more@.to_set().contains(item) <==> more@.contains(item));
    assert(final(forgetting)@.contains_key(server) <==> final(forgetting).items@.contains_key(
        server,
    ));
    assert(final(forgetting)@.contains_key(other) <==> final(forgetting).items@.contains_key(other));
    assert(old(forgetting)@.contains_key(other) <==> old(forgetting).items@.contains_key(other));
    if data.items@.contains_key(server) && data.items@[server]@.contains(item) {
        assert(data@.contains_key(server) && data@[server].contains(item));
        assert(is_told(data@, item));
    }
    assert forall|s: u64| #[trigger] data.items@.contains_key(s) <==> data@.dom().contains(s) by {}
    if is_from {
        assert forall|s: u64| #[trigger] data.items@.contains_key(s) <==> servers@.contains(s) by {
            assert(data@.dom().contains(s) <==> servers@.contains(s));
        }
    } else if forall|s: u64| #[trigger] data.items@.contains_key(s) <==> servers@.contains(s) {
        assert(data@.dom() =~= servers@);
    }
}

proof fn lemma_collected(responses: Seq<(u64, Vec<u64>)>, server: u64, item: u64)
    ensures
        collected(responses).contains_key(server) <==> exists|i: int|
            0 <= i < responses.len() && (#[trigger] responses[i]).0 == server,
        collected(responses).contains_key(server) ==> (collected(responses)[server].contains(item)
            <==> exists|i: int|
            0 <= i < responses.len() && (#[trigger] responses[i]).0 == server
                && responses[i].1@.contains(item)),
    decreases responses.len(),
{
    if responses.len() > 0 {
        let earlier = responses.drop_last();
        let last = responses.last();
        lemma_collected(earlier, server, item);
        assert(forall|i: int| 0 <= i < earlier.len() ==> #[trigger] earlier[i] == responses[i]);
        assert(responses[responses.len() - 1] == last);
        assert(last.1@.to_set().contains(item) <==> last.1@.contains(item));
        if exists|i: int| 0 <= i < earlier.len() && (#[trigger] earlier[i]).0 == server {
            let i = choose|i: int| 0 <= i < earlier.len() && (#[trigger] earlier[i]).0 == server;
            assert(responses[i].0 == server);
        }
        if exists|i: int|
            0 <= i < earlier.len() && (#[trigger] earlier[i]).0 == server
                && earlier[i].1@.contains(item) {
            let i = choose|i: int|
                0 <= i < earlier.len() && (#[trigger] earlier[i]).0 == server
                    && earlier[i].1@.contains(item);
            assert(responses[i].0 == server && responses[i].1@.contains(item));
        }
        if exists|i: int| 0 <= i < responses.len() && (#[trigger] responses[i]).0 == server {
            let i = choose|i: int| 0 <= i < responses.len() && (#[trigger] responses[i]).0 == server;
            if i < earlier.len() {
                assert(earlier[i].0 == server);
            }
        }
        if exists|i: int|
            0 <= i < responses.len() && (#[trigger] responses[i]).0 == server
                && responses[i].1@.contains(item) {
            let i = choose|i: int|
                0 <= i < responses.len() && (#[trigger] responses[i]).0 == server
                    && responses[i].1@.contains(item);
            if i < earlier.len() {
                assert(earlier[i].0 == server && earlier[i].1@.contains(item));
            }
        }
    }
}

/// The answers of a server are collected under it, all of them, and nothing else is.
pub proof fn responses_are_collected_by_server(
    responses: Vec<(u64, Vec<u64>)>,
    data: ServerData,
    server: u64,
    item: u64,
)
    requires
        call_ensures(collect_responses, (&responses,), data),
    ensures
        data.items@.contains_key(server) <==> exists|i: int|
            0 <= i < responses@.len() && (#[trigger] responses@[i]).0 == server,
        data.items@.contains_key(server) ==> (data.items@[server]@.contains(item)
            <==> exists|i: int|
            0 <= i < responses@.len() && (#[trigger] responses@[i]).0 == server
                && responses@[i].1@.contains(item)),
{
    lemma_collected(responses@, server, item);
    assert(data@.contains_key(server) <==> data.items@.contains_key(server));
    if data@.contains_key(server) {
        assert(data@[server] == data.items@[server]@);
    }
}

} // verus!
