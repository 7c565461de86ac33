//! Buffers that are open in some editor, and what language servers have to do with them.
use std::collections::BTreeMap;
use vstd::prelude::*;

use crate::ids::{map_get, map_put, map_take};
use crate::text::same_text;

verus! {

/// How many handles there are for each buffer that was registered.
#[derive(Debug)]
pub struct RegisteredBuffers {
    pub counts: BTreeMap<u64, usize>,
}

/// What asking for a handle brings about.
#[derive(Clone, Copy, Debug, PartialEq, Eq, Structural)]
pub struct OpenPlan {
    /// The buffer is registered with its language servers.
    pub register: bool,
    /// The release of the handle is watched for.
    pub observe: bool,
}

pub open spec fn count_of(counts: Map<u64, usize>, buffer: u64) -> nat {
    if counts.contains_key(buffer) {
        counts[buffer] as nat
    } else {
        0
    }
}

/// The counts after a handle was asked for. Where counting is off the buffer is still
/// entered, so that a later language finds it.
pub open spec fn after_open(
    counts: Map<u64, usize>,
    buffer: u64,
    ignore_refcounts: bool,
) -> Map<u64, usize> {
    counts.insert(
        buffer,
        (count_of(counts, buffer) + if ignore_refcounts {
            0nat
        } else {
            1nat
        }) as usize,
    )
}

/// The counts after a handle was released.
pub open spec fn after_release(counts: Map<u64, usize>, buffer: u64) -> Map<u64, usize> {
    if count_of(counts, buffer) <= 1 {
        counts.remove(buffer)
    } else {
        counts.insert(buffer, (count_of(counts, buffer) - 1) as usize)
    }
}

impl RegisteredBuffers {
    pub fn new() -> (buffers: Self)
        ensures
            buffers.counts@ == Map::<u64, usize>::empty(),
    {
        RegisteredBuffers { counts: BTreeMap::new() }
    }

    /// Counts a handle. Only the first handle, or one that does not count, registers the
    /// buffer with its servers, and only if it belongs to a local file.
    pub fn open(&mut self, buffer: u64, has_local_file: bool, ignore_refcounts: bool) -> (plan:
        OpenPlan)
        requires
            count_of(old(self).counts@, buffer) < usize::MAX,
        ensures
            final(self).counts@ == after_open(old(self).counts@, buffer, ignore_refcounts),
            plan.register == (has_local_file && (ignore_refcounts || count_of(
                old(self).counts@,
                buffer,
            ) == 0)),
            plan.observe == (has_local_file && !ignore_refcounts),
    {
        let count: usize = match map_get(&self.counts, buffer) {
            Some(count) => *count,
            None => 0,
        };
        let next: usize = if ignore_refcounts {
            count
        } else {
            count + 1
        };
        map_put(&mut self.counts, buffer, next);
        OpenPlan {
            register: has_local_file && (ignore_refcounts || next == 1),
            observe: has_local_file && !ignore_refcounts,
        }
    }

    /// A counted handle was released. Says whether it was the last one: then what is
    /// known of the buffer is dropped, and its servers are told that it was closed.
    pub fn release(&mut self, buffer: u64) -> (last: bool)
        requires
            count_of(old(self).counts@, buffer) > 0,
        ensures
            final(self).counts@ == after_release(old(self).counts@, buffer),
            last == (count_of(old(self).counts@, buffer) == 1),
    {
        match map_take(&mut self.counts, buffer) {
            Some(count) => {
                if count > 1 {
                    map_put(&mut self.counts, buffer, count - 1);
                    assert(self.counts@ =~= after_release(old(self).counts@, buffer));
                    false
                } else {
                    true
                }
            },
            None => false,
        }
    }
}

/// A handle that is opened and released again leaves the count as it was.
pub proof fn release_undoes_open(counts: Map<u64, usize>, buffer: u64)
    requires
        count_of(counts, buffer) < usize::MAX,
    ensures
        count_of(after_release(after_open(counts, buffer, false), buffer), buffer) == count_of(
            counts,
            buffer,
        ),
        count_of(counts, buffer) > 0 ==> after_release(after_open(counts, buffer, false), buffer)
            == counts,
        !counts.contains_key(buffer) ==> after_release(after_open(counts, buffer, false), buffer)
            == counts,
{
    let opened = after_open(counts, buffer, false);
    let released = after_release(opened, buffer);
    if count_of(counts, buffer) > 0 || !counts.contains_key(buffer) {
        assert(released =~= counts);
    }
}

/// An open buffer, as far as language servers are concerned.
#[derive(Clone, Copy, Debug, PartialEq, Eq, Structural)]
pub struct OpenBuffer {
    pub id: u64,
    /// The worktree of its file, where it has one.
    pub worktree: Option<u64>,
    pub worktree_is_known: bool,
    pub worktree_is_visible: bool,
    pub is_local: bool,
    /// Its path can be written as a URI.
    pub has_uri: bool,
    pub has_language: bool,
    /// Some handle for it was asked for.
    pub is_registered: bool,
}

impl OpenBuffer {
    /// Whether the buffer can be opened in language servers at all.
    pub fn is_registrable(&self) -> (result: bool)
        ensures
            result == (self.worktree is Some && self.is_local && self.has_uri && self.has_language
                && self.worktree_is_known),
    {
        self.worktree.is_some() && self.is_local && self.has_uri && self.has_language
            && self.worktree_is_known
    }
}

/// What a server that has just started does with an open buffer.
#[derive(Clone, Copy, Debug, PartialEq, Eq, Structural)]
pub enum NewServerAction {
    Skip,
    /// The buffer takes over the server's completion triggers.
    SetTriggers,
    /// The buffer is opened in the server too.
    Register,
}

pub open spec fn action_of(buffer: OpenBuffer, worktrees: Seq<u64>, is_served: bool) -> NewServerAction {
    if buffer.worktree is None || !buffer.has_language || !worktrees.contains(buffer.worktree->0)
        || !is_served || !buffer.is_local {
        NewServerAction::Skip
    } else if !buffer.is_registered {
        NewServerAction::SetTriggers
    } else if buffer.has_uri {
        NewServerAction::Register
    } else {
        NewServerAction::Skip
    }
}

/// Decides what a server that has just started does with an open buffer.
/// `worktrees_using_server` are those in which the server is used, `is_served` says
/// whether the server is one for the buffer's language.
pub fn new_server_action(
    buffer: &OpenBuffer,
    worktrees_using_server: &Vec<u64>,
    is_served: bool,
) -> (action: NewServerAction)
    ensures
        action == action_of(*buffer, worktrees_using_server@, is_served),
{
    let worktree: u64 = match buffer.worktree {
        Some(worktree) => worktree,
        None => return NewServerAction::Skip,
    };
    if !buffer.has_language || !is_served || !buffer.is_local {
        return NewServerAction::Skip;
    }
    let used: bool = lists(worktrees_using_server, worktree);
    if !used {
        NewServerAction::Skip
    } else if !buffer.is_registered {
        NewServerAction::SetTriggers
    } else if buffer.has_uri {
        NewServerAction::Register
    } else {
        NewServerAction::Skip
    }
}

/// The servers that have been started at one root of a worktree.
#[derive(Debug)]
pub struct RootServers {
    pub worktree: u64,
    pub servers: Vec<u64>,
}

/// The worktrees in which a server that was started for one of them is used: that one,
/// and every other at one of whose roots the server occurs, once for each such root.
pub open spec fn worktrees_using(own: u64, roots: Seq<RootServers>, server: u64) -> Seq<u64>
    decreases roots.len(),
{
    if roots.len() == 0 {
        seq![own]
    } else {
        let earlier = worktrees_using(own, roots.drop_last(), server);
        let root = roots.last();
        if root.worktree != own && root.servers@.contains(server) {
            earlier.push(root.worktree)
        } else {
            earlier
        }
    }
}

/// Whether a number is in a list.
pub(crate) fn lists(ids: &Vec<u64>, id: u64) -> (found: bool)
    ensures
        found == ids@.contains(id),
{
    let mut i: usize = 0;
    while i < ids.len()
        invariant
            i <= ids@.len(),
            forall|j: int| 0 <= j < i ==> ids@[j] != id,
        decreases ids@.len() - i,
    {
        if ids[i] == id {
            return true;
        }
        i += 1;
    }
    false
}

/// Collects the worktrees in which a server is used.
pub fn worktrees_using_server(own: u64, roots: &Vec<RootServers>, server: u64) -> (worktrees: Vec<
    u64,
>)
    ensures
        worktrees@ == worktrees_using(own, roots@, server),
{
    let mut worktrees: Vec<u64> = Vec::new();
    worktrees.push(own);
    let mut i: usize = 0;
    assert(worktrees@ =~= seq![own]);
    while i < roots.len()
        invariant
            i <= roots@.len(),
            worktrees@ == worktrees_using(own, roots@.take(i as int), server),
        decreases roots@.len() - i,
    {
        assert(roots@.take(i + 1).drop_last() =~= roots@.take(i as int));
        assert(roots@.take(i + 1).last() == roots@[i as int]);
        if roots[i].worktree != own && lists(&roots[i].servers, server) {
            worktrees.push(roots[i].worktree);
        }
        i += 1;
    }
    assert(roots@.take(i as int) =~= roots@);
    worktrees
}

/// In which turn a buffer is looked at: those of visible worktrees first, so that their
/// servers can be reused, then those of other worktrees, then those without a file.
pub open spec fn turn(buffer: OpenBuffer) -> int {
    if buffer.worktree is None {
        2
    } else if buffer.worktree_is_visible {
        0
    } else {
        1
    }
}

/// The buffers of one turn, in their order.
pub open spec fn of_turn(buffers: Seq<OpenBuffer>, at: int) -> Seq<u64>
    decreases buffers.len(),
{
    if buffers.len() == 0 {
        Seq::empty()
    } else if turn(buffers.last()) == at {
        of_turn(buffers.drop_last(), at).push(buffers.last().id)
    } else {
        of_turn(buffers.drop_last(), at)
    }
}

/// Orders buffers so that those of visible worktrees come first.
pub fn visible_first(buffers: &Vec<OpenBuffer>) -> (ordered: Vec<u64>)
    ensures
        ordered@ == of_turn(buffers@, 0) + of_turn(buffers@, 1) + of_turn(buffers@, 2),
{
    let mut visible: Vec<u64> = Vec::new();
    let mut hidden: Vec<u64> = Vec::new();
    let mut fileless: Vec<u64> = Vec::new();
    let mut i: usize = 0;
    while i < buffers.len()
        invariant
            i <= buffers@.len(),
            visible@ == of_turn(buffers@.take(i as int), 0),
            hidden@ == of_turn(buffers@.take(i as int), 1),
            fileless@ == of_turn(buffers@.take(i as int), 2),
        decreases buffers@.len() - i,
    {
        let buffer: OpenBuffer = buffers[i];
        assert(buffers@.take(i + 1).drop_last() =~= buffers@.take(i as int));
        assert(buffers@.take(i + 1).last() == buffers@[i as int]);
        if buffer.worktree.is_none() {
            fileless.push(buffer.id);
        } else if buffer.worktree_is_visible {
            visible.push(buffer.id);
        } else {
            hidden.push(buffer.id);
        }
        i += 1;
    }
    assert(buffers@.take(i as int) =~= buffers@);
    visible.append(&mut hidden);
    visible.append(&mut fileless);
    visible
}

/// A server in a worktree, and the languages for which it is used there.
#[derive(Debug)]
pub struct ServerLanguages {
    pub node: u64,
    pub languages: Vec<String>,
}

/// The servers of one worktree.
#[derive(Debug)]
pub struct WorktreeServers {
    pub is_visible: bool,
    pub servers: Vec<ServerLanguages>,
}

/// A language is among those of the server.
pub open spec fn speaks(server: ServerLanguages, language: Seq<char>) -> bool {
    exists|i: int|
        0 <= i < server.languages@.len() && (#[trigger] server.languages@[i])@ == language
}

/// The servers that are used for a language.
pub open spec fn speaking(servers: Seq<ServerLanguages>, language: Seq<char>) -> Seq<u64>
    decreases servers.len(),
{
    if servers.len() == 0 {
        Seq::empty()
    } else if speaks(servers.last(), language) {
        speaking(servers.drop_last(), language).push(servers.last().node)
    } else {
        speaking(servers.drop_last(), language)
    }
}

/// The servers that a visible worktree has for a language.
pub open spec fn offered(worktree: WorktreeServers, language: Seq<char>) -> Seq<u64> {
    if worktree.is_visible {
        speaking(worktree.servers@, language)
    } else {
        Seq::empty()
    }
}

fn does_speak(server: &ServerLanguages, language: &str) -> (result: bool)
    ensures
        result == speaks(*server, language@),
{
    let mut i: usize = 0;
    while i < server.languages.len()
        invariant
            i <= server.languages@.len(),
            forall|j: int| 0 <= j < i ==> (#[trigger] server.languages@[j])@ != language@,
        decreases server.languages@.len() - i,
    {
        if same_text(server.languages[i].as_str(), language) {
            return true;
        }
        i += 1;
    }
    false
}

fn collect_speaking(servers: &Vec<ServerLanguages>, language: &str) -> (nodes: Vec<u64>)
    ensures
        nodes@ == speaking(servers@, language@),
{
    let mut nodes: Vec<u64> = Vec::new();
    let mut i: usize = 0;
    while i < servers.len()
        invariant
            i <= servers@.len(),
            nodes@ == speaking(servers@.take(i as int), language@),
        decreases servers@.len() - i,
    {
        assert(servers@.take(i + 1).drop_last() =~= servers@.take(i as int));
        assert(servers@.take(i + 1).last() == servers@[i as int]);
        if does_speak(&servers[i], language) {
            nodes.push(servers[i].node);
        }
        i += 1;
    }
    assert(servers@.take(i as int) =~= servers@);
    nodes
}

/// The servers that a worktree which is not shown takes over: those of a visible
/// worktree that has the most servers for the language. A worktree that is shown has
/// servers of its own.
pub fn reuse_existing_language_server(
    is_visible: bool,
    worktrees: &Vec<WorktreeServers>,
    language: &str,
) -> (reused: Option<Vec<u64>>)
    ensures
        reused is None <==> is_visible || forall|i: int|
            0 <= i < worktrees@.len() ==> offered(#[trigger] worktrees@[i], language@).len() == 0,
        reused matches Some(nodes) ==> {
            &&& nodes@.len() > 0
            &&& exists|i: int|
                0 <= i < worktrees@.len() && offered(#[trigger] worktrees@[i], language@) == nodes@
            &&& forall|i: int|
                0 <= i < worktrees@.len() ==> offered(#[trigger] worktrees@[i], language@).len()
                    <= nodes@.len()
        },
{
    if is_visible {
        return None;
    }
    let mut best: Vec<u64> = Vec::new();
    let mut i: usize = 0;
    while i < worktrees.len()
        invariant
            i <= worktrees@.len(),
            best@.len() > 0 ==> exists|j: int|
                0 <= j < i && offered(#[trigger] worktrees@[j], language@) == best@,
            forall|j: int|
                0 <= j < i ==> offered(#[trigger] worktrees@[j], language@).len() <= best@.len(),
        decreases worktrees@.len() - i,
    {
        if worktrees[i].is_visible {
            let nodes: Vec<u64> = collect_speaking(&worktrees[i].servers, language);
            assert(nodes@ == offered(worktrees@[i as int], language@));
            if nodes.len() > 0 && nodes.len() >= best.len() {
                best = nodes;
            }
        }
        i += 1;
    }
    if best.len() == 0 {
        None
    } else {
        Some(best)
    }
}

/// The first handle for a buffer with a local file registers it; further ones only count. One that
/// does not count registers it every time, and is not watched.
pub proof fn first_handles_register(
    buffers: &mut RegisteredBuffers,
    uncounted: &mut RegisteredBuffers,
    buffer: u64,
    has_local_file: bool,
    plan: OpenPlan,
    uncounted_plan: OpenPlan,
    other: u64,
)
    requires
        call_ensures(RegisteredBuffers::open, (buffers, buffer, has_local_file, false), plan),
        call_ensures(
            RegisteredBuffers::open,
            (uncounted, buffer, has_local_file, true),
            uncounted_plan,
        ),
        old(buffers).counts@.contains_key(buffer) ==> old(buffers).counts@[buffer] < usize::MAX,
        other != buffer,
    ensures
        plan.register <==> has_local_file && (!old(buffers).counts@.contains_key(buffer) || old(buffers).counts@[buffer] == 0),
        plan.observe == has_local_file,
        final(buffers).counts@.contains_key(buffer),
        old(buffers).counts@.contains_key(buffer) ==> final(buffers).counts@[buffer] == old(buffers).counts@[buffer] + 1,
        !old(buffers).counts@.contains_key(buffer) ==> final(buffers).counts@[buffer] == 1,
        final(buffers).counts@.contains_key(other) <==> old(buffers).counts@.contains_key(other),
        uncounted_plan.register == has_local_file,
        !uncounted_plan.observe,
        final(uncounted).counts@.contains_key(buffer),
        old(uncounted).counts@.contains_key(buffer) ==> final(uncounted).counts@[buffer] == old(uncounted).counts@[buffer],
        !old(uncounted).counts@.contains_key(buffer) ==> final(uncounted).counts@[buffer] == 0,
{
}

/// The last handle that is released makes the buffer be forgotten; an earlier one only counts.
pub proof fn last_handles_close(
    buffers: &mut RegisteredBuffers,
    buffer: u64,
    last: bool,
    other: u64,
)
    requires
        call_ensures(RegisteredBuffers::release, (buffers, buffer), last),
        old(buffers).counts@.contains_key(buffer),
        old(buffers).counts@[buffer] > 0,
        other != buffer,
    ensures
        last <==> old(buffers).counts@[buffer] == 1,
        last ==> !final(buffers).counts@.contains_key(buffer),
        !last ==> final(buffers).counts@.contains_key(buffer) && final(buffers).counts@[buffer]
            == old(buffers).counts@[buffer] - 1,
        final(buffers).counts@.contains_key(other) <==> old(buffers).counts@.contains_key(other),
{
}

/// A buffer can be opened in servers just if it is local, in a worktree that is known, and has a
/// URI and a language. A new server takes such a buffer on if it serves it and some handle for it
/// was asked for; without a handle it only gives its triggers.
pub proof fn new_servers_take_on_their_buffers(
    buffer: OpenBuffer,
    worktrees: Vec<u64>,
    is_served: bool,
    registrable: bool,
    action: NewServerAction,
)
    requires
        call_ensures(OpenBuffer::is_registrable, (&buffer,), registrable),
        call_ensures(new_server_action, (&buffer, &worktrees, is_served), action),
    ensures
        registrable <==> buffer.worktree is Some && buffer.is_local && buffer.has_uri
            && buffer.has_language && buffer.worktree_is_known,
        action is Register <==> is_served && buffer.is_local && buffer.has_language
            && buffer.is_registered && buffer.has_uri && (buffer.worktree matches Some(worktree)
            && worktrees@.contains(worktree)),
        action is SetTriggers <==> is_served && buffer.is_local && buffer.has_language
            && !buffer.is_registered && (buffer.worktree matches Some(worktree)
            && worktrees@.contains(worktree)),
{
}

proof fn lemma_using(own: u64, roots: Seq<RootServers>, server: u64, worktree: u64)
    ensures
        worktrees_using(own, roots, server).contains(worktree) <==> worktree == own || exists|i: int|
            0 <= i < roots.len() && (#[trigger] roots[i]).worktree == worktree
                && roots[i].servers@.contains(server),
    decreases roots.len(),
{
    if roots.len() == 0 {
        assert(seq![own].contains(worktree) <==> worktree == own) by {
            assert(seq![own][0] == own);
        }
    } else {
        let earlier = roots.drop_last();
        lemma_using(own, earlier, server, worktree);
        crate::ids::contains_push(
            worktrees_using(own, earlier, server),
            roots.last().worktree,
            worktree,
        );
        assert(forall|i: int| 0 <= i < earlier.len() ==> #[trigger] earlier[i] == roots[i]);
        assert(roots[roots.len() - 1] == roots.last());
        if exists|i: int|
            0 <= i < earlier.len() && (#[trigger] earlier[i]).worktree == worktree
                && earlier[i].servers@.contains(server) {
            let i = choose|i: int|
                0 <= i < earlier.len() && (#[trigger] earlier[i]).worktree == worktree
                    && earlier[i].servers@.contains(server);
            assert(roots[i].worktree == worktree);
        }
        if exists|i: int|
            0 <= i < roots.len() && (#[trigger] roots[i]).worktree == worktree
                && roots[i].servers@.contains(server) {
            let i = choose|i: int|
                0 <= i < roots.len() && (#[trigger] roots[i]).worktree == worktree
                    && roots[i].servers@.contains(server);
            if i < earlier.len() {
                assert(earlier[i].worktree == worktree);
            }
        }
    }
}

/// A server is used in the worktree that it was started for, and wherever it was started at a
/// root.
pub proof fn servers_are_used_where_they_started(
    own: u64,
    roots: Vec<RootServers>,
    server: u64,
    worktrees: Vec<u64>,
    worktree: u64,
)
    requires
        call_ensures(worktrees_using_server, (own, &roots, server), worktrees),
    ensures
        worktrees@.contains(worktree) <==> worktree == own || exists|i: int|
            0 <= i < roots@.len() && (#[trigger] roots@[i]).worktree == worktree
                && roots@[i].servers@.contains(server),
        worktrees@.len() > 0,
        worktrees@[0] == own,
{
    lemma_using(own, roots@, server, worktree);
    lemma_own_first(own, roots@, server);
}

proof fn lemma_own_first(own: u64, roots: Seq<RootServers>, server: u64)
    ensures
        worktrees_using(own, roots, server).len() > 0,
        worktrees_using(own, roots, server)[0] == own,
    decreases roots.len(),
{
    if roots.len() > 0 {
        lemma_own_first(own, roots.drop_last(), server);
    }
}

proof fn lemma_speaking(servers: Seq<ServerLanguages>, language: Seq<char>, node: u64)
    ensures
        speaking(servers, language).contains(node) <==> exists|i: int|
            0 <= i < servers.len() && (#[trigger] servers[i]).node == node && speaks(
                servers[i],
                language,
            ),
    decreases servers.len(),
{
    if servers.len() > 0 {
        let earlier = servers.drop_last();
        lemma_speaking(earlier, language, node);
        crate::ids::contains_push(speaking(earlier, language), servers.last().node, node);
        assert(forall|i: int| 0 <= i < earlier.len() ==> #[trigger] earlier[i] == servers[i]);
        assert(servers[servers.len() - 1] == servers.last());
        if exists|i: int|
            0 <= i < earlier.len() && (#[trigger] earlier[i]).node == node && speaks(
                earlier[i],
                language,
            ) {
            let i = choose|i: int|
                0 <= i < earlier.len() && (#[trigger] earlier[i]).node == node && speaks(
                    earlier[i],
                    language,
                );
            assert(servers[i].node == node);
        }
        if exists|i: int|
            0 <= i < servers.len() && (#[trigger] servers[i]).node == node && speaks(
                servers[i],
                language,
            ) {
            let i = choose|i: int|
                0 <= i < servers.len() && (#[trigger] servers[i]).node == node && speaks(
                    servers[i],
                    language,
                );
            if i < earlier.len() {
                assert(earlier[i].node == node);
            }
        }
    }
}

/// What a worktree that is not shown takes over is all that one visible worktree has for the
/// language, and no visible worktree has more. A worktree that is shown takes nothing over.
pub proof fn hidden_worktrees_reuse_servers(
    worktrees: Vec<WorktreeServers>,
    language: &str,
    reused: Option<Vec<u64>>,
    shown: Option<Vec<u64>>,
    node: u64,
)
    requires
        call_ensures(reuse_existing_language_server, (false, &worktrees, language), reused),
        call_ensures(reuse_existing_language_server, (true, &worktrees, language), shown),
    ensures
        shown is None,
        reused matches Some(nodes) ==> nodes@.len() > 0 && exists|i: int|
            0 <= i < worktrees@.len() && (#[trigger] worktrees@[i]).is_visible && (nodes@.contains(
                node,
            ) <==> exists|k: int|
                0 <= k < worktrees@[i].servers@.len() && (
                #[trigger] worktrees@[i].servers@[k]).node == node && speaks(
                    worktrees@[i].servers@[k],
                    language@,
                )),
{
    if let Some(nodes) = reused {
        let i = choose|i: int|
            0 <= i < worktrees@.len() && offered(#[trigger] worktrees@[i], language@) == nodes@;
        assert(worktrees@[i].is_visible);
        lemma_speaking(worktrees@[i].servers@, language@, node);
    }
}
/// Of two buffers, that of a visible worktree comes first, then that of a hidden one, then
/// that without a file. Buffers that are alike stay in their order.
pub proof fn buffers_take_turns(buffers: Vec<OpenBuffer>, ordered: Vec<u64>)
    requires
        call_ensures(visible_first, (&buffers,), ordered),
        buffers@.len() == 2,
    ensures
        ({
            let first = buffers@[0];
            let second = buffers@[1];
            let swapped = if second.worktree is None {
                false
            } else if second.worktree_is_visible {
                first.worktree is None || !first.worktree_is_visible
            } else {
                first.worktree is None
            };
            ordered@ == if swapped {
                seq![second.id, first.id]
            } else {
                seq![first.id, second.id]
            }
        }),
{
    reveal_with_fuel(of_turn, 3);
    assert(buffers@.drop_last().drop_last().len() == 0);
    assert(buffers@.drop_last().last() == buffers@[0]);
    assert(buffers@.last() == buffers@[1]);
    assert forall|at: int| 0 <= at < 3 implies #[trigger] of_turn(buffers@, at) =~= (if turn(
        buffers@[0],
    ) == at {
        seq![buffers@[0].id]
    } else {
        Seq::empty()
    }) + (if turn(buffers@[1]) == at {
        seq![buffers@[1].id]
    } else {
        Seq::empty()
    }) by {}
    assert(of_turn(buffers@, 0).len() + of_turn(buffers@, 1).len() + of_turn(buffers@, 2).len()
        == 2);
}

/// A further buffer leaves the others in their order: one without a file comes last of all, one
/// of a hidden worktree before those without a file, and one of a visible worktree before
/// those of hidden ones.
pub proof fn further_buffers_keep_the_order(
    buffers: Vec<OpenBuffer>,
    ordered: Vec<u64>,
    more: Vec<OpenBuffer>,
    buffer: OpenBuffer,
    all: Vec<u64>,
)
    requires
        call_ensures(visible_first, (&buffers,), ordered),
        call_ensures(visible_first, (&more,), all),
        more@ == buffers@.push(buffer),
    ensures
        exists|at: int| #[trigger] ordered@.insert(at, buffer.id) == all@ && 0 <= at
            <= ordered@.len(),
        buffer.worktree is None ==> all@ == ordered@.push(buffer.id),
{
    assert(more@.drop_last() =~= buffers@);
    let a = of_turn(buffers@, 0);
    let b = of_turn(buffers@, 1);
    let c = of_turn(buffers@, 2);
    let at = if turn(buffer) == 0 {
        a.len() as int
    } else if turn(buffer) == 1 {
        (a.len() + b.len()) as int
    } else {
        (a.len() + b.len() + c.len()) as int
    };
    assert(ordered@.insert(at, buffer.id) =~= all@);
}

} // verus!
