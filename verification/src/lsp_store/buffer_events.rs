//! What happens to buffers as they are opened, edited, saved and read again.
use std::collections::BTreeMap;
use vstd::prelude::*;

use crate::ids::{map_keys, map_take};
use crate::lsp_store::refresh::completion_triggers;
use crate::lsp_store::servers::{LanguageServerState, LocalLspStore, LocalView};

verus! {

/// A server for a buffer, with how it offers completion: not at all, without saying where it
/// starts, or at some characters.
#[derive(Debug)]
pub struct CompletionServer {
    pub id: u64,
    pub provider: Option<Option<Vec<String>>>,
}

/// The characters at which completion starts.
pub open spec fn triggers_of(provider: Option<Option<Vec<String>>>) -> Seq<String> {
    match provider {
        Some(Some(characters)) => characters@,
        _ => Seq::empty(),
    }
}

/// The triggers that a buffer takes over: those of the servers that run, in their order.
pub open spec fn taken_over(servers: Seq<CompletionServer>, local: LocalView) -> Seq<
    (u64, Seq<String>),
>
    decreases servers.len(),
{
    if servers.len() == 0 {
        Seq::empty()
    } else {
        let earlier = taken_over(servers.drop_last(), local);
        let server = servers.last();
        if local.servers.contains_key(server.id) && local.servers[server.id]
            == LanguageServerState::Running {
            earlier.push((server.id, triggers_of(server.provider)))
        } else {
            earlier
        }
    }
}

pub open spec fn trigger_views(triggers: Seq<(u64, Vec<String>)>) -> Seq<(u64, Seq<String>)> {
    triggers.map_values(|of: (u64, Vec<String>)| (of.0, of.1@))
}

/// What servers of a buffer depend on.
#[derive(Clone, Copy, Debug, PartialEq, Eq, Structural)]
pub struct BufferFile {
    pub has_file: bool,
    pub is_local: bool,
    pub has_language: bool,
    pub worktree_is_known: bool,
}

impl BufferFile {
    /// Servers can be looked up for the buffer.
    pub open spec fn can_be_served(self) -> bool {
        self.has_file && self.is_local && self.has_language && self.worktree_is_known
    }
}

impl LocalLspStore {
    /// The completion triggers that a buffer gets from its servers. `servers` are those that
    /// are found for its path.
    pub fn initialize_buffer(&self, file: BufferFile, servers: Vec<CompletionServer>) -> (triggers:
        Vec<(u64, Vec<String>)>)
        ensures
            trigger_views(triggers@) == (if file.can_be_served() {
                taken_over(servers@, self@)
            } else {
                Seq::empty()
            }),
    {
        let mut triggers: Vec<(u64, Vec<String>)> = Vec::new();
        assert(trigger_views(triggers@) =~= Seq::<(u64, Seq<String>)>::empty());
        if !(file.has_file && file.is_local && file.has_language && file.worktree_is_known) {
            return triggers;
        }
        let ghost given = servers@;
        let mut rest: Vec<CompletionServer> = servers;
        while rest.len() > 0
            invariant
                rest@.len() <= given.len(),
                rest@ == given.skip(given.len() - rest@.len()),
                trigger_views(triggers@) == taken_over(
                    given.take(given.len() - rest@.len()),
                    self@,
                ),
            decreases rest@.len(),
        {
            let ghost done = given.len() - rest@.len();
            let ghost earlier = trigger_views(triggers@);
            let server: CompletionServer = rest.remove(0);
            proof {
                assert(rest@ =~= given.skip(done + 1));
                assert(given.take(done + 1).drop_last() =~= given.take(done));
                assert(given.take(done + 1).last() == server);
            }
            if self.running_language_server_for_id(server.id) {
                let id: u64 = server.id;
                triggers.push((id, completion_triggers(server.provider)));
                assert(trigger_views(triggers@) =~= earlier.push(
                    (id, triggers_of(server.provider)),
                ));
            }
        }
        assert(given.take(given.len() as int) =~= given);
        triggers
    }

    /// The servers whose completion triggers a buffer loses when its file moves: all that were
    /// found for the old path, if it has a language.
    pub fn reset_buffer(&self, has_language: bool, servers: Vec<u64>) -> (reset: Vec<u64>)
        ensures
            reset@ == (if has_language {
                servers@
            } else {
                Seq::empty()
            }),
    {
        if has_language {
            servers
        } else {
            Vec::new()
        }
    }

    /// Takes all servers out to shut them down, since the program ends. Returns them in
    /// ascending order, with whether they have to start first.
    pub fn shutdown_language_servers_on_quit(&mut self) -> (servers: Vec<(u64, LanguageServerState)>)
        ensures
            final(self)@.servers == Map::<u64, LanguageServerState>::empty(),
            final(self)@.ids == old(self)@.ids,
            final(self)@.opened == old(self)@.opened,
            final(self)@.restricted == old(self)@.restricted,
            forall|i: int, j: int|
                0 <= i < j < servers@.len() ==> (#[trigger] servers@[i]).0 < (
                #[trigger] servers@[j]).0,
            forall|i: int|
                0 <= i < servers@.len() ==> old(self)@.servers.contains_key(
                    (#[trigger] servers@[i]).0,
                ) && old(self)@.servers[servers@[i].0] == servers@[i].1,
            forall|id: u64| #[trigger]
                old(self)@.servers.contains_key(id) ==> servers@.contains(
                    (id, old(self)@.servers[id]),
                ),
    {
        let ids: Vec<u64> = map_keys(&self.language_servers);
        let ghost before = self.language_servers@;
        let mut servers: Vec<(u64, LanguageServerState)> = Vec::new();
        let mut i: usize = 0;
        assert forall|j: int| 0 <= j < ids@.len() implies before.contains_key(
            #[trigger] ids@[j],
        ) by {
            assert(ids@.contains(ids@[j]));
        }
        while i < ids.len()
            invariant
                i <= ids@.len(),
                crate::ids::ascending(ids@),
                forall|k: u64| #[trigger] ids@.contains(k) <==> before.contains_key(k),
                servers@.len() == i,
                forall|j: int|
                    0 <= j < i ==> #[trigger] servers@[j] == (ids@[j], before[ids@[j]]),
                forall|k: u64| #[trigger]
                    self.language_servers@.contains_key(k) ==> before.contains_key(k)
                        && self.language_servers@[k] == before[k],
                forall|j: int|
                    i <= j < ids@.len() ==> self.language_servers@.contains_key(
                        #[trigger] ids@[j],
                    ),
                self.language_server_ids == old(self).language_server_ids,
                self.buffers_opened_in_servers == old(self).buffers_opened_in_servers,
                self.restricted_worktrees == old(self).restricted_worktrees,
            decreases ids@.len() - i,
        {
            let id: u64 = ids[i];
            assert(ids@.contains(ids@[i as int]));
            if let Some(state) = map_take(&mut self.language_servers, id) {
                servers.push((id, state));
            }
            i += 1;
        }
        proof {
            assert forall|id: u64| #[trigger] before.contains_key(id) implies servers@.contains(
                (id, before[id]),
            ) by {
                assert(ids@.contains(id));
                let k = choose|k: int| 0 <= k < ids@.len() && ids@[k] == id;
                assert(servers@[k] == (id, before[id]));
            }
            assert forall|j: int| 0 <= j < servers@.len() implies before.contains_key(
                (#[trigger] servers@[j]).0,
            ) by {
                assert(ids@.contains(ids@[j]));
            }
        }
        self.language_servers = BTreeMap::new();
        servers
    }
}

/// What is done with a buffer that was added or read again.
#[derive(Clone, Copy, Debug, PartialEq, Eq, Structural)]
pub enum AddedStep {
    ParseModeline,
    DetectLanguage,
    DetectTabSettings,
    InitializeTriggers,
}

/// The steps for a buffer that was added.
pub fn on_buffer_added(tab_settings_are_known: bool) -> (steps: Vec<AddedStep>)
    ensures
        steps@ == (if tab_settings_are_known {
            seq![
                AddedStep::ParseModeline,
                AddedStep::DetectLanguage,
                AddedStep::DetectTabSettings,
                AddedStep::InitializeTriggers,
            ]
        } else {
            seq![
                AddedStep::ParseModeline,
                AddedStep::DetectLanguage,
                AddedStep::InitializeTriggers,
            ]
        }),
{
    let mut steps: Vec<AddedStep> = Vec::new();
    steps.push(AddedStep::ParseModeline);
    steps.push(AddedStep::DetectLanguage);
    if tab_settings_are_known {
        steps.push(AddedStep::DetectTabSettings);
    }
    steps.push(AddedStep::InitializeTriggers);
    steps
}

/// The steps for a buffer that was read again, once its mode line was parsed: none unless the
/// mode line is another one.
pub fn on_buffer_reloaded(modeline_changed: bool, tab_settings_are_known: bool) -> (steps: Vec<
    AddedStep,
>)
    ensures
        steps@ == (if !modeline_changed {
            Seq::empty()
        } else if tab_settings_are_known {
            seq![AddedStep::DetectLanguage, AddedStep::DetectTabSettings]
        } else {
            seq![AddedStep::DetectLanguage]
        }),
{
    let mut steps: Vec<AddedStep> = Vec::new();
    if modeline_changed {
        steps.push(AddedStep::DetectLanguage);
        if tab_settings_are_known {
            steps.push(AddedStep::DetectTabSettings);
        }
    }
    steps
}

/// How a change of the settings reaches servers.
#[derive(Clone, Copy, Debug, PartialEq, Eq, Structural)]
pub struct SettingsEffect {
    /// Servers are told their configuration again.
    pub refresh_configurations: bool,
    /// All servers are started anew.
    pub restart_servers: bool,
}

/// The settings changed. `known` is how semantic tokens are used so far, as a number; when that
/// changed, servers are started anew.
pub fn on_settings_changed(known: &mut u64, semantic_tokens: u64) -> (effect: SettingsEffect)
    ensures
        *final(known) == semantic_tokens,
        effect == (SettingsEffect {
            refresh_configurations: true,
            restart_servers: *old(known) != semantic_tokens,
        }),
{
    let restart_servers: bool = *known != semantic_tokens;
    *known = semantic_tokens;
    SettingsEffect { refresh_configurations: true, restart_servers }
}

proof fn lemma_taken_over(servers: Seq<CompletionServer>, local: LocalView, i: int)
    requires
        0 <= i < servers.len(),
        local.servers.contains_key(servers[i].id),
        local.servers[servers[i].id] is Running,
    ensures
        taken_over(servers, local).contains((servers[i].id, triggers_of(servers[i].provider))),
    decreases servers.len(),
{
    let earlier = servers.drop_last();
    let last = servers.last();
    crate::ids::contains_push(
        taken_over(earlier, local),
        (last.id, triggers_of(last.provider)),
        (servers[i].id, triggers_of(servers[i].provider)),
    );
    if i < servers.len() - 1 {
        assert(earlier[i] == servers[i]);
        lemma_taken_over(earlier, local, i);
    }
}

/// A buffer takes over the characters that its running servers name, where it has a local file in
/// a known worktree and a language; otherwise it takes over none. When its file moves it loses
/// those of all its servers.
pub proof fn buffers_take_over_triggers(
    store: LocalLspStore,
    file: BufferFile,
    servers: Vec<CompletionServer>,
    triggers: Vec<(u64, Vec<String>)>,
    i: int,
    old_servers: Vec<u64>,
    has_language: bool,
    reset: Vec<u64>,
)
    requires
        call_ensures(LocalLspStore::initialize_buffer, (&store, file, servers), triggers),
        call_ensures(LocalLspStore::reset_buffer, (&store, has_language, old_servers), reset),
    ensures
        !(file.has_file && file.is_local && file.has_language && file.worktree_is_known)
            ==> triggers@.len() == 0,
        file.has_file && file.is_local && file.has_language && file.worktree_is_known && 0 <= i
            < servers@.len() && store.language_servers@.contains_key(servers@[i].id)
            && store.language_servers@[servers@[i].id] is Running ==> exists|at: int|
            0 <= at < triggers@.len() && (#[trigger] triggers@[at]).0 == servers@[i].id && (
            servers@[i].provider matches Some(Some(characters)) ==> triggers@[at].1@
                == characters@) && (servers@[i].provider is None ==> triggers@[at].1@.len() == 0),
        has_language ==> reset@ == old_servers@,
        !has_language ==> reset@.len() == 0,
{
    let seen = trigger_views(triggers@);
    assert(seen.len() == triggers@.len());
    if file.can_be_served() && 0 <= i < servers@.len() && store.language_servers@.contains_key(
        servers@[i].id,
    ) && store.language_servers@[servers@[i].id] is Running {
        lemma_taken_over(servers@, store@, i);
        let wanted = (servers@[i].id, triggers_of(servers@[i].provider));
        let at = choose|at: int| 0 <= at < seen.len() && seen[at] == wanted;
        assert(seen[at] == (triggers@[at].0, triggers@[at].1@));
    }
}

/// When the program ends every server is taken out, with whether it runs.
pub proof fn all_servers_end_with_the_program(
    store: &mut LocalLspStore,
    servers: Vec<(u64, LanguageServerState)>,
    id: u64,
    i: int,
)
    requires
        call_ensures(LocalLspStore::shutdown_language_servers_on_quit, (store,), servers),
    ensures
        !final(store).language_servers@.contains_key(id),
        old(store).language_servers@.contains_key(id) ==> servers@.contains(
            (id, old(store).language_servers@[id]),
        ),
        0 <= i < servers@.len() ==> old(store).language_servers@.contains_key(servers@[i].0) && old(store).language_servers@[servers@[i].0] == servers@[i].1,
{
    assert(old(store)@.servers.contains_key(id) <==> old(store).language_servers@.contains_key(id));
}

/// A buffer that was added has its mode line read before its language is found, and its triggers
/// set last. One that was read again only looks for its language anew, and only where its mode
/// line changed. Tab settings are found where they are known of.
pub proof fn added_buffers_are_set_up_in_order(
    known: bool,
    added: Vec<AddedStep>,
    reloaded: Vec<AddedStep>,
    unchanged: Vec<AddedStep>,
)
    requires
        call_ensures(on_buffer_added, (known,), added),
        call_ensures(on_buffer_reloaded, (true, known), reloaded),
        call_ensures(on_buffer_reloaded, (false, known), unchanged),
    ensures
        added@.len() == (if known {
            4int
        } else {
            3
        }),
        added@[0] is ParseModeline,
        added@[1] is DetectLanguage,
        known ==> added@[2] is DetectTabSettings,
        added@.last() is InitializeTriggers,
        reloaded@[0] is DetectLanguage,
        known ==> reloaded@.len() == 2 && reloaded@[1] is DetectTabSettings,
        !known ==> reloaded@.len() == 1,
        unchanged@.len() == 0,
{
}

/// New settings are told to the servers, and start them anew just if semantic tokens are used in
/// another way.
pub proof fn new_settings_reach_servers(known: &mut u64, semantic_tokens: u64, effect: SettingsEffect)
    requires
        call_ensures(on_settings_changed, (known, semantic_tokens), effect),
    ensures
        effect.refresh_configurations,
        effect.restart_servers <==> *old(known) != semantic_tokens,
        *final(known) == semantic_tokens,
{
}

} // verus!
