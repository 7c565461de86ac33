//! What becomes of the messages that a language server sends.
use vstd::prelude::*;

use crate::lsp_store::capabilities::{
    have_well_formed_watchers, registers, unregisters, CapabilityEffect, Registration,
    RegistrationError, Unregistration,
};
use crate::lsp_store::messages::{
    distinct_scopes, level_of, prompt_level, scope_views, scopes_to_query, ConfigurationItem,
    LanguageServerPromptRequest, MessageType,
};
use crate::lsp_store::progress::{
    with_report, with_token, ProgressToken, StatusView, TokenView, WorkDoneProgress,
};
use crate::lsp_store::servers::{runs, serves, LocalLspStore, LocalView, SeedView, UnifiedView};
use crate::lsp_store::store::LspStore;

verus! {

/// What a language server sends.
#[derive(Debug)]
pub enum ServerMessage {
    WorkspaceConfiguration { items: Vec<ConfigurationItem> },
    WorkspaceFoldersRequest,
    WorkDoneProgressCreate { token: ProgressToken },
    RegisterCapability { registrations: Vec<Registration> },
    UnregisterCapability { unregistrations: Vec<Unregistration> },
    ApplyWorkspaceEdit,
    SemanticTokensRefresh,
    ShowMessageRequest { typ: MessageType, message: String, actions: Option<Vec<String>> },
    ShowMessage { typ: MessageType, message: String },
    Progress { token: ProgressToken, progress: WorkDoneProgress },
    LogMessage { typ: MessageType, message: String },
    LogTrace { message: String, verbose: Option<String> },
}

/// What is left to do for a message.
#[derive(Debug)]
pub enum MessageAction {
    /// The configuration of the scopes is looked up, with the toolchain that the server was
    /// started with, and the items are answered out of it.
    QueryConfiguration { toolchain: Option<String>, scopes: Vec<Option<String>> },
    /// Nothing is known of how the server was started: the request is refused.
    RefuseConfiguration,
    /// The folders of the server are sent, each under an empty name; nothing, if the
    /// server does not run.
    SendWorkspaceFolders { is_running: bool },
    /// An empty answer is sent.
    Acknowledge,
    /// An empty answer is sent, and the effects take place. Why some registrations were not
    /// taken over is logged.
    Registered { result: Result<Vec<CapabilityEffect>, RegistrationError> },
    Unregistered { effects: Option<Vec<CapabilityEffect>> },
    ApplyEdit,
    /// Semantic tokens are asked for anew, under a number of its own.
    RefreshSemanticTokens { request_id: usize },
    /// The message is shown; if an answer is awaited, it is sent to the server.
    Prompt { request: LanguageServerPromptRequest, awaits_answer: bool },
    /// A change of the work of the server is announced, unless there is none.
    Progressed { announce: bool },
    /// The message goes to the log of the server.
    Log { typ: MessageType, message: String },
    Trace { message: String, verbose_info: Option<String> },
}

/// The connection to one server: its name, and the number for the next refresh.
#[derive(Debug)]
pub struct ServerConnection {
    pub server_id: u64,
    pub name: String,
    pub next_refresh_id: usize,
}

/// Numbers start over when they run out.
pub open spec fn next_number(number: usize) -> usize {
    if number == usize::MAX {
        0
    } else {
        (number + 1) as usize
    }
}

fn advance(number: &mut usize) -> (current: usize)
    ensures
        current == *old(number),
        *final(number) == next_number(*old(number)),
{
    let current: usize = *number;
    *number = if current == usize::MAX {
        0
    } else {
        current + 1
    };
    current
}

pub open spec fn is_prompt(
    action: MessageAction,
    connection: ServerConnection,
    id: usize,
    typ: MessageType,
    message: String,
    actions: Seq<String>,
    awaits: bool,
) -> bool {
    action matches MessageAction::Prompt { request, awaits_answer } && {
        &&& request.id == id
        &&& request.level == level_of(typ)
        &&& request.message == message
        &&& request.actions@ == actions
        &&& request.lsp_name == connection.name
        &&& awaits_answer == awaits
    }
}

pub open spec fn toolchain_view(toolchain: Option<String>) -> Option<Seq<char>> {
    match toolchain {
        Some(toolchain) => Some(toolchain@),
        None => None,
    }
}

/// The server was started with this toolchain.
pub open spec fn is_toolchain_of(
    toolchain: Option<Seq<char>>,
    ids: Map<SeedView, UnifiedView>,
    server: u64,
) -> bool {
    exists|seed: SeedView| #[trigger] serves(ids, seed, server) && seed.toolchain == toolchain
}

/// Something is known of how the server was started.
pub open spec fn has_seed(ids: Map<SeedView, UnifiedView>, server: u64) -> bool {
    exists|seed: SeedView| serves(ids, seed, server)
}

/// The request for the configuration is answered out of the scopes of its items.
pub open spec fn queries(
    action: MessageAction,
    items: Seq<ConfigurationItem>,
    ids: Map<SeedView, UnifiedView>,
    server: u64,
) -> bool {
    if has_seed(ids, server) {
        action matches MessageAction::QueryConfiguration { toolchain, scopes } && is_toolchain_of(
            toolchain_view(toolchain),
            ids,
            server,
        ) && scope_views(scopes@) == distinct_scopes(items)
    } else {
        action is RefuseConfiguration
    }
}

/// What is left to do for a message that changes neither the work nor the capabilities of
/// its server.
pub open spec fn is_action_for(
    action: MessageAction,
    message: ServerMessage,
    connection: ServerConnection,
    next_prompt_id: usize,
    local: LocalView,
) -> bool {
    match message {
        ServerMessage::WorkspaceConfiguration { items } => queries(
            action,
            items@,
            local.ids,
            connection.server_id,
        ),
        ServerMessage::WorkspaceFoldersRequest => action == (MessageAction::SendWorkspaceFolders {
            is_running: runs(local, connection.server_id),
        }),
        ServerMessage::WorkDoneProgressCreate { .. } => action is Acknowledge,
        ServerMessage::ApplyWorkspaceEdit => action is ApplyEdit,
        ServerMessage::SemanticTokensRefresh => action == (MessageAction::RefreshSemanticTokens {
            request_id: connection.next_refresh_id,
        }),
        ServerMessage::ShowMessageRequest { typ, message, actions } => is_prompt(
            action,
            connection,
            next_prompt_id,
            typ,
            message,
            match actions {
                Some(actions) => actions@,
                None => Seq::empty(),
            },
            true,
        ),
        ServerMessage::ShowMessage { typ, message } => is_prompt(
            action,
            connection,
            next_prompt_id,
            typ,
            message,
            Seq::empty(),
            false,
        ),
        ServerMessage::LogMessage { typ, message } => action == (MessageAction::Log {
            typ,
            message,
        }),
        ServerMessage::LogTrace { message, verbose } => action == (MessageAction::Trace {
            message,
            verbose_info: verbose,
        }),
        ServerMessage::RegisterCapability { .. } => action is Registered,
        ServerMessage::UnregisterCapability { .. } => action is Unregistered,
        ServerMessage::Progress { .. } => action is Progressed,
    }
}

impl ServerConnection {
    pub fn new(server_id: u64, name: String) -> (connection: ServerConnection)
        ensures
            connection.server_id == server_id,
            connection.name == name,
            connection.next_refresh_id == 0,
    {
        ServerConnection { server_id, name, next_refresh_id: 0 }
    }

    fn prompt(
        &self,
        typ: MessageType,
        message: String,
        actions: Vec<String>,
        awaits_answer: bool,
        id: usize,
    ) -> (action: MessageAction)
        ensures
            is_prompt(action, *self, id, typ, message, actions@, awaits_answer),
    {
        MessageAction::Prompt {
            request: LanguageServerPromptRequest {
                id,
                level: prompt_level(typ),
                message,
                actions,
                lsp_name: self.name.clone(),
            },
            awaits_answer,
        }
    }
}

impl LocalLspStore {
    /// The toolchain that a server was started with; nothing, if it is not known how it was
    /// started.
    pub fn toolchain_for_id(&self, server_id: u64) -> (toolchain: Option<Option<String>>)
        requires
            self.well_formed(),
        ensures
            toolchain is Some <==> has_seed(self@.ids, server_id),
            toolchain matches Some(toolchain) ==> is_toolchain_of(
                toolchain_view(toolchain),
                self@.ids,
                server_id,
            ),
    {
        let ghost entries = self.language_server_ids.entries@;
        let mut i: usize = 0;
        while i < self.language_server_ids.entries.len()
            invariant
                i <= self.language_server_ids.entries@.len(),
                entries == self.language_server_ids.entries@,
                self.well_formed(),
                forall|j: int| 0 <= j < i ==> (#[trigger] entries[j]).1.id != server_id,
            decreases self.language_server_ids.entries@.len() - i,
        {
            if self.language_server_ids.entries[i].1.id == server_id {
                let seed = &self.language_server_ids.entries[i].0;
                proof {
                    crate::list_map::entry_is_found(entries, i as int);
                    assert(serves(self@.ids, seed@, server_id));
                }
                return Some(
                    match &seed.toolchain {
                        Some(toolchain) => Some(toolchain.clone()),
                        None => None,
                    },
                );
            }
            i += 1;
        }
        proof {
            if has_seed(self@.ids, server_id) {
                let seed = choose|seed: SeedView| serves(self@.ids, seed, server_id);
                let j = crate::list_map::lookup_finds_entry(entries, seed);
                assert(entries[j].1.id == server_id);
            }
        }
        None
    }
}

impl LspStore {
    /// Takes a message of a server: changes what it changes, and says what is left to do.
    /// Prompts are numbered across all servers, refreshes within one.
    pub fn on_server_message(
        &mut self,
        connection: &mut ServerConnection,
        next_prompt_id: &mut usize,
        message: ServerMessage,
        now: u64,
    ) -> (action: MessageAction)
        requires
            old(self).well_formed(),
            message matches ServerMessage::RegisterCapability { registrations }
                ==> have_well_formed_watchers(registrations@),
        ensures
            final(self).well_formed(),
            is_action_for(
                action,
                message,
                *old(connection),
                *old(next_prompt_id),
                old(self).local@,
            ),
            final(connection).server_id == old(connection).server_id,
            final(connection).name == old(connection).name,
            final(connection).next_refresh_id == (if message is SemanticTokensRefresh {
                next_number(old(connection).next_refresh_id)
            } else {
                old(connection).next_refresh_id
            }),
            *final(next_prompt_id) == (if message is ShowMessageRequest
                || message is ShowMessage {
                next_number(*old(next_prompt_id))
            } else {
                *old(next_prompt_id)
            }),
            match message {
                ServerMessage::RegisterCapability { registrations } => {
                    action matches MessageAction::Registered { result } && registers(
                        old(self).registered,
                        old(connection).server_id,
                        runs(old(self).local@, old(connection).server_id),
                        registrations@,
                        final(self).registered,
                        result,
                    )
                },
                ServerMessage::UnregisterCapability { unregistrations } => {
                    action matches MessageAction::Unregistered { effects } && unregisters(
                        old(self).registered,
                        old(connection).server_id,
                        runs(old(self).local@, old(connection).server_id),
                        unregistrations@,
                        final(self).registered,
                        effects,
                    )
                },
                _ => final(self).registered == old(self).registered,
            },
            match message {
                ServerMessage::WorkDoneProgressCreate { token } => {
                    final(self).language_server_statuses.views() == with_token(
                        old(self).language_server_statuses.views(),
                        old(connection).server_id,
                        token@,
                    )
                },
                ServerMessage::Progress { token, progress } => {
                    action matches MessageAction::Progressed { announce } && (
                    final(self).language_server_statuses.views(), announce) == with_report(
                        old(self).language_server_statuses.views(),
                        old(connection).server_id,
                        token@,
                        progress,
                        now,
                    )
                },
                _ => final(self).language_server_statuses == old(self).language_server_statuses,
            },
            *final(self) == (LspStore {
                registered: final(self).registered,
                language_server_statuses: final(self).language_server_statuses,
                ..*old(self)
            }),
    {
        let server_id: u64 = connection.server_id;
        match message {
            ServerMessage::WorkspaceConfiguration { items } => {
                match self.local.toolchain_for_id(server_id) {
                    Some(toolchain) => MessageAction::QueryConfiguration {
                        toolchain,
                        scopes: scopes_to_query(&items),
                    },
                    None => MessageAction::RefuseConfiguration,
                }
            },
            ServerMessage::WorkspaceFoldersRequest => MessageAction::SendWorkspaceFolders {
                is_running: self.local.running_language_server_for_id(server_id),
            },
            ServerMessage::WorkDoneProgressCreate { token } => {
                self.language_server_statuses.create_progress(server_id, token);
                MessageAction::Acknowledge
            },
            ServerMessage::RegisterCapability { registrations } => {
                let is_running: bool = self.local.running_language_server_for_id(server_id);
                let result = self.registered.register_server_capabilities(
                    server_id,
                    is_running,
                    registrations,
                );
                MessageAction::Registered { result }
            },
            ServerMessage::UnregisterCapability { unregistrations } => {
                let is_running: bool = self.local.running_language_server_for_id(server_id);
                let effects = self.registered.unregister_server_capabilities(
                    server_id,
                    is_running,
                    &unregistrations,
                );
                MessageAction::Unregistered { effects }
            },
            ServerMessage::ApplyWorkspaceEdit => MessageAction::ApplyEdit,
            ServerMessage::SemanticTokensRefresh => {
                let request_id: usize = advance(&mut connection.next_refresh_id);
                MessageAction::RefreshSemanticTokens { request_id }
            },
            ServerMessage::ShowMessageRequest { typ, message, actions } => {
                let actions: Vec<String> = match actions {
                    Some(actions) => actions,
                    None => Vec::new(),
                };
                let id: usize = advance(next_prompt_id);
                connection.prompt(typ, message, actions, true, id)
            },
            ServerMessage::ShowMessage { typ, message } => {
                let id: usize = advance(next_prompt_id);
                connection.prompt(typ, message, Vec::new(), false, id)
            },
            ServerMessage::Progress { token, progress } => {
                let announce: bool = self.language_server_statuses.on_lsp_progress(
                    server_id,
                    progress,
                    token,
                    now,
                );
                MessageAction::Progressed { announce }
            },
            ServerMessage::LogMessage { typ, message } => MessageAction::Log { typ, message },
            ServerMessage::LogTrace { message, verbose } => MessageAction::Trace {
                message,
                verbose_info: verbose,
            },
        }
    }
}

/// A server that announces a token and then reports under it is heard: the report is entered
/// as the work of the server, whatever else was announced before.
pub proof fn announced_work_is_heard(
    statuses: Map<u64, StatusView>,
    server: u64,
    token: TokenView,
    progress: WorkDoneProgress,
    now: u64,
)
    requires
        statuses.contains_key(server),
        !(progress is End),
    ensures
        with_report(
            with_token(statuses, server, token),
            server,
            token,
            progress,
            now,
        ).0[server].work.contains_key(token),
{
}
/// A message is shown as the server sent it, under a number that no other one before has, and
/// an answer is awaited only where one was asked for.
pub proof fn messages_are_shown_as_sent(
    store: &mut LspStore,
    connection: &mut ServerConnection,
    next_prompt_id: &mut usize,
    message: ServerMessage,
    now: u64,
    action: MessageAction,
)
    requires
        call_ensures(
            LspStore::on_server_message,
            (store, connection, next_prompt_id, message, now),
            action,
        ),
        message is ShowMessageRequest || message is ShowMessage,
    ensures
        action is Prompt,
        action->request.id == *old(next_prompt_id),
        *old(next_prompt_id) < usize::MAX ==> *final(next_prompt_id) == *old(next_prompt_id) + 1,
        *old(next_prompt_id) == usize::MAX ==> *final(next_prompt_id) == 0,
        action->request.lsp_name == old(connection).name,
        action->awaits_answer == (message is ShowMessageRequest),
        message is ShowMessage ==> action->request.actions@.len() == 0,
        message matches ServerMessage::ShowMessageRequest { actions: None, .. }
            ==> action->request.actions@.len() == 0,
        message matches ServerMessage::ShowMessageRequest { actions: Some(actions), .. }
            ==> action->request.actions@ == actions@,
        message matches ServerMessage::ShowMessageRequest { message: text, typ, .. }
            ==> action->request.message == text && (typ is Error
            <==> action->request.level is Critical) && (typ is Warning
            <==> action->request.level is Warning),
        message matches ServerMessage::ShowMessage { message: text, typ }
            ==> action->request.message == text && (typ is Error
            <==> action->request.level is Critical) && (typ is Warning
            <==> action->request.level is Warning),
        final(connection).next_refresh_id == old(connection).next_refresh_id,
        *final(store) == *old(store),
{
}

/// A message that is not shown leaves the numbers of prompts alone. Requests to ask for tokens
/// anew are numbered one after the other, logs go out as they came, and folders are sent only
/// for a server that runs.
pub proof fn messages_are_handled_by_kind(
    store: &mut LspStore,
    connection: &mut ServerConnection,
    next_prompt_id: &mut usize,
    message: ServerMessage,
    now: u64,
    action: MessageAction,
)
    requires
        call_ensures(
            LspStore::on_server_message,
            (store, connection, next_prompt_id, message, now),
            action,
        ),
        !(message is ShowMessageRequest || message is ShowMessage),
    ensures
        *final(next_prompt_id) == *old(next_prompt_id),
        !(message is SemanticTokensRefresh) ==> final(connection).next_refresh_id == old(connection).next_refresh_id,
        message is SemanticTokensRefresh ==> {
            &&& action == (MessageAction::RefreshSemanticTokens {
                request_id: old(connection).next_refresh_id,
            })
            &&& old(connection).next_refresh_id < usize::MAX ==> final(connection).next_refresh_id
                == old(connection).next_refresh_id + 1
        },
        message is ApplyWorkspaceEdit ==> action is ApplyEdit,
        message is WorkDoneProgressCreate ==> action is Acknowledge,
        message matches ServerMessage::LogMessage { typ, message: text } ==> action
            == (MessageAction::Log { typ, message: text }),
        message matches ServerMessage::LogTrace { message: text, verbose } ==> action
            == (MessageAction::Trace { message: text, verbose_info: verbose }),
        message is WorkspaceFoldersRequest ==> (action matches MessageAction::SendWorkspaceFolders {
            is_running,
        } && is_running == runs(old(store).local@, old(connection).server_id)),
        message is WorkspaceConfiguration ==> (action is RefuseConfiguration <==> !has_seed(
            old(store).local@.ids,
            old(connection).server_id,
        )),
        message is RegisterCapability <==> action is Registered,
        message is UnregisterCapability <==> action is Unregistered,
        message is Progress <==> action is Progressed,
        final(connection).server_id == old(connection).server_id,
        final(store).local == old(store).local,
{
}

/// A message has no effect on what other messages are about.
pub proof fn messages_change_what_they_are_about(
    store: &mut LspStore,
    connection: &mut ServerConnection,
    next_prompt_id: &mut usize,
    message: ServerMessage,
    now: u64,
    action: MessageAction,
)
    requires
        call_ensures(
            LspStore::on_server_message,
            (store, connection, next_prompt_id, message, now),
            action,
        ),
    ensures
        !(message is RegisterCapability || message is UnregisterCapability) ==> final(store).registered == old(store).registered,
        !(message is WorkDoneProgressCreate || message is Progress) ==> final(store).language_server_statuses == old(store).language_server_statuses,
        old(store).language_server_statuses.views().contains_key(old(connection).server_id) ==> (
        message matches ServerMessage::WorkDoneProgressCreate { token } ==> final(
            store).language_server_statuses.views()[old(connection).server_id].tokens.contains(
            token@,
        )),
{
}

} // verus!
