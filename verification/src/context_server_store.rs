//! Context servers: their configuration, and a store that knows the settings but runs none.
use vstd::prelude::*;

use crate::environment::EnvVars;
use crate::list_map::{lookup, ListMap};
use crate::text::{same_text, text_lt, text_view, to_chars};

verus! {

/// How long an extension may take to say how its server is started, in seconds.
pub const EXTENSION_COMMAND_TIMEOUT: u64 = 30;

#[derive(Debug, Clone, PartialEq, Eq, Hash)]
pub enum ContextServerStatus {
    Starting,
    Running,
    Stopped,
    Error(String),
    /// The server asks for authorization.
    AuthRequired,
    /// A client secret is needed, and neither the settings nor the keychain has it.
    ClientSecretRequired { error: Option<String> },
    /// The user was sent to the authorization server and is waited for.
    Authenticating,
}

impl ContextServerStatus {
    /// Whatever is known of a server, it does not run.
    pub fn from_state(_state: &ContextServerState) -> (status: Self)
        ensures
            status == ContextServerStatus::Stopped,
    {
        ContextServerStatus::Stopped
    }
}

/// How a server is started.
#[derive(Debug)]
pub struct ContextServerCommand {
    pub path: String,
    pub args: Vec<String>,
    pub env: Option<EnvVars>,
    pub timeout: Option<u64>,
}

/// A client that was registered with an authorization server beforehand.
#[derive(Debug)]
pub struct OAuthClientSettings {
    pub client_id: String,
    pub client_secret: Option<String>,
}

/// The settings of a server.
#[derive(Debug)]
pub enum ContextServerSettings {
    Stdio { enabled: bool, command: ContextServerCommand, remote: bool },
    /// The settings of the extension are its own, and held as text.
    Extension { enabled: bool, settings: String, remote: bool },
    Http {
        enabled: bool,
        url: String,
        headers: ListMap<String, String>,
        timeout: Option<u64>,
        oauth: Option<OAuthClientSettings>,
    },
}

impl ContextServerSettings {
    pub open spec fn is_enabled(self) -> bool {
        match self {
            ContextServerSettings::Stdio { enabled, .. } => enabled,
            ContextServerSettings::Extension { enabled, .. } => enabled,
            ContextServerSettings::Http { enabled, .. } => enabled,
        }
    }

    pub fn enabled(&self) -> (enabled: bool)
        ensures
            enabled == self.is_enabled(),
    {
        match self {
            ContextServerSettings::Stdio { enabled, .. } => *enabled,
            ContextServerSettings::Extension { enabled, .. } => *enabled,
            ContextServerSettings::Http { enabled, .. } => *enabled,
        }
    }

    /// Whether the extension has to be asked for the command.
    pub fn needs_command(&self) -> (needs: bool)
        ensures
            needs == (self is Extension),
    {
        match self {
            ContextServerSettings::Extension { .. } => true,
            _ => false,
        }
    }
}

/// What came of asking an extension for the command of its server.
#[derive(Debug)]
pub enum CommandAnswer {
    /// No extension offers the server.
    NoDescriptor,
    Resolved(ContextServerCommand),
    Failed,
    TimedOut,
}

/// What `url::Url::parse` makes of a text: the address in its serialized form, or nothing
/// where the text is no absolute address.
pub uninterp spec fn parsed_url(text: Seq<char>) -> Option<Seq<char>>;

/// Calls `url::Url::parse`, whose result depends on the text alone, and takes the
/// serialization of the address it read. Which texts it accepts, and how it writes an
/// address, the URL standard says at length.
#[verifier::external_body]
fn parse_url(text: &str) -> (url: Option<String>)
    ensures
        text_view(url) == parsed_url(text@),
{
    match url::Url::parse(text) {
        Ok(url) => Some(String::from(url)),
        Err(_) => None,
    }
}

/// An ASCII letter in its lower case.
pub open spec fn lower_char(c: char) -> char {
    if 'A' <= c <= 'Z' {
        (c as int + 32) as char
    } else {
        c
    }
}

/// The text with its ASCII letters in lower case.
pub open spec fn lower_text(text: Seq<char>) -> Seq<char> {
    text.map_values(|c: char| lower_char(c))
}

fn same_letter(a: char, b: char) -> (same: bool)
    ensures
        same == (lower_char(a) == lower_char(b)),
{
    let x: u32 = if 'A' <= a && a <= 'Z' {
        a as u32 + 32
    } else {
        a as u32
    };
    let y: u32 = if 'A' <= b && b <= 'Z' {
        b as u32 + 32
    } else {
        b as u32
    };
    x == y
}

/// Whether two texts are the same but for the case of their ASCII letters.
pub fn same_ignoring_case(a: &str, b: &str) -> (same: bool)
    ensures
        same == (lower_text(a@) == lower_text(b@)),
{
    let x: Vec<char> = to_chars(a);
    let y: Vec<char> = to_chars(b);
    if x.len() != y.len() {
        assert(lower_text(a@).len() != lower_text(b@).len());
        return false;
    }
    let mut i: usize = 0;
    while i < x.len()
        invariant
            i <= x@.len(),
            x@.len() == y@.len(),
            x@ == a@,
            y@ == b@,
            forall|k: int| 0 <= k < i ==> lower_char(x@[k]) == lower_char(y@[k]),
        decreases x@.len() - i,
    {
        if !same_letter(x[i], y[i]) {
            assert(lower_text(a@)[i as int] != lower_text(b@)[i as int]);
            return false;
        }
        i += 1;
    }
    assert(lower_text(a@) =~= lower_text(b@));
    true
}

/// How a server is reached.
#[derive(Debug)]
pub enum ContextServerConfiguration {
    Custom { command: ContextServerCommand, remote: bool },
    Extension { command: ContextServerCommand, settings: String, remote: bool },
    Http {
        url: String,
        headers: ListMap<String, String>,
        timeout: Option<u64>,
        oauth: Option<OAuthClientSettings>,
    },
}

/// A key of one of the entries is a key of the map.
proof fn lemma_entry_key_is_known<T>(entries: Seq<(String, T)>, at: int)
    requires
        0 <= at < entries.len(),
    ensures
        lookup(entries, entries[at].0@) is Some,
    decreases entries.len(),
{
    if at < entries.len() - 1 && entries.last().0@ != entries[at].0@ {
        lemma_entry_key_is_known(entries.drop_last(), at);
    }
}

/// One of the headers carries credentials.
pub open spec fn names_authorization<T>(headers: Map<Seq<char>, T>) -> bool {
    exists|name: Seq<char>| #[trigger]
        headers.contains_key(name) && lower_text(name) == lower_text("authorization"@)
}

/// Whether one of the headers is called `authorization`, in whatever case.
fn has_authorization(headers: &ListMap<String, String>) -> (has: bool)
    ensures
        has == names_authorization(headers@),
{
    let mut i: usize = 0;
    while i < headers.entries.len()
        invariant
            i <= headers.entries@.len(),
            forall|k: int|
                0 <= k < i ==> lower_text((#[trigger] headers.entries@[k]).0@) != lower_text(
                    "authorization"@,
                ),
        decreases headers.entries@.len() - i,
    {
        if same_ignoring_case(headers.entries[i].0.as_str(), "authorization") {
            proof {
                lemma_entry_key_is_known(headers.entries@, i as int);
                assert(headers@.contains_key(headers.entries@[i as int].0@));
            }
            return true;
        }
        i += 1;
    }
    assert forall|name: Seq<char>| #[trigger] headers@.contains_key(name) implies lower_text(name)
        != lower_text("authorization"@) by {
        let at = crate::list_map::lookup_finds_entry(headers.entries@, name);
        assert(headers.entries@[at].0@ == name);
    }
    false
}

impl ContextServerConfiguration {
    /// The command, of a server that is started by one.
    pub fn command(&self) -> (command: Option<&ContextServerCommand>)
        ensures
            match self {
                ContextServerConfiguration::Custom { command: own, .. } => command == Some(own),
                ContextServerConfiguration::Extension { command: own, .. } => command == Some(own),
                ContextServerConfiguration::Http { .. } => command is None,
            },
    {
        match self {
            ContextServerConfiguration::Custom { command, .. } => Some(command),
            ContextServerConfiguration::Extension { command, .. } => Some(command),
            ContextServerConfiguration::Http { .. } => None,
        }
    }

    /// Whether the credentials of the server are fixed in its headers.
    pub fn has_static_auth_header(&self) -> (has: bool)
        ensures
            has == match self {
                ContextServerConfiguration::Http { headers, .. } => names_authorization(headers@),
                _ => false,
            },
    {
        match self {
            ContextServerConfiguration::Http { headers, .. } => has_authorization(headers),
            _ => false,
        }
    }

    /// Whether the server runs where the project is.
    pub fn remote(&self) -> (is_remote: bool)
        ensures
            is_remote == match self {
                ContextServerConfiguration::Custom { remote, .. } => *remote,
                ContextServerConfiguration::Extension { remote, .. } => *remote,
                ContextServerConfiguration::Http { .. } => false,
            },
    {
        match self {
            ContextServerConfiguration::Custom { remote, .. } => *remote,
            ContextServerConfiguration::Extension { remote, .. } => *remote,
            ContextServerConfiguration::Http { .. } => false,
        }
    }

    /// The configuration of a server behind an address, if the address could be read.
    pub fn at_url(
        url: Option<String>,
        headers: ListMap<String, String>,
        timeout: Option<u64>,
        oauth: Option<OAuthClientSettings>,
    ) -> (configuration: Option<Self>)
        ensures
            configuration == match url {
                Some(url) => Some(ContextServerConfiguration::Http { url, headers, timeout, oauth }),
                None => None,
            },
    {
        match url {
            Some(url) => Some(ContextServerConfiguration::Http { url, headers, timeout, oauth }),
            None => None,
        }
    }

    /// The configuration that settings describe. An extension's server needs the command that
    /// was asked for; one behind an address needs an address that can be read.
    pub fn from_settings(settings: ContextServerSettings, answer: CommandAnswer) -> (configuration:
        Option<Self>)
        ensures
            match settings {
                ContextServerSettings::Stdio { command, remote, .. } => configuration == Some(
                    ContextServerConfiguration::Custom { command, remote },
                ),
                ContextServerSettings::Extension { settings: own, remote, .. } => configuration
                    == match answer {
                    CommandAnswer::Resolved(command) => Some(
                        ContextServerConfiguration::Extension { command, settings: own, remote },
                    ),
                    _ => None,
                },
                ContextServerSettings::Http { url, headers, timeout, oauth, .. } => match parsed_url(
                    url@,
                ) {
                    Some(parsed) => configuration is Some && configuration->0 is Http
                        && configuration->0->url@ == parsed && configuration->0->headers == headers
                        && configuration->0->Http_timeout == timeout && configuration->0->oauth
                        == oauth,
                    None => configuration is None,
                },
            },
    {
        match settings {
            ContextServerSettings::Stdio { command, remote, .. } => Some(
                ContextServerConfiguration::Custom { command, remote },
            ),
            ContextServerSettings::Extension { settings, remote, .. } => match answer {
                CommandAnswer::Resolved(command) => Some(
                    ContextServerConfiguration::Extension { command, settings, remote },
                ),
                _ => None,
            },
            ContextServerSettings::Http { url, headers, timeout, oauth, .. } => Self::at_url(
                parse_url(url.as_str()),
                headers,
                timeout,
                oauth,
            ),
        }
    }
}

/// A server.
#[derive(Debug)]
pub struct ContextServer {
    pub id: String,
}

/// What the store knows of a server.
#[derive(Debug)]
pub struct ContextServerState {
    pub server: ContextServer,
    pub configuration: ContextServerConfiguration,
}

#[derive(Debug)]
pub enum ContextServerStoreState {
    /// The project is here, and perhaps shared under an identifier.
    Local { downstream_project: Option<u64> },
    Remote,
}

#[derive(Debug)]
pub struct ServerStatusChangedEvent {
    pub server_id: String,
    pub status: ContextServerStatus,
}

/// No context server can be started.
#[derive(Clone, Copy, Debug, PartialEq, Eq, Structural)]
pub struct ContextServersDisabled;

impl ContextServersDisabled {
    pub fn message(&self) -> (message: &'static str)
        ensures
            message@ == "Context servers are disabled"@,
    {
        "Context servers are disabled"
    }
}

/// Where settings are looked up.
#[derive(Clone, Copy, Debug, PartialEq, Eq, Structural)]
pub struct SettingsLocation {
    pub worktree_id: u64,
}

/// The settings of the project are those at the root of its first visible worktree.
pub fn settings_location(visible_worktrees: &Vec<u64>) -> (location: Option<SettingsLocation>)
    ensures
        location == if visible_worktrees@.len() > 0 {
            Some(SettingsLocation { worktree_id: visible_worktrees@[0] })
        } else {
            None
        },
{
    if visible_worktrees.len() > 0 {
        Some(SettingsLocation { worktree_id: visible_worktrees[0] })
    } else {
        None
    }
}

/// The settings of the context servers of a project. No server is ever started.
#[derive(Debug)]
pub struct ContextServerStore {
    pub state: ContextServerStoreState,
    pub context_server_settings: ListMap<String, ContextServerSettings>,
    pub servers: ListMap<String, ContextServerState>,
    pub server_ids: Vec<String>,
}

/// The server with this identifier is configured and not disabled.
pub open spec fn is_configured(
    settings: Map<Seq<char>, ContextServerSettings>,
    id: Seq<char>,
) -> bool {
    settings.contains_key(id) && settings[id].is_enabled()
}

/// The identifier begins with `mcp-server-`.
pub open spec fn is_prefixed(id: Seq<char>) -> bool {
    "mcp-server-"@.is_prefix_of(id)
}

/// Comes earlier in a list of servers: those whose identifier begins with `mcp-server-` come last.
pub open spec fn listed_before(a: Seq<char>, b: Seq<char>) -> bool {
    if is_prefixed(a) == is_prefixed(b) {
        text_lt(a, b)
    } else {
        is_prefixed(b)
    }
}

/// Each identifier once, and in the order in which servers are listed.
pub open spec fn is_listing(ids: Seq<Seq<char>>) -> bool {
    &&& ids.no_duplicates()
    &&& forall|i: int, j: int|
        0 <= i < j < ids.len() ==> listed_before(#[trigger] ids[i], #[trigger] ids[j])
}

impl ContextServerStore {
    /// The servers that are available are listed in order.
    pub open spec fn well_formed(self) -> bool {
        is_listing(crate::rel_path::texts(self.server_ids@))
    }

    /// The store knows no server.
    pub open spec fn is_idle(self) -> bool {
        self.servers@ == Map::<Seq<char>, ContextServerState>::empty() && self.server_ids@.len()
            == 0
    }

    fn new_internal(
        state: ContextServerStoreState,
        context_server_settings: ListMap<String, ContextServerSettings>,
    ) -> (store: Self)
        ensures
            store.state == state,
            store.context_server_settings == context_server_settings,
            store.is_idle(),
            store.well_formed(),
    {
        ContextServerStore {
            state,
            context_server_settings,
            servers: ListMap::new(),
            server_ids: Vec::new(),
        }
    }

    /// A store for a project that is here.
    pub fn local(context_server_settings: ListMap<String, ContextServerSettings>) -> (store: Self)
        ensures
            store.state == (ContextServerStoreState::Local { downstream_project: None }),
            store.context_server_settings == context_server_settings,
            store.is_idle(),
            store.well_formed(),
    {
        Self::new_internal(
            ContextServerStoreState::Local { downstream_project: None },
            context_server_settings,
        )
    }

    /// A store for a project that is elsewhere.
    pub fn remote(context_server_settings: ListMap<String, ContextServerSettings>) -> (store: Self)
        ensures
            store.state == ContextServerStoreState::Remote,
            store.context_server_settings == context_server_settings,
            store.is_idle(),
            store.well_formed(),
    {
        Self::new_internal(ContextServerStoreState::Remote, context_server_settings)
    }

    /// The project is shared. Only one that is here can be.
    pub fn shared(&mut self, project_id: u64)
        ensures
            final(self).state == (match old(self).state {
                ContextServerStoreState::Local { .. } => ContextServerStoreState::Local {
                    downstream_project: Some(project_id),
                },
                ContextServerStoreState::Remote => ContextServerStoreState::Remote,
            }),
            final(self).context_server_settings == old(self).context_server_settings,
            final(self).servers == old(self).servers,
            final(self).server_ids == old(self).server_ids,
            old(self).well_formed() ==> final(self).well_formed(),
    {
        if let ContextServerStoreState::Local { .. } = self.state {
            self.state = ContextServerStoreState::Local { downstream_project: Some(project_id) };
        }
    }

    pub fn is_remote_project(&self) -> (is_remote: bool)
        ensures
            is_remote == (self.state is Remote),
    {
        match self.state {
            ContextServerStoreState::Remote => true,
            ContextServerStoreState::Local { .. } => false,
        }
    }

    /// The settings changed, or may have.
    pub fn settings_changed(&mut self, settings: ListMap<String, ContextServerSettings>)
        ensures
            final(self).context_server_settings == settings,
            final(self).state == old(self).state,
            final(self).servers == old(self).servers,
            final(self).server_ids == old(self).server_ids,
            old(self).well_formed() ==> final(self).well_formed(),
    {
        self.context_server_settings = settings;
    }

    /// The identifiers of the servers that are configured and not disabled, each once and in
    /// no particular order.
    pub fn configured_server_ids(&self) -> (ids: Vec<String>)
        ensures
            forall|id: Seq<char>|
                crate::rel_path::texts(ids@).contains(id) <==> #[trigger] is_configured(
                    self.context_server_settings@,
                    id,
                ),
            crate::rel_path::texts(ids@).no_duplicates(),
    {
        let entries: &Vec<(String, ContextServerSettings)> = &self.context_server_settings.entries;
        let ghost settings = self.context_server_settings@;
        let mut ids: Vec<String> = Vec::new();
        let mut i: usize = 0;
        while i < entries.len()
            invariant
                i <= entries@.len(),
                entries@ == self.context_server_settings.entries@,
                settings == self.context_server_settings@,
                crate::rel_path::texts(ids@).no_duplicates(),
                forall|k: int|
                    0 <= k < ids@.len() ==> is_configured(settings, (#[trigger] ids@[k])@),
                forall|k: int|
                    0 <= k < i && is_configured(settings, (#[trigger] entries@[k]).0@)
                        ==> crate::rel_path::texts(ids@).contains(entries@[k].0@),
            decreases entries@.len() - i,
        {
            let id: &String = &entries[i].0;
            let mut enabled: bool = false;
            if let Some(own) = self.context_server_settings.get(id) {
                enabled = own.enabled();
            }
            assert(enabled == is_configured(settings, id@));
            if enabled && !holds(&ids, id.as_str()) {
                let ghost before = crate::rel_path::texts(ids@);
                ids.push(id.clone());
                proof {
                    let after = crate::rel_path::texts(ids@);
                    assert(after =~= before.push(id@));
                    assert forall|k: int|
                        0 <= k < i + 1 && is_configured(
                            settings,
                            (#[trigger] entries@[k]).0@,
                        ) implies after.contains(entries@[k].0@) by {
                        if k < i {
                            let j = before.index_of(entries@[k].0@);
                            assert(after[j] == entries@[k].0@);
                        } else {
                            assert(after[before.len() as int] == id@);
                        }
                    }
                }
            }
            i += 1;
        }
        proof {
        assert forall|id: Seq<char>|
            crate::rel_path::texts(ids@).contains(id) <==> #[trigger] is_configured(
                settings,
                id,
            ) by {
            if is_configured(settings, id) {
                let at = crate::list_map::lookup_finds_entry(entries@, id);
                assert(entries@[at].0@ == id);
            }
            if crate::rel_path::texts(ids@).contains(id) {
                let at = crate::rel_path::texts(ids@).index_of(id);
                assert(ids@[at]@ == id);
            }
        }
        }
        ids
    }

    pub fn get_server(&self, id: &String) -> (server: Option<&ContextServer>)
        ensures
            server is Some <==> self.servers@.contains_key(id@),
            server matches Some(server) ==> *server == self.servers@[id@].server,
    {
        match self.servers.get(id) {
            Some(state) => Some(&state.server),
            None => None,
        }
    }

    /// No server runs.
    pub fn get_running_server(&self, _id: &String) -> (server: Option<&ContextServer>)
        ensures
            server is None,
    {
        None
    }

    pub fn status_for_server(&self, id: &String) -> (status: Option<ContextServerStatus>)
        ensures
            status == if self.servers@.contains_key(id@) {
                Some(ContextServerStatus::Stopped)
            } else {
                None
            },
    {
        match self.servers.get(id) {
            Some(state) => Some(ContextServerStatus::from_state(state)),
            None => None,
        }
    }

    pub fn configuration_for_server(&self, id: &String) -> (configuration: Option<
        &ContextServerConfiguration,
    >)
        ensures
            configuration is Some <==> self.servers@.contains_key(id@),
            configuration matches Some(configuration) ==> *configuration
                == self.servers@[id@].configuration,
    {
        match self.servers.get(id) {
            Some(state) => Some(&state.configuration),
            None => None,
        }
    }

    /// The identifiers of the servers that are available, each once. Those that begin with
    /// `mcp-server-` come behind the others; else they are sorted.
    pub fn server_ids(&self) -> (ids: &Vec<String>)
        requires
            self.well_formed(),
        ensures
            *ids == self.server_ids,
            is_listing(crate::rel_path::texts(ids@)),
    {
        &self.server_ids
    }

    /// The servers that the store knows, in the order in which it holds them.
    pub fn running_servers(&self) -> (servers: Vec<&ContextServer>)
        ensures
            servers@.len() == self.servers.entries@.len(),
            forall|i: int|
                0 <= i < servers@.len() ==> *(#[trigger] servers@[i])
                    == self.servers.entries@[i].1.server,
    {
        let mut servers: Vec<&ContextServer> = Vec::new();
        let mut i: usize = 0;
        while i < self.servers.entries.len()
            invariant
                i <= self.servers.entries@.len(),
                servers@.len() == i,
                forall|k: int|
                    0 <= k < i ==> *(#[trigger] servers@[k]) == self.servers.entries@[k].1.server,
            decreases self.servers.entries@.len() - i,
        {
            servers.push(&self.servers.entries[i].1.server);
            i += 1;
        }
        servers
    }

    /// Starts nothing.
    pub fn start_server(&mut self, _server: ContextServer)
        ensures
            *final(self) == *old(self),
    {
    }

    /// There is nothing to stop.
    pub fn stop_server(&mut self, _id: &String) -> (result: Result<(), ContextServersDisabled>)
        ensures
            result is Ok,
            *final(self) == *old(self),
    {
        Ok(())
    }

    pub fn create_context_server(
        _id: String,
        _configuration: ContextServerConfiguration,
    ) -> (result: Result<ContextServerState, ContextServersDisabled>)
        ensures
            result is Err,
    {
        Err(ContextServersDisabled)
    }

    /// Answers a guest who asks for the command of a server.
    pub fn handle_get_context_server_command(&self) -> (result: Result<
        ContextServerCommand,
        ContextServersDisabled,
    >)
        ensures
            result is Err,
    {
        Err(ContextServersDisabled)
    }

    pub fn authenticate_server(&mut self, _id: &String) -> (result: Result<
        (),
        ContextServersDisabled,
    >)
        ensures
            result is Err,
            *final(self) == *old(self),
    {
        Err(ContextServersDisabled)
    }

    pub fn submit_client_secret(&mut self, _id: &String, _secret: String) -> (result: Result<
        (),
        ContextServersDisabled,
    >)
        ensures
            result is Err,
            *final(self) == *old(self),
    {
        Err(ContextServersDisabled)
    }

    pub fn store_client_secret(_server_url: &str, _secret: &str) -> (result: Result<
        (),
        ContextServersDisabled,
    >)
        ensures
            result is Err,
    {
        Err(ContextServersDisabled)
    }

    pub fn logout_server(&mut self, _id: &String) -> (result: Result<(), ContextServersDisabled>)
        ensures
            result is Err,
            *final(self) == *old(self),
    {
        Err(ContextServersDisabled)
    }
}

/// Whether a text is among the texts.
fn holds(list: &Vec<String>, text: &str) -> (has: bool)
    ensures
        has == crate::rel_path::texts(list@).contains(text@),
{
    let mut i: usize = 0;
    while i < list.len()
        invariant
            i <= list@.len(),
            forall|k: int| 0 <= k < i ==> (#[trigger] list@[k])@ != text@,
        decreases list@.len() - i,
    {
        if same_text(list[i].as_str(), text) {
            assert(crate::rel_path::texts(list@)[i as int] == text@);
            return true;
        }
        i += 1;
    }
    proof {
        if crate::rel_path::texts(list@).contains(text@) {
            let at = crate::rel_path::texts(list@).index_of(text@);
            assert(list@[at]@ == text@);
        }
    }
    false
}

/// A store without servers has nothing to show for any identifier.
pub proof fn idle_store_knows_no_server(store: ContextServerStore, id: Seq<char>)
    requires
        store.is_idle(),
    ensures
        !store.servers@.contains_key(id),
{
}
/// A command of the settings is run as it is. An extension has to have said its command, and an
/// address has to be one.
pub proof fn configurations_follow_the_settings(
    settings: ContextServerSettings,
    answer: CommandAnswer,
    configuration: Option<ContextServerConfiguration>,
)
    requires
        call_ensures(
            ContextServerConfiguration::from_settings,
            (settings, answer),
            configuration,
        ),
    ensures
        settings is Stdio ==> configuration is Some && configuration->0 is Custom
            && configuration->0->Custom_command == settings->command
            && configuration->0->Custom_remote == settings->Stdio_remote,
        settings is Extension ==> (configuration is Some <==> answer is Resolved),
        settings is Extension && configuration is Some ==> configuration->0 is Extension
            && configuration->0->Extension_command == answer->Resolved_0
            && configuration->0->settings == settings->settings
            && configuration->0->Extension_remote == settings->Extension_remote,
        settings is Http ==> (configuration is Some <==> parsed_url(settings->url@) is Some),
        settings is Http && configuration is Some ==> configuration->0 is Http
            && configuration->0->url@ == parsed_url(settings->url@)->0
            && configuration->0->headers == settings->headers && configuration->0->Http_timeout
            == settings->timeout && configuration->0->oauth == settings->oauth,
{
}

/// A server has a command unless it is behind an address, and runs where the project is only if
/// its settings say so.
pub proof fn configurations_say_how_servers_run(
    configuration: ContextServerConfiguration,
    command: Option<&ContextServerCommand>,
    is_remote: bool,
)
    requires
        call_ensures(ContextServerConfiguration::command, (&configuration,), command),
        call_ensures(ContextServerConfiguration::remote, (&configuration,), is_remote),
    ensures
        command is None <==> configuration is Http,
        configuration is Custom ==> *command->0 == configuration->Custom_command && is_remote
            == configuration->Custom_remote,
        configuration is Extension ==> *command->0 == configuration->Extension_command && is_remote
            == configuration->Extension_remote,
        configuration is Http ==> !is_remote,
{
}

/// Settings say whether a server is enabled, and only an extension is asked for a command.
pub proof fn settings_say_what_is_enabled(
    settings: ContextServerSettings,
    enabled: bool,
    needs: bool,
)
    requires
        call_ensures(ContextServerSettings::enabled, (&settings,), enabled),
        call_ensures(ContextServerSettings::needs_command, (&settings,), needs),
    ensures
        settings is Stdio ==> enabled == settings->Stdio_enabled,
        settings is Extension ==> enabled == settings->Extension_enabled,
        settings is Http ==> enabled == settings->Http_enabled,
        needs <==> settings is Extension,
{
}

/// Texts are the same but for case just if they are as long and their characters are the same or
/// the two cases of one ASCII letter.
pub proof fn case_is_all_that_differs(a: &str, b: &str, same: bool, i: int)
    requires
        call_ensures(same_ignoring_case, (a, b), same),
    ensures
        same ==> a@.len() == b@.len(),
        a@ == b@ ==> same,
        same && 0 <= i < a@.len() ==> a@[i] == b@[i] || ('A' <= a@[i] <= 'Z' && b@[i] as int
            == a@[i] as int + 32) || ('A' <= b@[i] <= 'Z' && a@[i] as int == b@[i] as int + 32),
        a@.len() == b@.len() && (forall|k: int|
            0 <= k < a@.len() ==> #[trigger] a@[k] == b@[k] || ('A' <= a@[k] <= 'Z' && b@[k] as int
                == a@[k] as int + 32) || ('A' <= b@[k] <= 'Z' && a@[k] as int == b@[k] as int
                + 32)) ==> same,
{
    let x = lower_text(a@);
    let y = lower_text(b@);
    assert(x.len() == a@.len() && y.len() == b@.len());
    if same && 0 <= i < a@.len() {
        assert(x[i] == lower_char(a@[i]) && y[i] == lower_char(b@[i]));
    }
    if a@.len() == b@.len() && (forall|k: int|
        0 <= k < a@.len() ==> #[trigger] a@[k] == b@[k] || ('A' <= a@[k] <= 'Z' && b@[k] as int
            == a@[k] as int + 32) || ('A' <= b@[k] <= 'Z' && a@[k] as int == b@[k] as int + 32)) {
        assert forall|k: int| 0 <= k < x.len() implies #[trigger] x[k] == y[k] by {
            assert(x[k] == lower_char(a@[k]) && y[k] == lower_char(b@[k]));
        }
        assert(x =~= y);
    }
}

/// The settings are those of the first visible worktree.
pub proof fn settings_are_at_the_first_worktree(
    visible: Vec<u64>,
    location: Option<SettingsLocation>,
)
    requires
        call_ensures(settings_location, (&visible,), location),
    ensures
        location is Some <==> visible@.len() > 0,
        location is Some ==> location->0.worktree_id == visible@[0],
{
}

/// Only a project that is here can be shared, under the number that it is shared as; what the
/// store knows stays as it is.
pub proof fn local_projects_are_shared(
    settings: ListMap<String, ContextServerSettings>,
    local: ContextServerStore,
    remote: ContextServerStore,
    store: &mut ContextServerStore,
    project_id: u64,
)
    requires
        call_ensures(ContextServerStore::local, (settings,), local),
        call_ensures(ContextServerStore::remote, (settings,), remote),
        call_ensures(ContextServerStore::shared, (store, project_id), ()),
    ensures
        local.state == (ContextServerStoreState::Local { downstream_project: None }),
        remote.state is Remote,
        local.context_server_settings == settings && remote.context_server_settings == settings,
        old(store).state is Local ==> final(store).state == (ContextServerStoreState::Local {
            downstream_project: Some(project_id),
        }),
        old(store).state is Remote ==> final(store).state is Remote,
        final(store).context_server_settings == old(store).context_server_settings,
        final(store).servers == old(store).servers,
{
}

/// Servers that begin with the prefix are listed behind all others.
pub proof fn prefixed_servers_come_last(store: ContextServerStore, ids: &Vec<String>, i: int, j: int)
    requires
        store.well_formed(),
        call_ensures(ContextServerStore::server_ids, (&store,), ids),
        0 <= i < j < ids@.len(),
        "mcp-server-"@.is_prefix_of(ids@[i]@),
    ensures
        "mcp-server-"@.is_prefix_of(ids@[j]@),
        text_lt(ids@[i]@, ids@[j]@),
{
    let all = crate::rel_path::texts(ids@);
    assert(all[i] == ids@[i]@ && all[j] == ids@[j]@);
    assert(listed_before(all[i], all[j]));
}

/// A server that is known is stopped, and no other has a status; none runs.
pub proof fn known_servers_are_stopped(
    store: ContextServerStore,
    id: String,
    status: Option<ContextServerStatus>,
    running: Option<&ContextServer>,
    server: Option<&ContextServer>,
    configuration: Option<&ContextServerConfiguration>,
)
    requires
        call_ensures(ContextServerStore::status_for_server, (&store, &id), status),
        call_ensures(ContextServerStore::get_running_server, (&store, &id), running),
        call_ensures(ContextServerStore::get_server, (&store, &id), server),
        call_ensures(ContextServerStore::configuration_for_server, (&store, &id), configuration),
    ensures
        running is None,
        status is Some <==> server is Some,
        configuration is Some <==> server is Some,
        status is Some ==> status->0 is Stopped,
        server is Some ==> *server->0 == store.servers@[id@].server && *configuration->0
            == store.servers@[id@].configuration,
{
}
/// The credentials of a server are fixed if it is behind an address and one of its headers is
/// called `authorization`, in whatever case.
pub proof fn authorization_headers_are_credentials(
    configuration: ContextServerConfiguration,
    fixed: bool,
    name: &str,
    same: bool,
)
    requires
        call_ensures(ContextServerConfiguration::has_static_auth_header, (&configuration,), fixed),
        call_ensures(same_ignoring_case, (name, "authorization"), same),
    ensures
        !(configuration is Http) ==> !fixed,
        configuration is Http && configuration->headers@.contains_key(name@) && same ==> fixed,
        configuration is Http && fixed ==> exists|other: Seq<char>| #[trigger]
            configuration->headers@.contains_key(other) && other.len() == "authorization"@.len(),
{
    if configuration is Http {
        let headers = configuration->headers@;
        if fixed {
            let other = choose|other: Seq<char>| #[trigger]
                headers.contains_key(other) && lower_text(other) == lower_text("authorization"@);
            assert(lower_text(other).len() == other.len());
            assert(lower_text("authorization"@).len() == "authorization"@.len());
        }
    }
}

/// A server behind an address has the address that could be read, and none without one.
pub proof fn addresses_have_to_be_read(
    url: Option<String>,
    headers: ListMap<String, String>,
    timeout: Option<u64>,
    oauth: Option<OAuthClientSettings>,
    configuration: Option<ContextServerConfiguration>,
)
    requires
        call_ensures(
            ContextServerConfiguration::at_url,
            (url, headers, timeout, oauth),
            configuration,
        ),
    ensures
        configuration is Some <==> url is Some,
        url is Some ==> configuration->0 is Http && configuration->0->url == url->0
            && configuration->0->headers == headers && configuration->0->Http_timeout == timeout
            && configuration->0->oauth == oauth,
{
}

/// New settings take the place of the old ones, and nothing else changes. Whether the project is
/// elsewhere the state says.
pub proof fn settings_are_replaced(
    store: &mut ContextServerStore,
    settings: ListMap<String, ContextServerSettings>,
    other: ContextServerStore,
    is_remote: bool,
)
    requires
        call_ensures(ContextServerStore::settings_changed, (store, settings), ()),
        call_ensures(ContextServerStore::is_remote_project, (&other,), is_remote),
    ensures
        final(store).context_server_settings == settings,
        final(store).state == old(store).state,
        final(store).servers == old(store).servers,
        final(store).server_ids == old(store).server_ids,
        is_remote <==> other.state is Remote,
{
}

/// Nothing is started, stopped or signed in: stopping succeeds, and the rest is refused.
pub proof fn nothing_is_ever_started(
    store: &mut ContextServerStore,
    other: &mut ContextServerStore,
    server: ContextServer,
    id: String,
    configuration: ContextServerConfiguration,
    stopped: Result<(), ContextServersDisabled>,
    created: Result<ContextServerState, ContextServersDisabled>,
    message: &'static str,
)
    requires
        call_ensures(ContextServerStore::start_server, (store, server), ()),
        call_ensures(ContextServerStore::stop_server, (other, &id), stopped),
        call_ensures(ContextServerStore::create_context_server, (id, configuration), created),
        call_ensures(ContextServersDisabled::message, (&created->Err_0,), message),
    ensures
        *final(store) == *old(store),
        *final(other) == *old(other),
        stopped is Ok,
        created is Err,
        message@ == "Context servers are disabled"@,
{
}

} // verus!
