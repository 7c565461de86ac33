//! Capabilities that a language server registers and withdraws while it runs.
use std::collections::BTreeMap;
use vstd::prelude::*;

use crate::ids::{contains_push, map_put, map_take};
use crate::lsp_store::buffer_versions::SyncKind;
use crate::lsp_store::watched_paths::{
    are_well_formed, DynamicRegistrations, FileSystemWatcher,
};
use crate::text::same_text;

verus! {

/// What a registration is about.
#[derive(Clone, Copy, Debug, PartialEq, Eq, Structural)]
pub enum CapabilityKind {
    WatchedFiles,
    Configuration,
    WorkspaceFolders,
    WorkspaceSymbol,
    FileOperations,
    ExecuteCommand,
    RangeFormatting,
    Formatting,
    Rename,
    DocumentSymbol,
    Definition,
    Completion,
    Hover,
    DidChange,
    DidSave,
    DocumentColor,
    FoldingRange,
    Unknown,
}

/// The kind of capability that a method stands for.
pub open spec fn kind_of(method: Seq<char>) -> CapabilityKind {
    if method == "workspace/didChangeWatchedFiles"@ {
        CapabilityKind::WatchedFiles
    } else if method == "workspace/didChangeConfiguration"@ {
        CapabilityKind::Configuration
    } else if method == "workspace/didChangeWorkspaceFolders"@ {
        CapabilityKind::WorkspaceFolders
    } else if method == "workspace/symbol"@ {
        CapabilityKind::WorkspaceSymbol
    } else if method == "workspace/fileOperations"@ {
        CapabilityKind::FileOperations
    } else if method == "workspace/executeCommand"@ {
        CapabilityKind::ExecuteCommand
    } else if method == "textDocument/rangeFormatting"@ {
        CapabilityKind::RangeFormatting
    } else if method == "textDocument/formatting"@ {
        CapabilityKind::Formatting
    } else if method == "textDocument/rename"@ {
        CapabilityKind::Rename
    } else if method == "textDocument/documentSymbol"@ {
        CapabilityKind::DocumentSymbol
    } else if method == "textDocument/definition"@ {
        CapabilityKind::Definition
    } else if method == "textDocument/completion"@ {
        CapabilityKind::Completion
    } else if method == "textDocument/hover"@ {
        CapabilityKind::Hover
    } else if method == "textDocument/didChange"@ {
        CapabilityKind::DidChange
    } else if method == "textDocument/didSave"@ {
        CapabilityKind::DidSave
    } else if method == "textDocument/documentColor"@ {
        CapabilityKind::DocumentColor
    } else if method == "textDocument/foldingRange"@ {
        CapabilityKind::FoldingRange
    } else {
        CapabilityKind::Unknown
    }
}

fn parse_method(method: &str) -> (kind: CapabilityKind)
    ensures
        kind == kind_of(method@),
{
    if same_text(method, "workspace/didChangeWatchedFiles") {
        CapabilityKind::WatchedFiles
    } else if same_text(method, "workspace/didChangeConfiguration") {
        CapabilityKind::Configuration
    } else if same_text(method, "workspace/didChangeWorkspaceFolders") {
        CapabilityKind::WorkspaceFolders
    } else if same_text(method, "workspace/symbol") {
        CapabilityKind::WorkspaceSymbol
    } else if same_text(method, "workspace/fileOperations") {
        CapabilityKind::FileOperations
    } else if same_text(method, "workspace/executeCommand") {
        CapabilityKind::ExecuteCommand
    } else if same_text(method, "textDocument/rangeFormatting") {
        CapabilityKind::RangeFormatting
    } else if same_text(method, "textDocument/formatting") {
        CapabilityKind::Formatting
    } else if same_text(method, "textDocument/rename") {
        CapabilityKind::Rename
    } else if same_text(method, "textDocument/documentSymbol") {
        CapabilityKind::DocumentSymbol
    } else if same_text(method, "textDocument/definition") {
        CapabilityKind::Definition
    } else if same_text(method, "textDocument/completion") {
        CapabilityKind::Completion
    } else if same_text(method, "textDocument/hover") {
        CapabilityKind::Hover
    } else if same_text(method, "textDocument/didChange") {
        CapabilityKind::DidChange
    } else if same_text(method, "textDocument/didSave") {
        CapabilityKind::DidSave
    } else if same_text(method, "textDocument/documentColor") {
        CapabilityKind::DocumentColor
    } else if same_text(method, "textDocument/foldingRange") {
        CapabilityKind::FoldingRange
    } else {
        CapabilityKind::Unknown
    }
}

/// A member of the options that a method looks at.
#[derive(Clone, Copy, Debug, PartialEq, Eq, Structural)]
pub enum SyncKindField {
    Missing,
    Invalid,
    Value(SyncKind),
}

/// Whether the saved text is sent along; a null counts as missing.
#[derive(Clone, Copy, Debug, PartialEq, Eq, Structural)]
pub enum IncludeTextField {
    Missing,
    Invalid,
    Value(bool),
}

/// The options of a registration.
#[derive(Debug)]
pub struct RegisterOptions {
    pub text: String,
    /// The options are of the form that the method takes.
    pub is_valid: bool,
    pub sync_kind: SyncKindField,
    pub include_text: IncludeTextField,
    pub watchers: Vec<FileSystemWatcher>,
}

#[derive(Debug)]
pub struct Registration {
    pub id: String,
    pub method: String,
    pub register_options: Option<RegisterOptions>,
}

#[derive(Debug)]
pub struct Unregistration {
    pub id: String,
    pub method: String,
}

/// A capability, switched on as such or with options.
#[derive(Debug)]
pub enum Provider {
    Simple(bool),
    Options(String),
}

#[derive(Clone, Copy, Debug, PartialEq, Eq, Structural)]
pub enum SaveOptions {
    Supported(bool),
    SaveOptions { include_text: Option<bool> },
}

#[derive(Clone, Copy, Debug, PartialEq, Eq, Structural)]
pub struct SyncOptions {
    pub change: Option<SyncKind>,
    pub save: Option<SaveOptions>,
}

#[derive(Clone, Copy, Debug, PartialEq, Eq, Structural)]
pub enum TextDocumentSync {
    Kind(SyncKind),
    Options(SyncOptions),
}

/// The capabilities that can change while a server runs.
#[derive(Debug)]
pub struct ServerCapabilities {
    /// The registration under which changes of the workspace folders are announced.
    pub workspace_folders: Option<String>,
    pub file_operations: Option<String>,
    pub execute_command: Option<String>,
    pub workspace_symbol: Option<Provider>,
    pub document_range_formatting: Option<Provider>,
    pub document_formatting: Option<Provider>,
    pub rename: Option<Provider>,
    pub document_symbol: Option<Provider>,
    pub definition: Option<Provider>,
    pub hover: Option<Provider>,
    pub color: Option<Provider>,
    pub folding_range: Option<Provider>,
    pub completion: Option<Provider>,
    pub text_document_sync: Option<TextDocumentSync>,
}

/// Options of a registration that cannot be read.
#[derive(Clone, Copy, Debug, PartialEq, Eq, Structural)]
pub struct InvalidOptions;

/// Why registrations, or some of them, were not taken over.
#[derive(Debug)]
pub enum RegistrationError {
    NoServer,
    /// What those brought about that came before the one that cannot be read.
    InvalidOptions { effects: Vec<CapabilityEffect> },
}

/// What a registration brings about beside the capabilities.
#[derive(Clone, Copy, Debug, PartialEq, Eq, Structural)]
pub enum CapabilityEffect {
    Nothing,
    /// The capabilities changed, which is announced.
    Updated,
    /// The watched files changed: what is watched is built anew, and that is announced.
    WatchedFiles,
}

/// A registration without options switches the capability on.
pub open spec fn provider_of(reg: Registration) -> Option<Provider> {
    match reg.register_options {
        Some(options) => if options.is_valid {
            Some(Provider::Options(options.text))
        } else {
            None
        },
        None => Some(Provider::Simple(true)),
    }
}

fn parse_register_capabilities(reg: &Registration) -> (provider: Option<Provider>)
    ensures
        provider == provider_of(*reg),
{
    match &reg.register_options {
        Some(options) => if options.is_valid {
            Some(Provider::Options(options.text.clone()))
        } else {
            None
        },
        None => Some(Provider::Simple(true)),
    }
}

/// The synchronisation options, made out of a bare kind where there is only that.
pub open spec fn sync_options(sync: Option<TextDocumentSync>) -> SyncOptions {
    match sync {
        Some(TextDocumentSync::Options(options)) => options,
        Some(TextDocumentSync::Kind(kind)) => SyncOptions { change: Some(kind), save: None },
        None => SyncOptions { change: None, save: None },
    }
}

fn take_text_document_sync_options(sync: Option<TextDocumentSync>) -> (options: SyncOptions)
    ensures
        options == sync_options(sync),
{
    match sync {
        Some(TextDocumentSync::Options(options)) => options,
        Some(TextDocumentSync::Kind(kind)) => SyncOptions { change: Some(kind), save: None },
        None => SyncOptions { change: None, save: None },
    }
}

pub open spec fn with_change(
    capabilities: ServerCapabilities,
    change: Option<SyncKind>,
) -> ServerCapabilities {
    ServerCapabilities {
        text_document_sync: Some(
            TextDocumentSync::Options(
                SyncOptions { change, ..sync_options(capabilities.text_document_sync) },
            ),
        ),
        ..capabilities
    }
}

pub open spec fn with_save(
    capabilities: ServerCapabilities,
    save: Option<SaveOptions>,
) -> ServerCapabilities {
    ServerCapabilities {
        text_document_sync: Some(
            TextDocumentSync::Options(
                SyncOptions { save, ..sync_options(capabilities.text_document_sync) },
            ),
        ),
        ..capabilities
    }
}

/// The capabilities after one registration, and what else it brings about; nothing, if
/// its options cannot be read.
pub open spec fn registered(capabilities: ServerCapabilities, reg: Registration) -> Option<
    (ServerCapabilities, CapabilityEffect),
> {
    match kind_of(reg.method@) {
        CapabilityKind::WatchedFiles => match reg.register_options {
            None => Some((capabilities, CapabilityEffect::Nothing)),
            Some(options) => if options.is_valid {
                Some((capabilities, CapabilityEffect::WatchedFiles))
            } else {
                None
            },
        },
        CapabilityKind::WorkspaceFolders => Some(
            (
                ServerCapabilities { workspace_folders: Some(reg.id), ..capabilities },
                CapabilityEffect::Updated,
            ),
        ),
        CapabilityKind::FileOperations => match reg.register_options {
            None => Some((capabilities, CapabilityEffect::Nothing)),
            Some(options) => if options.is_valid {
                Some(
                    (
                        ServerCapabilities { file_operations: Some(options.text), ..capabilities },
                        CapabilityEffect::Updated,
                    ),
                )
            } else {
                None
            },
        },
        CapabilityKind::ExecuteCommand => match reg.register_options {
            None => Some((capabilities, CapabilityEffect::Nothing)),
            Some(options) => if options.is_valid {
                Some(
                    (
                        ServerCapabilities { execute_command: Some(options.text), ..capabilities },
                        CapabilityEffect::Updated,
                    ),
                )
            } else {
                None
            },
        },
        CapabilityKind::DidChange => match reg.register_options {
            None => Some((capabilities, CapabilityEffect::Nothing)),
            Some(options) => match options.sync_kind {
                SyncKindField::Missing => Some((capabilities, CapabilityEffect::Nothing)),
                SyncKindField::Invalid => None,
                SyncKindField::Value(kind) => Some(
                    (with_change(capabilities, Some(kind)), CapabilityEffect::Updated),
                ),
            },
        },
        CapabilityKind::DidSave => match reg.register_options {
            None => Some((capabilities, CapabilityEffect::Nothing)),
            Some(options) => match options.include_text {
                IncludeTextField::Missing => Some(
                    (
                        with_save(
                            capabilities,
                            Some(SaveOptions::SaveOptions { include_text: None }),
                        ),
                        CapabilityEffect::Updated,
                    ),
                ),
                IncludeTextField::Invalid => None,
                IncludeTextField::Value(with_text) => Some(
                    (
                        with_save(
                            capabilities,
                            Some(SaveOptions::SaveOptions { include_text: Some(with_text) }),
                        ),
                        CapabilityEffect::Updated,
                    ),
                ),
            },
        },
        CapabilityKind::WorkspaceSymbol => match provider_of(reg) {
            None => None,
            Some(provider) => Some(
                (
                    ServerCapabilities { workspace_symbol: Some(provider), ..capabilities },
                    CapabilityEffect::Updated,
                ),
            ),
        },
        CapabilityKind::RangeFormatting => match provider_of(reg) {
            None => None,
            Some(provider) => Some(
                (
                    ServerCapabilities { document_range_formatting: Some(provider), ..capabilities },
                    CapabilityEffect::Updated,
                ),
            ),
        },
        CapabilityKind::Formatting => match provider_of(reg) {
            None => None,
            Some(provider) => Some(
                (
                    ServerCapabilities { document_formatting: Some(provider), ..capabilities },
                    CapabilityEffect::Updated,
                ),
            ),
        },
        CapabilityKind::Rename => match provider_of(reg) {
            None => None,
            Some(provider) => Some(
                (
                    ServerCapabilities { rename: Some(provider), ..capabilities },
                    CapabilityEffect::Updated,
                ),
            ),
        },
        CapabilityKind::DocumentSymbol => match provider_of(reg) {
            None => None,
            Some(provider) => Some(
                (
                    ServerCapabilities { document_symbol: Some(provider), ..capabilities },
                    CapabilityEffect::Updated,
                ),
            ),
        },
        CapabilityKind::Definition => match provider_of(reg) {
            None => None,
            Some(provider) => Some(
                (
                    ServerCapabilities { definition: Some(provider), ..capabilities },
                    CapabilityEffect::Updated,
                ),
            ),
        },
        CapabilityKind::Hover => match provider_of(reg) {
            None => None,
            Some(provider) => Some(
                (
                    ServerCapabilities { hover: Some(provider), ..capabilities },
                    CapabilityEffect::Updated,
                ),
            ),
        },
        CapabilityKind::DocumentColor => match provider_of(reg) {
            None => None,
            Some(provider) => Some(
                (
                    ServerCapabilities { color: Some(provider), ..capabilities },
                    CapabilityEffect::Updated,
                ),
            ),
        },
        CapabilityKind::FoldingRange => match provider_of(reg) {
            None => None,
            Some(provider) => Some(
                (
                    ServerCapabilities { folding_range: Some(provider), ..capabilities },
                    CapabilityEffect::Updated,
                ),
            ),
        },
        CapabilityKind::Configuration | CapabilityKind::Completion | CapabilityKind::Unknown => {
            Some((capabilities, CapabilityEffect::Nothing))
        },
    }
}

/// The capabilities after one was withdrawn, and what else that brings about.
pub open spec fn unregistered(capabilities: ServerCapabilities, method: Seq<char>) -> (
    ServerCapabilities,
    CapabilityEffect,
) {
    match kind_of(method) {
        CapabilityKind::WatchedFiles => (capabilities, CapabilityEffect::WatchedFiles),
        CapabilityKind::DidChange => (with_change(capabilities, None), CapabilityEffect::Updated),
        CapabilityKind::DidSave => (with_save(capabilities, None), CapabilityEffect::Updated),
        CapabilityKind::WorkspaceFolders => (
            ServerCapabilities { workspace_folders: None, ..capabilities },
            CapabilityEffect::Updated,
        ),
        CapabilityKind::FileOperations => (
            ServerCapabilities { file_operations: None, ..capabilities },
            CapabilityEffect::Updated,
        ),
        CapabilityKind::ExecuteCommand => (
            ServerCapabilities { execute_command: None, ..capabilities },
            CapabilityEffect::Updated,
        ),
        CapabilityKind::WorkspaceSymbol => (
            ServerCapabilities { workspace_symbol: None, ..capabilities },
            CapabilityEffect::Updated,
        ),
        CapabilityKind::RangeFormatting => (
            ServerCapabilities { document_range_formatting: None, ..capabilities },
            CapabilityEffect::Updated,
        ),
        CapabilityKind::Formatting => (
            ServerCapabilities { document_formatting: None, ..capabilities },
            CapabilityEffect::Updated,
        ),
        CapabilityKind::Rename => (
            ServerCapabilities { rename: None, ..capabilities },
            CapabilityEffect::Updated,
        ),
        CapabilityKind::Definition => (
            ServerCapabilities { definition: None, ..capabilities },
            CapabilityEffect::Updated,
        ),
        CapabilityKind::Hover => (
            ServerCapabilities { hover: None, ..capabilities },
            CapabilityEffect::Updated,
        ),
        CapabilityKind::DocumentColor => (
            ServerCapabilities { color: None, ..capabilities },
            CapabilityEffect::Updated,
        ),
        CapabilityKind::FoldingRange => (
            ServerCapabilities { folding_range: None, ..capabilities },
            CapabilityEffect::Updated,
        ),
        CapabilityKind::Completion => (
            ServerCapabilities { completion: None, ..capabilities },
            CapabilityEffect::Updated,
        ),
        CapabilityKind::Configuration | CapabilityKind::DocumentSymbol | CapabilityKind::Unknown => {
            (capabilities, CapabilityEffect::Nothing)
        },
    }
}

/// The capabilities and effects after registrations, up to the first whose options
/// cannot be read.
pub ghost struct Registered {
    pub capabilities: ServerCapabilities,
    pub effects: Seq<CapabilityEffect>,
    pub failed: bool,
}

pub open spec fn all_registered(capabilities: ServerCapabilities, regs: Seq<Registration>) -> Registered
    decreases regs.len(),
{
    if regs.len() == 0 {
        Registered { capabilities, effects: Seq::empty(), failed: false }
    } else {
        let before = all_registered(capabilities, regs.drop_last());
        if before.failed {
            before
        } else {
            match registered(before.capabilities, regs.last()) {
                None => Registered { failed: true, ..before },
                Some((after, effect)) => Registered {
                    capabilities: after,
                    effects: before.effects.push(effect),
                    failed: false,
                },
            }
        }
    }
}

pub open spec fn all_unregistered(capabilities: ServerCapabilities, unregs: Seq<Unregistration>) -> (
    ServerCapabilities,
    Seq<CapabilityEffect>,
)
    decreases unregs.len(),
{
    if unregs.len() == 0 {
        (capabilities, Seq::empty())
    } else {
        let (before, effects) = all_unregistered(capabilities, unregs.drop_last());
        let (after, effect) = unregistered(before, unregs.last().method@);
        (after, effects.push(effect))
    }
}

/// Watchers by the registration that they came with.
pub type Watchers = Map<Seq<char>, Vec<FileSystemWatcher>>;

/// The watchers of a server.
pub open spec fn watchers_of(
    registrations: Map<u64, DynamicRegistrations>,
    server: u64,
) -> Watchers {
    if registrations.contains_key(server) {
        registrations[server].did_change_watched_files@
    } else {
        Map::empty()
    }
}

/// The watchers after registrations, up to the first whose options cannot be read.
pub open spec fn watchers_registered(
    capabilities: ServerCapabilities,
    watchers: Watchers,
    regs: Seq<Registration>,
) -> Watchers
    decreases regs.len(),
{
    if regs.len() == 0 {
        watchers
    } else {
        let before = watchers_registered(capabilities, watchers, regs.drop_last());
        match regs.last().register_options {
            Some(options) if kind_of(regs.last().method@) == CapabilityKind::WatchedFiles
                && !all_registered(capabilities, regs).failed => before.insert(
                regs.last().id@,
                options.watchers,
            ),
            _ => before,
        }
    }
}

/// The watchers without those that were withdrawn.
pub open spec fn watchers_unregistered(watchers: Watchers, unregs: Seq<Unregistration>) -> Watchers
    decreases unregs.len(),
{
    if unregs.len() == 0 {
        watchers
    } else {
        let before = watchers_unregistered(watchers, unregs.drop_last());
        if kind_of(unregs.last().method@) == CapabilityKind::WatchedFiles {
            before.remove(unregs.last().id@)
        } else {
            before
        }
    }
}

/// What the servers can do, and what they want to have watched.
#[derive(Debug)]
pub struct RegisteredServers {
    pub servers: BTreeMap<u64, ServerCapabilities>,
    pub registrations: BTreeMap<u64, DynamicRegistrations>,
}

/// What a server wants to have watched is recorded anew, if that changed, and the records are
/// as they were otherwise.
pub open spec fn rewatches(
    before: Map<u64, DynamicRegistrations>,
    server: u64,
    effects: Seq<CapabilityEffect>,
    watchers: Watchers,
    after: Map<u64, DynamicRegistrations>,
) -> bool {
    if effects.contains(CapabilityEffect::WatchedFiles) {
        &&& after == before.insert(server, after[server])
        &&& after[server].did_change_watched_files@ == watchers
    } else {
        after == before
    }
}

/// Registrations of a server that runs are taken over in their order, up to the first whose
/// options cannot be read.
pub open spec fn registers(
    before: RegisteredServers,
    server: u64,
    is_running: bool,
    regs: Seq<Registration>,
    after: RegisteredServers,
    result: Result<Vec<CapabilityEffect>, RegistrationError>,
) -> bool {
    if is_running {
        let known = before.servers@[server];
        let all = all_registered(known, regs);
        &&& after.servers@ == before.servers@.insert(server, all.capabilities)
        &&& rewatches(
            before.registrations@,
            server,
            all.effects,
            watchers_registered(known, watchers_of(before.registrations@, server), regs),
            after.registrations@,
        )
        &&& match result {
            Ok(effects) => !all.failed && effects@ == all.effects,
            Err(RegistrationError::InvalidOptions { effects }) => all.failed && effects@
                == all.effects,
            Err(RegistrationError::NoServer) => false,
        }
    } else {
        &&& result == Err::<Vec<CapabilityEffect>, RegistrationError>(RegistrationError::NoServer)
        &&& after == before
    }
}

/// Registrations of a server that runs are withdrawn in their order.
pub open spec fn unregisters(
    before: RegisteredServers,
    server: u64,
    is_running: bool,
    unregs: Seq<Unregistration>,
    after: RegisteredServers,
    effects: Option<Vec<CapabilityEffect>>,
) -> bool {
    if is_running {
        let all = all_unregistered(before.servers@[server], unregs);
        &&& after.servers@ == before.servers@.insert(server, all.0)
        &&& rewatches(
            before.registrations@,
            server,
            all.1,
            watchers_unregistered(watchers_of(before.registrations@, server), unregs),
            after.registrations@,
        )
        &&& effects is Some && effects->0@ == all.1
    } else {
        &&& effects is None
        &&& after == before
    }
}

/// The watchers in the options of registrations are well-formed.
pub open spec fn have_well_formed_watchers(regs: Seq<Registration>) -> bool {
    forall|i: int|
        0 <= i < regs.len() ==> ((#[trigger] regs[i]).register_options matches Some(options)
            ==> are_well_formed(options.watchers@))
}

impl RegisteredServers {
    /// What is recorded of every server is well-formed.
    pub open spec fn well_formed(&self) -> bool {
        forall|server: u64| #[trigger]
            self.registrations@.contains_key(server) ==> self.registrations@[server].well_formed()
    }

    pub fn new() -> (servers: RegisteredServers)
        ensures
            servers.well_formed(),
            servers.servers@ == Map::<u64, ServerCapabilities>::empty(),
            servers.registrations@ == Map::<u64, DynamicRegistrations>::empty(),
    {
        RegisteredServers { servers: BTreeMap::new(), registrations: BTreeMap::new() }
    }

    fn take_registrations(&mut self, server_id: u64) -> (registrations: DynamicRegistrations)
        requires
            old(self).well_formed(),
        ensures
            final(self).well_formed(),
            registrations.well_formed(),
            registrations.did_change_watched_files@ == watchers_of(
                old(self).registrations@,
                server_id,
            ),
            final(self).registrations@ == old(self).registrations@.remove(server_id),
            final(self).servers == old(self).servers,
    {
        match map_take(&mut self.registrations, server_id) {
            Some(registrations) => registrations,
            None => DynamicRegistrations::new(),
        }
    }

    /// Records what a server wants to have watched under a registration.
    fn watch(&mut self, server_id: u64, id: String, watchers: Vec<FileSystemWatcher>)
        requires
            old(self).well_formed(),
            are_well_formed(watchers@),
        ensures
            final(self).well_formed(),
            final(self).servers == old(self).servers,
            final(self).registrations@ == old(self).registrations@.insert(
                server_id,
                final(self).registrations@[server_id],
            ),
            watchers_of(final(self).registrations@, server_id) == watchers_of(
                old(self).registrations@,
                server_id,
            ).insert(id@, watchers),
    {
        let mut registrations: DynamicRegistrations = self.take_registrations(server_id);
        registrations.on_lsp_did_change_watched_files(id, watchers);
        map_put(&mut self.registrations, server_id, registrations);
        assert(self.registrations@ =~= old(self).registrations@.insert(server_id, registrations));
    }

    /// Records that a server no longer wants to have watched what it registered.
    fn unwatch(&mut self, server_id: u64, id: &String)
        requires
            old(self).well_formed(),
        ensures
            final(self).well_formed(),
            final(self).servers == old(self).servers,
            final(self).registrations@ == old(self).registrations@.insert(
                server_id,
                final(self).registrations@[server_id],
            ),
            watchers_of(final(self).registrations@, server_id) == watchers_of(
                old(self).registrations@,
                server_id,
            ).remove(id@),
    {
        let mut registrations: DynamicRegistrations = self.take_registrations(server_id);
        registrations.on_lsp_unregister_did_change_watched_files(id);
        map_put(&mut self.registrations, server_id, registrations);
        assert(self.registrations@ =~= old(self).registrations@.insert(server_id, registrations));
    }

    /// Takes over registrations of a server in their order. The first whose options cannot be
    /// read ends it; those before it stay. Returns what each of them brings about. A server that
    /// does not run cannot register.
    pub fn register_server_capabilities(
        &mut self,
        server_id: u64,
        is_running: bool,
        regs: Vec<Registration>,
    ) -> (result: Result<Vec<CapabilityEffect>, RegistrationError>)
        requires
            old(self).well_formed(),
            is_running ==> old(self).servers@.contains_key(server_id),
            have_well_formed_watchers(regs@),
        ensures
            final(self).well_formed(),
            registers(*old(self), server_id, is_running, regs@, *final(self), result),
    {
        if !is_running {
            return Err(RegistrationError::NoServer);
        }
        let mut capabilities: ServerCapabilities = match map_take(&mut self.servers, server_id) {
            Some(capabilities) => capabilities,
            None => {
                return Err(RegistrationError::NoServer);
            },
        };
        let ghost known = capabilities;
        let ghost taken = self.servers;
        let ghost records = self.registrations@;
        let ghost watched = watchers_of(records, server_id);
        let ghost given = regs@;
        let mut rest: Vec<Registration> = regs;
        let mut effects: Vec<CapabilityEffect> = Vec::new();
        let mut failed: bool = false;
        let ghost mut done: int = 0;
        assert(given.take(0) =~= Seq::<Registration>::empty());
        while rest.len() > 0
            invariant
                0 <= done <= given.len(),
                rest@ == given.skip(done),
                have_well_formed_watchers(given),
                self.well_formed(),
                self.servers == taken,
                watched == watchers_of(records, server_id),
                capabilities == all_registered(known, given.take(done)).capabilities,
                effects@ == all_registered(known, given.take(done)).effects,
                failed == all_registered(known, given.take(done)).failed,
                watchers_of(self.registrations@, server_id) == watchers_registered(
                    known,
                    watched,
                    given.take(done),
                ),
                rewatches(
                    records,
                    server_id,
                    effects@,
                    watchers_registered(known, watched, given.take(done)),
                    self.registrations@,
                ),
            decreases rest@.len(),
        {
            let ghost before = self.registrations@;
            let ghost earlier = effects@;
            let reg: Registration = rest.remove(0);
            proof {
                assert(reg == given[done]);
                assert(rest@ =~= given.skip(done + 1));
                assert(given.take(done + 1).drop_last() =~= given.take(done));
                assert(given.take(done + 1).last() == given[done]);
            }
            if !failed {
                match capabilities.register(&reg) {
                    Ok(effect) => {
                        effects.push(effect);
                        proof {
                            contains_push(earlier, effect, CapabilityEffect::WatchedFiles);
                        }
                        if effect == CapabilityEffect::WatchedFiles {
                            if let Some(options) = reg.register_options {
                                self.watch(server_id, reg.id, options.watchers);
                                assert(self.registrations@ =~= records.insert(
                                    server_id,
                                    self.registrations@[server_id],
                                ));
                            }
                        }
                    },
                    Err(_) => {
                        failed = true;
                    },
                }
            }
            proof {
                done = done + 1;
            }
        }
        assert(given.take(done) =~= given);
        map_put(&mut self.servers, server_id, capabilities);
        assert(self.servers@ =~= old(self).servers@.insert(server_id, capabilities));
        if failed {
            Err(RegistrationError::InvalidOptions { effects })
        } else {
            Ok(effects)
        }
    }

    /// Withdraws registrations of a server in their order. Returns what each withdrawal brings
    /// about; nothing, if the server does not run.
    pub fn unregister_server_capabilities(
        &mut self,
        server_id: u64,
        is_running: bool,
        unregs: &Vec<Unregistration>,
    ) -> (effects: Option<Vec<CapabilityEffect>>)
        requires
            old(self).well_formed(),
            is_running ==> old(self).servers@.contains_key(server_id),
        ensures
            final(self).well_formed(),
            unregisters(*old(self), server_id, is_running, unregs@, *final(self), effects),
    {
        if !is_running {
            return None;
        }
        let mut capabilities: ServerCapabilities = match map_take(&mut self.servers, server_id) {
            Some(capabilities) => capabilities,
            None => {
                return None;
            },
        };
        let ghost known = capabilities;
        let ghost taken = self.servers;
        let ghost records = self.registrations@;
        let ghost watched = watchers_of(records, server_id);
        let mut effects: Vec<CapabilityEffect> = Vec::new();
        let mut i: usize = 0;
        while i < unregs.len()
            invariant
                i <= unregs@.len(),
                self.well_formed(),
                self.servers == taken,
                watched == watchers_of(records, server_id),
                (capabilities, effects@) == all_unregistered(known, unregs@.take(i as int)),
                watchers_of(self.registrations@, server_id) == watchers_unregistered(
                    watched,
                    unregs@.take(i as int),
                ),
                rewatches(
                    records,
                    server_id,
                    effects@,
                    watchers_unregistered(watched, unregs@.take(i as int)),
                    self.registrations@,
                ),
            decreases unregs@.len() - i,
        {
            let ghost earlier = effects@;
            assert(unregs@.take(i + 1).drop_last() =~= unregs@.take(i as int));
            assert(unregs@.take(i + 1).last() == unregs@[i as int]);
            let effect: CapabilityEffect = capabilities.unregister(unregs[i].method.as_str());
            effects.push(effect);
            proof {
                contains_push(earlier, effect, CapabilityEffect::WatchedFiles);
            }
            if effect == CapabilityEffect::WatchedFiles {
                self.unwatch(server_id, &unregs[i].id);
                assert(self.registrations@ =~= records.insert(
                    server_id,
                    self.registrations@[server_id],
                ));
            }
            i += 1;
        }
        assert(unregs@.take(i as int) =~= unregs@);
        map_put(&mut self.servers, server_id, capabilities);
        assert(self.servers@ =~= old(self).servers@.insert(server_id, capabilities));
        Some(effects)
    }
}

impl ServerCapabilities {
    fn register(&mut self, reg: &Registration) -> (effect: Result<
        CapabilityEffect,
        InvalidOptions,
    >)
        ensures
            effect is Ok <==> registered(*old(self), *reg) is Some,
            effect matches Ok(effect) ==> (*final(self), effect) == registered(
                *old(self),
                *reg,
            )->0,
            effect is Err ==> *final(self) == *old(self),
    {
        match parse_method(reg.method.as_str()) {
            CapabilityKind::WatchedFiles => {
                match &reg.register_options {
                    None => Ok(CapabilityEffect::Nothing),
                    Some(options) => if options.is_valid {
                        Ok(CapabilityEffect::WatchedFiles)
                    } else {
                        Err(InvalidOptions)
                    },
                }
            },
            CapabilityKind::WorkspaceFolders => {
                self.workspace_folders = Some(reg.id.clone());
                Ok(CapabilityEffect::Updated)
            },
            CapabilityKind::FileOperations => {
                match &reg.register_options {
                    None => Ok(CapabilityEffect::Nothing),
                    Some(options) => if options.is_valid {
                        self.file_operations = Some(options.text.clone());
                        Ok(CapabilityEffect::Updated)
                    } else {
                        Err(InvalidOptions)
                    },
                }
            },
            CapabilityKind::ExecuteCommand => {
                match &reg.register_options {
                    None => Ok(CapabilityEffect::Nothing),
                    Some(options) => if options.is_valid {
                        self.execute_command = Some(options.text.clone());
                        Ok(CapabilityEffect::Updated)
                    } else {
                        Err(InvalidOptions)
                    },
                }
            },
            CapabilityKind::DidChange => {
                match &reg.register_options {
                    None => Ok(CapabilityEffect::Nothing),
                    Some(options) => match options.sync_kind {
                        SyncKindField::Missing => Ok(CapabilityEffect::Nothing),
                        SyncKindField::Invalid => Err(InvalidOptions),
                        SyncKindField::Value(kind) => {
                            let mut sync = take_text_document_sync_options(
                                self.text_document_sync,
                            );
                            sync.change = Some(kind);
                            self.text_document_sync = Some(TextDocumentSync::Options(sync));
                            Ok(CapabilityEffect::Updated)
                        },
                    },
                }
            },
            CapabilityKind::DidSave => {
                match &reg.register_options {
                    None => Ok(CapabilityEffect::Nothing),
                    Some(options) => {
                        let include_text: Option<bool> = match options.include_text {
                            IncludeTextField::Missing => None,
                            IncludeTextField::Invalid => return Err(InvalidOptions),
                            IncludeTextField::Value(with_text) => Some(with_text),
                        };
                        let mut sync = take_text_document_sync_options(self.text_document_sync);
                        sync.save = Some(SaveOptions::SaveOptions { include_text });
                        self.text_document_sync = Some(TextDocumentSync::Options(sync));
                        Ok(CapabilityEffect::Updated)
                    },
                }
            },
            CapabilityKind::WorkspaceSymbol => match parse_register_capabilities(reg) {
                None => Err(InvalidOptions),
                Some(provider) => {
                    self.workspace_symbol = Some(provider);
                    Ok(CapabilityEffect::Updated)
                },
            },
            CapabilityKind::RangeFormatting => match parse_register_capabilities(reg) {
                None => Err(InvalidOptions),
                Some(provider) => {
                    self.document_range_formatting = Some(provider);
                    Ok(CapabilityEffect::Updated)
                },
            },
            CapabilityKind::Formatting => match parse_register_capabilities(reg) {
                None => Err(InvalidOptions),
                Some(provider) => {
                    self.document_formatting = Some(provider);
                    Ok(CapabilityEffect::Updated)
                },
            },
            CapabilityKind::Rename => match parse_register_capabilities(reg) {
                None => Err(InvalidOptions),
                Some(provider) => {
                    self.rename = Some(provider);
                    Ok(CapabilityEffect::Updated)
                },
            },
            CapabilityKind::DocumentSymbol => match parse_register_capabilities(reg) {
                None => Err(InvalidOptions),
                Some(provider) => {
                    self.document_symbol = Some(provider);
                    Ok(CapabilityEffect::Updated)
                },
            },
            CapabilityKind::Definition => match parse_register_capabilities(reg) {
                None => Err(InvalidOptions),
                Some(provider) => {
                    self.definition = Some(provider);
                    Ok(CapabilityEffect::Updated)
                },
            },
            CapabilityKind::Hover => match parse_register_capabilities(reg) {
                None => Err(InvalidOptions),
                Some(provider) => {
                    self.hover = Some(provider);
                    Ok(CapabilityEffect::Updated)
                },
            },
            CapabilityKind::DocumentColor => match parse_register_capabilities(reg) {
                None => Err(InvalidOptions),
                Some(provider) => {
                    self.color = Some(provider);
                    Ok(CapabilityEffect::Updated)
                },
            },
            CapabilityKind::FoldingRange => match parse_register_capabilities(reg) {
                None => Err(InvalidOptions),
                Some(provider) => {
                    self.folding_range = Some(provider);
                    Ok(CapabilityEffect::Updated)
                },
            },
            CapabilityKind::Configuration
            | CapabilityKind::Completion
            | CapabilityKind::Unknown => Ok(CapabilityEffect::Nothing),
        }
    }

    fn unregister(&mut self, method: &str) -> (effect: CapabilityEffect)
        ensures
            (*final(self), effect) == unregistered(*old(self), method@),
    {
        match parse_method(method) {
            CapabilityKind::WatchedFiles => return CapabilityEffect::WatchedFiles,
            CapabilityKind::DidChange => {
                let mut sync = take_text_document_sync_options(self.text_document_sync);
                sync.change = None;
                self.text_document_sync = Some(TextDocumentSync::Options(sync));
            },
            CapabilityKind::DidSave => {
                let mut sync = take_text_document_sync_options(self.text_document_sync);
                sync.save = None;
                self.text_document_sync = Some(TextDocumentSync::Options(sync));
            },
            CapabilityKind::WorkspaceFolders => {
                self.workspace_folders = None;
            },
            CapabilityKind::FileOperations => {
                self.file_operations = None;
            },
            CapabilityKind::ExecuteCommand => {
                self.execute_command = None;
            },
            CapabilityKind::WorkspaceSymbol => {
                self.workspace_symbol = None;
            },
            CapabilityKind::RangeFormatting => {
                self.document_range_formatting = None;
            },
            CapabilityKind::Formatting => {
                self.document_formatting = None;
            },
            CapabilityKind::Rename => {
                self.rename = None;
            },
            CapabilityKind::Definition => {
                self.definition = None;
            },
            CapabilityKind::Hover => {
                self.hover = None;
            },
            CapabilityKind::DocumentColor => {
                self.color = None;
            },
            CapabilityKind::FoldingRange => {
                self.folding_range = None;
            },
            CapabilityKind::Completion => {
                self.completion = None;
            },
            CapabilityKind::Configuration
            | CapabilityKind::DocumentSymbol
            | CapabilityKind::Unknown => return CapabilityEffect::Nothing,
        }
        CapabilityEffect::Updated
    }

    /// Whether the server is told of saved documents, and if so whether it gets their
    /// text.
    pub fn include_text(&self) -> (with_text: Option<bool>)
        ensures
            with_text == saves_with_text(*self),
    {
        match self.text_document_sync {
            Some(TextDocumentSync::Options(options)) => match options.save {
                Some(SaveOptions::Supported(true)) => Some(false),
                Some(SaveOptions::Supported(false)) => None,
                Some(SaveOptions::SaveOptions { include_text }) => match include_text {
                    Some(with_text) => Some(with_text),
                    None => Some(false),
                },
                None => None,
            },
            _ => None,
        }
    }

    /// How the server wants to be told of changes.
    pub fn document_sync_kind(&self) -> (kind: Option<SyncKind>)
        ensures
            kind == told_changes(*self),
    {
        match self.text_document_sync {
            Some(TextDocumentSync::Kind(kind)) => Some(kind),
            Some(TextDocumentSync::Options(options)) => options.change,
            None => None,
        }
    }
}

/// Withdrawing a capability takes back what its registration added, whatever the options
/// were. Document symbols are the exception: they cannot be withdrawn.
pub proof fn withdrawing_undoes_registering(capabilities: ServerCapabilities, reg: Registration)
    requires
        registered(capabilities, reg) is Some,
        kind_of(reg.method@) != CapabilityKind::DocumentSymbol,
    ensures
        ({
            let (after, _) = registered(capabilities, reg)->0;
            unregistered(after, reg.method@) == unregistered(capabilities, reg.method@)
        }),
{
}

/// Withdrawing what was registered takes back its watchers, and leaves those of other
/// registrations.
pub proof fn withdrawn_watchers_are_gone(
    capabilities: ServerCapabilities,
    watchers: Watchers,
    reg: Registration,
    unreg: Unregistration,
)
    requires
        unreg.id@ == reg.id@,
        unreg.method@ == reg.method@,
    ensures
        watchers_unregistered(
            watchers_registered(capabilities, watchers, seq![reg]),
            seq![unreg],
        ) == watchers_unregistered(watchers, seq![unreg]),
{
    assert(seq![reg].drop_last() =~= Seq::<Registration>::empty());
    assert(seq![unreg].drop_last() =~= Seq::<Unregistration>::empty());
    let after = watchers_registered(capabilities, watchers, seq![reg]);
    reveal_with_fuel(watchers_registered, 2);
    reveal_with_fuel(watchers_unregistered, 2);
    assert(after.remove(reg.id@) =~= watchers.remove(reg.id@));
}

/// The methods are different texts.
proof fn lemma_methods_differ()
    ensures
        "workspace/didChangeWatchedFiles"@ != "workspace/didChangeConfiguration"@,
        "workspace/didChangeWatchedFiles"@ != "workspace/didChangeWorkspaceFolders"@,
        "workspace/didChangeWatchedFiles"@ != "workspace/symbol"@,
        "workspace/didChangeWatchedFiles"@ != "workspace/fileOperations"@,
        "workspace/didChangeWatchedFiles"@ != "workspace/executeCommand"@,
        "workspace/didChangeWatchedFiles"@ != "textDocument/rangeFormatting"@,
        "workspace/didChangeWatchedFiles"@ != "textDocument/formatting"@,
        "workspace/didChangeWatchedFiles"@ != "textDocument/rename"@,
        "workspace/didChangeWatchedFiles"@ != "textDocument/documentSymbol"@,
        "workspace/didChangeWatchedFiles"@ != "textDocument/definition"@,
        "workspace/didChangeWatchedFiles"@ != "textDocument/completion"@,
        "workspace/didChangeWatchedFiles"@ != "textDocument/hover"@,
        "workspace/didChangeWatchedFiles"@ != "textDocument/didChange"@,
        "workspace/didChangeWatchedFiles"@ != "textDocument/didSave"@,
        "workspace/didChangeWatchedFiles"@ != "textDocument/documentColor"@,
        "workspace/didChangeWatchedFiles"@ != "textDocument/foldingRange"@,
        "workspace/didChangeConfiguration"@ != "workspace/didChangeWorkspaceFolders"@,
        "workspace/didChangeConfiguration"@ != "workspace/symbol"@,
        "workspace/didChangeConfiguration"@ != "workspace/fileOperations"@,
        "workspace/didChangeConfiguration"@ != "workspace/executeCommand"@,
        "workspace/didChangeConfiguration"@ != "textDocument/rangeFormatting"@,
        "workspace/didChangeConfiguration"@ != "textDocument/formatting"@,
        "workspace/didChangeConfiguration"@ != "textDocument/rename"@,
        "workspace/didChangeConfiguration"@ != "textDocument/documentSymbol"@,
        "workspace/didChangeConfiguration"@ != "textDocument/definition"@,
        "workspace/didChangeConfiguration"@ != "textDocument/completion"@,
        "workspace/didChangeConfiguration"@ != "textDocument/hover"@,
        "workspace/didChangeConfiguration"@ != "textDocument/didChange"@,
        "workspace/didChangeConfiguration"@ != "textDocument/didSave"@,
        "workspace/didChangeConfiguration"@ != "textDocument/documentColor"@,
        "workspace/didChangeConfiguration"@ != "textDocument/foldingRange"@,
        "workspace/didChangeWorkspaceFolders"@ != "workspace/symbol"@,
        "workspace/didChangeWorkspaceFolders"@ != "workspace/fileOperations"@,
        "workspace/didChangeWorkspaceFolders"@ != "workspace/executeCommand"@,
        "workspace/didChangeWorkspaceFolders"@ != "textDocument/rangeFormatting"@,
        "workspace/didChangeWorkspaceFolders"@ != "textDocument/formatting"@,
        "workspace/didChangeWorkspaceFolders"@ != "textDocument/rename"@,
        "workspace/didChangeWorkspaceFolders"@ != "textDocument/documentSymbol"@,
        "workspace/didChangeWorkspaceFolders"@ != "textDocument/definition"@,
        "workspace/didChangeWorkspaceFolders"@ != "textDocument/completion"@,
        "workspace/didChangeWorkspaceFolders"@ != "textDocument/hover"@,
        "workspace/didChangeWorkspaceFolders"@ != "textDocument/didChange"@,
        "workspace/didChangeWorkspaceFolders"@ != "textDocument/didSave"@,
        "workspace/didChangeWorkspaceFolders"@ != "textDocument/documentColor"@,
        "workspace/didChangeWorkspaceFolders"@ != "textDocument/foldingRange"@,
        "workspace/symbol"@ != "workspace/fileOperations"@,
        "workspace/symbol"@ != "workspace/executeCommand"@,
        "workspace/symbol"@ != "textDocument/rangeFormatting"@,
        "workspace/symbol"@ != "textDocument/formatting"@,
        "workspace/symbol"@ != "textDocument/rename"@,
        "workspace/symbol"@ != "textDocument/documentSymbol"@,
        "workspace/symbol"@ != "textDocument/definition"@,
        "workspace/symbol"@ != "textDocument/completion"@,
        "workspace/symbol"@ != "textDocument/hover"@,
        "workspace/symbol"@ != "textDocument/didChange"@,
        "workspace/symbol"@ != "textDocument/didSave"@,
        "workspace/symbol"@ != "textDocument/documentColor"@,
        "workspace/symbol"@ != "textDocument/foldingRange"@,
        "workspace/fileOperations"@ != "workspace/executeCommand"@,
        "workspace/fileOperations"@ != "textDocument/rangeFormatting"@,
        "workspace/fileOperations"@ != "textDocument/formatting"@,
        "workspace/fileOperations"@ != "textDocument/rename"@,
        "workspace/fileOperations"@ != "textDocument/documentSymbol"@,
        "workspace/fileOperations"@ != "textDocument/definition"@,
        "workspace/fileOperations"@ != "textDocument/completion"@,
        "workspace/fileOperations"@ != "textDocument/hover"@,
        "workspace/fileOperations"@ != "textDocument/didChange"@,
        "workspace/fileOperations"@ != "textDocument/didSave"@,
        "workspace/fileOperations"@ != "textDocument/documentColor"@,
        "workspace/fileOperations"@ != "textDocument/foldingRange"@,
        "workspace/executeCommand"@ != "textDocument/rangeFormatting"@,
        "workspace/executeCommand"@ != "textDocument/formatting"@,
        "workspace/executeCommand"@ != "textDocument/rename"@,
        "workspace/executeCommand"@ != "textDocument/documentSymbol"@,
        "workspace/executeCommand"@ != "textDocument/definition"@,
        "workspace/executeCommand"@ != "textDocument/completion"@,
        "workspace/executeCommand"@ != "textDocument/hover"@,
        "workspace/executeCommand"@ != "textDocument/didChange"@,
        "workspace/executeCommand"@ != "textDocument/didSave"@,
        "workspace/executeCommand"@ != "textDocument/documentColor"@,
        "workspace/executeCommand"@ != "textDocument/foldingRange"@,
        "textDocument/rangeFormatting"@ != "textDocument/formatting"@,
        "textDocument/rangeFormatting"@ != "textDocument/rename"@,
        "textDocument/rangeFormatting"@ != "textDocument/documentSymbol"@,
        "textDocument/rangeFormatting"@ != "textDocument/definition"@,
        "textDocument/rangeFormatting"@ != "textDocument/completion"@,
        "textDocument/rangeFormatting"@ != "textDocument/hover"@,
        "textDocument/rangeFormatting"@ != "textDocument/didChange"@,
        "textDocument/rangeFormatting"@ != "textDocument/didSave"@,
        "textDocument/rangeFormatting"@ != "textDocument/documentColor"@,
        "textDocument/rangeFormatting"@ != "textDocument/foldingRange"@,
        "textDocument/formatting"@ != "textDocument/rename"@,
        "textDocument/formatting"@ != "textDocument/documentSymbol"@,
        "textDocument/formatting"@ != "textDocument/definition"@,
        "textDocument/formatting"@ != "textDocument/completion"@,
        "textDocument/formatting"@ != "textDocument/hover"@,
        "textDocument/formatting"@ != "textDocument/didChange"@,
        "textDocument/formatting"@ != "textDocument/didSave"@,
        "textDocument/formatting"@ != "textDocument/documentColor"@,
        "textDocument/formatting"@ != "textDocument/foldingRange"@,
        "textDocument/rename"@ != "textDocument/documentSymbol"@,
        "textDocument/rename"@ != "textDocument/definition"@,
        "textDocument/rename"@ != "textDocument/completion"@,
        "textDocument/rename"@ != "textDocument/hover"@,
        "textDocument/rename"@ != "textDocument/didChange"@,
        "textDocument/rename"@ != "textDocument/didSave"@,
        "textDocument/rename"@ != "textDocument/documentColor"@,
        "textDocument/rename"@ != "textDocument/foldingRange"@,
        "textDocument/documentSymbol"@ != "textDocument/definition"@,
        "textDocument/documentSymbol"@ != "textDocument/completion"@,
        "textDocument/documentSymbol"@ != "textDocument/hover"@,
        "textDocument/documentSymbol"@ != "textDocument/didChange"@,
        "textDocument/documentSymbol"@ != "textDocument/didSave"@,
        "textDocument/documentSymbol"@ != "textDocument/documentColor"@,
        "textDocument/documentSymbol"@ != "textDocument/foldingRange"@,
        "textDocument/definition"@ != "textDocument/completion"@,
        "textDocument/definition"@ != "textDocument/hover"@,
        "textDocument/definition"@ != "textDocument/didChange"@,
        "textDocument/definition"@ != "textDocument/didSave"@,
        "textDocument/definition"@ != "textDocument/documentColor"@,
        "textDocument/definition"@ != "textDocument/foldingRange"@,
        "textDocument/completion"@ != "textDocument/hover"@,
        "textDocument/completion"@ != "textDocument/didChange"@,
        "textDocument/completion"@ != "textDocument/didSave"@,
        "textDocument/completion"@ != "textDocument/documentColor"@,
        "textDocument/completion"@ != "textDocument/foldingRange"@,
        "textDocument/hover"@ != "textDocument/didChange"@,
        "textDocument/hover"@ != "textDocument/didSave"@,
        "textDocument/hover"@ != "textDocument/documentColor"@,
        "textDocument/hover"@ != "textDocument/foldingRange"@,
        "textDocument/didChange"@ != "textDocument/didSave"@,
        "textDocument/didChange"@ != "textDocument/documentColor"@,
        "textDocument/didChange"@ != "textDocument/foldingRange"@,
        "textDocument/didSave"@ != "textDocument/documentColor"@,
        "textDocument/didSave"@ != "textDocument/foldingRange"@,
        "textDocument/documentColor"@ != "textDocument/foldingRange"@,
{
    reveal_strlit("workspace/didChangeWatchedFiles");
    reveal_strlit("workspace/didChangeConfiguration");
    reveal_strlit("workspace/didChangeWorkspaceFolders");
    reveal_strlit("workspace/symbol");
    reveal_strlit("workspace/fileOperations");
    reveal_strlit("workspace/executeCommand");
    reveal_strlit("textDocument/rangeFormatting");
    reveal_strlit("textDocument/formatting");
    reveal_strlit("textDocument/rename");
    reveal_strlit("textDocument/documentSymbol");
    reveal_strlit("textDocument/definition");
    reveal_strlit("textDocument/completion");
    reveal_strlit("textDocument/hover");
    reveal_strlit("textDocument/didChange");
    reveal_strlit("textDocument/didSave");
    reveal_strlit("textDocument/documentColor");
    reveal_strlit("textDocument/foldingRange");
    assert("workspace/didChangeWatchedFiles"@.len() != "workspace/didChangeConfiguration"@.len());
    assert("workspace/didChangeWatchedFiles"@.len() != "workspace/didChangeWorkspaceFolders"@.len());
    assert("workspace/didChangeWatchedFiles"@.len() != "workspace/symbol"@.len());
    assert("workspace/didChangeWatchedFiles"@.len() != "workspace/fileOperations"@.len());
    assert("workspace/didChangeWatchedFiles"@.len() != "workspace/executeCommand"@.len());
    assert("workspace/didChangeWatchedFiles"@.len() != "textDocument/rangeFormatting"@.len());
    assert("workspace/didChangeWatchedFiles"@.len() != "textDocument/formatting"@.len());
    assert("workspace/didChangeWatchedFiles"@.len() != "textDocument/rename"@.len());
    assert("workspace/didChangeWatchedFiles"@.len() != "textDocument/documentSymbol"@.len());
    assert("workspace/didChangeWatchedFiles"@.len() != "textDocument/definition"@.len());
    assert("workspace/didChangeWatchedFiles"@.len() != "textDocument/completion"@.len());
    assert("workspace/didChangeWatchedFiles"@.len() != "textDocument/hover"@.len());
    assert("workspace/didChangeWatchedFiles"@.len() != "textDocument/didChange"@.len());
    assert("workspace/didChangeWatchedFiles"@.len() != "textDocument/didSave"@.len());
    assert("workspace/didChangeWatchedFiles"@.len() != "textDocument/documentColor"@.len());
    assert("workspace/didChangeWatchedFiles"@.len() != "textDocument/foldingRange"@.len());
    assert("workspace/didChangeConfiguration"@.len() != "workspace/didChangeWorkspaceFolders"@.len());
    assert("workspace/didChangeConfiguration"@.len() != "workspace/symbol"@.len());
    assert("workspace/didChangeConfiguration"@.len() != "workspace/fileOperations"@.len());
    assert("workspace/didChangeConfiguration"@.len() != "workspace/executeCommand"@.len());
    assert("workspace/didChangeConfiguration"@.len() != "textDocument/rangeFormatting"@.len());
    assert("workspace/didChangeConfiguration"@.len() != "textDocument/formatting"@.len());
    assert("workspace/didChangeConfiguration"@.len() != "textDocument/rename"@.len());
    assert("workspace/didChangeConfiguration"@.len() != "textDocument/documentSymbol"@.len());
    assert("workspace/didChangeConfiguration"@.len() != "textDocument/definition"@.len());
    assert("workspace/didChangeConfiguration"@.len() != "textDocument/completion"@.len());
    assert("workspace/didChangeConfiguration"@.len() != "textDocument/hover"@.len());
    assert("workspace/didChangeConfiguration"@.len() != "textDocument/didChange"@.len());
    assert("workspace/didChangeConfiguration"@.len() != "textDocument/didSave"@.len());
    assert("workspace/didChangeConfiguration"@.len() != "textDocument/documentColor"@.len());
    assert("workspace/didChangeConfiguration"@.len() != "textDocument/foldingRange"@.len());
    assert("workspace/didChangeWorkspaceFolders"@.len() != "workspace/symbol"@.len());
    assert("workspace/didChangeWorkspaceFolders"@.len() != "workspace/fileOperations"@.len());
    assert("workspace/didChangeWorkspaceFolders"@.len() != "workspace/executeCommand"@.len());
    assert("workspace/didChangeWorkspaceFolders"@.len() != "textDocument/rangeFormatting"@.len());
    assert("workspace/didChangeWorkspaceFolders"@.len() != "textDocument/formatting"@.len());
    assert("workspace/didChangeWorkspaceFolders"@.len() != "textDocument/rename"@.len());
    assert("workspace/didChangeWorkspaceFolders"@.len() != "textDocument/documentSymbol"@.len());
    assert("workspace/didChangeWorkspaceFolders"@.len() != "textDocument/definition"@.len());
    assert("workspace/didChangeWorkspaceFolders"@.len() != "textDocument/completion"@.len());
    assert("workspace/didChangeWorkspaceFolders"@.len() != "textDocument/hover"@.len());
    assert("workspace/didChangeWorkspaceFolders"@.len() != "textDocument/didChange"@.len());
    assert("workspace/didChangeWorkspaceFolders"@.len() != "textDocument/didSave"@.len());
    assert("workspace/didChangeWorkspaceFolders"@.len() != "textDocument/documentColor"@.len());
    assert("workspace/didChangeWorkspaceFolders"@.len() != "textDocument/foldingRange"@.len());
    assert("workspace/symbol"@.len() != "workspace/fileOperations"@.len());
    assert("workspace/symbol"@.len() != "workspace/executeCommand"@.len());
    assert("workspace/symbol"@.len() != "textDocument/rangeFormatting"@.len());
    assert("workspace/symbol"@.len() != "textDocument/formatting"@.len());
    assert("workspace/symbol"@.len() != "textDocument/rename"@.len());
    assert("workspace/symbol"@.len() != "textDocument/documentSymbol"@.len());
    assert("workspace/symbol"@.len() != "textDocument/definition"@.len());
    assert("workspace/symbol"@.len() != "textDocument/completion"@.len());
    assert("workspace/symbol"@.len() != "textDocument/hover"@.len());
    assert("workspace/symbol"@.len() != "textDocument/didChange"@.len());
    assert("workspace/symbol"@.len() != "textDocument/didSave"@.len());
    assert("workspace/symbol"@.len() != "textDocument/documentColor"@.len());
    assert("workspace/symbol"@.len() != "textDocument/foldingRange"@.len());
    assert("workspace/fileOperations"@[10] != "workspace/executeCommand"@[10]);
    assert("workspace/fileOperations"@.len() != "textDocument/rangeFormatting"@.len());
    assert("workspace/fileOperations"@.len() != "textDocument/formatting"@.len());
    assert("workspace/fileOperations"@.len() != "textDocument/rename"@.len());
    assert("workspace/fileOperations"@.len() != "textDocument/documentSymbol"@.len());
    assert("workspace/fileOperations"@.len() != "textDocument/definition"@.len());
    assert("workspace/fileOperations"@.len() != "textDocument/completion"@.len());
    assert("workspace/fileOperations"@.len() != "textDocument/hover"@.len());
    assert("workspace/fileOperations"@.len() != "textDocument/didChange"@.len());
    assert("workspace/fileOperations"@.len() != "textDocument/didSave"@.len());
    assert("workspace/fileOperations"@.len() != "textDocument/documentColor"@.len());
    assert("workspace/fileOperations"@.len() != "textDocument/foldingRange"@.len());
    assert("workspace/executeCommand"@.len() != "textDocument/rangeFormatting"@.len());
    assert("workspace/executeCommand"@.len() != "textDocument/formatting"@.len());
    assert("workspace/executeCommand"@.len() != "textDocument/rename"@.len());
    assert("workspace/executeCommand"@.len() != "textDocument/documentSymbol"@.len());
    assert("workspace/executeCommand"@.len() != "textDocument/definition"@.len());
    assert("workspace/executeCommand"@.len() != "textDocument/completion"@.len());
    assert("workspace/executeCommand"@.len() != "textDocument/hover"@.len());
    assert("workspace/executeCommand"@.len() != "textDocument/didChange"@.len());
    assert("workspace/executeCommand"@.len() != "textDocument/didSave"@.len());
    assert("workspace/executeCommand"@.len() != "textDocument/documentColor"@.len());
    assert("workspace/executeCommand"@.len() != "textDocument/foldingRange"@.len());
    assert("textDocument/rangeFormatting"@.len() != "textDocument/formatting"@.len());
    assert("textDocument/rangeFormatting"@.len() != "textDocument/rename"@.len());
    assert("textDocument/rangeFormatting"@.len() != "textDocument/documentSymbol"@.len());
    assert("textDocument/rangeFormatting"@.len() != "textDocument/definition"@.len());
    assert("textDocument/rangeFormatting"@.len() != "textDocument/completion"@.len());
    assert("textDocument/rangeFormatting"@.len() != "textDocument/hover"@.len());
    assert("textDocument/rangeFormatting"@.len() != "textDocument/didChange"@.len());
    assert("textDocument/rangeFormatting"@.len() != "textDocument/didSave"@.len());
    assert("textDocument/rangeFormatting"@.len() != "textDocument/documentColor"@.len());
    assert("textDocument/rangeFormatting"@.len() != "textDocument/foldingRange"@.len());
    assert("textDocument/formatting"@.len() != "textDocument/rename"@.len());
    assert("textDocument/formatting"@.len() != "textDocument/documentSymbol"@.len());
    assert("textDocument/formatting"@[13] != "textDocument/definition"@[13]);
    assert("textDocument/formatting"@[13] != "textDocument/completion"@[13]);
    assert("textDocument/formatting"@.len() != "textDocument/hover"@.len());
    assert("textDocument/formatting"@.len() != "textDocument/didChange"@.len());
    assert("textDocument/formatting"@.len() != "textDocument/didSave"@.len());
    assert("textDocument/formatting"@.len() != "textDocument/documentColor"@.len());
    assert("textDocument/formatting"@.len() != "textDocument/foldingRange"@.len());
    assert("textDocument/rename"@.len() != "textDocument/documentSymbol"@.len());
    assert("textDocument/rename"@.len() != "textDocument/definition"@.len());
    assert("textDocument/rename"@.len() != "textDocument/completion"@.len());
    assert("textDocument/rename"@.len() != "textDocument/hover"@.len());
    assert("textDocument/rename"@.len() != "textDocument/didChange"@.len());
    assert("textDocument/rename"@.len() != "textDocument/didSave"@.len());
    assert("textDocument/rename"@.len() != "textDocument/documentColor"@.len());
    assert("textDocument/rename"@.len() != "textDocument/foldingRange"@.len());
    assert("textDocument/documentSymbol"@.len() != "textDocument/definition"@.len());
    assert("textDocument/documentSymbol"@.len() != "textDocument/completion"@.len());
    assert("textDocument/documentSymbol"@.len() != "textDocument/hover"@.len());
    assert("textDocument/documentSymbol"@.len() != "textDocument/didChange"@.len());
    assert("textDocument/documentSymbol"@.len() != "textDocument/didSave"@.len());
    assert("textDocument/documentSymbol"@.len() != "textDocument/documentColor"@.len());
    assert("textDocument/documentSymbol"@.len() != "textDocument/foldingRange"@.len());
    assert("textDocument/definition"@[13] != "textDocument/completion"@[13]);
    assert("textDocument/definition"@.len() != "textDocument/hover"@.len());
    assert("textDocument/definition"@.len() != "textDocument/didChange"@.len());
    assert("textDocument/definition"@.len() != "textDocument/didSave"@.len());
    assert("textDocument/definition"@.len() != "textDocument/documentColor"@.len());
    assert("textDocument/definition"@.len() != "textDocument/foldingRange"@.len());
    assert("textDocument/completion"@.len() != "textDocument/hover"@.len());
    assert("textDocument/completion"@.len() != "textDocument/didChange"@.len());
    assert("textDocument/completion"@.len() != "textDocument/didSave"@.len());
    assert("textDocument/completion"@.len() != "textDocument/documentColor"@.len());
    assert("textDocument/completion"@.len() != "textDocument/foldingRange"@.len());
    assert("textDocument/hover"@.len() != "textDocument/didChange"@.len());
    assert("textDocument/hover"@.len() != "textDocument/didSave"@.len());
    assert("textDocument/hover"@.len() != "textDocument/documentColor"@.len());
    assert("textDocument/hover"@.len() != "textDocument/foldingRange"@.len());
    assert("textDocument/didChange"@.len() != "textDocument/didSave"@.len());
    assert("textDocument/didChange"@.len() != "textDocument/documentColor"@.len());
    assert("textDocument/didChange"@.len() != "textDocument/foldingRange"@.len());
    assert("textDocument/didSave"@.len() != "textDocument/documentColor"@.len());
    assert("textDocument/didSave"@.len() != "textDocument/foldingRange"@.len());
    assert("textDocument/documentColor"@.len() != "textDocument/foldingRange"@.len());
}

/// A registration with a method sets what the method stands for to the options of the
/// registration, or switches it on where there are none, and leaves every other capability as it
/// was. One whose options cannot be read changes nothing.
pub proof fn methods_switch_capabilities_on(capabilities: ServerCapabilities, reg: Registration)
    ensures
        ({
            let on = match reg.register_options {
                Some(options) => Provider::Options(options.text),
                None => Provider::Simple(true),
            };
            let readable = reg.register_options matches Some(options) ==> options.is_valid;
            let updated = CapabilityEffect::Updated;
            let method = reg.method@;
            let after = registered(capabilities, reg);
            &&& method == "workspace/symbol"@ ==> after == if readable {
                Some((ServerCapabilities { workspace_symbol: Some(on), ..capabilities }, updated))
            } else {
                None
            }
            &&& method == "textDocument/rangeFormatting"@ ==> after == if readable {
                Some((ServerCapabilities { document_range_formatting: Some(on), ..capabilities }, updated))
            } else {
                None
            }
            &&& method == "textDocument/formatting"@ ==> after == if readable {
                Some((ServerCapabilities { document_formatting: Some(on), ..capabilities }, updated))
            } else {
                None
            }
            &&& method == "textDocument/rename"@ ==> after == if readable {
                Some((ServerCapabilities { rename: Some(on), ..capabilities }, updated))
            } else {
                None
            }
            &&& method == "textDocument/documentSymbol"@ ==> after == if readable {
                Some((ServerCapabilities { document_symbol: Some(on), ..capabilities }, updated))
            } else {
                None
            }
            &&& method == "textDocument/definition"@ ==> after == if readable {
                Some((ServerCapabilities { definition: Some(on), ..capabilities }, updated))
            } else {
                None
            }
            &&& method == "textDocument/hover"@ ==> after == if readable {
                Some((ServerCapabilities { hover: Some(on), ..capabilities }, updated))
            } else {
                None
            }
            &&& method == "textDocument/documentColor"@ ==> after == if readable {
                Some((ServerCapabilities { color: Some(on), ..capabilities }, updated))
            } else {
                None
            }
            &&& method == "textDocument/foldingRange"@ ==> after == if readable {
                Some((ServerCapabilities { folding_range: Some(on), ..capabilities }, updated))
            } else {
                None
            }
        }),
{
    lemma_methods_differ();
}

/// Options of file operations and of commands are taken over as they are, and say nothing where
/// there are none. Changes of the workspace folders are announced under the registration.
pub proof fn workspace_methods_take_options(capabilities: ServerCapabilities, reg: Registration)
    ensures
        ({
            let updated = CapabilityEffect::Updated;
            let method = reg.method@;
            let after = registered(capabilities, reg);
            &&& method == "workspace/didChangeWorkspaceFolders"@ ==> after == Some(
                (ServerCapabilities { workspace_folders: Some(reg.id), ..capabilities }, updated),
            )
            &&& method == "workspace/fileOperations"@ ==> match reg.register_options {
                None => after == Some((capabilities, CapabilityEffect::Nothing)),
                Some(options) => after == if options.is_valid {
                    Some(
                        (
                            ServerCapabilities { file_operations: Some(options.text), ..capabilities },
                            updated,
                        ),
                    )
                } else {
                    None
                },
            }
            &&& method == "workspace/executeCommand"@ ==> match reg.register_options {
                None => after == Some((capabilities, CapabilityEffect::Nothing)),
                Some(options) => after == if options.is_valid {
                    Some(
                        (
                            ServerCapabilities { execute_command: Some(options.text), ..capabilities },
                            updated,
                        ),
                    )
                } else {
                    None
                },
            }
            &&& method == "workspace/didChangeWatchedFiles"@ ==> match reg.register_options {
                None => after == Some((capabilities, CapabilityEffect::Nothing)),
                Some(options) => after == if options.is_valid {
                    Some((capabilities, CapabilityEffect::WatchedFiles))
                } else {
                    None
                },
            }
            &&& method == "workspace/didChangeConfiguration"@ || method
                == "textDocument/completion"@ ==> after == Some(
                (capabilities, CapabilityEffect::Nothing),
            )
        }),
{
    lemma_methods_differ();
}

/// A method that none of the names stands for changes nothing, whether it is registered or
/// withdrawn.
pub proof fn unknown_methods_change_nothing(capabilities: ServerCapabilities, reg: Registration)
    requires
        reg.method@ != "workspace/didChangeWatchedFiles"@,
        reg.method@ != "workspace/didChangeConfiguration"@,
        reg.method@ != "workspace/didChangeWorkspaceFolders"@,
        reg.method@ != "workspace/symbol"@,
        reg.method@ != "workspace/fileOperations"@,
        reg.method@ != "workspace/executeCommand"@,
        reg.method@ != "textDocument/rangeFormatting"@,
        reg.method@ != "textDocument/formatting"@,
        reg.method@ != "textDocument/rename"@,
        reg.method@ != "textDocument/documentSymbol"@,
        reg.method@ != "textDocument/definition"@,
        reg.method@ != "textDocument/completion"@,
        reg.method@ != "textDocument/hover"@,
        reg.method@ != "textDocument/didChange"@,
        reg.method@ != "textDocument/didSave"@,
        reg.method@ != "textDocument/documentColor"@,
        reg.method@ != "textDocument/foldingRange"@,
    ensures
        registered(capabilities, reg) == Some((capabilities, CapabilityEffect::Nothing)),
        unregistered(capabilities, reg.method@) == (capabilities, CapabilityEffect::Nothing),
{
}

/// How the server is told of changes after capabilities were entered.
pub open spec fn told_changes(capabilities: ServerCapabilities) -> Option<SyncKind> {
    match capabilities.text_document_sync {
        Some(TextDocumentSync::Kind(kind)) => Some(kind),
        Some(TextDocumentSync::Options(options)) => options.change,
        None => None,
    }
}

/// How the server is told of saved documents.
pub open spec fn told_saves(capabilities: ServerCapabilities) -> Option<SaveOptions> {
    match capabilities.text_document_sync {
        Some(TextDocumentSync::Options(options)) => options.save,
        _ => None,
    }
}

/// Whether the server is told of saved documents, and if so whether it gets their text.
pub open spec fn saves_with_text(capabilities: ServerCapabilities) -> Option<bool> {
    match told_saves(capabilities) {
        Some(SaveOptions::Supported(true)) => Some(false),
        Some(SaveOptions::SaveOptions { include_text }) => Some(include_text == Some(true)),
        _ => None,
    }
}

/// A server gets the text of a saved document just if it asked for it: one that registered for
/// saved documents gets what it asked for, one that only said that it wants to hear of them gets
/// none, and one that said or withdrew nothing hears of none.
pub proof fn saved_text_is_sent_on_request(
    capabilities: ServerCapabilities,
    reg: Registration,
    options: RegisterOptions,
)
    requires
        reg.register_options == Some(options),
        reg.method@ == "textDocument/didSave"@,
    ensures
        options.include_text matches IncludeTextField::Value(with_text) ==> saves_with_text(
            (registered(capabilities, reg)->0).0,
        ) == Some(with_text),
        options.include_text is Missing ==> saves_with_text(
            (registered(capabilities, reg)->0).0,
        ) == Some(false),
        saves_with_text(unregistered(capabilities, reg.method@).0) is None,
        capabilities.text_document_sync is None ==> saves_with_text(capabilities) is None,
        capabilities.text_document_sync is Some && capabilities.text_document_sync->0 is Kind
            ==> saves_with_text(capabilities) is None,
        capabilities.text_document_sync matches Some(TextDocumentSync::Options(sync)) ==> (
        sync.save matches Some(SaveOptions::Supported(wanted)) ==> saves_with_text(capabilities)
            == if wanted {
            Some(false)
        } else {
            None
        }),
{
    lemma_methods_differ();
}

/// A bare kind of synchronisation is as good as options with it.
pub proof fn bare_kinds_are_options(capabilities: ServerCapabilities, kind: SyncKind)
    ensures
        told_changes(
            ServerCapabilities {
                text_document_sync: Some(TextDocumentSync::Kind(kind)),
                ..capabilities
            },
        ) == Some(kind),
        told_changes(
            ServerCapabilities {
                text_document_sync: Some(
                    TextDocumentSync::Options(SyncOptions { change: Some(kind), save: None }),
                ),
                ..capabilities
            },
        ) == Some(kind),
        told_changes(ServerCapabilities { text_document_sync: None, ..capabilities }) is None,
{
}

/// A server that registers for changes is told of them as it asks, one that registers for saved
/// documents is told of those as it asks, and neither disturbs the other nor anything else. A
/// withdrawal ends just what was registered.
pub proof fn changes_and_saves_are_told_as_asked(
    capabilities: ServerCapabilities,
    reg: Registration,
    options: RegisterOptions,
)
    requires
        reg.register_options == Some(options),
    ensures
        ({
            let before = capabilities;
            let after = registered(capabilities, reg);
            &&& reg.method@ == "textDocument/didChange"@ ==> match options.sync_kind {
                SyncKindField::Invalid => after is None,
                SyncKindField::Missing => after == Some((before, CapabilityEffect::Nothing)),
                SyncKindField::Value(kind) => after matches Some((now, effect)) && {
                    &&& effect == CapabilityEffect::Updated
                    &&& told_changes(now) == Some(kind)
                    &&& told_saves(now) == told_saves(before)
                    &&& now == (ServerCapabilities {
                        text_document_sync: now.text_document_sync,
                        ..before
                    })
                },
            }
            &&& reg.method@ == "textDocument/didSave"@ ==> match options.include_text {
                IncludeTextField::Invalid => after is None,
                field => after matches Some((now, effect)) && {
                    &&& effect == CapabilityEffect::Updated
                    &&& told_saves(now) == Some(
                        SaveOptions::SaveOptions {
                            include_text: match field {
                                IncludeTextField::Value(with_text) => Some(with_text),
                                _ => None,
                            },
                        },
                    )
                    &&& told_changes(now) == told_changes(before)
                    &&& now == (ServerCapabilities {
                        text_document_sync: now.text_document_sync,
                        ..before
                    })
                },
            }
        }),
        ({
            let (now, effect) = unregistered(capabilities, "textDocument/didChange"@);
            &&& effect == CapabilityEffect::Updated
            &&& told_changes(now) is None
            &&& told_saves(now) == told_saves(capabilities)
            &&& now == (ServerCapabilities {
                text_document_sync: now.text_document_sync,
                ..capabilities
            })
        }),
        ({
            let (now, effect) = unregistered(capabilities, "textDocument/didSave"@);
            &&& effect == CapabilityEffect::Updated
            &&& told_saves(now) is None
            &&& told_changes(now) == told_changes(capabilities)
            &&& now == (ServerCapabilities {
                text_document_sync: now.text_document_sync,
                ..capabilities
            })
        }),
{
    lemma_methods_differ();
}

/// Without options nothing is asked of changes or saved documents.
pub proof fn bare_synchronisation_says_nothing(capabilities: ServerCapabilities, reg: Registration)
    requires
        reg.register_options is None,
        reg.method@ == "textDocument/didChange"@ || reg.method@ == "textDocument/didSave"@,
    ensures
        registered(capabilities, reg) == Some((capabilities, CapabilityEffect::Nothing)),
{
    lemma_methods_differ();
}

/// A withdrawal with a method switches off what the method stands for, and leaves every other
/// capability as it was. Document symbols cannot be withdrawn; completions can, though they
/// cannot be registered.
pub proof fn methods_switch_capabilities_off(capabilities: ServerCapabilities)
    ensures
        ({
            let updated = CapabilityEffect::Updated;
            let before = capabilities;
            &&& unregistered(before, "workspace/symbol"@) == (
                ServerCapabilities { workspace_symbol: None, ..before },
                updated,
            )
            &&& unregistered(before, "textDocument/rangeFormatting"@) == (
                ServerCapabilities { document_range_formatting: None, ..before },
                updated,
            )
            &&& unregistered(before, "textDocument/formatting"@) == (
                ServerCapabilities { document_formatting: None, ..before },
                updated,
            )
            &&& unregistered(before, "textDocument/rename"@) == (
                ServerCapabilities { rename: None, ..before },
                updated,
            )
            &&& unregistered(before, "textDocument/definition"@) == (
                ServerCapabilities { definition: None, ..before },
                updated,
            )
            &&& unregistered(before, "textDocument/hover"@) == (
                ServerCapabilities { hover: None, ..before },
                updated,
            )
            &&& unregistered(before, "textDocument/documentColor"@) == (
                ServerCapabilities { color: None, ..before },
                updated,
            )
            &&& unregistered(before, "textDocument/foldingRange"@) == (
                ServerCapabilities { folding_range: None, ..before },
                updated,
            )
            &&& unregistered(before, "workspace/didChangeWorkspaceFolders"@) == (
                ServerCapabilities { workspace_folders: None, ..before },
                updated,
            )
            &&& unregistered(before, "workspace/fileOperations"@) == (
                ServerCapabilities { file_operations: None, ..before },
                updated,
            )
            &&& unregistered(before, "workspace/executeCommand"@) == (
                ServerCapabilities { execute_command: None, ..before },
                updated,
            )
            &&& unregistered(before, "textDocument/completion"@) == (
                ServerCapabilities { completion: None, ..before },
                updated,
            )
            &&& unregistered(before, "workspace/didChangeWatchedFiles"@) == (
                before,
                CapabilityEffect::WatchedFiles,
            )
            &&& unregistered(before, "workspace/didChangeConfiguration"@) == (
                before,
                CapabilityEffect::Nothing,
            )
            &&& unregistered(before, "textDocument/documentSymbol"@) == (
                before,
                CapabilityEffect::Nothing,
            )
        }),
{
    lemma_methods_differ();
}

/// Registrations take effect one after the other: each on what those before it left, and none
/// after the first whose options cannot be read.
pub proof fn registrations_follow_each_other(
    capabilities: ServerCapabilities,
    regs: Seq<Registration>,
    reg: Registration,
)
    ensures
        ({
            let none = all_registered(capabilities, Seq::empty());
            none.capabilities == capabilities && none.effects.len() == 0 && !none.failed
        }),
        ({
            let before = all_registered(capabilities, regs);
            let after = all_registered(capabilities, regs.push(reg));
            if before.failed {
                after == before
            } else {
                match registered(before.capabilities, reg) {
                    None => after.failed && after.capabilities == before.capabilities
                        && after.effects == before.effects,
                    Some((now, effect)) => !after.failed && after.capabilities == now
                        && after.effects == before.effects.push(effect),
                }
            }
        }),
{
    assert(regs.push(reg).drop_last() =~= regs);
}

/// So do withdrawals.
pub proof fn withdrawals_follow_each_other(
    capabilities: ServerCapabilities,
    unregs: Seq<Unregistration>,
    unreg: Unregistration,
)
    ensures
        all_unregistered(capabilities, Seq::empty()) == (
            capabilities,
            Seq::<CapabilityEffect>::empty(),
        ),
        ({
            let (before, effects) = all_unregistered(capabilities, unregs);
            let (now, effect) = unregistered(before, unreg.method@);
            all_unregistered(capabilities, unregs.push(unreg)) == (now, effects.push(effect))
        }),
{
    assert(unregs.push(unreg).drop_last() =~= unregs);
}

/// A server has watched what its last registration under each name asks for: a registration of
/// watched files that is taken over stands under its own name, in place of what stood there, and
/// leaves what stands under other names. No other registration changes anything.
pub proof fn watchers_stand_under_their_registration(
    capabilities: ServerCapabilities,
    watchers: Watchers,
    regs: Seq<Registration>,
    reg: Registration,
)
    ensures
        watchers_registered(capabilities, watchers, Seq::empty()) == watchers,
        ({
            let before = watchers_registered(capabilities, watchers, regs);
            let after = watchers_registered(capabilities, watchers, regs.push(reg));
            let failed = all_registered(capabilities, regs).failed;
            if !failed && reg.method@ == "workspace/didChangeWatchedFiles"@ && (
            reg.register_options matches Some(options) && options.is_valid) {
                &&& after.contains_key(reg.id@) && after[reg.id@] == reg.register_options->0.watchers
                &&& forall|id: Seq<char>|
                    id != reg.id@ ==> (#[trigger] after.contains_key(id) <==> before.contains_key(
                        id,
                    )) && (after.contains_key(id) ==> after[id] == before[id])
            } else {
                after == before
            }
        }),
{
    lemma_methods_differ();
    assert(regs.push(reg).drop_last() =~= regs);
    if reg.method@ == "workspace/didChangeWatchedFiles"@ {
        assert(kind_of(reg.method@) == CapabilityKind::WatchedFiles);
    }
}

/// A withdrawal of watched files takes away what stands under its name, and nothing else; no
/// other withdrawal changes what is watched.
pub proof fn withdrawals_end_watching(
    watchers: Watchers,
    unregs: Seq<Unregistration>,
    unreg: Unregistration,
)
    ensures
        watchers_unregistered(watchers, Seq::empty()) == watchers,
        ({
            let before = watchers_unregistered(watchers, unregs);
            let after = watchers_unregistered(watchers, unregs.push(unreg));
            if unreg.method@ == "workspace/didChangeWatchedFiles"@ {
                &&& !after.contains_key(unreg.id@)
                &&& forall|id: Seq<char>|
                    id != unreg.id@ ==> (#[trigger] after.contains_key(id) <==> before.contains_key(
                        id,
                    )) && (after.contains_key(id) ==> after[id] == before[id])
            } else {
                after == before
            }
        }),
{
    lemma_methods_differ();
    assert(unregs.push(unreg).drop_last() =~= unregs);
}

/// A server that does not run changes nothing and hears of it; what one that runs registers is
/// entered for it alone.
pub proof fn only_running_servers_register(
    before: RegisteredServers,
    server: u64,
    is_running: bool,
    regs: Seq<Registration>,
    after: RegisteredServers,
    result: Result<Vec<CapabilityEffect>, RegistrationError>,
)
    requires
        registers(before, server, is_running, regs, after, result),
    ensures
        !is_running <==> result matches Err(RegistrationError::NoServer),
        !is_running ==> after == before,
        is_running ==> after.servers@.contains_key(server) && after.servers@[server]
            == all_registered(before.servers@[server], regs).capabilities,
        result is Ok ==> result->Ok_0@.len() == regs.len(),
        forall|other: u64|
            #![trigger after.servers@.contains_key(other)]
            #![trigger after.registrations@.contains_key(other)]
            other != server ==> (after.servers@.contains_key(other)
                <==> before.servers@.contains_key(other)) && (after.servers@.contains_key(other)
                ==> after.servers@[other] == before.servers@[other]) && (
            after.registrations@.contains_key(other) <==> before.registrations@.contains_key(other))
                && (after.registrations@.contains_key(other) ==> after.registrations@[other]
                == before.registrations@[other]),
{
    if is_running {
        lemma_effects_count(before.servers@[server], regs);
    }
}

/// Each registration that is taken over brings about one thing.
proof fn lemma_effects_count(capabilities: ServerCapabilities, regs: Seq<Registration>)
    ensures
        !all_registered(capabilities, regs).failed ==> all_registered(
            capabilities,
            regs,
        ).effects.len() == regs.len(),
    decreases regs.len(),
{
    if regs.len() > 0 {
        lemma_effects_count(capabilities, regs.drop_last());
    }
}

/// The same of withdrawals.
pub proof fn only_running_servers_withdraw(
    before: RegisteredServers,
    server: u64,
    is_running: bool,
    unregs: Seq<Unregistration>,
    after: RegisteredServers,
    effects: Option<Vec<CapabilityEffect>>,
)
    requires
        unregisters(before, server, is_running, unregs, after, effects),
    ensures
        effects is Some <==> is_running,
        !is_running ==> after == before,
        is_running ==> after.servers@.contains_key(server) && after.servers@[server]
            == all_unregistered(before.servers@[server], unregs).0,
        forall|other: u64|
            #![trigger after.servers@.contains_key(other)]
            #![trigger after.registrations@.contains_key(other)]
            other != server ==> (after.servers@.contains_key(other)
                <==> before.servers@.contains_key(other)) && (after.servers@.contains_key(other)
                ==> after.servers@[other] == before.servers@[other]) && (
            after.registrations@.contains_key(other) <==> before.registrations@.contains_key(other))
                && (after.registrations@.contains_key(other) ==> after.registrations@[other]
                == before.registrations@[other]),
{
}

} // verus!
