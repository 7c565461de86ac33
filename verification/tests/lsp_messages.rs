use std::collections::{BTreeMap, BTreeSet};

use project::environment::EnvVars;
use project::lsp_store::binary::{
    contributing_adapters, initialization_options_for_adapter, startup_failure,
    workspace_configuration_for_adapter, BinaryPlan, BinarySettings, Fetched, Found,
    LanguageServerBinary, LspSettings, TrustWait,
};
use project::lsp_store::buffer_versions::{BufferVersions, ChangeNotice, SyncKind, VersionError};
use project::lsp_store::capabilities::{
    CapabilityEffect, IncludeTextField, Provider, RegisterOptions, RegisteredServers, Registration,
    RegistrationError, SaveOptions, ServerCapabilities, SyncKindField, SyncOptions,
    TextDocumentSync, Unregistration,
};
use project::lsp_store::incoming::{MessageAction, ServerConnection, ServerMessage};
use project::lsp_store::lsp_data::{
    collect_responses, colors_failed, colors_fetched, document_colors, latest_lsp_data,
    BufferLspData, BufferVersion, ColorPlan, ServerData,
};
use project::lsp_store::messages::{
    prompt_level, scopes_to_query, workspace_configuration, ConfigurationItem, Json, MessageType,
    PromptLevel,
};
use project::lsp_store::open_buffers::{
    new_server_action, reuse_existing_language_server, visible_first, worktrees_using_server,
    NewServerAction, OpenBuffer, OpenPlan, RegisteredBuffers, RootServers, ServerLanguages,
    WorktreeServers,
};
use project::lsp_store::progress::{
    LanguageServerStatuses, ProgressToken, ServerAbout, WorkDoneProgress, SERVER_PROGRESS_THROTTLE_TIMEOUT,
};
use project::lsp_store::servers::LanguageServerSeed;
use project::lsp_store::store::LspStore;
use project::lsp_store::watched_paths::{FileSystemWatcher, GlobPattern, PatternPath};
use project::rel_path::RelPath;

fn about(name: &str) -> ServerAbout {
    ServerAbout {
        name: name.to_string(),
        language_name: Some("Rust".to_string()),
        server_version: None,
        server_readable_version: None,
        worktree: None,
        binary: None,
        configuration: None,
        workspace_folders: vec![],
        process_id: Some(40),
    }
}

fn env(vars: &[(&str, &str)]) -> EnvVars {
    let mut env = EnvVars::new();
    for (name, value) in vars {
        env.set(name.to_string(), value.to_string());
    }
    env
}

fn value<'a>(env: &'a Option<EnvVars>, name: &str) -> Option<&'a str> {
    env.as_ref()?.get(&name.to_string()).map(|value| value.as_str())
}

fn settings(path: Option<&str>, arguments: Option<&[&str]>) -> LspSettings {
    LspSettings {
        binary: Some(BinarySettings {
            path: path.map(|path| path.to_string()),
            arguments: arguments
                .map(|arguments| arguments.iter().map(|text| text.to_string()).collect()),
            env: Some(env(&[("B", "settings"), ("C", "settings")])),
            ignore_system_version: Some(true),
        }),
        pre_release: None,
    }
}

#[test]
fn settings_name_the_binary() {
    let given = settings(Some("./server"), Some(&["--stdio"]));
    assert!(matches!(given.binary_plan(), BinaryPlan::Explicit { path } if path == "./server"));
    assert_eq!(
        given.trust_wait(Some(false)),
        TrustWait { wait: true, report_starting: true }
    );
    assert_eq!(
        given.trust_wait(Some(true)),
        TrustWait { wait: false, report_starting: true }
    );
    assert_eq!(given.trust_wait(None), TrustWait { wait: false, report_starting: false });
    let binary =
        given.explicit_binary("/w/server".to_string(), env(&[("A", "shell"), ("B", "shell")]));
    assert_eq!(binary.path, "/w/server");
    assert_eq!(binary.arguments, vec!["--stdio"]);
    assert_eq!(value(&binary.env, "A"), Some("shell"));
    assert_eq!(value(&binary.env, "B"), Some("settings"));
}

#[test]
fn binaries_are_looked_for() {
    let given = settings(None, None);
    assert!(matches!(
        given.binary_plan(),
        BinaryPlan::Lookup { allow_path_lookup: false, pre_release: false }
    ));
    let plain = LspSettings { binary: None, pre_release: Some(true) };
    assert!(matches!(
        plain.binary_plan(),
        BinaryPlan::Lookup { allow_path_lookup: true, pre_release: true }
    ));
    assert_eq!(
        plain.trust_wait(Some(false)),
        TrustWait { wait: true, report_starting: false }
    );
    let found = || LanguageServerBinary {
        path: "/bin/server".to_string(),
        arguments: vec!["--own".to_string()],
        env: Some(env(&[("A", "binary"), ("B", "binary")])),
    };
    let binary = given.found_binary(found(), env(&[("A", "shell"), ("D", "shell")]));
    assert_eq!(binary.path, "/bin/server");
    assert_eq!(binary.arguments, vec!["--own"]);
    assert_eq!(value(&binary.env, "A"), Some("binary"));
    assert_eq!(value(&binary.env, "B"), Some("settings"));
    assert_eq!(value(&binary.env, "D"), Some("shell"));
    let binary = settings(None, Some(&["--other"])).found_binary(found(), EnvVars::new());
    assert_eq!(binary.arguments, vec!["--other"]);
}

#[test]
fn newer_binaries_are_preferred() {
    let at = |path: &str| LanguageServerBinary {
        path: path.to_string(),
        arguments: vec![],
        env: None,
    };
    let launched = |existing: Result<LanguageServerBinary, String>, fetched: Fetched| {
        settings(None, None)
            .get_language_server_binary(None, Found { existing, fetched }, EnvVars::new())
            .map(|binary| binary.path)
    };
    let missing = || Err::<LanguageServerBinary, String>("missing".to_string());
    assert_eq!(launched(Ok(at("/old")), Fetched::Nothing), Ok("/old".to_string()));
    assert_eq!(launched(missing(), Fetched::Nothing), Err("missing".to_string()));
    assert_eq!(launched(Ok(at("/old")), Fetched::TimedOut), Ok("/old".to_string()));
    assert_eq!(launched(Ok(at("/old")), Fetched::Done(at("/new"))), Ok("/new".to_string()));
    assert_eq!(launched(missing(), Fetched::Done(at("/new"))), Ok("/new".to_string()));
    assert_eq!(
        launched(Ok(at("/old")), Fetched::Failed("no network".to_string())),
        Err("no network".to_string())
    );
    let explicit = settings(Some("bin/server"), Some(&["--stdio"])).get_language_server_binary(
        Some("/project/bin/server".to_string()),
        Found { existing: missing(), fetched: Fetched::Nothing },
        env(&[("A", "shell")]),
    );
    let explicit = explicit.unwrap();
    assert_eq!(explicit.path, "/project/bin/server");
    assert_eq!(explicit.arguments, vec!["--stdio"]);
    assert_eq!(value(&explicit.env, "A"), Some("shell"));
    let adapters = vec!["a".to_string(), "own".to_string(), "b".to_string()];
    assert_eq!(contributing_adapters(&adapters, "own"), vec![0, 2]);
    let answers = || {
        vec![Ok(Some("more".to_string())), Ok(None), Err("no".to_string()), Ok(Some("last".to_string()))]
    };
    assert_eq!(
        workspace_configuration_for_adapter(Ok("own".to_string()), answers()),
        Ok(vec!["own".to_string(), "more".to_string(), "last".to_string()])
    );
    assert_eq!(
        workspace_configuration_for_adapter(Err("failed".to_string()), answers()),
        Err("failed".to_string())
    );
    assert_eq!(
        initialization_options_for_adapter(Ok(Some("own".to_string())), answers()),
        Ok(Some(vec!["own".to_string(), "more".to_string(), "last".to_string()]))
    );
    assert_eq!(initialization_options_for_adapter(Ok(None), answers()), Ok(None));
    assert_eq!(
        initialization_options_for_adapter(Err("failed".to_string()), answers()),
        Err("failed".to_string())
    );
    assert_eq!(startup_failure("failed", ""), "failed");
    assert_eq!(startup_failure("failed", "oops"), "failed\n-- stderr --\noops");
}

fn item(scope: Option<&str>, section: Option<&str>) -> ConfigurationItem {
    ConfigurationItem {
        scope_uri: scope.map(|text| text.to_string()),
        section: section.map(|text| text.to_string()),
    }
}

#[test]
fn each_scope_is_queried_once() {
    let items = vec![
        item(Some("file:///a"), Some("x")),
        item(None, None),
        item(Some("file:///a"), Some("missing")),
        item(None, Some("y")),
    ];
    let scopes = scopes_to_query(&items);
    assert_eq!(scopes, vec![Some("file:///a".to_string()), None]);
    let configurations = vec![
        Json::Object(vec![("x".to_string(), Json::Bool(true))]),
        Json::Array(Vec::new()),
    ];
    let answers = workspace_configuration(&items, &scopes, &configurations);
    assert!(matches!(answers[0], Some(Json::Bool(true))));
    assert!(matches!(answers[1], Some(Json::Array(_))));
    assert!(answers[2].is_none());
    assert!(answers[3].is_none());
}

#[test]
fn messages_of_servers_are_answered() {
    let mut store = LspStore::new_local();
    store.language_server_statuses.add_server(3, about("rust-analyzer"));
    let started = || LanguageServerSeed {
        worktree_id: 1,
        name: "rust-analyzer".to_string(),
        toolchain: Some("nightly".to_string()),
        settings: "{}".to_string(),
    };
    store.local.get_or_insert_language_server(started(), RelPath::from_unix_str("w"), 3, None);
    assert!(store.local.insert_newly_running_language_server(&started(), 3));
    let mut connection = ServerConnection::new(3, "rust-analyzer".to_string());
    store.registered = servers(3);
    let mut next_prompt_id: usize = 7;
    let mut on = |message: ServerMessage| {
        store.on_server_message(&mut connection, &mut next_prompt_id, message, 5)
    };
    let items = vec![
        ConfigurationItem { scope_uri: None, section: None },
        ConfigurationItem { scope_uri: None, section: Some("x".to_string()) },
    ];
    match on(ServerMessage::WorkspaceConfiguration { items }) {
        MessageAction::QueryConfiguration { toolchain, scopes } => {
            assert_eq!(toolchain, Some("nightly".to_string()));
            assert_eq!(scopes, vec![None]);
        }
        _ => panic!("the configuration is looked up"),
    }
    assert!(matches!(
        on(ServerMessage::WorkspaceFoldersRequest),
        MessageAction::SendWorkspaceFolders { is_running: true }
    ));
    let begin = || WorkDoneProgress::Begin {
        title: "Indexing".to_string(),
        cancellable: None,
        message: None,
        percentage: None,
    };
    assert!(matches!(
        on(ServerMessage::Progress { token: ProgressToken::Number(3), progress: begin() }),
        MessageAction::Progressed { announce: false }
    ));
    assert!(matches!(
        on(ServerMessage::WorkDoneProgressCreate { token: ProgressToken::Number(3) }),
        MessageAction::Acknowledge
    ));
    assert!(matches!(
        on(ServerMessage::Progress { token: ProgressToken::Number(3), progress: begin() }),
        MessageAction::Progressed { announce: true }
    ));
    let registrations = vec![registration("textDocument/rename", None)];
    assert!(matches!(
        on(ServerMessage::RegisterCapability { registrations }),
        MessageAction::Registered { result: Ok(effects) }
            if effects == vec![CapabilityEffect::Updated]
    ));
    let unregistrations =
        vec![Unregistration { id: "id".to_string(), method: "made/up".to_string() }];
    assert!(matches!(
        on(ServerMessage::UnregisterCapability { unregistrations }),
        MessageAction::Unregistered { effects: Some(effects) }
            if effects == vec![CapabilityEffect::Nothing]
    ));
    assert!(matches!(on(ServerMessage::ApplyWorkspaceEdit), MessageAction::ApplyEdit));
    assert!(matches!(
        on(ServerMessage::SemanticTokensRefresh),
        MessageAction::RefreshSemanticTokens { request_id: 0 }
    ));
    assert!(matches!(
        on(ServerMessage::SemanticTokensRefresh),
        MessageAction::RefreshSemanticTokens { request_id: 1 }
    ));
    let action = on(ServerMessage::ShowMessageRequest {
        typ: MessageType::Error,
        message: "broken".to_string(),
        actions: Some(vec!["Retry".to_string()]),
    });
    let MessageAction::Prompt { request, awaits_answer } = action else {
        panic!("no prompt");
    };
    assert!(awaits_answer);
    assert_eq!(request.id, 7);
    assert_eq!(request.level, PromptLevel::Critical);
    assert_eq!(request.lsp_name, "rust-analyzer");
    assert_eq!(request.respond(0), Some(&"Retry".to_string()));
    assert_eq!(request.respond(1), None);
    let action =
        on(ServerMessage::ShowMessage { typ: MessageType::Log, message: "m".to_string() });
    assert!(matches!(
        action,
        MessageAction::Prompt { request, awaits_answer: false }
            if request.id == 8 && request.actions.is_empty()
    ));
    assert!(matches!(
        on(ServerMessage::LogMessage { typ: MessageType::Info, message: "m".to_string() }),
        MessageAction::Log { typ: MessageType::Info, .. }
    ));
    assert!(matches!(
        on(ServerMessage::LogTrace { message: "m".to_string(), verbose: Some("v".to_string()) }),
        MessageAction::Trace { verbose_info: Some(_), .. }
    ));
    assert_eq!(prompt_level(MessageType::Warning), PromptLevel::Warning);
    assert_eq!(prompt_level(MessageType::Info), PromptLevel::Info);
    assert!(store.registered.servers[&3].rename.is_some());
    let mut stranger = ServerConnection::new(4, "stranger".to_string());
    let refused = store.on_server_message(
        &mut stranger,
        &mut next_prompt_id,
        ServerMessage::WorkspaceConfiguration { items: vec![] },
        5,
    );
    assert!(matches!(refused, MessageAction::RefuseConfiguration));
    let unknown = store.on_server_message(
        &mut stranger,
        &mut next_prompt_id,
        ServerMessage::WorkspaceFoldersRequest,
        5,
    );
    assert!(matches!(unknown, MessageAction::SendWorkspaceFolders { is_running: false }));
}

fn capabilities() -> ServerCapabilities {
    ServerCapabilities {
        workspace_folders: None,
        file_operations: None,
        execute_command: None,
        workspace_symbol: None,
        document_range_formatting: None,
        document_formatting: None,
        rename: None,
        document_symbol: None,
        definition: None,
        hover: None,
        color: None,
        folding_range: None,
        completion: None,
        text_document_sync: Some(TextDocumentSync::Kind(SyncKind::Full)),
    }
}

fn options(is_valid: bool) -> RegisterOptions {
    RegisterOptions {
        text: "{}".to_string(),
        is_valid,
        sync_kind: SyncKindField::Value(SyncKind::Incremental),
        include_text: IncludeTextField::Value(true),
        watchers: vec![FileSystemWatcher {
            glob_pattern: GlobPattern::Text(PatternPath {
                parts: vec![],
                rests: vec![String::new()],
            }),
            rejected_by: BTreeSet::new(),
        }],
    }
}

fn servers(id: u64) -> RegisteredServers {
    RegisteredServers {
        servers: BTreeMap::from([(id, capabilities())]),
        registrations: BTreeMap::new(),
    }
}

fn registration(method: &str, register_options: Option<RegisterOptions>) -> Registration {
    Registration { id: "id".to_string(), method: method.to_string(), register_options }
}

#[test]
fn capabilities_are_registered_and_withdrawn() {
    let mut store = servers(3);
    assert_eq!(store.servers[&3].document_sync_kind(), Some(SyncKind::Full));
    assert_eq!(store.servers[&3].include_text(), None);
    let registered = store.register_server_capabilities(3, true, vec![
        registration("workspace/didChangeWatchedFiles", Some(options(true))),
        registration("workspace/didChangeWatchedFiles", None),
        registration("workspace/didChangeConfiguration", None),
        registration("workspace/didChangeWorkspaceFolders", None),
        registration("textDocument/rename", None),
        registration("textDocument/hover", Some(options(true))),
        registration("textDocument/didChange", Some(options(true))),
        registration("textDocument/didSave", Some(options(true))),
        registration("textDocument/documentSymbol", None),
        registration("made/up", None),
    ]);
    let effects = registered.unwrap();
    let watched = &store.registrations[&3].did_change_watched_files;
    assert_eq!(watched.get(&"id".to_string()).unwrap().len(), 1);
    let known = &store.servers[&3];
    let updated = CapabilityEffect::Updated;
    let nothing = CapabilityEffect::Nothing;
    assert_eq!(
        effects,
        vec![
            CapabilityEffect::WatchedFiles,
            nothing,
            nothing,
            updated,
            updated,
            updated,
            updated,
            updated,
            updated,
            nothing,
        ]
    );
    assert_eq!(known.workspace_folders, Some("id".to_string()));
    assert!(matches!(known.rename, Some(Provider::Simple(true))));
    assert!(matches!(known.hover, Some(Provider::Options(_))));
    assert_eq!(known.document_sync_kind(), Some(SyncKind::Incremental));
    assert_eq!(known.include_text(), Some(true));
    let withdraw = |method: &str| Unregistration {
        id: "id".to_string(),
        method: method.to_string(),
    };
    let effects = store.unregister_server_capabilities(3, true, &vec![
        withdraw("workspace/didChangeWatchedFiles"),
        withdraw("textDocument/rename"),
        withdraw("textDocument/didSave"),
        withdraw("textDocument/documentSymbol"),
    ]);
    assert_eq!(effects, Some(vec![CapabilityEffect::WatchedFiles, updated, updated, nothing]));
    let watched = &store.registrations[&3].did_change_watched_files;
    assert!(watched.get(&"id".to_string()).is_none());
    let known = &store.servers[&3];
    assert!(known.rename.is_none());
    assert!(known.document_symbol.is_some());
    assert_eq!(
        known.text_document_sync,
        Some(TextDocumentSync::Options(SyncOptions {
            change: Some(SyncKind::Incremental),
            save: None
        }))
    );
}

#[test]
fn only_watched_files_are_recorded() {
    let mut store = servers(3);
    let registered = store.register_server_capabilities(3, true, vec![
        registration("textDocument/rename", None),
        registration("workspace/didChangeWatchedFiles", None),
    ]);
    assert_eq!(registered.unwrap(), vec![CapabilityEffect::Updated, CapabilityEffect::Nothing]);
    assert!(!store.registrations.contains_key(&3));
    let withdraw = |method: &str| Unregistration {
        id: "id".to_string(),
        method: method.to_string(),
    };
    store.unregister_server_capabilities(3, true, &vec![withdraw("textDocument/rename")]);
    assert!(!store.registrations.contains_key(&3));
    let watched = vec![withdraw("workspace/didChangeWatchedFiles")];
    let effects = store.unregister_server_capabilities(3, true, &watched);
    assert_eq!(effects, Some(vec![CapabilityEffect::WatchedFiles]));
    assert!(store.registrations[&3].did_change_watched_files.entries.is_empty());
}

#[test]
fn servers_that_do_not_run_are_not_heard() {
    let mut store = LspStore::new_local();
    let seed = || LanguageServerSeed {
        worktree_id: 1,
        name: "rust-analyzer".to_string(),
        toolchain: None,
        settings: "{}".to_string(),
    };
    store.local.get_or_insert_language_server(seed(), RelPath::from_unix_str("w"), 3, None);
    store.registered = servers(3);
    let mut connection = ServerConnection::new(3, "rust-analyzer".to_string());
    let mut next_prompt_id: usize = 0;
    let mut ask = |store: &mut LspStore| {
        let folders = store.on_server_message(
            &mut connection,
            &mut next_prompt_id,
            ServerMessage::WorkspaceFoldersRequest,
            5,
        );
        let registrations = vec![registration("textDocument/rename", None)];
        let registered = store.on_server_message(
            &mut connection,
            &mut next_prompt_id,
            ServerMessage::RegisterCapability { registrations },
            5,
        );
        let unregistrations = vec![];
        let unregistered = store.on_server_message(
            &mut connection,
            &mut next_prompt_id,
            ServerMessage::UnregisterCapability { unregistrations },
            5,
        );
        (
            matches!(folders, MessageAction::SendWorkspaceFolders { is_running: true }),
            matches!(registered, MessageAction::Registered { result: Ok(_) }),
            matches!(unregistered, MessageAction::Unregistered { effects: Some(_) }),
        )
    };
    // It is only starting.
    assert_eq!(ask(&mut store), (false, false, false));
    assert!(store.local.insert_newly_running_language_server(&seed(), 3));
    assert_eq!(ask(&mut store), (true, true, true));
    // It went with its worktree; what it can do stays known.
    assert_eq!(store.remove_worktree(1), vec![3]);
    assert!(store.registered.servers[&3].rename.is_some());
    assert_eq!(ask(&mut store), (false, false, false));
}

#[test]
fn unreadable_options_end_a_registration() {
    let mut store = servers(3);
    let registered = store.register_server_capabilities(3, true, vec![
        registration("textDocument/rename", None),
        registration("textDocument/formatting", Some(options(false))),
        registration("textDocument/definition", None),
        registration("workspace/didChangeWatchedFiles", Some(options(true))),
    ]);
    match registered {
        Err(RegistrationError::InvalidOptions { effects }) => {
            assert_eq!(effects, vec![CapabilityEffect::Updated]);
        }
        _ => panic!("the options of the second registration cannot be read"),
    }
    // Nothing was said of watched files before the end.
    assert!(store.registrations.is_empty());
    assert!(matches!(
        store.register_server_capabilities(
            4,
            false,
            vec![registration("textDocument/rename", None)],
        ),
        Err(RegistrationError::NoServer)
    ));
    assert!(store.unregister_server_capabilities(4, false, &vec![]).is_none());
    let mut known = store.servers.remove(&3).unwrap();
    assert!(known.rename.is_some() && known.definition.is_none());
    known.text_document_sync = Some(TextDocumentSync::Options(SyncOptions {
        change: None,
        save: Some(SaveOptions::Supported(true)),
    }));
    assert_eq!(known.include_text(), Some(false));
}

#[test]
fn versions_grow_with_edits() {
    let mut versions = BufferVersions::new();
    assert!(versions.register(1, 10, 100));
    assert!(!versions.register(1, 10, 101));
    assert!(versions.register(1, 11, 100));
    assert!(versions.is_registered(1, 10) && !versions.is_registered(2, 10));
    let notices = versions.on_buffer_edited(
        1,
        &vec![(10, SyncKind::Incremental), (11, SyncKind::Off), (12, SyncKind::Full), (11, SyncKind::Full)],
        101,
    );
    assert_eq!(
        notices,
        vec![ChangeNotice { server_id: 10, version: 1, full: false, since: 100 }]
    );
    assert_eq!(versions.buffer_snapshot_for_lsp_version(1, 10, Some(1), 5), Ok(101));
    assert_eq!(versions.buffer_snapshot_for_lsp_version(1, 10, Some(0), 5), Ok(100));
    assert_eq!(versions.buffer_snapshot_for_lsp_version(1, 10, None, 5), Ok(5));
    assert_eq!(
        versions.buffer_snapshot_for_lsp_version(1, 10, Some(2), 5),
        Err(VersionError::NotFound)
    );
    assert_eq!(
        versions.buffer_snapshot_for_lsp_version(3, 10, Some(1), 5),
        Err(VersionError::NoSnapshots)
    );
    assert_eq!(versions.buffer_snapshot_for_lsp_version(3, 10, Some(0), 5), Ok(5));
    for snapshot in 102..114 {
        versions.on_buffer_edited(1, &vec![(10, SyncKind::Full)], snapshot);
    }
    assert_eq!(versions.buffer_snapshot_for_lsp_version(1, 10, Some(12), 5), Ok(112));
    assert_eq!(
        versions.buffer_snapshot_for_lsp_version(1, 10, Some(1), 5),
        Err(VersionError::NotFound)
    );
    assert_eq!(versions.buffer_snapshot_for_lsp_version(1, 10, Some(2), 5), Ok(102));
    assert_eq!(
        versions.unregister_buffer_from_language_servers(1, &vec![12, 11, 11, 10]),
        vec![11, 10]
    );
    assert!(!versions.is_registered(1, 11));
}

fn version(seen: &[u32]) -> BufferVersion {
    BufferVersion { seen: seen.to_vec() }
}

#[test]
fn versions_are_compared_by_replica() {
    assert!(version(&[1, 2]).changed_since(&version(&[1, 1])));
    assert!(version(&[1, 1]).changed_since(&version(&[1])));
    assert!(version(&[2, 0]).changed_since(&version(&[1, 5])));
    assert!(!version(&[1, 1]).changed_since(&version(&[1, 1])));
    assert!(!version(&[1]).changed_since(&version(&[1, 3])));
    assert!(version(&[4]).is_same(&version(&[4]).copy()));
    assert!(!version(&[4]).is_same(&version(&[5])));
    assert!(!version(&[4]).is_same(&version(&[4, 1])));
}

#[test]
fn colors_are_fetched_once() {
    let servers: BTreeSet<u64> = [1, 2].into_iter().collect();
    let (data, plan) = document_colors(None, &version(&[3]), &servers);
    assert!(matches!(plan, ColorPlan::StartUpdate));
    let (data, plan) = document_colors(Some(data), &version(&[3]), &servers);
    assert!(matches!(plan, ColorPlan::JoinUpdate));
    let (data, plan) = document_colors(Some(data), &version(&[4]), &servers);
    assert!(matches!(plan, ColorPlan::StartUpdate));
    let fetched = collect_responses(&vec![(1, vec![5, 6]), (2, vec![6]), (1, vec![7])]);
    let (data, all) =
        colors_fetched(Some(data), &version(&[4]), &version(&[4]), fetched);
    assert_eq!(all.into_iter().collect::<Vec<_>>(), vec![5, 6, 7]);
    let (data, plan) = document_colors(data, &version(&[4]), &servers);
    assert!(matches!(plan, ColorPlan::Cached { colors } if colors.len() == 3));
    let others: BTreeSet<u64> = [1].into_iter().collect();
    let (data, plan) = document_colors(Some(data), &version(&[4]), &others);
    assert!(matches!(plan, ColorPlan::StartUpdate));
    let data = colors_failed(data);
    assert!(data.document_colors.as_ref().unwrap().updating_for.is_none());
    // The buffer changed while the servers answered.
    let mut newer = ServerData::new();
    newer.add(1, &vec![9]);
    let (data, all) = colors_fetched(Some(data), &version(&[5]), &version(&[4]), newer);
    assert!(all.is_empty());
    // The data are ahead of what was asked for.
    let mut ahead = data.unwrap();
    ahead.version = version(&[6]);
    let (data, all) =
        colors_fetched(Some(ahead), &version(&[5]), &version(&[5]), ServerData::new());
    assert_eq!(all.into_iter().collect::<Vec<_>>(), vec![5, 6, 7]);
    let mut data = data.unwrap();
    data.remove_server_data(1);
    let left = data.document_colors.unwrap().colors.flatten();
    assert_eq!(left.into_iter().collect::<Vec<_>>(), vec![6]);
}

#[test]
fn edits_outdate_all_but_tokens() {
    let mut data = BufferLspData::new(version(&[1]));
    let mut tokens = ServerData::new();
    tokens.add(1, &vec![3]);
    data.semantic_tokens = Some(tokens);
    data.folding_ranges = Some(ServerData::new());
    let data = latest_lsp_data(Some(data), &version(&[1]));
    assert!(data.folding_ranges.is_some());
    let data = latest_lsp_data(Some(data), &version(&[2]));
    assert_eq!(data.version.seen, vec![2]);
    assert!(data.semantic_tokens.is_some());
    assert!(data.folding_ranges.is_none());
    let data = latest_lsp_data(None, &version(&[7]));
    assert_eq!(data.version.seen, vec![7]);
    assert!(data.semantic_tokens.is_none());
}

#[test]
fn the_store_keeps_data_by_buffer() {
    let mut store = LspStore::new_local();
    store.latest_lsp_data(1, &version(&[1]));
    store.latest_lsp_data(2, &version(&[1]));
    store.latest_lsp_data(1, &version(&[2]));
    assert_eq!(store.lsp_data[&1].version.seen, vec![2]);
    assert_eq!(store.lsp_data[&2].version.seen, vec![1]);
    assert!(matches!(store.document_colors(2, &version(&[1])), ColorPlan::StartUpdate));
    // The buffer is open in no server, and no server told anything.
    assert!(matches!(store.document_colors(2, &version(&[1])), ColorPlan::Cached { .. }));
    assert!(store.lsp_data[&1].document_colors.is_none());
}

#[test]
fn work_is_reported_under_announced_tokens() {
    let mut statuses = LanguageServerStatuses::new();
    let begin = |cancellable: bool| WorkDoneProgress::Begin {
        title: "indexing".to_string(),
        cancellable: Some(cancellable),
        message: None,
        percentage: Some(10),
    };
    let report = |percentage: Option<u32>| WorkDoneProgress::Report {
        cancellable: None,
        message: Some("file".to_string()),
        percentage,
    };
    let token = || ProgressToken::String("t".to_string());
    assert!(!statuses.on_lsp_progress(1, begin(true), token(), 0));
    statuses.add_server(1, about("a"));
    assert!(!statuses.on_lsp_progress(1, begin(true), token(), 0));
    statuses.create_progress(1, token());
    statuses.create_progress(2, token());
    assert!(statuses.on_lsp_progress(1, begin(true), token(), 0));
    let tokens = statuses.cancel_language_server_work(1, true, &None);
    assert_eq!(tokens.len(), 1);
    assert!(statuses.cancel_language_server_work(1, false, &None).is_empty());
    assert!(statuses.cancel_language_server_work(2, true, &None).is_empty());
    assert!(statuses
        .cancel_language_server_work(1, true, &Some(ProgressToken::Number(1)))
        .is_empty());
    let early = SERVER_PROGRESS_THROTTLE_TIMEOUT - 1;
    assert!(!statuses.on_lsp_progress(1, report(Some(20)), token(), early));
    assert!(statuses.on_lsp_progress(1, report(None), token(), early + 1));
    let work = statuses.statuses[&1].pending_work.get(&token()).unwrap();
    assert_eq!(work.percentage, Some(10));
    assert_eq!(work.message, Some("file".to_string()));
    assert!(!work.is_cancellable);
    assert!(statuses.on_lsp_progress(1, WorkDoneProgress::End, token(), early + 1));
    assert!(!statuses.on_lsp_progress(1, report(None), token(), early + 1));
    assert!(statuses.remove_server(1) && !statuses.remove_server(1));
}

#[test]
fn each_server_of_buffers_is_asked_to_cancel_once() {
    let mut statuses = LanguageServerStatuses::new();
    for server in [1, 2] {
        statuses.add_server(server, about("a"));
        statuses.create_progress(server, ProgressToken::Number(4));
        statuses.on_lsp_progress(
            server,
            WorkDoneProgress::Begin {
                title: "t".to_string(),
                cancellable: Some(true),
                message: None,
                percentage: None,
            },
            ProgressToken::Number(4),
            0,
        );
    }
    let running: BTreeSet<u64> = [1].into_iter().collect();
    let work = statuses
        .cancel_language_server_work_for_buffers(&vec![vec![2, 1], vec![1], Vec::new()], &running);
    assert_eq!(work.len(), 2);
    assert_eq!((work[0].0, work[0].1.len()), (1, 1));
    assert_eq!((work[1].0, work[1].1.len()), (2, 0));
}

#[test]
fn tokens_are_shown_in_decimal() {
    assert_eq!(ProgressToken::Number(-2147483648).text(), "-2147483648");
    assert_eq!(ProgressToken::Number(0).text(), "0");
    assert_eq!(ProgressToken::Number(120).text(), "120");
    assert_eq!(ProgressToken::String("t".to_string()).copy().text(), "t");
}

#[test]
fn handles_of_buffers_are_counted() {
    let mut buffers = RegisteredBuffers::new();
    assert_eq!(buffers.open(1, true, false), OpenPlan { register: true, observe: true });
    assert_eq!(buffers.open(1, true, false), OpenPlan { register: false, observe: true });
    assert_eq!(buffers.open(1, true, true), OpenPlan { register: true, observe: false });
    assert_eq!(buffers.open(2, false, false), OpenPlan { register: false, observe: false });
    assert!(!buffers.release(1));
    assert!(buffers.release(1));
    assert!(!buffers.counts.contains_key(&1));
}

fn open_buffer(id: u64, worktree: Option<u64>, visible: bool) -> OpenBuffer {
    OpenBuffer {
        id,
        worktree,
        worktree_is_known: true,
        worktree_is_visible: visible,
        is_local: true,
        has_uri: true,
        has_language: true,
        is_registered: true,
    }
}

#[test]
fn new_servers_take_over_buffers() {
    let buffer = open_buffer(1, Some(5), true);
    assert!(buffer.is_registrable());
    let using = worktrees_using_server(
        4,
        &vec![
            RootServers { worktree: 5, servers: vec![9] },
            RootServers { worktree: 4, servers: vec![9] },
            RootServers { worktree: 6, servers: vec![8] },
        ],
        9,
    );
    assert_eq!(using, vec![4, 5]);
    assert_eq!(new_server_action(&buffer, &using, true), NewServerAction::Register);
    assert_eq!(new_server_action(&buffer, &using, false), NewServerAction::Skip);
    assert_eq!(new_server_action(&buffer, &vec![6], true), NewServerAction::Skip);
    let unopened = OpenBuffer { is_registered: false, ..buffer };
    assert_eq!(new_server_action(&unopened, &using, true), NewServerAction::SetTriggers);
    let odd = OpenBuffer { has_uri: false, ..buffer };
    assert_eq!(new_server_action(&odd, &using, true), NewServerAction::Skip);
    assert!(!odd.is_registrable());
    assert_eq!(
        visible_first(&vec![
            open_buffer(1, None, true),
            open_buffer(2, Some(5), false),
            open_buffer(3, Some(5), true),
            open_buffer(4, Some(5), true),
        ]),
        vec![3, 4, 2, 1]
    );
}

#[test]
fn hidden_worktrees_reuse_servers() {
    let serving = |node: u64, language: &str| ServerLanguages {
        node,
        languages: vec![language.to_string()],
    };
    let worktrees = vec![
        WorktreeServers { is_visible: true, servers: vec![serving(1, "Rust")] },
        WorktreeServers {
            is_visible: true,
            servers: vec![serving(2, "Rust"), serving(3, "C"), serving(4, "Rust")],
        },
        WorktreeServers {
            is_visible: false,
            servers: vec![serving(5, "Rust"), serving(6, "Rust"), serving(7, "Rust")],
        },
    ];
    assert_eq!(
        reuse_existing_language_server(false, &worktrees, "Rust"),
        Some(vec![2, 4])
    );
    assert_eq!(reuse_existing_language_server(false, &worktrees, "Go"), None);
    assert_eq!(reuse_existing_language_server(true, &worktrees, "Rust"), None);
}
