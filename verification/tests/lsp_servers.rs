use std::collections::{BTreeMap, BTreeSet};

use project::lsp_command::commands::{GetFoldingRanges, RequestCapabilities};
use project::lsp_command::Switch;
use project::lsp_store::binary::LanguageServerBinary;
use project::lsp_store::buffer_versions::BufferVersions;
use project::lsp_store::capabilities::{Provider, ServerCapabilities};
use project::lsp_store::open_buffers::{NewServerAction, OpenBuffer};
use project::lsp_store::opening::{
    ArchivedPath, LocalBufferOpening, NoFilePath, OpeningAction, OpeningEvent, ProjectPath, Symbol,
    SymbolError, SymbolLocation,
};
use project::lsp_store::progress::{ProgressToken, ServerAbout};
use project::lsp_store::refresh::{
    completion_triggers, lookup_path, on_buffer_saved, refresh_order, refresh_step,
    shutdown_language_server, RefreshStep, SaveNotice, ShutdownPlan,
};
use project::lsp_store::registration::ServerNode;
use project::lsp_store::renames::{FileOperationFilter, RenameMoment};
use project::lsp_store::requests::{
    needs_configuration_refresh, request_failure, request_multiple_lsp_locally, AskedServer,
    LanguageServerToQuery, RequestPlan, ServerAnswer,
};
use project::lsp_store::server_info::{
    language_server_adapter_for_id, set_language_server_statuses_from_proto, shared,
    try_register_remote_adapter_locally, AdapterRegistration, AdapterSource, ServerInfo,
};
use project::lsp_store::servers::{
    FolderTarget, LanguageServerSeed, LanguageServerSelector, LanguageServerState, LocalLspStore,
    StartPlan, StopPlan,
};
use project::lsp_store::ssh_adapter::{options_read, SshAdapterError, SshLspAdapter};
use project::lsp_store::startup::{InitializationOptions, Startup, StartupAction, StartupEvent};
use project::lsp_store::store::{LspStore, OfferedBuffer, StartedServer};
use project::rel_path::RelPath;

fn path(text: &str) -> RelPath {
    RelPath::from_unix_str(text)
}

fn seed(worktree_id: u64, name: &str) -> LanguageServerSeed {
    LanguageServerSeed {
        worktree_id,
        name: name.to_string(),
        toolchain: None,
        settings: "{}".to_string(),
    }
}

fn node(worktree: u64, name: &str, next_id: u64) -> ServerNode {
    ServerNode {
        server_id: None,
        name: Some(name.to_string()),
        seed: seed(worktree, name),
        root: path("w"),
        active_toolchain: seed(worktree, name).toolchain,
        next_id,
    }
}

#[test]
fn equal_seeds_get_one_server() {
    let mut store = LocalLspStore::new();
    let (first, plan) = store.get_or_insert_language_server(seed(1, "rust"), path("a"), 7, None);
    assert_eq!(first, 7);
    assert_eq!(
        plan,
        Some(StartPlan { wait_for_trust: false, watch_trust: false, report_starting: true })
    );
    let (second, plan) = store.get_or_insert_language_server(seed(1, "rust"), path("b"), 8, None);
    assert_eq!(second, 7);
    assert!(plan.is_none());
    assert!(!store.running_language_server_for_id(7));
    assert_eq!(store.add_workspace_folder(7), FolderTarget::Pending);
    assert_eq!(store.add_workspace_folder(8), FolderTarget::Nowhere);
    assert!(store.insert_newly_running_language_server(&seed(1, "rust"), 7));
    assert!(store.running_language_server_for_id(7));
    assert_eq!(store.add_workspace_folder(7), FolderTarget::Server);
    assert_eq!(store.language_servers_for_worktree(1), vec![7]);
    assert!(store.language_servers_for_worktree(2).is_empty());
    assert!(store.has_language_server_seed_for_worktree(1));
    assert!(!store.has_language_server_seed_for_worktree(2));
}

#[test]
fn servers_of_restricted_worktrees_wait() {
    let mut store = LocalLspStore::new();
    let (_, plan) = store.get_or_insert_language_server(seed(1, "a"), path("w"), 1, Some(false));
    assert_eq!(
        plan,
        Some(StartPlan { wait_for_trust: true, watch_trust: true, report_starting: false })
    );
    let (_, plan) = store.get_or_insert_language_server(seed(1, "b"), path("w"), 2, Some(false));
    assert_eq!(
        plan,
        Some(StartPlan { wait_for_trust: true, watch_trust: false, report_starting: false })
    );
    assert!(store.worktree_trusted(1));
    assert!(!store.worktree_trusted(1));
}

#[test]
fn buffers_are_opened_in_the_servers_of_their_nodes() {
    let mut store = LocalLspStore::new();
    let mut versions = BufferVersions::new();
    let result = store.register_buffer_with_language_servers(
        &mut versions,
        5,
        50,
        vec![node(1, "rust", 10), node(1, "typos", 11)],
        false,
        &vec![],
        None,
    );
    assert!(result.running.is_empty());
    assert_eq!(result.started.iter().map(|(id, _)| *id).collect::<Vec<_>>(), vec![10, 11]);
    let folders: Vec<_> = result
        .folders
        .iter()
        .map(|(id, root, target)| (*id, root.as_unix_str(), *target))
        .collect();
    assert_eq!(
        folders,
        vec![
            (10, "w".to_string(), FolderTarget::Pending),
            (11, "w".to_string(), FolderTarget::Pending),
        ]
    );
    assert!(store.insert_newly_running_language_server(&seed(1, "rust"), 10));
    let again = store.register_buffer_with_language_servers(
        &mut versions,
        5,
        50,
        vec![node(1, "rust", 12), node(1, "typos", 13)],
        false,
        &vec![],
        None,
    );
    assert_eq!(again.running, vec![10]);
    assert_eq!(again.registered, vec![10]);
    assert!(again.started.is_empty());
    assert_eq!((again.folders[0].0, again.folders[0].2), (10, FolderTarget::Server));
    let third = store.register_buffer_with_language_servers(
        &mut versions,
        5,
        50,
        vec![node(1, "rust", 14)],
        false,
        &vec![],
        None,
    );
    assert_eq!(third.running, vec![10]);
    assert!(third.registered.is_empty());
    let selected = store.register_buffer_with_language_servers(
        &mut versions,
        6,
        60,
        vec![node(1, "rust", 15), node(1, "other", 16)],
        false,
        &vec![LanguageServerSelector::Name("other".to_string())],
        None,
    );
    assert!(selected.running.is_empty());
    assert_eq!(selected.started.len(), 1);
    let reused = store.register_buffer_with_language_servers(
        &mut versions,
        7,
        70,
        vec![node(2, "new", 17)],
        true,
        &vec![],
        None,
    );
    assert!(reused.started.is_empty());
}

#[test]
fn servers_are_picked_by_number_and_name() {
    let mut store = LocalLspStore::new();
    store.get_or_insert_language_server(seed(1, "rust"), path("w"), 3, None);
    store.get_or_insert_language_server(seed(1, "typos"), path("w"), 1, None);
    store.get_or_insert_language_server(seed(2, "rust"), path("w"), 2, None);
    let by_name = vec![LanguageServerSelector::Name("rust".to_string())];
    assert_eq!(store.stop_local_language_servers_for_buffers(&by_name, &vec![9]), vec![2, 3, 9]);
    assert_eq!(store.restart_language_servers_for_buffers(&by_name, &vec![9]), vec![2, 3]);
    assert_eq!(store.restart_language_servers_for_buffers(&vec![], &vec![9, 4]), vec![4, 9]);
    let by_id = vec![LanguageServerSelector::Id(1)];
    assert_eq!(store.restart_language_servers_for_buffers(&by_id, &vec![]), vec![1]);
    assert_eq!(store.shutdown_all_language_servers(), vec![1, 2, 3]);
    assert_eq!(store.language_server_ids_for_worktree(1), vec![1, 3]);
    store.register_language_server_for_invisible_worktree(8, 2);
    assert_eq!(store.language_server_ids_for_worktree(8), vec![2]);
    assert!(store.is_valid_symbol_source(1, 3, "rust"));
    assert!(!store.is_valid_symbol_source(1, 2, "rust"));
    assert!(!store.is_valid_symbol_source(1, 3, "typos"));
}

fn open_buffer(id: u64, worktree: u64, visible: bool) -> OpenBuffer {
    OpenBuffer {
        id,
        worktree: Some(worktree),
        worktree_is_known: true,
        worktree_is_visible: visible,
        is_local: true,
        has_uri: true,
        has_language: true,
        is_registered: true,
    }
}

#[test]
fn servers_are_assigned_anew() {
    let buffers = vec![
        open_buffer(1, 1, false),
        open_buffer(2, 2, true),
        OpenBuffer { has_language: false, ..open_buffer(3, 2, true) },
        OpenBuffer { is_registered: false, ..open_buffer(4, 2, true) },
        OpenBuffer { worktree: None, ..open_buffer(5, 2, true) },
    ];
    assert_eq!(refresh_order(&buffers), vec![2, 1]);
    assert_eq!(refresh_step(false, true, true), RefreshStep::Skip);
    assert_eq!(refresh_step(true, true, false), RefreshStep::Reuse);
    assert_eq!(refresh_step(true, false, true), RefreshStep::Walk);
    assert_eq!(refresh_step(true, false, false), RefreshStep::Skip);
    assert_eq!(lookup_path(&path("a/b.rs")).as_unix_str(), "a");
    assert_eq!(lookup_path(&path("")).as_unix_str(), "");
    let mut store = LocalLspStore::new();
    store.get_or_insert_language_server(seed(1, "rust"), path("old"), 3, None);
    let kept = ServerNode { server_id: Some(9), ..node(1, "kept", 20) };
    let dead = ServerNode { name: None, ..node(1, "dead", 21) };
    let (reports, started, folders) =
        store.refresh_server_tree(vec![kept, dead, node(1, "rust", 22)], None);
    assert_eq!(folders.len(), 1);
    assert_eq!((folders[0].0, folders[0].2), (22, FolderTarget::Pending));
    assert_eq!(reports.len(), 2);
    assert_eq!(reports[0], (9, Some("kept".to_string())));
    assert_eq!(reports[1], (22, Some("rust".to_string())));
    assert_eq!(started.len(), 1);
    // The seed has a new server; the old one is known until it is stopped.
    assert_eq!(store.shutdown_all_language_servers(), vec![22]);
    assert_eq!(store.language_servers.get(&3), Some(&LanguageServerState::Starting));
    let worktrees = BTreeSet::from([1]);
    assert!(store.refresh_workspace_configurations(&worktrees).is_empty());
    store.insert_newly_running_language_server(&seed(1, "rust"), 22);
    assert_eq!(store.refresh_workspace_configurations(&worktrees), vec![22]);
    assert!(store.refresh_workspace_configurations(&BTreeSet::from([2])).is_empty());
}

#[test]
fn servers_of_other_toolchains_are_kept() {
    let mut store = LocalLspStore::new();
    store.get_or_insert_language_server(seed(1, "rust"), path("w"), 3, None);
    // The place asks for a toolchain that is not the active one: its server stays.
    let node = ServerNode {
        active_toolchain: Some("another".to_string()),
        ..node(1, "rust", 22)
    };
    let (reports, started, folders) = store.refresh_server_tree(vec![node], None);
    assert_eq!(reports, vec![(3, Some("rust".to_string()))]);
    assert!(started.is_empty());
    assert_eq!(folders[0].0, 3);
}

#[test]
fn servers_are_told_of_saved_buffers() {
    let notices = on_buffer_saved(&vec![(1, Some(true)), (2, None), (3, Some(false))]);
    assert_eq!(
        notices,
        vec![
            SaveNotice { server: 1, with_text: true },
            SaveNotice { server: 3, with_text: false },
        ]
    );
    assert_eq!(shutdown_language_server(None), ShutdownPlan::Nothing);
    assert_eq!(
        shutdown_language_server(Some(LanguageServerState::Starting)),
        ShutdownPlan::WaitForLaunch
    );
    assert_eq!(
        shutdown_language_server(Some(LanguageServerState::Running)),
        ShutdownPlan::ShutDown
    );
    assert_eq!(completion_triggers(Some(Some(vec![".".to_string()]))), vec!["."]);
    assert!(completion_triggers(Some(None)).is_empty());
    assert!(completion_triggers(None).is_empty());
}

fn started(name: &str) -> StartedServer {
    StartedServer {
        about: ServerAbout {
            name: name.to_string(),
            language_name: Some("Rust".to_string()),
            server_version: Some("1.0".to_string()),
            server_readable_version: None,
            worktree: None,
            binary: None,
            configuration: None,
            workspace_folders: vec![],
            process_id: Some(40),
        },
        capabilities: ServerCapabilities {
            workspace_folders: None,
            file_operations: None,
            execute_command: None,
            workspace_symbol: None,
            document_range_formatting: None,
            document_formatting: None,
            rename: None,
            document_symbol: None,
            definition: None,
            hover: Some(Provider::Simple(true)),
            color: None,
            folding_range: None,
            completion: None,
            text_document_sync: None,
        },
        did_rename: None,
        will_rename: None,
    }
}

fn running_store(ids: &[u64]) -> LspStore {
    let mut store = LspStore::new_local();
    for id in ids {
        let name = format!("server {id}");
        store.local.get_or_insert_language_server(seed(1, &name), path("w"), *id, None);
        let started = store.insert_newly_running_language_server(
            &seed(1, &name),
            *id,
            started(&name),
            &vec![1],
            &vec![],
        );
        assert!(started.is_some());
    }
    store
}

#[test]
fn new_servers_take_on_open_buffers() {
    let mut store = LspStore::new_local();
    assert!(store.register_buffer_with_language_servers(4, true, false).register);
    store.local.get_or_insert_language_server(seed(1, "rust"), path("w"), 2, None);
    let offered = vec![
        OfferedBuffer { buffer: open_buffer(4, 1, true), is_served: true, snapshot: 40 },
        OfferedBuffer { buffer: open_buffer(5, 1, true), is_served: false, snapshot: 50 },
        OfferedBuffer { buffer: open_buffer(6, 9, true), is_served: true, snapshot: 60 },
        OfferedBuffer { buffer: open_buffer(7, 1, true), is_served: true, snapshot: 70 },
    ];
    let mut server = started("rust");
    server.did_rename = Some(vec![FileOperationFilter {
        glob: "**/*.rs".to_string(),
        kind: None,
        ignore_case: None,
    }]);
    let actions = store.insert_newly_running_language_server(
        &seed(1, "rust"),
        2,
        server,
        &vec![1],
        &offered,
    );
    let actions = actions.unwrap();
    let status = &store.language_server_statuses.statuses[&2];
    assert_eq!(status.about.name, "rust");
    assert_eq!(status.about.worktree, Some(1));
    assert!(store.registered.servers[&2].hover.is_some());
    assert!(store.renames[&2].should_send_did_rename("src/main.rs", false));
    assert!(!store.renames[&2].should_send_will_rename("src/main.rs", false));
    let uri = Some("file:///w/main.rs".to_string());
    let did = RenameMoment::Did;
    assert_eq!(store.servers_for_rename(1, did, &uri, &uri, false), vec![2]);
    assert!(store.servers_for_rename(9, did, &uri, &uri, false).is_empty());
    assert!(store.servers_for_rename(1, RenameMoment::Will, &uri, &uri, false).is_empty());
    assert!(store.servers_for_rename(1, did, &uri, &None, false).is_empty());
    assert_eq!(actions[0], NewServerAction::Register);
    assert_ne!(actions[1], NewServerAction::Register);
    assert_ne!(actions[2], NewServerAction::Register);
    // No handle for this one was asked for.
    assert_eq!(actions[3], NewServerAction::SetTriggers);
    assert!(store.versions.is_registered(4, 2));
    assert!(!store.versions.is_registered(5, 2));
    // Another server has taken its place.
    let late = store.insert_newly_running_language_server(
        &seed(1, "rust"),
        3,
        started("rust"),
        &vec![1],
        &vec![],
    );
    assert!(late.is_none());
    assert!(!store.registered.servers.contains_key(&3));
    let closed = store.buffer_handle_released(4, true, &vec![2]);
    assert_eq!(closed, vec![2]);
    assert!(!store.versions.is_registered(4, 2));
    assert!(!store.local.buffers_opened_in_servers.contains_key(&4));
}

#[test]
fn stopped_servers_leave_nothing() {
    let mut store = running_store(&[3, 5]);
    assert_eq!(store.stop_local_language_server(3), StopPlan::ShutDown);
    assert!(!store.registered.servers.contains_key(&3));
    assert!(store.registered.servers.contains_key(&5));
    assert_eq!(store.stop_local_language_server(3), StopPlan::Nothing);
    assert_eq!(store.local.shutdown_all_language_servers(), vec![5]);
    assert_eq!(store.remove_worktree(1), vec![5]);
    assert!(store.local.language_servers.is_empty());
}

#[test]
fn all_servers_are_stopped() {
    let mut store = running_store(&[8, 2]);
    store.local.get_or_insert_language_server(seed(1, "starting"), path("w"), 4, None);
    let stops = store.stop_all_language_servers();
    let ids: Vec<u64> = stops.iter().map(|(id, _)| *id).collect();
    assert_eq!(ids, vec![2, 4, 8]);
    assert_eq!(stops[0].1, StopPlan::ShutDown);
    assert_eq!(stops[1].1, StopPlan::AnnounceRemoval);
    assert!(store.local.language_server_ids.entries.is_empty());
    assert!(store.local.language_servers.is_empty());
}

#[test]
fn servers_of_buffers_are_stopped() {
    let mut store = running_store(&[1, 2, 3]);
    let selected = vec![LanguageServerSelector::Name("server 3".to_string())];
    let stops = store.stop_language_servers_for_buffers(&selected, &vec![1]);
    assert_eq!(stops, vec![(1, StopPlan::ShutDown), (3, StopPlan::ShutDown)]);
    assert_eq!(store.local.shutdown_all_language_servers(), vec![2]);
    let mut store = running_store(&[1, 2, 3]);
    let stops = store.restart_language_servers_for_buffers(&selected, &vec![1]);
    assert_eq!(stops, vec![(3, StopPlan::ShutDown)]);
    let stops = store.server_tree_refreshed(&BTreeSet::from([2, 7]));
    assert_eq!(stops, vec![(2, StopPlan::ShutDown), (7, StopPlan::Nothing)]);
    assert_eq!(store.local.shutdown_all_language_servers(), vec![1]);
}

fn binary() -> LanguageServerBinary {
    LanguageServerBinary {
        path: "/bin/server".to_string(),
        arguments: vec![],
        env: None,
    }
}

#[test]
fn servers_are_started_step_by_step() {
    let mut store = LspStore::new_local();
    let mut startup = Startup::new(2, Some("{settings}".to_string()));
    let found = store.advance_startup(&mut startup, StartupEvent::BinaryFound(binary()));
    assert!(matches!(found, StartupAction::StartProcess(binary) if binary.path == "/bin/server"));
    assert!(matches!(
        store.advance_startup(&mut startup, StartupEvent::Notified),
        StartupAction::Ignore
    ));
    assert!(matches!(
        store.advance_startup(&mut startup, StartupEvent::ProcessStarted),
        StartupAction::ReadConfiguration
    ));
    let read = StartupEvent::ConfigurationRead("{c}".to_string());
    assert!(matches!(store.advance_startup(&mut startup, read), StartupAction::ReadOptions));
    let options = StartupEvent::OptionsRead(Some("{own}".to_string()));
    assert!(matches!(
        store.advance_startup(&mut startup, options),
        StartupAction::PrepareParams(InitializationOptions::Merged { own, settings })
            if own == "{own}" && settings == "{settings}"
    ));
    assert!(matches!(
        store.advance_startup(&mut startup, StartupEvent::ParamsPrepared),
        StartupAction::Initialize { configuration } if configuration == "{c}"
    ));
    assert!(matches!(
        store.advance_startup(&mut startup, StartupEvent::Initialized),
        StartupAction::Notify { configuration } if configuration == "{c}"
    ));
    assert!(matches!(
        store.advance_startup(&mut startup, StartupEvent::Notified),
        StartupAction::Run
    ));
    assert!(matches!(
        store.advance_startup(&mut startup, StartupEvent::Notified),
        StartupAction::Ignore
    ));
}

#[test]
fn failed_servers_are_reported() {
    let failed = |log: &str| StartupEvent::Failed {
        error: "no".to_string(),
        log: log.to_string(),
    };
    let mut store = LspStore::new_local();
    let mut early = Startup::new(2, None);
    assert!(matches!(
        store.advance_startup(&mut early, failed("")),
        StartupAction::Fail { message, announce_removal: false } if message == "no"
    ));
    store.local.open_in_servers(7, &vec![3, 4]);
    let mut late = Startup::new(3, None);
    store.advance_startup(&mut late, StartupEvent::BinaryFound(binary()));
    store.advance_startup(&mut late, StartupEvent::ProcessStarted);
    store.advance_startup(&mut late, StartupEvent::ConfigurationRead("{c}".to_string()));
    assert!(matches!(
        store.advance_startup(&mut late, StartupEvent::OptionsRead(None)),
        StartupAction::PrepareParams(InitializationOptions::Missing)
    ));
    store.advance_startup(&mut late, StartupEvent::ParamsPrepared);
    assert!(matches!(
        store.advance_startup(&mut late, failed("log")),
        StartupAction::Fail { message, announce_removal: true }
            if message == "no\n-- stderr --\nlog"
    ));
    assert_eq!(store.local.buffers_opened_in_servers[&7], BTreeSet::from([4]));
}

fn asked(name: &str, folding_range_provider: Option<Switch>) -> AskedServer {
    AskedServer {
        name: name.to_string(),
        capabilities: RequestCapabilities {
            rename_provider: None,
            document_highlight_provider: None,
            document_symbol_provider: None,
            hover_provider: None,
            semantic_tokens_full: None,
            linked_editing_range_provider: None,
            color_provider: None,
            folding_range_provider,
        },
    }
}

#[test]
fn requests_go_to_the_first_capable_server() {
    let mut store = running_store(&[1, 2, 3]);
    let servers = BTreeMap::from([
        (1, asked("plain", None)),
        (2, asked("folding", Some(Switch::Simple(true)))),
        (3, asked("other", Some(Switch::WithOptions))),
        (4, asked("stopped", Some(Switch::WithOptions))),
    ]);
    let ids = vec![4, 1, 2, 3];
    let ask = |query: LanguageServerToQuery, file: Option<Option<String>>| {
        store.local.request_lsp(&GetFoldingRanges, &servers, &ids, query, file)
    };
    let uri = || Some(Some("file:///a.rs".to_string()));
    assert!(matches!(
        ask(LanguageServerToQuery::FirstCapable, uri()),
        RequestPlan::Send { server_id: 2, params, status: None } if params == "file:///a.rs"
    ));
    assert!(matches!(
        ask(LanguageServerToQuery::Other(3), uri()),
        RequestPlan::Send { server_id: 3, .. }
    ));
    for query in [LanguageServerToQuery::Other(1), LanguageServerToQuery::Other(4)] {
        assert!(matches!(ask(query, uri()), RequestPlan::Respond(ranges) if ranges.is_empty()));
    }
    assert!(matches!(
        ask(LanguageServerToQuery::FirstCapable, None),
        RequestPlan::Respond(ranges) if ranges.is_empty()
    ));
    match ask(LanguageServerToQuery::FirstCapable, Some(None)) {
        RequestPlan::Fail(failure) => {
            assert!(failure.message.ends_with(
                " via folding failed: Invalid file path provided to LSP request"
            ));
            assert!(!failure.is_logged);
        }
        _ => panic!("a file without a URI cannot be asked about"),
    }
    let shown = |store: &LspStore, id: i32| {
        let work = &store.language_server_statuses.statuses[&2].pending_work;
        work.get(&ProgressToken::Number(id)).and_then(|work| work.message.clone())
    };
    assert!(store.request_sent(2, 8, Some("Renaming".to_string()), 17));
    assert_eq!(shown(&store, 8), Some("Renaming".to_string()));
    store.request_ended(2, 8);
    assert_eq!(shown(&store, 8), None);
    assert!(!store.request_sent(2, 9, None, 17));
    assert_eq!(shown(&store, 9), None);
    let (answers, failures) = request_multiple_lsp_locally(&vec![
        (1, ServerAnswer::Answered(11)),
        (2, ServerAnswer::Failed("broken".to_string())),
        (3, ServerAnswer::Answered(13)),
    ]);
    assert_eq!(answers, vec![(1, 11), (3, 13)]);
    assert_eq!(failures, vec![2]);
    let failure = request_failure("Get hover", "rust", "content modified");
    assert_eq!(failure.message, "Get hover via rust failed: content modified");
    assert!(failure.is_logged);
}

#[test]
fn buffers_know_their_servers() {
    let mut store = running_store(&[1, 2]);
    store.local.get_or_insert_language_server(seed(1, "starting"), path("w"), 3, None);
    let ids = vec![3, 2, 1];
    assert_eq!(store.local.language_servers_for_buffer(&ids), vec![2, 1]);
    assert!(store.local.language_server_for_local_buffer(&ids, 1));
    assert!(!store.local.language_server_for_local_buffer(&ids, 3));
    assert!(store.local.language_server_for_id(2, &BTreeSet::new()));
    assert!(!store.local.language_server_for_id(3, &BTreeSet::new()));
    assert!(store.local.language_server_for_id(3, &BTreeSet::from([3])));
    store.local.open_in_servers(7, &vec![1]);
    assert_eq!(store.local.servers_to_ask(7, &vec![(1, true), (2, true)]), vec![1]);
    assert!(store.local.servers_to_ask(7, &vec![(1, false)]).is_empty());
    assert_eq!(store.local.local_lsp_servers_for_buffer(7, &ids), vec![1]);
    store.local.open_in_servers(7, &vec![3, 2]);
    assert_eq!(store.local.local_lsp_servers_for_buffer(7, &ids), vec![2, 1]);
    assert!(store.local.local_lsp_servers_for_buffer(8, &ids).is_empty());
}

#[test]
fn symbols_are_opened_where_they_lie() {
    let mut store = LocalLspStore::new();
    store.get_or_insert_language_server(seed(1, "rust"), path("w"), 2, None);
    let roots = BTreeMap::from([(1, path("w"))]);
    let mut symbol = Symbol {
        language_server_name: "rust".to_string(),
        source_worktree_id: 1,
        source_language_server_id: 2,
        path: SymbolLocation::InProject(ProjectPath { worktree_id: 1, path: path("a.rs") }),
    };
    let opening = store.open_buffer_for_symbol(&symbol, &roots).unwrap();
    assert_eq!(opening.abs_path.as_unix_str(), "w/a.rs");
    assert_eq!(opening.language_server_id, 2);
    symbol.path = SymbolLocation::InProject(ProjectPath { worktree_id: 3, path: path("a.rs") });
    assert!(matches!(
        store.open_buffer_for_symbol(&symbol, &roots),
        Err(SymbolError::NoSuchWorktree)
    ));
    symbol.path = SymbolLocation::OutsideProject {
        abs_path: Some(path("lib/b.rs")),
        signature: [0; 32],
    };
    let opening = store.open_buffer_for_symbol(&symbol, &roots).unwrap();
    assert_eq!(opening.abs_path.as_unix_str(), "lib/b.rs");
    symbol.path = SymbolLocation::OutsideProject { abs_path: None, signature: [0; 32] };
    assert!(matches!(
        store.open_buffer_for_symbol(&symbol, &roots),
        Err(SymbolError::InvalidPath)
    ));
    symbol.source_worktree_id = 3;
    assert!(matches!(
        store.open_buffer_for_symbol(&symbol, &roots),
        Err(SymbolError::ServerNotFound)
    ));
    assert_eq!(SymbolError::NoSuchWorktree.message(), "no such worktree");
    assert_eq!(SymbolError::InvalidPath.message(), "invalid symbol path");
    let manifests = vec!["Cargo.toml".to_string()];
    assert!(needs_configuration_refresh(&vec![path("a"), path("b/Cargo.toml")], &manifests));
    assert!(!needs_configuration_refresh(&vec![path("a")], &manifests));
}

fn opening(file: &str) -> LocalBufferOpening {
    LocalLspStore::open_local_buffer_via_lsp(Some(path(file)), 2).unwrap()
}

fn path_of(action: &OpeningAction) -> String {
    match action {
        OpeningAction::FindWorktree(path) => path.as_unix_str(),
        OpeningAction::MakeWorktree(path) => path.as_unix_str(),
        OpeningAction::OpenBuffer { path, .. } => path.as_unix_str(),
        _ => panic!("no path"),
    }
}

#[test]
fn named_files_are_opened_in_a_worktree_that_is_there() {
    let mut store = LocalLspStore::new();
    assert!(matches!(
        LocalLspStore::open_local_buffer_via_lsp(None, 2),
        Err(NoFilePath)
    ));
    assert_eq!(NoFilePath.message(), "can't convert URI to path");
    let mut plain = opening("a/b.rs");
    let find = store.advance_opening(&mut plain, OpeningEvent::Unpacked(None));
    assert_eq!(path_of(&find), "a/b.rs");
    let open = store.advance_opening(
        &mut plain,
        OpeningEvent::WorktreeFound { worktree: 4, path: path("b.rs") },
    );
    assert!(matches!(open, OpeningAction::OpenBuffer { worktree: 4, .. }));
    assert_eq!(path_of(&open), "b.rs");
    assert!(matches!(
        store.advance_opening(&mut plain, OpeningEvent::BufferOpened),
        OpeningAction::HandOut { governed: None }
    ));

    let mut packed = opening("z/archive.zip/in/file.rs");
    let archived = ArchivedPath { root: path("z/archive"), path: path("in/file.rs") };
    let find = store.advance_opening(&mut packed, OpeningEvent::Unpacked(Some(archived)));
    assert_eq!(path_of(&find), "z/archive");
    let open = store.advance_opening(
        &mut packed,
        OpeningEvent::WorktreeFound { worktree: 5, path: path("") },
    );
    assert_eq!(path_of(&open), "in/file.rs");
    assert!(matches!(
        store.advance_opening(&mut packed, OpeningEvent::Failed),
        OpeningAction::Fail
    ));
}

#[test]
fn named_files_get_a_worktree_that_is_not_shown() {
    let mut store = LocalLspStore::new();
    store.get_or_insert_language_server(seed(1, "rust"), path("w"), 2, None);
    let mut library = opening("lib/core/mem.rs");
    store.advance_opening(&mut library, OpeningEvent::Unpacked(None));
    let make = store.advance_opening(&mut library, OpeningEvent::WorktreeMissing);
    assert_eq!(path_of(&make), "lib/core/mem.rs");
    let open = store.advance_opening(
        &mut library,
        OpeningEvent::WorktreeMade {
            worktree: 9,
            root: path("lib/core"),
            is_local: true,
            served: Some(1),
        },
    );
    assert_eq!(path_of(&open), "mem.rs");
    assert_eq!(store.language_server_ids_for_worktree(9), vec![2]);
    match store.advance_opening(&mut library, OpeningEvent::BufferOpened) {
        OpeningAction::HandOut { governed: Some(governed) } => {
            assert_eq!(governed.worktree, 1);
            assert_eq!(governed.root.as_unix_str(), "lib/core");
        }
        _ => panic!("the settings of the first worktree govern the buffer"),
    }

    let mut stray = opening("lib/core/mem.rs");
    store.advance_opening(&mut stray, OpeningEvent::Unpacked(None));
    store.advance_opening(&mut stray, OpeningEvent::WorktreeMissing);
    assert!(matches!(
        store.advance_opening(
            &mut stray,
            OpeningEvent::WorktreeMade {
                worktree: 10,
                root: path("elsewhere"),
                is_local: false,
                served: Some(1),
            },
        ),
        OpeningAction::Fail
    ));
    assert!(store.language_server_ids_for_worktree(10).is_empty());
}

fn info(name: &str, worktree: Option<u64>) -> ServerInfo {
    ServerInfo {
        name: name.to_string(),
        language_name: Some("Rust".to_string()),
        worktree,
    }
}

#[test]
fn guests_learn_of_servers() {
    let infos = BTreeMap::from([(2, info("rust", Some(7))), (5, info("gone", None))]);
    let told = shared(&infos, &BTreeSet::from([2]));
    assert_eq!(told.len(), 1);
    assert_eq!((told[0].id, told[0].worktree_id), (2, Some(7)));
    let learned = set_language_server_statuses_from_proto(&told, 1);
    assert_eq!(learned[&2].name, "rust");
    assert_eq!(learned[&2].language_name.as_deref(), Some("Rust"));
    assert!(set_language_server_statuses_from_proto(&told, 0).is_empty());
    assert!(matches!(language_server_adapter_for_id(&infos, 2, true), AdapterSource::Server));
    assert!(matches!(
        language_server_adapter_for_id(&infos, 2, false),
        AdapterSource::Registry(name) if name == "rust"
    ));
    assert!(matches!(language_server_adapter_for_id(&infos, 9, false), AdapterSource::Unknown));
    let registered = vec!["rust".to_string()];
    assert!(matches!(
        try_register_remote_adapter_locally(&registered, "rust", true),
        AdapterRegistration::AlreadyRegistered
    ));
    assert!(matches!(
        try_register_remote_adapter_locally(&registered, "other", true),
        AdapterRegistration::Register
    ));
    assert!(matches!(
        try_register_remote_adapter_locally(&registered, "other", false),
        AdapterRegistration::NotAvailable
    ));
}

fn adapter(options: Option<&str>) -> SshLspAdapter {
    let binary = LanguageServerBinary {
        path: "/usr/bin/server".to_string(),
        arguments: vec![],
        env: None,
    };
    SshLspAdapter::new("remote".to_string(), binary, options.map(|text| text.to_string()))
}

#[test]
fn options_of_remote_servers_are_json() {
    let read = |text: Option<&str>| adapter(text).initialization_options();
    assert_eq!(read(None), Ok(None));
    assert_eq!(read(Some(" null ")), Ok(None));
    assert_eq!(
        read(Some("{ \"check\" : [ 1, true ] }")),
        Ok(Some("{\"check\":[1,true]}".to_string()))
    );
    assert_eq!(read(Some("{")), Err(SshAdapterError::InvalidOptions));
    assert_eq!(SshAdapterError::InvalidOptions.message(), "invalid initialization options");
    assert_eq!(options_read(Ok(Some("1".to_string()))), Ok(Some("1".to_string())));
    let error = serde_json::from_str::<u8>("x").unwrap_err();
    assert_eq!(options_read(Err(error)), Err(SshAdapterError::InvalidOptions));
}

#[test]
fn remote_servers_are_not_fetched() {
    let adapter = adapter(None);
    assert_eq!(adapter.name(), "remote");
    assert_eq!(adapter.check_if_user_installed().unwrap().path, "/usr/bin/server");
    assert!(adapter.cached_server_binary().is_none());
    assert_eq!(
        adapter.fetch_latest_server_version().unwrap_err().message(),
        "SshLspAdapter does not support fetch_latest_server_version"
    );
    assert_eq!(
        adapter.fetch_server_binary().unwrap_err().message(),
        "SshLspAdapter does not support fetch_server_binary"
    );
}
