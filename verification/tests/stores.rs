use project::agent_registry_store::{
    AgentId, AgentRegistryStore, RegistryAgent, RegistryAgentMetadata, RegistryBinaryAgent,
    RegistryNpxAgent,
};
use project::context_server_store::{
    same_ignoring_case, settings_location, CommandAnswer, ContextServer, ContextServerCommand,
    ContextServerConfiguration, ContextServerSettings, ContextServerState, ContextServerStatus,
    ContextServerStore, ContextServerStoreState, SettingsLocation,
};
use project::list_map::ListMap;
use project::lsp_store::labels::{
    ensure_uniform_list_compatible_label, should_log_lsp_request_failure, CodeLabel,
    CompletionDocumentation, Documentation, LabelRun,
};
use project::navigate_to_positions::{
    navigate_to_positions, FilePosition, Navigation, OpenedItem,
};
use project::text_lines::{collapse_newlines, lines, normalize_line_endings, trim};

fn command(path: &str) -> ContextServerCommand {
    ContextServerCommand { path: path.to_string(), args: Vec::new(), env: None, timeout: None }
}

fn http(url: &str, header: &str) -> ContextServerSettings {
    let mut headers = ListMap::new();
    headers.insert(header.to_string(), "x".to_string());
    ContextServerSettings::Http {
        enabled: true,
        url: url.to_string(),
        headers,
        timeout: Some(5),
        oauth: None,
    }
}

#[test]
fn settings_become_configurations() {
    let stdio =
        ContextServerSettings::Stdio { enabled: true, command: command("srv"), remote: true };
    assert!(!stdio.needs_command());
    let custom = ContextServerConfiguration::from_settings(stdio, CommandAnswer::Failed).unwrap();
    assert!(custom.remote());
    assert_eq!(custom.command().unwrap().path, "srv");
    assert!(!custom.has_static_auth_header());
    let extension = || ContextServerSettings::Extension {
        enabled: false,
        settings: "{}".to_string(),
        remote: false,
    };
    assert!(extension().needs_command() && !extension().enabled());
    for answer in [CommandAnswer::NoDescriptor, CommandAnswer::Failed, CommandAnswer::TimedOut] {
        assert!(ContextServerConfiguration::from_settings(extension(), answer).is_none());
    }
    let found = ContextServerConfiguration::from_settings(
        extension(),
        CommandAnswer::Resolved(command("ext")),
    );
    assert!(matches!(
        found,
        Some(ContextServerConfiguration::Extension { settings, .. }) if settings == "{}"
    ));
}

#[test]
fn addresses_are_read() {
    let read = |url: &str| {
        ContextServerConfiguration::from_settings(http(url, "X"), CommandAnswer::NoDescriptor)
    };
    assert!(matches!(
        read("HTTP://Example.com:80/a b"),
        Some(ContextServerConfiguration::Http { url, timeout: Some(5), .. })
            if url == "http://example.com/a%20b"
    ));
    assert!(read("no address").is_none());
    assert!(read("").is_none());
    assert!(!read("https://a.b").unwrap().remote());
    assert!(read("https://a.b").unwrap().command().is_none());
    assert!(ContextServerConfiguration::at_url(None, ListMap::new(), None, None).is_none());
}

#[test]
fn credentials_in_headers_are_seen() {
    let has = |header: &str| {
        ContextServerConfiguration::from_settings(
            http("https://a.b", header),
            CommandAnswer::NoDescriptor,
        )
        .unwrap()
        .has_static_auth_header()
    };
    assert!(has("Authorization"));
    assert!(has("AUTHORIZATION"));
    assert!(!has("X-Authorization"));
    assert!(same_ignoring_case("aZ[", "Az["));
    assert!(!same_ignoring_case("[", "{"));
    assert!(!same_ignoring_case("a", "ab"));
}

#[test]
fn context_servers_stay_disabled() {
    let mut settings = ListMap::new();
    settings.insert("on".to_string(), http("https://a.b", "X"));
    settings.insert(
        "off".to_string(),
        ContextServerSettings::Stdio { enabled: false, command: command("s"), remote: false },
    );
    let mut store = ContextServerStore::local(settings);
    assert_eq!(store.configured_server_ids(), vec!["on".to_string()]);
    let on = "on".to_string();
    store.start_server(ContextServer { id: on.clone() });
    assert!(store.get_server(&on).is_none());
    assert!(store.get_running_server(&on).is_none());
    assert!(store.status_for_server(&on).is_none());
    assert!(store.configuration_for_server(&on).is_none());
    assert!(store.server_ids().is_empty());
    assert!(store.running_servers().is_empty());
    assert!(store.stop_server(&on).is_ok());
    assert!(store.authenticate_server(&on).is_err());
    assert!(store.submit_client_secret(&on, "s".to_string()).is_err());
    assert!(store.logout_server(&on).is_err());
    assert!(store.handle_get_context_server_command().is_err());
    assert!(ContextServerStore::store_client_secret("https://a.b", "s").is_err());
    let refused = ContextServerStore::create_context_server(
        on.clone(),
        ContextServerConfiguration::Custom { command: command("s"), remote: false },
    );
    assert_eq!(refused.unwrap_err().message(), "Context servers are disabled");
    store.servers.insert(
        on.clone(),
        ContextServerState {
            server: ContextServer { id: on.clone() },
            configuration: ContextServerConfiguration::Custom {
                command: command("s"),
                remote: false,
            },
        },
    );
    assert_eq!(store.status_for_server(&on), Some(ContextServerStatus::Stopped));
    assert_eq!(store.running_servers()[0].id, "on");
    assert!(store.get_server(&on).is_some());
    store.settings_changed(ListMap::new());
    assert!(store.configured_server_ids().is_empty());
}

#[test]
fn only_local_projects_are_shared() {
    let mut store = ContextServerStore::local(ListMap::new());
    store.shared(3);
    assert!(matches!(
        store.state,
        ContextServerStoreState::Local { downstream_project: Some(3) }
    ));
    assert!(!store.is_remote_project());
    let mut store = ContextServerStore::remote(ListMap::new());
    store.shared(3);
    assert!(store.is_remote_project());
    assert_eq!(settings_location(&vec![7, 8]), Some(SettingsLocation { worktree_id: 7 }));
    assert_eq!(settings_location(&Vec::new()), None);
}

#[test]
fn registry_offers_no_agents() {
    let metadata = || RegistryAgentMetadata {
        id: AgentId("a".to_string()),
        name: "A".to_string(),
        description: "an agent".to_string(),
        version: "1.0".to_string(),
        repository: Some("repo".to_string()),
        website: None,
        icon_path: None,
    };
    let binary = RegistryAgent::Binary(RegistryBinaryAgent {
        metadata: metadata(),
        targets: ListMap::new(),
        supports_current_platform: false,
    });
    let npx = RegistryAgent::Npx(RegistryNpxAgent {
        metadata: metadata(),
        package: "a".to_string(),
        args: Vec::new(),
        env: ListMap::new(),
    });
    assert!(!binary.supports_current_platform());
    assert!(npx.supports_current_platform());
    assert_eq!(binary.id().0, "a");
    assert_eq!(npx.name(), "A");
    assert_eq!(npx.description(), "an agent");
    assert_eq!(npx.version(), "1.0");
    assert_eq!(binary.repository(), Some(&"repo".to_string()));
    assert_eq!(binary.website(), None);
    assert_eq!(binary.icon_path(), None);
    let mut store = AgentRegistryStore::init_global(None);
    store.refresh();
    store.refresh_if_stale();
    assert!(store.agents().is_empty());
    assert!(store.agent(npx.id()).is_none());
    assert!(!store.is_fetching());
    assert!(store.fetch_error().is_none());
    assert!(AgentRegistryStore::init_global(Some(store)).agents().is_empty());
}

#[test]
fn editors_move_to_their_positions() {
    let at = |row: Option<u32>, column: Option<u32>| FilePosition { row, column };
    let items = vec![
        OpenedItem::Editor,
        OpenedItem::Missing,
        OpenedItem::Other,
        OpenedItem::Editor,
        OpenedItem::Editor,
        OpenedItem::Editor,
    ];
    let positions = vec![
        at(Some(3), Some(7)),
        at(Some(1), None),
        at(Some(1), None),
        at(None, Some(4)),
        at(Some(0), None),
    ];
    assert_eq!(
        navigate_to_positions(&items, &positions),
        vec![
            Navigation { item: 0, row: 2, column: 6 },
            Navigation { item: 4, row: 0, column: 0 },
        ]
    );
    assert!(navigate_to_positions(&Vec::new(), &positions).is_empty());
}

fn label(text: &str, runs: &[(usize, usize)], filter: (usize, usize)) -> CodeLabel {
    CodeLabel {
        text: text.to_string(),
        runs: runs
            .iter()
            .map(|(start, end)| LabelRun { start: *start, end: *end, highlight: 9 })
            .collect(),
        filter_start: filter.0,
        filter_end: filter.1,
    }
}

#[test]
fn labels_are_brought_into_one_line() {
    let mut shown = label("fn a(\n    b: é,\n)", &[(0, 2), (6, 10), (14, 99), (50, 60)], (0, 18));
    ensure_uniform_list_compatible_label(&mut shown);
    assert_eq!(shown.text, "fn a( b: é, )");
    assert_eq!((shown.filter_start, shown.filter_end), (0, 14));
    let runs: Vec<(usize, usize)> = shown.runs.iter().map(|run| (run.start, run.end)).collect();
    assert_eq!(runs, vec![(0, 2), (6, 6), (0, 14)]);
    let mut untouched = label("a  b", &[(50, 60)], (9, 9));
    ensure_uniform_list_compatible_label(&mut untouched);
    assert_eq!(untouched.text, "a  b");
    assert_eq!(untouched.runs.len(), 1);
    let mut filtered = label("a\n\nb", &[], (3, 9));
    ensure_uniform_list_compatible_label(&mut filtered);
    assert_eq!(filtered.text, "a b");
    assert_eq!((filtered.filter_start, filtered.filter_end), (2, 3));
}

#[test]
fn documentation_is_shown_by_its_length() {
    let shown = |docs: Documentation| CompletionDocumentation::from_documentation(docs);
    assert!(matches!(
        shown(Documentation::Text(" one line \n".to_string())),
        CompletionDocumentation::SingleLine(text) if text == "one line"
    ));
    assert!(matches!(
        shown(Documentation::PlainText(" one line ".to_string())),
        CompletionDocumentation::SingleLine(text) if text == " one line "
    ));
    assert!(matches!(
        shown(Documentation::Text("two\nlines".to_string())),
        CompletionDocumentation::MultiLinePlainText(text) if text == "two\nlines"
    ));
    assert!(matches!(
        shown(Documentation::PlainText("two\nlines".to_string())),
        CompletionDocumentation::MultiLinePlainText(_)
    ));
    assert_eq!(shown(Documentation::Markdown("# x".to_string())).text(), "# x");
    assert_eq!(CompletionDocumentation::Undocumented.text(), "");
    let both = CompletionDocumentation::SingleLineAndMultiLinePlainText {
        single_line: "s".to_string(),
        plain_text: Some("p".to_string()),
    };
    assert_eq!(both.text(), "s");
}

#[test]
fn texts_are_split_and_trimmed() {
    assert_eq!(trim(" \t\u{3000}a b\u{a0}\n"), "a b");
    assert_eq!(trim(" \n"), "");
    for c in '\0'..=char::MAX {
        assert_eq!(trim(&c.to_string()).is_empty(), c.is_whitespace(), "{c:?}");
    }
    assert_eq!(lines("a\r\nb\n\nc"), vec!["a", "b", "", "c"]);
    assert_eq!(lines("a\n"), vec!["a"]);
    assert!(lines("").is_empty());
    assert_eq!(collapse_newlines("a\n\nb\nc", "; "), "a; b; c");
    assert_eq!(normalize_line_endings("a\r\nb\rc\n\r"), "a\nb\nc\n\n");
}

#[test]
fn expected_failures_are_told_by_their_end() {
    assert!(should_log_lsp_request_failure("x failed: content modified"));
    assert!(should_log_lsp_request_failure("server cancelled the request"));
    assert!(!should_log_lsp_request_failure("content modified."));
    assert!(!should_log_lsp_request_failure(""));
}
