use std::collections::{BTreeMap, BTreeSet};

use project::globs::{
    build_glob_set, compile_matcher, group_depth, is_match, is_valid_glob, matches_path,
    MAX_NESTING,
};
use project::lsp_store::buffer_events::{
    on_buffer_added, on_buffer_reloaded, on_settings_changed, AddedStep, BufferFile,
    CompletionServer,
};
use project::lsp_store::buffer_languages::{
    buffer_changed_file_path, detect_language_for_buffer, language_query,
    maintain_buffer_languages, modeline_candidates, on_update_default_tab_settings,
    set_language_for_buffer, BufferStep, DefaultTabSettings, Detection, LanguageChange,
    LanguageQuery, LanguageState,
};
use project::lsp_store::capabilities::ServerCapabilities;
use project::lsp_store::content_changes::{content_changes, SnapshotEdit};
use project::lsp_store::open_buffers::OpenBuffer;
use project::lsp_store::progress::ServerAbout;
use project::lsp_store::renames::{
    servers_told_of_rename, will_rename_entry, FileOperationFilter, FileOperationPatternKind,
    RenameActionPredicate, RenameMoment, RenamePathsWatchedForServer,
};
use project::lsp_store::servers::{LanguageServerSeed, LanguageServerState, LocalLspStore};
use project::lsp_store::store::{AbsPathStep, LspStore, StartedServer};
use project::lsp_store::text_edits::{
    deserialize_text_edits, edits_from_lsp, EditKind, EditOutcome, PointUtf16, TextEdit,
};
use project::lsp_store::watched_paths::{
    glob_literal_prefix, lsp_notify_abs_paths_changed, watched_changes, DynamicRegistrations,
    EntryChange, FileChangeType, FileSystemWatcher, GlobPattern, PartKind, PathChange, PathEvent,
    PathEventKind, PathPart, PathParts, PatternPath, WatchRoot,
};
use project::lsp_store::workspace_edit::{
    on_lsp_workspace_edit, CreateOptions, DeleteOptions, DocumentChangeOperation, DocumentChanges,
    Edit, LspTextEdit, TextDocumentEdit, WorkspaceEdit, WorkspaceEditReply, WorkspaceStep,
};
use project::rel_path::RelPath;

fn point(row: u32, column: u32) -> PointUtf16 {
    PointUtf16 { row, column }
}

fn edit(start: PointUtf16, end: PointUtf16, text: &str) -> TextEdit {
    TextEdit {
        start,
        end,
        clipped_start: start,
        clipped_end: end,
        new_text: text.to_string(),
    }
}

#[test]
fn touching_edits_become_one() {
    let rows = vec![4, 4, 4, 4];
    let edits = edits_from_lsp(
        &rows,
        vec![
            edit(point(2, 1), point(2, 1), "x"),
            edit(point(0, 0), point(0, 2), "a"),
            edit(point(0, 2), point(0, 4), "b"),
            edit(point(1, 0), point(1, 4), "c"),
        ],
    );
    assert_eq!(edits.len(), 2);
    assert_eq!(edits[0].text, "ab\nc");
    assert_eq!((edits[0].start, edits[0].end), (point(0, 0), point(1, 4)));
    assert_eq!(edits[0].kind(), EditKind::Diff);
    assert_eq!(edits[1].text, "x");
    assert_eq!(edits[1].kind(), EditKind::Insert);
}

#[test]
fn edits_apart_stay_apart() {
    let rows = vec![4, 4, 4, 4];
    // The first edit ends before the end of its row.
    let edits = edits_from_lsp(
        &rows,
        vec![
            edit(point(0, 0), point(0, 3), "a"),
            edit(point(1, 0), point(1, 1), "b"),
            edit(point(3, 0), point(3, 2), "c"),
        ],
    );
    assert_eq!(edits.len(), 3);
    assert!(edits.iter().all(|edit| edit.kind() == EditKind::Replace));
    // An end that was clipped counts.
    let mut long = edit(point(0, 1), point(0, 99), "d");
    long.clipped_end = point(0, 4);
    let edits = edits_from_lsp(&rows, vec![long, edit(point(1, 0), point(1, 0), "e")]);
    assert_eq!(edits.len(), 1);
    assert_eq!(edits[0].text, "d\ne");
    assert_eq!(edits[0].end, point(1, 0));
}

/// The place behind the characters of a text.
fn place_in(text: &str, at: PointUtf16) -> usize {
    let mut rest = text;
    let mut offset = 0;
    for _ in 0..at.row {
        let end = rest.find('\n').unwrap() + 1;
        offset += end;
        rest = &rest[end..];
    }
    let mut units = 0;
    for c in rest.chars() {
        if units >= at.column {
            break;
        }
        units += c.len_utf16() as u32;
        offset += c.len_utf8();
    }
    offset
}

fn replaced(text: &str, start: PointUtf16, end: PointUtf16, by: &str) -> String {
    let (start, end) = (place_in(text, start), place_in(text, end));
    format!("{}{}{}", &text[..start], by, &text[end..])
}

#[test]
fn merged_edits_give_the_same_text() {
    let text = "a\u{1f600}b\ncd\n\nef";
    let row_ends = vec![4, 2, 0, 2];
    let edits = || {
        vec![
            edit(point(0, 3), point(0, 4), "B"),
            edit(point(1, 0), point(1, 2), ""),
            edit(point(2, 0), point(2, 0), "new"),
            edit(point(3, 1), point(3, 2), "F"),
            edit(point(0, 0), point(0, 1), "A"),
        ]
    };
    let mut one_by_one = edits();
    one_by_one.sort_by_key(|edit| (edit.start.row, edit.start.column));
    let mut expected = text.to_string();
    for edit in one_by_one.iter().rev() {
        expected = replaced(&expected, edit.start, edit.end, &edit.new_text);
    }
    let merged = edits_from_lsp(&row_ends, edits());
    assert_eq!(merged.len(), 3);
    let mut result = text.to_string();
    for edit in merged.iter().rev() {
        result = replaced(&result, edit.start, edit.end, &edit.text);
    }
    assert_eq!(result, expected);
    assert_eq!(result, "A\u{1f600}B\n\nnew\neF");
}

#[test]
fn servers_follow_incremental_changes() {
    let before = "one\ntwo\nthree\u{1f600}!";
    let after = "1\n\nthree and\nmore\u{1f600}?";
    let edits = vec![
        SnapshotEdit {
            old_start: point(0, 0),
            old_end: point(0, 3),
            new_start: point(0, 0),
            new_text: "1".to_string(),
        },
        SnapshotEdit {
            old_start: point(1, 0),
            old_end: point(1, 3),
            new_start: point(1, 0),
            new_text: String::new(),
        },
        SnapshotEdit {
            old_start: point(2, 5),
            old_end: point(2, 5),
            new_start: point(2, 5),
            new_text: " and\nmore".to_string(),
        },
        SnapshotEdit {
            old_start: point(2, 7),
            old_end: point(2, 8),
            new_start: point(3, 6),
            new_text: "?".to_string(),
        },
    ];
    let changes = content_changes(false, after.to_string(), &edits);
    assert_eq!(changes[0].range, Some((point(0, 0), point(0, 3))));
    assert_eq!(changes[3].range, Some((point(3, 6), point(3, 7))));
    let mut text = before.to_string();
    for change in changes {
        let (start, end) = change.range.unwrap();
        text = replaced(&text, start, end, &change.text);
    }
    assert_eq!(text, after);
    let rows = vec![SnapshotEdit {
        old_start: point(1, 2),
        old_end: point(4, 1),
        new_start: point(7, 9),
        new_text: String::new(),
    }];
    let changes = content_changes(false, String::new(), &rows);
    assert_eq!(changes[0].range, Some((point(7, 9), point(10, 1))));
    let changes = content_changes(true, after.to_string(), &rows);
    assert_eq!(changes.len(), 1);
    assert!(changes[0].range.is_none());
    assert_eq!(changes[0].text, after);
}

#[test]
fn transactions_outside_of_the_history_are_forgotten() {
    assert_eq!(
        deserialize_text_edits(Some(3), true),
        EditOutcome { transaction: Some(3), forget: false }
    );
    assert_eq!(
        deserialize_text_edits(Some(3), false),
        EditOutcome { transaction: Some(3), forget: true }
    );
    assert_eq!(
        deserialize_text_edits(None, false),
        EditOutcome { transaction: None, forget: false }
    );
}

fn path(text: &str) -> RelPath {
    RelPath::from_unix_str(text)
}

fn lsp_edit(text: &str) -> LspTextEdit {
    LspTextEdit { start: point(0, 0), end: point(0, 1), new_text: text.to_string() }
}

#[test]
fn workspace_edits_are_carried_out_in_order() {
    let edit = WorkspaceEdit {
        document_changes: Some(DocumentChanges::Operations(vec![
            DocumentChangeOperation::Create {
                path: Some(path("dir/new.rs")),
                options: Some(CreateOptions { overwrite: Some(true), ignore_if_exists: None }),
            },
            DocumentChangeOperation::Rename {
                source: Some(path("a.rs")),
                target: Some(path("b.rs")),
                options: None,
            },
            DocumentChangeOperation::Edit(TextDocumentEdit {
                uri: "file:///b.rs".to_string(),
                version: Some(4),
                edits: vec![
                    Edit::Plain(lsp_edit("x")),
                    Edit::Annotated(lsp_edit("x")),
                    Edit::Annotated(lsp_edit("y")),
                ],
            }),
            DocumentChangeOperation::Delete {
                path: Some(path("old.rs")),
                delete_options: Some(DeleteOptions {
                    recursive: None,
                    ignore_if_not_exists: Some(true),
                }),
            },
        ])),
        changes: Some(vec![("file:///ignored.rs".to_string(), vec![lsp_edit("z")])]),
    };
    let plan = edit.deserialize_workspace_edit();
    assert!(plan.error.is_none());
    assert_eq!(plan.steps.len(), 5);
    assert!(matches!(&plan.steps[0], WorkspaceStep::CreateDir { path } if path.as_unix_str() == "dir"));
    assert!(matches!(
        &plan.steps[1],
        WorkspaceStep::CreateFile { path, overwrite: true, ignore_if_exists: false }
            if path.as_unix_str() == "dir/new.rs"
    ));
    assert!(matches!(
        &plan.steps[2],
        WorkspaceStep::Rename {
            source,
            overwrite: false,
            ignore_if_exists: false,
            create_parents: true,
            ..
        } if source.as_unix_str() == "a.rs"
    ));
    assert!(matches!(
        &plan.steps[3],
        WorkspaceStep::EditBuffer { version: Some(4), edits, .. } if edits.len() == 2
    ));
    assert!(matches!(
        &plan.steps[4],
        WorkspaceStep::RemoveFile { recursive: false, ignore_if_not_exists: true, .. }
    ));
}

#[test]
fn an_operation_without_a_path_ends_the_edit() {
    let edit = WorkspaceEdit {
        document_changes: Some(DocumentChanges::Operations(vec![
            DocumentChangeOperation::Delete { path: Some(path("")), delete_options: None },
            DocumentChangeOperation::Rename {
                source: Some(path("a")),
                target: None,
                options: None,
            },
            DocumentChangeOperation::Create { path: Some(path("c")), options: None },
        ])),
        changes: None,
    };
    let plan = edit.deserialize_workspace_edit();
    assert_eq!(plan.steps.len(), 1);
    assert!(matches!(
        &plan.steps[0],
        WorkspaceStep::RemoveDir { recursive: false, ignore_if_not_exists: false, .. }
    ));
    assert_eq!(plan.error.unwrap().message(), "can't convert URI to path");
}

#[test]
fn changes_by_document_know_no_version() {
    let edit = WorkspaceEdit {
        document_changes: None,
        changes: Some(vec![("file:///a.rs".to_string(), vec![lsp_edit("a"), lsp_edit("a")])]),
    };
    let plan = edit.deserialize_workspace_edit();
    assert!(matches!(
        &plan.steps[0],
        WorkspaceStep::EditBuffer { uri, version: None, edits }
            if uri == "file:///a.rs" && edits.len() == 1
    ));
    let listed = WorkspaceEdit {
        document_changes: Some(DocumentChanges::Edits(vec![TextDocumentEdit {
            uri: "file:///l.rs".to_string(),
            version: None,
            edits: vec![],
        }])),
        changes: None,
    };
    assert_eq!(listed.deserialize_workspace_edit().steps.len(), 1);
    let empty = WorkspaceEdit { document_changes: None, changes: None };
    assert!(empty.deserialize_workspace_edit().steps.is_empty());
    assert_eq!(
        on_lsp_workspace_edit(true, true, false),
        WorkspaceEditReply::Applied { announce: false }
    );
    assert_eq!(on_lsp_workspace_edit(false, true, true), WorkspaceEditReply::ProjectClosed);
    assert_eq!(on_lsp_workspace_edit(true, false, true), WorkspaceEditReply::LanguageServerNotFound);
}

fn parts(text: &str) -> Vec<PathPart> {
    let mut parts = Vec::new();
    if text.starts_with('/') {
        parts.push(PathPart { kind: PartKind::Root, text: "/".to_string() });
    }
    for name in text.split('/').filter(|name| !name.is_empty()) {
        parts.push(PathPart { kind: PartKind::Normal, text: name.to_string() });
    }
    parts
}

fn pattern(text: &str) -> PatternPath {
    let names: Vec<&str> = text.split('/').filter(|name| !name.is_empty()).collect();
    let mut rests = Vec::new();
    if text.starts_with('/') {
        rests.push(text.to_string());
    }
    for i in 0..names.len() {
        rests.push(names[i..].join("/"));
    }
    rests.push(String::new());
    PatternPath { parts: parts(text), rests }
}

fn root(id: u64, text: &str) -> WatchRoot {
    WatchRoot { id, is_local: true, abs_path: PathParts { parts: parts(text) } }
}

fn watch(text: &str) -> FileSystemWatcher {
    FileSystemWatcher {
        glob_pattern: GlobPattern::Text(pattern(text)),
        rejected_by: BTreeSet::new(),
    }
}

fn names(parts: &[PathPart]) -> Vec<String> {
    parts.iter().map(|part| part.text.clone()).collect()
}

#[test]
fn literal_prefixes_end_at_the_first_pattern() {
    let prefix = glob_literal_prefix(&parts("node_modules/**/*.js"));
    assert_eq!(names(&prefix), vec!["node_modules"]);
    assert_eq!(names(&glob_literal_prefix(&parts("/a/b/c.rs"))), vec!["/", "a", "b", "c.rs"]);
    assert!(glob_literal_prefix(&parts("{a,b}/c")).is_empty());
    assert!(glob_literal_prefix(&parts("a?/c")).is_empty());
    assert_eq!(names(&glob_literal_prefix(&parts("a/[bc]/d"))), vec!["a", "[bc]", "d"]);
}

fn started() -> StartedServer {
    StartedServer {
        about: ServerAbout {
            name: "rust-analyzer".to_string(),
            language_name: None,
            server_version: None,
            server_readable_version: None,
            worktree: None,
            binary: None,
            configuration: None,
            workspace_folders: vec![],
            process_id: None,
        },
        capabilities: ServerCapabilities {
            workspace_folders: None,
            file_operations: None,
            execute_command: None,
            workspace_symbol: None,
            document_range_formatting: None,
            document_formatting: None,
            rename: None,
            document_symbol: None,
            definition: None,
            hover: None,
            color: None,
            folding_range: None,
            completion: None,
            text_document_sync: None,
        },
        did_rename: None,
        will_rename: None,
    }
}

fn changed(path: &str, change: PathChange) -> EntryChange {
    EntryChange { path: path.to_string(), uri: Some(format!("file:///{path}")), change }
}

#[test]
fn watchers_are_put_where_they_look() {
    let worktrees = vec![root(1, "/work/one"), root(2, "/work/two")];
    let mut registrations = DynamicRegistrations::new();
    registrations.on_lsp_did_change_watched_files(
        "r1".to_string(),
        vec![
            watch("/work/two/src/*.rs"),
            watch("**/Cargo.toml"),
            watch("/etc/conf/*.toml"),
            watch("/work/one/[invalid"),
        ],
    );
    let (watched, scans) = registrations.rebuild_watched_paths(&worktrees);
    assert_eq!(scans.len(), 1);
    assert_eq!(scans[0].0, 2);
    assert_eq!(names(&scans[0].1), vec!["src"]);
    assert_eq!(watched.abs_paths.entries.len(), 1);
    assert_eq!(names(&watched.abs_paths.entries[0].0.parts), vec!["/", "etc", "conf"]);
    let of_two = &watched.worktree_paths[&2];
    let events = watched_changes(
        of_two,
        &vec![
            changed("src/lib.rs", PathChange::Added),
            changed("src/lib.txt", PathChange::Added),
            changed("deep/Cargo.toml", PathChange::Updated),
            changed("src/old.rs", PathChange::Removed),
            changed("src/seen.rs", PathChange::Loaded),
            changed("src/any.rs", PathChange::AddedOrUpdated),
        ],
    );
    let told: Vec<(String, FileChangeType)> =
        events.into_iter().map(|event| (event.uri, event.typ)).collect();
    assert_eq!(
        told,
        vec![
            ("file:///src/lib.rs".to_string(), FileChangeType::Created),
            ("file:///deep/Cargo.toml".to_string(), FileChangeType::Changed),
            ("file:///src/old.rs".to_string(), FileChangeType::Deleted),
            ("file:///src/any.rs".to_string(), FileChangeType::Changed),
        ]
    );
    let of_one = &watched.worktree_paths[&1];
    assert!(watched_changes(of_one, &vec![changed("src/lib.rs", PathChange::Added)]).is_empty());
    assert_eq!(watched_changes(of_one, &vec![changed("Cargo.toml", PathChange::Added)]).len(), 1);
    assert!(registrations.on_lsp_unregister_did_change_watched_files(&"r1".to_string()));
    assert!(!registrations.on_lsp_unregister_did_change_watched_files(&"r1".to_string()));
    let (watched, scans) = registrations.rebuild_watched_paths(&worktrees);
    assert!(watched.worktree_paths.is_empty() && scans.is_empty());
}

#[test]
fn the_store_keeps_watched_paths_by_server() {
    let worktrees = || vec![root(1, "/work/one"), root(2, "/work/two")];
    let mut store = LspStore::new_local();
    assert!(store.rebuild_watched_paths(5, worktrees()).is_none());
    let mut registrations = DynamicRegistrations::new();
    registrations.on_lsp_did_change_watched_files(
        "r".to_string(),
        vec![watch("/work/one/*.rs"), watch("/work/two/src/*.rs"), watch("**/Cargo.toml")],
    );
    store.registered.registrations.insert(5, registrations);
    // It runs nowhere: what lies in a worktree is watched as any other path.
    assert!(store.rebuild_watched_paths(5, worktrees()).unwrap().is_empty());
    assert!(store.watched_paths[&5].worktree_paths.is_empty());
    assert_eq!(store.watched_paths[&5].abs_paths.entries.len(), 2);
    let seed = || LanguageServerSeed {
        worktree_id: 2,
        name: "rust-analyzer".to_string(),
        toolchain: None,
        settings: "{}".to_string(),
    };
    store.local.get_or_insert_language_server(seed(), RelPath::from_unix_str("w"), 5, None);
    // It is only starting.
    assert!(store.rebuild_watched_paths(5, worktrees()).unwrap().is_empty());
    let started = store.insert_newly_running_language_server(
        &seed(),
        5,
        started(),
        &vec![2],
        &vec![],
    );
    assert!(started.is_some());
    let scans = store.rebuild_watched_paths(5, worktrees()).unwrap();
    assert_eq!(scans.len(), 1);
    assert_eq!(scans[0].0, 2);
    let paths = &store.watched_paths[&5];
    assert!(!paths.worktree_paths.contains_key(&1));
    assert!(paths.worktree_paths.contains_key(&2));
    let cargo = vec![changed("Cargo.toml", PathChange::Added)];
    assert_eq!(watched_changes(&paths.worktree_paths[&2], &cargo).len(), 1);
    assert_eq!(paths.abs_paths.entries.len(), 1);
    assert_eq!(names(&paths.abs_paths.entries[0].0.parts), vec!["/", "work", "one"]);
    let outside = PathParts { parts: parts("/work/one") };
    let events = vec![
        PathEvent {
            path: "a.rs".to_string(),
            uri: Some("file:///work/one/a.rs".to_string()),
            kind: Some(PathEventKind::Created),
        },
        PathEvent { path: "a.txt".to_string(), uri: None, kind: None },
    ];
    assert!(matches!(
        store.abs_path_changed(5, &outside, &events),
        AbsPathStep::Tell { events } if events.len() == 1
    ));
    store.local.language_servers.insert(5, LanguageServerState::Starting);
    assert!(matches!(
        store.abs_path_changed(5, &outside, &events),
        AbsPathStep::Tell { events } if events.is_empty()
    ));
    store.stop_local_language_server(5);
    assert!(!store.watched_paths.contains_key(&5));
    assert!(matches!(
        store.abs_path_changed(5, &outside, &events),
        AbsPathStep::StopWatching
    ));
}

#[test]
fn deep_patterns_are_valid_and_make_no_set() {
    let nested = |depth: usize| format!("{}a{}", "{".repeat(depth), "}".repeat(depth));
    assert_eq!(group_depth(&nested(251)), 251);
    assert!(is_valid_glob(&nested(251), false));
    assert!(build_glob_set(&vec![nested(200)], false).is_some());
    assert!(build_glob_set(&vec![nested(251)], false).is_none());
    assert!(build_glob_set(&vec![nested(251), "a".to_string()], false).is_none());
    assert!(is_valid_glob(&nested(MAX_NESTING), false));
    assert_eq!(group_depth(&"{a,b}".repeat(300)), 1);
    assert!(is_valid_glob(&"{a,b}".repeat(300), false));
    // A bracket may hide braces, so all of them count.
    assert_eq!(group_depth(&format!("[x]{}", "{a,b}".repeat(300))), 300);
    assert!(is_valid_glob(&format!("[x]{}", "{a,b}".repeat(300)), false));
    // The deepest and the longest pattern that is matched on its own.
    let deep = format!("{}**/[xy]*{}", "{a,b".repeat(80), ",c}".repeat(80));
    assert_eq!(group_depth(&deep), 80);
    assert!(compile_matcher(&deep, true).is_some());
    let long = "\u{10000}".repeat(8192);
    assert!(matches_path(&compile_matcher(&long, true).unwrap(), &long));
    let stars = "?*".repeat(4096);
    assert!(!matches_path(&compile_matcher(&stars, true).unwrap(), "a"));
    let recursive = "**/".repeat(2730);
    assert!(compile_matcher(&recursive, true).is_some());
    let classes = "[!a-z]".repeat(1365);
    assert!(compile_matcher(&classes, true).is_some());
    let groups = "{a,B}".repeat(1638);
    assert!(compile_matcher(&groups, true).is_some());
}

#[test]
fn thousands_of_patterns_make_a_set() {
    let patterns: Vec<String> = (0..3000).map(|i| format!("{i:0>48}/*")).collect();
    let set = build_glob_set(&patterns, false).unwrap();
    assert!(is_match(&set, &format!("{:0>48}/a", 2999)));
    assert!(!is_match(&set, &format!("{:0>48}/a", 3000)));
    assert!(build_glob_set(&vec!["a".to_string(); 10_000], false).is_some());
}

#[test]
fn a_pattern_on_its_own_sees_the_whole_path() {
    let alone = compile_matcher("**/..", false).unwrap();
    assert!(matches_path(&alone, "a/.."));
    let set = build_glob_set(&vec!["**/..".to_string()], false).unwrap();
    assert!(!is_match(&set, "a/.."));
    let renamed = RenameActionPredicate::from_filter(&filter("**/..", None, None)).unwrap();
    assert!(renamed.eval("a/..", true));
    assert!(compile_matcher("a{b", false).is_none());
}

#[test]
fn relative_watchers_begin_at_their_base() {
    let worktrees = vec![root(1, "/work/one"), root(2, "/work/two")];
    let relative = |base: Option<&str>| FileSystemWatcher {
        glob_pattern: GlobPattern::Relative {
            base: base.map(|base| PathParts { parts: parts(base) }),
            pattern: pattern("src/*.rs"),
            pattern_text: "src/*.rs".to_string(),
        },
        rejected_by: BTreeSet::new(),
    };
    let (at, prefix, found) =
        relative(Some("/work/two/crate")).worktree_and_path_for_file_watcher(&worktrees).unwrap();
    assert_eq!(at, 1);
    assert_eq!(names(&prefix), vec!["crate", "src"]);
    assert_eq!(found, "src/*.rs");
    assert!(relative(Some("/other")).worktree_and_path_for_file_watcher(&worktrees).is_none());
    assert!(relative(None).worktree_and_path_for_file_watcher(&worktrees).is_none());
    let mut rejected = relative(Some("/work/two/crate"));
    rejected.rejected_by.insert(2);
    assert!(rejected.worktree_and_path_for_file_watcher(&worktrees).is_none());
    let mut registrations = DynamicRegistrations::new();
    registrations.on_lsp_did_change_watched_files(
        "r".to_string(),
        vec![relative(Some("/other")), relative(None)],
    );
    let (watched, _) = registrations.rebuild_watched_paths(&worktrees);
    assert_eq!(names(&watched.abs_paths.entries[0].0.parts), vec!["/", "other", "src"]);
    let event = |path: &str, kind: Option<PathEventKind>| PathEvent {
        path: path.to_string(),
        uri: Some(format!("file:///{path}")),
        kind,
    };
    let events = lsp_notify_abs_paths_changed(
        &watched.abs_paths.entries[0].1,
        &vec![
            event("a.rs", Some(PathEventKind::Created)),
            event("b.rs", Some(PathEventKind::Removed)),
            event("c.rs", Some(PathEventKind::Changed)),
            event("d.txt", Some(PathEventKind::Changed)),
            event("e.rs", None),
        ],
    );
    let kinds: Vec<FileChangeType> = events.iter().map(|event| event.typ).collect();
    assert_eq!(
        kinds,
        vec![FileChangeType::Created, FileChangeType::Deleted, FileChangeType::Changed]
    );
}

fn filter(
    glob: &str,
    kind: Option<FileOperationPatternKind>,
    ignore_case: Option<bool>,
) -> FileOperationFilter {
    FileOperationFilter { glob: glob.to_string(), kind, ignore_case }
}

#[test]
fn filters_pick_renames() {
    let files = RenameActionPredicate::from_filter(&filter(
        "**/*.rs",
        Some(FileOperationPatternKind::File),
        None,
    ));
    let files = files.unwrap();
    assert!(files.eval("file:///a/b.rs", false));
    assert!(!files.eval("file:///a/b.rs", true));
    assert!(!files.eval("file:///a/b.RS", false));
    assert!(!files.eval("file:///a/b.txt", false));
    let any_case =
        RenameActionPredicate::from_filter(&filter("**/*.rs", None, Some(true))).unwrap();
    assert!(any_case.eval("file:///a/b.RS", true));
    assert!(RenameActionPredicate::from_filter(&filter("a{b", None, None)).is_none());
}

#[test]
fn servers_are_told_of_renames_that_they_watch() {
    let rust = Some(vec![filter("**/*.rs", None, None)]);
    let folders = Some(vec![
        filter("[", None, None),
        filter("**", Some(FileOperationPatternKind::Folder), None),
    ]);
    let mut watched = BTreeMap::new();
    watched.insert(1, RenamePathsWatchedForServer::for_server(&rust, &None).unwrap());
    watched.insert(2, RenamePathsWatchedForServer::for_server(&folders, &rust).unwrap());
    assert!(RenamePathsWatchedForServer::for_server(&None, &None).is_none());
    let servers = vec![1, 2, 3];
    let told = |moment: RenameMoment, uri: &str, is_dir: bool| {
        servers_told_of_rename(&servers, &watched, moment, uri, is_dir)
    };
    assert_eq!(told(RenameMoment::Did, "file:///a.rs", false), vec![1]);
    assert_eq!(told(RenameMoment::Did, "file:///dir", true), vec![2]);
    assert_eq!(told(RenameMoment::Will, "file:///a.rs", false), vec![2]);
    assert!(told(RenameMoment::Will, "file:///dir", true).is_empty());
    let first = BTreeMap::from([(10, 100), (11, 101)]);
    let second = BTreeMap::from([(11, 201)]);
    let merged = will_rename_entry(vec![Some(first), None, Some(second)]);
    assert_eq!(merged, BTreeMap::from([(10, 100), (11, 201)]));
}

#[test]
fn mode_lines_stand_at_either_end() {
    let content = "one\ntwo\nthree\nfour";
    let candidates = modeline_candidates(content, Some(2), Some(9));
    assert_eq!(candidates.first_lines, vec!["one", "two"]);
    assert_eq!(candidates.last_lines, vec!["three", "four"]);
    let candidates = modeline_candidates(content, None, None);
    assert_eq!(candidates.first_lines, vec!["one", "two", "three", "four"]);
    let long = format!("{}\nlast", "x".repeat(2000));
    let candidates = modeline_candidates(&long, None, Some(1));
    assert_eq!(candidates.first_lines[0].len(), 1024);
    assert_eq!(candidates.last_lines, vec!["last"]);
}

#[test]
fn languages_are_looked_for() {
    assert!(matches!(language_query(false, Some("rust".to_string())), LanguageQuery::NoFile));
    assert!(matches!(
        language_query(true, Some("rust".to_string())),
        LanguageQuery::ModelineName(name) if name == "rust"
    ));
    assert!(matches!(language_query(true, None), LanguageQuery::File));
    assert!(matches!(detect_language_for_buffer(true, true), Detection::SetLanguage));
    assert!(matches!(detect_language_for_buffer(true, false), Detection::Wait));
    assert!(matches!(detect_language_for_buffer(false, false), Detection::AnnounceNone));
    assert_eq!(
        set_language_for_buffer(true, true, Some(1), 2),
        LanguageChange { unregister: true, assign: true }
    );
    assert_eq!(
        set_language_for_buffer(true, true, Some(2), 2),
        LanguageChange { unregister: true, assign: false }
    );
    let mut known = None;
    let settings = DefaultTabSettings { tab_size: 4, hard_tabs: false };
    assert!(on_update_default_tab_settings(&mut known, settings));
    assert!(!on_update_default_tab_settings(&mut known, settings));
}

#[test]
fn moved_buffers_change_servers() {
    let steps = buffer_changed_file_path(true, true);
    assert_eq!(
        steps,
        vec![
            BufferStep::ResetTriggers,
            BufferStep::UnregisterOld,
            BufferStep::DetectLanguage,
            BufferStep::InitializeTriggers,
            BufferStep::Register,
        ]
    );
    assert!(!buffer_changed_file_path(false, false).contains(&BufferStep::UnregisterOld));
    assert!(!buffer_changed_file_path(true, false).contains(&BufferStep::Register));
}

#[test]
fn plain_buffers_get_languages_that_become_available() {
    let buffer = |id: u64, visible: bool| OpenBuffer {
        id,
        worktree: Some(1),
        worktree_is_known: true,
        worktree_is_visible: visible,
        is_local: true,
        has_uri: true,
        has_language: true,
        is_registered: id != 3,
    };
    let state = |id: u64, visible: bool, plain: bool, unknown: bool| LanguageState {
        buffer: buffer(id, visible),
        is_plain_text: plain,
        has_unknown_injections: unknown,
    };
    let states = || {
        vec![
            state(1, false, true, true),
            state(2, true, true, false),
            state(3, true, false, true),
            state(4, true, false, false),
        ]
    };
    let mut reload_count: u64 = 1;
    let plan = maintain_buffer_languages(&mut reload_count, 1, states());
    assert_eq!(plan.detect, vec![2, 1]);
    assert_eq!(plan.register, vec![4]);
    assert_eq!(plan.reparse, vec![3]);
    assert!(plan.unassign.is_empty() && plan.unregister.is_empty());
    let plan = maintain_buffer_languages(&mut reload_count, 2, states());
    assert_eq!(reload_count, 2);
    assert_eq!(plan.unassign, vec![1, 2, 3, 4]);
    assert_eq!(plan.unregister, vec![1, 2, 4]);
    assert_eq!(plan.detect, vec![2, 3, 4, 1]);
    assert!(plan.register.is_empty() && plan.reparse.is_empty());
}

#[test]
fn buffers_take_over_triggers_of_running_servers() {
    let seed = |name: &str| LanguageServerSeed {
        worktree_id: 1,
        name: name.to_string(),
        toolchain: None,
        settings: String::new(),
    };
    let mut store = LocalLspStore::new();
    store.get_or_insert_language_server(seed("a"), path("w"), 1, None);
    store.get_or_insert_language_server(seed("b"), path("w"), 2, None);
    store.insert_newly_running_language_server(&seed("a"), 1);
    let servers = || {
        vec![
            CompletionServer { id: 2, provider: Some(Some(vec![":".to_string()])) },
            CompletionServer { id: 1, provider: Some(Some(vec![".".to_string()])) },
            CompletionServer { id: 3, provider: None },
        ]
    };
    let file = BufferFile {
        has_file: true,
        is_local: true,
        has_language: true,
        worktree_is_known: true,
    };
    assert_eq!(store.initialize_buffer(file, servers()), vec![(1, vec![".".to_string()])]);
    let plain = BufferFile { has_language: false, ..file };
    assert!(store.initialize_buffer(plain, servers()).is_empty());
    assert_eq!(store.reset_buffer(true, vec![1, 2]), vec![1, 2]);
    assert!(store.reset_buffer(false, vec![1, 2]).is_empty());
    assert_eq!(
        store.shutdown_language_servers_on_quit(),
        vec![(1, LanguageServerState::Running), (2, LanguageServerState::Starting)]
    );
    assert!(store.language_servers.is_empty());
}

#[test]
fn buffers_are_looked_at_again() {
    assert_eq!(
        on_buffer_added(true),
        vec![
            AddedStep::ParseModeline,
            AddedStep::DetectLanguage,
            AddedStep::DetectTabSettings,
            AddedStep::InitializeTriggers,
        ]
    );
    assert_eq!(on_buffer_added(false).len(), 3);
    assert!(on_buffer_reloaded(false, true).is_empty());
    assert_eq!(
        on_buffer_reloaded(true, true),
        vec![AddedStep::DetectLanguage, AddedStep::DetectTabSettings]
    );
    let mut known = 1;
    assert!(!on_settings_changed(&mut known, 1).restart_servers);
    let effect = on_settings_changed(&mut known, 2);
    assert!(effect.restart_servers && effect.refresh_configurations);
    assert_eq!(known, 2);
}
