use project::lsp_command::colors::{
    color_resolved, document_colors_from_lsp, document_colors_from_proto, document_colors_to_proto,
    resolve_color_presentation, Color, ColorInformation, ColorPresentation, ProtoColor, ResolvePlan,
};
use project::lsp_command::commands::{
    GetDocumentColor, GetDocumentHighlights, GetDocumentSymbols, GetFoldingRanges, GetHover,
    LinkedEditingRange, LspCommand, ProtoDocumentRequest, ProtoPositionRequest,
    RequestCapabilities, SemanticTokensDelta, SemanticTokensFull,
};
use project::lsp_command::highlights::{
    document_highlights_from_lsp, document_highlights_from_proto, document_highlights_to_proto,
    DocumentHighlight, DocumentHighlightKind, HighlightError, LspHighlight, ProtoDocumentHighlight,
    ProtoHighlightKind,
};
use project::lsp_command::hover::{
    collect_hovers, hover_from_lsp, hover_from_proto, hover_to_proto, remove_empty_hover_blocks,
    Hover, HoverBlock, HoverBlockKind, HoverContents, MarkedString, ProtoHover, ProtoHoverBlock,
};
use project::lsp_command::locations::{
    location_link_from_lsp, location_link_from_proto, location_link_to_proto,
    location_links_from_lsp, location_links_from_proto, location_links_to_proto,
    GotoDefinitionResponse, LinkError, LinkTarget, Location, LocationLink, LspLocation,
    LspLocationLink, LspSpan, NoLanguageServer, ProtoLocation, ProtoLocationLink,
};
use project::lsp_command::ranges::{
    folding_ranges_from_lsp, folding_ranges_from_proto, folding_ranges_to_proto,
    linked_ranges_from_lsp, linked_ranges_from_proto, linked_ranges_to_proto, FoldingRange,
    LspFoldingRange, LspRange, ProtoAnchorRange, ProtoFoldingRanges,
};
use project::lsp_command::rename::{
    prepare_rename_response_from_proto, prepare_rename_response_to_proto, PerformRename,
    PrepareRename, PrepareRenameReply, PrepareRenameResponse, ProtoPrepareRenameResponse,
    RenameProvider,
};
use project::lsp_command::symbols::{
    document_symbols_from_lsp, document_symbols_from_proto, document_symbols_to_proto,
    DocumentSymbol, DocumentSymbolResponse, LspDocumentSymbol, SymbolInformation, SymbolWireError,
};
use project::lsp_command::tokens::{
    semantic_tokens_from_lsp, semantic_tokens_from_proto, semantic_tokens_to_proto, LspTokensEdit,
    SemanticTokensFullOptions, SemanticTokensReply, SemanticTokensResponse,
};
use project::lsp_command::{
    lsp_formatting_options, LanguageSettings, LspParamsOrResponse, RequestError, Switch,
};
use project::lsp_store::text_edits::PointUtf16;

fn point(row: u32, column: u32) -> PointUtf16 {
    PointUtf16 { row, column }
}

fn nothing() -> RequestCapabilities {
    RequestCapabilities {
        rename_provider: None,
        document_highlight_provider: None,
        document_symbol_provider: None,
        hover_provider: None,
        semantic_tokens_full: None,
        linked_editing_range_provider: None,
        color_provider: None,
        folding_range_provider: None,
    }
}

fn uri() -> Option<String> {
    Some("file:///a.rs".to_string())
}

#[test]
fn commands_have_names() {
    let position = point(0, 0);
    assert_eq!(PrepareRename { position }.display_name(), "Prepare rename");
    let rename = PerformRename { position, new_name: String::new(), push_to_history: true };
    assert_eq!(rename.display_name(), "Rename");
    assert_eq!(GetDocumentHighlights { position }.display_name(), "Get document highlights");
    assert_eq!(GetDocumentSymbols.display_name(), "Get document symbols");
    assert_eq!(GetHover { position }.display_name(), "Get hover");
    assert_eq!(SemanticTokensFull { for_server: None }.display_name(), "Semantic tokens full");
    let delta = SemanticTokensDelta { previous_result_id: "1".to_string() };
    assert_eq!(delta.display_name(), "Semantic tokens delta");
    assert_eq!(LinkedEditingRange { position }.display_name(), "Linked editing range");
    assert_eq!(GetDocumentColor.display_name(), "Document color");
    assert_eq!(GetFoldingRanges.display_name(), "Folding ranges");
    assert_eq!(GetHover { position }.status(), None);
}

#[test]
fn capabilities_decide_who_is_asked() {
    let hover = GetHover { position: point(1, 2) };
    for (provider, capable) in [
        (None, false),
        (Some(Switch::Simple(false)), false),
        (Some(Switch::Simple(true)), true),
        (Some(Switch::WithOptions), true),
    ] {
        let mut capabilities = nothing();
        capabilities.hover_provider = provider;
        assert_eq!(hover.check_capabilities(&capabilities), capable);
        let mut capabilities = nothing();
        capabilities.document_highlight_provider = provider;
        let highlights = GetDocumentHighlights { position: point(1, 2) };
        assert_eq!(highlights.check_capabilities(&capabilities), capable);
        let mut capabilities = nothing();
        capabilities.document_symbol_provider = provider;
        assert_eq!(GetDocumentSymbols.check_capabilities(&capabilities), capable);
        let mut capabilities = nothing();
        capabilities.linked_editing_range_provider = provider;
        assert_eq!(LinkedEditingRange::check_server_capabilities(&capabilities), capable);
        let mut capabilities = nothing();
        capabilities.color_provider = provider;
        assert_eq!(GetDocumentColor.check_capabilities(&capabilities), capable);
        let mut capabilities = nothing();
        capabilities.folding_range_provider = provider;
        assert_eq!(GetFoldingRanges.check_capabilities(&capabilities), capable);
    }
    let mut capabilities = nothing();
    match hover.to_lsp_params_or_response(uri(), &capabilities) {
        Ok(LspParamsOrResponse::Response(answer)) => assert!(answer.is_none()),
        _ => panic!("a server without hovers is not asked"),
    }
    capabilities.hover_provider = Some(Switch::WithOptions);
    match hover.to_lsp_params_or_response(uri(), &capabilities) {
        Ok(LspParamsOrResponse::Params(params)) => {
            assert_eq!(params.uri, "file:///a.rs");
            assert_eq!(params.position, point(1, 2));
        }
        _ => panic!("a server with hovers is asked"),
    }
    assert!(matches!(
        hover.to_lsp_params_or_response(None, &capabilities),
        Err(RequestError::InvalidFilePath)
    ));
    assert_eq!(
        RequestError::InvalidFilePath.message(),
        "Invalid file path provided to LSP request"
    );
}

#[test]
fn tokens_that_changed_need_more_than_all_tokens() {
    let full = SemanticTokensFull { for_server: Some(3) };
    let delta = SemanticTokensDelta { previous_result_id: "7".to_string() };
    for (options, all, changed) in [
        (None, false, false),
        (Some(SemanticTokensFullOptions::Simple(false)), false, false),
        (Some(SemanticTokensFullOptions::Simple(true)), true, false),
        (Some(SemanticTokensFullOptions::Delta { delta: None }), true, false),
        (Some(SemanticTokensFullOptions::Delta { delta: Some(false) }), true, false),
        (Some(SemanticTokensFullOptions::Delta { delta: Some(true) }), true, true),
    ] {
        let mut capabilities = nothing();
        capabilities.semantic_tokens_full = options;
        assert_eq!(full.check_capabilities(&capabilities), all);
        assert_eq!(delta.check_capabilities(&capabilities), changed);
    }
    let params = delta.to_lsp(uri()).unwrap();
    assert_eq!(params.previous_result_id, "7");
    assert_eq!(params.uri, "file:///a.rs");
    let document = ProtoDocumentRequest { project_id: 1, buffer_id: 2, version: 3 };
    assert_eq!(SemanticTokensFull::from_proto(&full.to_proto(document)), full);
}

#[test]
fn renaming_is_prepared_where_the_server_prepares_it() {
    let command = PrepareRename { position: point(4, 5) };
    let mut capabilities = nothing();
    assert!(matches!(
        command.to_lsp_params_or_response(uri(), &capabilities),
        Err(RequestError::RenameNotSupported)
    ));
    assert_eq!(RequestError::RenameNotSupported.message(), "Rename not supported");
    capabilities.rename_provider = Some(RenameProvider::Simple(false));
    assert!(!command.check_capabilities(&capabilities));
    assert!(command.to_lsp_params_or_response(uri(), &capabilities).is_err());
    capabilities.rename_provider = Some(RenameProvider::Simple(true));
    assert!(command.check_capabilities(&capabilities));
    assert!(matches!(
        command.to_lsp_params_or_response(uri(), &capabilities),
        Ok(LspParamsOrResponse::Response(PrepareRenameResponse::OnlyUnpreparedRenameSupported))
    ));
    capabilities.rename_provider = Some(RenameProvider::Options { prepare_provider: None });
    assert!(!command.check_capabilities(&capabilities));
    assert!(matches!(
        command.to_lsp_params_or_response(uri(), &capabilities),
        Ok(LspParamsOrResponse::Response(PrepareRenameResponse::OnlyUnpreparedRenameSupported))
    ));
    let rename = PerformRename {
        position: point(4, 5),
        new_name: "new".to_string(),
        push_to_history: true,
    };
    assert!(rename.check_capabilities(&capabilities));
    capabilities.rename_provider = Some(RenameProvider::Options { prepare_provider: Some(true) });
    match command.to_lsp_params_or_response(uri(), &capabilities) {
        Ok(LspParamsOrResponse::Params(params)) => assert_eq!(params.position, point(4, 5)),
        _ => panic!("the server is asked"),
    }
    let params = rename.to_lsp(uri()).unwrap();
    assert_eq!(params.new_name, "new");
    assert_eq!(params.text_document_position.position, point(4, 5));
    let document = ProtoDocumentRequest { project_id: 1, buffer_id: 2, version: 3 };
    let message = rename.to_proto(document, 77);
    assert_eq!(message.request.position, Some(77));
    let received = PerformRename::from_proto(message, point(6, 0)).unwrap();
    assert_eq!(received.position, point(6, 0));
    assert_eq!(received.new_name, "new");
    assert!(!received.push_to_history);
}

#[test]
fn requests_without_a_place_are_refused() {
    let document = ProtoDocumentRequest { project_id: 1, buffer_id: 2, version: 3 };
    let message = GetHover { position: point(0, 3) }.to_proto(document, 9);
    assert_eq!(message, ProtoPositionRequest { document, position: Some(9) });
    let received = GetHover::from_proto(&message, point(0, 4));
    assert_eq!(received, Ok(GetHover { position: point(0, 4) }));
    let lost = ProtoPositionRequest { document, position: None };
    let refused = GetHover::from_proto(&lost, point(0, 4)).unwrap_err();
    assert_eq!(refused.message(), "invalid position");
    assert!(LinkedEditingRange::from_proto(&lost, point(0, 0)).is_err());
    assert!(GetDocumentHighlights::from_proto(&lost, point(0, 0)).is_err());
    assert!(PrepareRename::from_proto(&lost, point(0, 0)).is_err());
}

#[test]
fn prepared_places_lie_in_the_buffer() {
    let command = PrepareRename { position: point(0, 0) };
    let range = |clipped_end: PointUtf16| PrepareRenameReply::Range {
        start: point(1, 0),
        end: point(1, 9),
        clipped_start: point(1, 0),
        clipped_end,
    };
    assert!(matches!(
        command.response_from_lsp(Some(range(point(1, 9)))),
        PrepareRenameResponse::Success { start: PointUtf16 { row: 1, column: 0 }, .. }
    ));
    assert!(matches!(
        command.response_from_lsp(Some(range(point(1, 4)))),
        PrepareRenameResponse::InvalidPosition
    ));
    let word =
        PrepareRenameReply::DefaultBehavior { word_start: point(2, 1), word_end: point(2, 4) };
    assert!(matches!(
        command.response_from_lsp(Some(word)),
        PrepareRenameResponse::Success { end: PointUtf16 { row: 2, column: 4 }, .. }
    ));
    assert!(matches!(
        command.response_from_lsp(None),
        PrepareRenameResponse::InvalidPosition
    ));
}

#[test]
fn prepared_renames_travel() {
    for response in [
        PrepareRenameResponse::Success { start: 3u64, end: 8 },
        PrepareRenameResponse::OnlyUnpreparedRenameSupported,
        PrepareRenameResponse::InvalidPosition,
    ] {
        let message = prepare_rename_response_to_proto(response, 12);
        let read = prepare_rename_response_from_proto(&message).unwrap();
        assert_eq!(format!("{:?}", read), format!("{:?}", response));
    }
    let broken = ProtoPrepareRenameResponse {
        can_rename: true,
        only_unprepared_rename_supported: false,
        start: Some(1),
        end: None,
        version: Some(1),
    };
    assert_eq!(
        prepare_rename_response_from_proto(&broken).unwrap_err().message(),
        "Missing start or end position in remote project PrepareRenameResponse"
    );
}

fn highlight(start: u32, end: u32, kind: Option<DocumentHighlightKind>) -> LspHighlight {
    LspHighlight {
        start: point(0, start),
        end: point(0, end),
        clipped_start: point(0, start),
        clipped_end: point(0, end),
        kind,
    }
}

#[test]
fn highlights_are_sorted_longest_first() {
    let answer = document_highlights_from_lsp(Some(vec![
        highlight(5, 6, Some(DocumentHighlightKind::Write)),
        highlight(1, 2, None),
        highlight(1, 4, Some(DocumentHighlightKind::Text)),
    ]));
    let places: Vec<(u32, u32, DocumentHighlightKind)> =
        answer.iter().map(|h| (h.start.column, h.end.column, h.kind)).collect();
    assert_eq!(
        places,
        vec![
            (1, 4, DocumentHighlightKind::Text),
            (1, 2, DocumentHighlightKind::Read),
            (5, 6, DocumentHighlightKind::Write),
        ]
    );
    assert!(document_highlights_from_lsp(None).is_empty());
}

#[test]
fn highlights_travel() {
    let sent = vec![
        DocumentHighlight { start: 1u64, end: 2, kind: DocumentHighlightKind::Write },
        DocumentHighlight { start: 3, end: 4, kind: DocumentHighlightKind::Other },
    ];
    let message = document_highlights_to_proto(&sent);
    assert_eq!(message[1].kind, Some(ProtoHighlightKind::Text));
    let read = document_highlights_from_proto(&message).unwrap();
    assert_eq!(read[0].kind, DocumentHighlightKind::Write);
    assert_eq!(read[1].kind, DocumentHighlightKind::Text);
    assert_eq!((read[1].start, read[1].end), (3, 4));
    let lost = |start: Option<u64>, end: Option<u64>| {
        document_highlights_from_proto(&vec![ProtoDocumentHighlight { start, end, kind: None }])
            .unwrap_err()
    };
    assert_eq!(lost(None, Some(1)), HighlightError::MissingStart);
    assert_eq!(lost(Some(1), None), HighlightError::MissingEnd);
    assert_eq!(HighlightError::MissingStart.message(), "missing target start");
    assert_eq!(HighlightError::MissingEnd.message(), "missing target end");
}

fn nested(name: &str, children: Option<Vec<LspDocumentSymbol>>) -> LspDocumentSymbol {
    LspDocumentSymbol {
        name: name.to_string(),
        kind: 5,
        start: point(0, 0),
        end: point(9, 0),
        selection_start: point(0, 4),
        selection_end: point(0, 8),
        children,
    }
}

#[test]
fn symbols_keep_their_tree() {
    let answer = Some(DocumentSymbolResponse::Nested(vec![nested(
        "outer",
        Some(vec![nested("inner", None), nested("other", Some(vec![]))]),
    )]));
    let symbols = document_symbols_from_lsp(&answer);
    assert_eq!(symbols.len(), 1);
    assert_eq!(symbols[0].name, "outer");
    assert_eq!(symbols[0].children.len(), 2);
    assert_eq!(symbols[0].children[1].name, "other");
    let messages = document_symbols_to_proto(&symbols);
    let read = document_symbols_from_proto(&messages).unwrap();
    assert_eq!(read[0].children[0].name, "inner");
    assert_eq!(read[0].children[0].selection_end, point(0, 8));
    let flat = Some(DocumentSymbolResponse::Flat(vec![SymbolInformation {
        name: "flat".to_string(),
        kind: 12,
        start: point(1, 2),
        end: point(3, 4),
    }]));
    let symbols = document_symbols_from_lsp(&flat);
    assert_eq!(symbols[0].selection_start, point(1, 2));
    assert_eq!(symbols[0].end, point(3, 4));
    assert_eq!(symbols[0].kind, 12);
    assert!(document_symbols_from_lsp(&None).is_empty());
}

#[test]
fn broken_symbols_are_reported_and_broken_children_left_out() {
    let symbol = || DocumentSymbol {
        name: "a".to_string(),
        kind: 1,
        start: point(0, 0),
        end: point(0, 1),
        selection_start: point(0, 0),
        selection_end: point(0, 1),
        children: vec![],
    };
    let mut parent = symbol();
    parent.children.push(symbol());
    parent.children.push(symbol());
    let mut messages = document_symbols_to_proto(&vec![parent]);
    messages[0].children[0].selection_end = None;
    let read = document_symbols_from_proto(&messages).unwrap();
    assert_eq!(read[0].children.len(), 1);
    let broken = |field: usize| {
        let mut messages = document_symbols_to_proto(&vec![symbol()]);
        match field {
            0 => messages[0].start = None,
            1 => messages[0].end = None,
            2 => messages[0].selection_start = None,
            _ => messages[0].selection_end = None,
        }
        document_symbols_from_proto(&messages).unwrap_err()
    };
    assert_eq!(broken(0), SymbolWireError::InvalidStart);
    assert_eq!(broken(1), SymbolWireError::InvalidEnd);
    assert_eq!(broken(2), SymbolWireError::InvalidSelectionStart);
    assert_eq!(broken(3), SymbolWireError::InvalidSelectionEnd);
    assert_eq!(broken(0).message(), "invalid start");
    assert_eq!(broken(1).message(), "invalid end");
    assert_eq!(broken(2).message(), "invalid selection start");
    assert_eq!(broken(3).message(), "invalid selection end");
}

fn block(text: &str, kind: HoverBlockKind) -> HoverBlock {
    HoverBlock { text: text.to_string(), kind }
}

#[test]
fn empty_hover_parts_are_left_out() {
    let array = HoverContents::Array(vec![
        MarkedString::Text(String::new()),
        MarkedString::Text("doc".to_string()),
        MarkedString::Code { language: "rust".to_string(), value: "fn f()".to_string() },
    ]);
    let hover = hover_from_lsp(Some((array, Some((3, 7))))).unwrap();
    assert_eq!(hover.contents.len(), 2);
    assert_eq!(hover.range, Some((3, 7)));
    assert!(matches!(hover.contents[0].kind, HoverBlockKind::Markdown));
    assert!(matches!(&hover.contents[1].kind, HoverBlockKind::Code { language } if language == "rust"));
    let scalar = HoverContents::Scalar(MarkedString::Text(String::new()));
    assert!(hover_from_lsp(Some((scalar, None))).unwrap().contents.is_empty());
    let markup = HoverContents::Markup { is_markdown: false, value: String::new() };
    assert_eq!(hover_from_lsp(Some((markup, None))).unwrap().contents.len(), 1);
    assert!(hover_from_lsp(None).is_none());
}

#[test]
fn hovers_without_text_are_dropped() {
    let hover = Hover {
        contents: vec![
            block("  ", HoverBlockKind::Markdown),
            block("text", HoverBlockKind::PlainText),
        ],
        range: None,
    };
    let kept = remove_empty_hover_blocks(hover).unwrap();
    assert_eq!(kept.contents.len(), 1);
    assert_eq!(kept.contents[0].text, "text");
    let blank = || Hover { contents: vec![block("\n", HoverBlockKind::Markdown)], range: None };
    assert!(remove_empty_hover_blocks(blank()).is_none());
    let full = Hover { contents: vec![block("a", HoverBlockKind::Markdown)], range: Some((0, 1)) };
    let kept = collect_hovers(vec![None, Some(blank()), Some(full)]);
    assert_eq!(kept.len(), 1);
    assert_eq!(kept[0].range, Some((0, 1)));
}

#[test]
fn hovers_travel() {
    let hover = Hover {
        contents: vec![
            block("a", HoverBlockKind::Markdown),
            block("b", HoverBlockKind::Code { language: "c".to_string() }),
            block("d", HoverBlockKind::PlainText),
        ],
        range: Some((1, 2)),
    };
    let read = hover_from_proto(hover_to_proto(Some(hover))).unwrap();
    assert_eq!(read.range, Some((1, 2)));
    assert!(matches!(read.contents[0].kind, HoverBlockKind::Markdown));
    assert!(matches!(&read.contents[1].kind, HoverBlockKind::Code { language } if language == "c"));
    assert!(matches!(read.contents[2].kind, HoverBlockKind::PlainText));
    assert!(hover_from_proto(hover_to_proto(None)).is_none());
    let half = ProtoHover {
        start: Some(1),
        end: None,
        contents: vec![ProtoHoverBlock {
            text: "a".to_string(),
            is_markdown: true,
            language: None,
        }],
    };
    assert_eq!(hover_from_proto(half).unwrap().range, None);
}

#[test]
fn tokens_are_read() {
    let all = semantic_tokens_from_lsp(Some(SemanticTokensReply::Tokens {
        data: vec![1, 2, 3, 4, 5],
        result_id: Some("r".to_string()),
    }));
    let all = all.unwrap();
    assert!(matches!(&all, SemanticTokensResponse::Full { data, .. } if data.len() == 5));
    let read = semantic_tokens_from_proto(semantic_tokens_to_proto(all, 4));
    assert!(matches!(
        &read,
        SemanticTokensResponse::Full { result_id: Some(id), .. } if id == "r"
    ));
    let changed = semantic_tokens_from_lsp(Some(SemanticTokensReply::TokensDelta {
        edits: vec![LspTokensEdit { start: 5, delete_count: 10, data: None }],
        result_id: None,
    }));
    match changed.unwrap() {
        SemanticTokensResponse::Delta { edits, result_id } => {
            assert_eq!(edits[0].start, 5);
            assert_eq!(edits[0].delete_count, 10);
            assert!(edits[0].data.is_empty());
            assert_eq!(result_id, None);
        }
        _ => panic!("what changed stays what changed"),
    }
    assert!(matches!(
        semantic_tokens_from_lsp(None),
        Ok(SemanticTokensResponse::Delta { edits, result_id: None }) if edits.is_empty()
    ));
    assert_eq!(
        semantic_tokens_from_lsp(Some(SemanticTokensReply::Partial)).unwrap_err().message(),
        "Unexpected semantic tokens response with partial result for inlay hints"
    );
}

fn range(start: u32, end: u32) -> LspRange {
    LspRange {
        start: point(0, start),
        end: point(0, end),
        clipped_start: point(0, start),
        clipped_end: point(0, end),
    }
}

#[test]
fn linked_ranges_are_sorted() {
    let ranges = linked_ranges_from_lsp(Some(vec![range(8, 9), range(2, 5), range(2, 3)]));
    let starts: Vec<(u32, u32)> = ranges.iter().map(|r| (r.start.column, r.end.column)).collect();
    assert_eq!(starts, vec![(2, 5), (2, 3), (8, 9)]);
    assert!(linked_ranges_from_lsp(None).is_empty());
    let sent = vec![(1, 2), (5, 6)];
    let mut message = linked_ranges_to_proto(&sent);
    assert_eq!(linked_ranges_from_proto(&message), sent);
    message.insert(1, ProtoAnchorRange { start: Some(3), end: None });
    assert_eq!(linked_ranges_from_proto(&message), sent);
}

fn fold(start_line: u32, end_line: u32, text: Option<&str>) -> FoldingRange {
    FoldingRange {
        start_line,
        start_character: None,
        end_line,
        end_character: Some(1),
        collapsed_text: text.map(|text| text.to_string()),
    }
}

#[test]
fn folds_span_rows_of_the_buffer() {
    let message = Some(vec![
        fold(0, 2, Some("fn a() {\n    ..\n}")),
        fold(3, 3, None),
        fold(4, 3, None),
        fold(5, 11, None),
        fold(5, 10, Some("")),
    ]);
    let folds = folding_ranges_from_lsp(&message, 10);
    assert_eq!(folds.len(), 2);
    assert_eq!(folds[0].start, point(0, u32::MAX));
    assert_eq!(folds[0].end, point(2, 1));
    assert_eq!(folds[0].collapsed_text.as_deref(), Some("fn a() { .. }"));
    assert_eq!(folds[1].start.row, 5);
    assert_eq!(folds[1].collapsed_text, None);
    assert!(folding_ranges_from_lsp(&None, 10).is_empty());
}

#[test]
fn folds_travel() {
    let sent = vec![
        LspFoldingRange { start: 1, end: 2, collapsed_text: Some("..".to_string()) },
        LspFoldingRange { start: 3, end: 4, collapsed_text: None },
    ];
    let message = folding_ranges_to_proto(&sent);
    let read = folding_ranges_from_proto(&message).unwrap();
    assert_eq!(read[0].collapsed_text.as_deref(), Some(".."));
    assert_eq!((read[1].start, read[1].end), (3, 4));
    assert_eq!(read[1].collapsed_text, None);
    let short = ProtoFoldingRanges { ranges: vec![Some((1, 2))], collapsed_texts: vec![] };
    assert_eq!(folding_ranges_from_proto(&short).unwrap()[0].collapsed_text, None);
    let broken = ProtoFoldingRanges { ranges: vec![None], collapsed_texts: vec![] };
    assert!(folding_ranges_from_proto(&broken).is_none());
}

#[test]
fn colors_travel_unresolved() {
    let color = Color { red: 1, green: 2, blue: 3, alpha: 4 };
    let stated = ColorInformation { start: point(0, 1), end: point(0, 8), color };
    let colors = document_colors_from_lsp(&vec![stated]);
    assert!(!colors[0].resolved);
    let mut messages = document_colors_to_proto(&colors);
    messages.push(ProtoColor { color, start: None, end: Some(point(1, 1)) });
    let read = document_colors_from_proto(&messages);
    assert_eq!(read.len(), 1);
    assert_eq!(read[0].color, color);
    assert_eq!(read[0].end, point(0, 8));
    assert!(matches!(resolve_color_presentation(&colors[0], true, true), ResolvePlan::Ask));
    assert!(matches!(resolve_color_presentation(&colors[0], true, false), ResolvePlan::Keep));
    assert!(matches!(
        resolve_color_presentation(&colors[0], false, true),
        ResolvePlan::MissingPath
    ));
    let mut colors = colors;
    let presentation = ColorPresentation { label: "#010203".to_string() };
    let resolved = color_resolved(colors.remove(0), vec![presentation]);
    assert!(resolved.resolved);
    assert_eq!(resolved.color_presentations[0].label, "#010203");
    assert!(matches!(resolve_color_presentation(&resolved, false, false), ResolvePlan::Keep));
}

fn span(row: u32) -> LspSpan {
    LspSpan { start: point(row, 0), end: point(row, 5) }
}

fn target(in_worktree: bool, worktree_is_visible: bool) -> LinkTarget {
    LinkTarget { has_path: true, in_worktree, worktree_is_visible, worktree_is_single_file: false }
}

#[test]
fn links_outside_of_the_workspace_can_be_left_out() {
    let answer = || {
        Some(GotoDefinitionResponse::Array(vec![
            LspLocation { uri: "file:///a".to_string(), range: span(1) },
            LspLocation { uri: "file:///b".to_string(), range: span(2) },
            LspLocation { uri: "file:///c".to_string(), range: span(3) },
        ]))
    };
    let targets = vec![target(true, false), target(true, true), target(false, true)];
    let links = location_links_from_lsp(answer(), &targets, true, true).unwrap();
    assert_eq!(links.len(), 1);
    assert_eq!(links[0].target_uri, "file:///b");
    assert_eq!(links[0].origin_selection_range, None);
    let links = location_links_from_lsp(answer(), &targets, false, true).unwrap();
    assert_eq!(links.len(), 3);
    let refused = location_links_from_lsp(answer(), &targets, false, false).unwrap_err();
    assert_eq!(refused.message(), "no language server found for buffer");
    assert!(location_links_from_lsp(None, &vec![], true, false).unwrap().is_empty());
    let scalar = GotoDefinitionResponse::Scalar(LspLocation {
        uri: "file:///s".to_string(),
        range: span(7),
    });
    let links = location_links_from_lsp(Some(scalar), &vec![target(false, false)], false, true);
    assert_eq!(links.unwrap()[0].target_selection_range, span(7));
}

#[test]
fn links_lead_between_buffers() {
    let link = LspLocationLink {
        origin_selection_range: Some(span(0)),
        target_uri: "file:///t".to_string(),
        target_selection_range: span(4),
    };
    let found = location_link_from_lsp(&link, true, 1, (10, 11), 2, (20, 21)).unwrap();
    assert_eq!(found.origin, Some(Location { buffer: 1, start: 10, end: 11 }));
    assert_eq!(found.target, Location { buffer: 2, start: 20, end: 21 });
    let plain = LspLocationLink { origin_selection_range: None, ..link };
    let found = location_link_from_lsp(&plain, true, 1, (10, 11), 2, (20, 21)).unwrap();
    assert_eq!(found.origin, None);
    assert_eq!(
        location_link_from_lsp(&plain, false, 1, (10, 11), 2, (20, 21)),
        Err(NoLanguageServer)
    );
}

#[test]
fn links_travel() {
    let target = Location { buffer: 2, start: 5, end: 6 };
    let sent = vec![
        LocationLink { origin: Some(Location { buffer: 1, start: 3, end: 4 }), target },
        LocationLink { origin: None, target },
    ];
    assert_eq!(location_links_from_proto(&location_links_to_proto(&sent)), Ok(sent));
    let whole = ProtoLocation { buffer_id: Some(1), start: Some(2), end: Some(3) };
    let error = |origin: Option<ProtoLocation>, target: Option<ProtoLocation>| {
        location_link_from_proto(ProtoLocationLink { origin, target }).unwrap_err()
    };
    let without_start = Some(ProtoLocation { start: None, ..whole });
    let without_end = Some(ProtoLocation { end: None, ..whole });
    let without_buffer = Some(ProtoLocation { buffer_id: None, ..whole });
    assert_eq!(error(without_buffer, Some(whole)), LinkError::InvalidBuffer);
    assert_eq!(error(without_start, None), LinkError::MissingOriginStart);
    assert_eq!(error(without_end, None), LinkError::MissingOriginEnd);
    assert_eq!(error(Some(whole), None), LinkError::MissingTarget);
    assert_eq!(error(None, without_start), LinkError::MissingTargetStart);
    assert_eq!(error(None, without_end), LinkError::MissingTargetEnd);
    assert_eq!(LinkError::MissingOriginStart.message(), "missing origin start");
    assert_eq!(LinkError::MissingOriginEnd.message(), "missing origin end");
    assert_eq!(LinkError::MissingTarget.message(), "missing target");
    assert_eq!(LinkError::MissingTargetStart.message(), "missing target start");
    assert_eq!(LinkError::MissingTargetEnd.message(), "missing target end");
    let one = LocationLink { origin: None, target };
    assert_eq!(location_link_from_proto(location_link_to_proto(one)), Ok(one));
}

#[test]
fn formatting_follows_the_settings() {
    let options = lsp_formatting_options(&LanguageSettings {
        tab_size: 2,
        hard_tabs: false,
        remove_trailing_whitespace_on_save: true,
        ensure_final_newline_on_save: false,
    });
    assert_eq!(options.tab_size, 2);
    assert!(options.insert_spaces);
    assert_eq!(options.trim_trailing_whitespace, Some(true));
    assert_eq!(options.trim_final_newlines, Some(false));
    assert_eq!(options.insert_final_newline, Some(false));
}
