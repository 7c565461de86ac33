//! The requests that are made of language servers.
use vstd::prelude::*;

use crate::lsp_command::hover::Hover;
use crate::lsp_command::ranges::LspFoldingRange;
use crate::lsp_command::rename::{
    preparation, PerformRename, PrepareRename, PrepareRenameResponse, RenameParams, RenameProvider,
};
use crate::lsp_command::symbols::DocumentSymbol;
use crate::lsp_command::colors::DocumentColor;
use crate::lsp_command::highlights::DocumentHighlight;
use crate::lsp_command::tokens::{
    delta_tokens_supported, full_tokens_supported, SemanticTokensFullOptions,
    SemanticTokensResponse,
};
use crate::lsp_command::{
    is_switched_on, make_lsp_text_document_position, make_text_document_identifier,
    params_or_response, requested_position, InvalidRequestPosition, LspParamsOrResponse,
    RequestError, Switch, TextDocumentPosition,
};
use crate::lsp_store::text_edits::PointUtf16;

verus! {

/// What a server can be asked.
#[derive(Clone, Copy, Debug, PartialEq, Eq, Structural)]
pub struct RequestCapabilities {
    pub rename_provider: Option<RenameProvider>,
    pub document_highlight_provider: Option<Switch>,
    pub document_symbol_provider: Option<Switch>,
    pub hover_provider: Option<Switch>,
    /// How all tokens of a document are offered, where tokens are.
    pub semantic_tokens_full: Option<SemanticTokensFullOptions>,
    pub linked_editing_range_provider: Option<Switch>,
    pub color_provider: Option<Switch>,
    pub folding_range_provider: Option<Switch>,
}

/// A capability with options, or one that is simply there.
pub open spec fn is_on(capability: Option<Switch>) -> bool {
    capability == Some(Switch::Simple(true)) || capability == Some(Switch::WithOptions)
}

/// A request to language servers.
pub trait LspCommand: Sized {
    /// What is sent to a server.
    type Params;

    /// What is known once a server has answered.
    type Response;

    /// How the request is called.
    spec fn title() -> Seq<char>;

    /// Whether a server can be asked.
    spec fn is_supported(capabilities: RequestCapabilities) -> bool;

    /// What is asked about a document.
    spec fn params_for(self, uri: String) -> Self::Params;

    /// The answer says nothing.
    spec fn says_nothing(response: Self::Response) -> bool;

    fn display_name(&self) -> (name: &'static str)
        ensures
            name@ == Self::title(),
    ;

    /// What is shown while the request is under way: nothing, unless a request has its own.
    fn status(&self) -> (status: Option<String>)
        default_ensures
            status is None,
    {
        None
    }

    /// When false, the answer that says nothing is given without asking.
    fn check_capabilities(&self, capabilities: &RequestCapabilities) -> (capable: bool)
        ensures
            capable == Self::is_supported(*capabilities),
    ;

    fn to_lsp(&self, uri: Option<String>) -> (params: Result<Self::Params, RequestError>)
        ensures
            params == (match uri {
                Some(uri) => Ok(self.params_for(uri)),
                None => Err(RequestError::InvalidFilePath),
            }),
    ;

    fn empty_response() -> (response: Self::Response)
        ensures
            Self::says_nothing(response),
    ;

    /// What is sent to a server, where it can be asked.
    fn to_lsp_params_or_response(
        &self,
        uri: Option<String>,
        capabilities: &RequestCapabilities,
    ) -> (result: Result<LspParamsOrResponse<Self::Params, Self::Response>, RequestError>)
        default_ensures
            match result {
                Ok(LspParamsOrResponse::Params(params)) => {
                    &&& Self::is_supported(*capabilities)
                    &&& uri matches Some(uri) && params == self.params_for(uri)
                },
                Ok(LspParamsOrResponse::Response(response)) => {
                    &&& !Self::is_supported(*capabilities)
                    &&& Self::says_nothing(response)
                },
                Err(error) => {
                    &&& Self::is_supported(*capabilities)
                    &&& uri is None
                    &&& error == RequestError::InvalidFilePath
                },
            },
    {
        params_or_response(
            self.check_capabilities(capabilities),
            self.to_lsp(uri),
            Self::empty_response(),
        )
    }
}

impl LspCommand for PrepareRename {
    type Params = TextDocumentPosition;

    type Response = PrepareRenameResponse<PointUtf16>;

    open spec fn title() -> Seq<char> {
        "Prepare rename"@
    }

    open spec fn is_supported(capabilities: RequestCapabilities) -> bool {
        capabilities.rename_provider == Some(RenameProvider::Simple(true))
            || capabilities.rename_provider == Some(
            RenameProvider::Options { prepare_provider: Some(true) },
        )
    }

    open spec fn params_for(self, uri: String) -> TextDocumentPosition {
        TextDocumentPosition { uri, position: self.position }
    }

    open spec fn says_nothing(response: PrepareRenameResponse<PointUtf16>) -> bool {
        response is InvalidPosition
    }

    fn display_name(&self) -> (name: &'static str) {
        "Prepare rename"
    }

    fn check_capabilities(&self, capabilities: &RequestCapabilities) -> (capable: bool) {
        match capabilities.rename_provider {
            Some(RenameProvider::Simple(enabled)) => enabled,
            Some(RenameProvider::Options { prepare_provider }) => match prepare_provider {
                Some(prepare) => prepare,
                None => false,
            },
            None => false,
        }
    }

    fn to_lsp(&self, uri: Option<String>) -> (params: Result<TextDocumentPosition, RequestError>) {
        make_lsp_text_document_position(uri, self.position)
    }

    fn empty_response() -> (response: PrepareRenameResponse<PointUtf16>) {
        PrepareRenameResponse::InvalidPosition
    }

    /// A server that renames without preparing it is not asked, and one that does not rename
    /// cannot be.
    fn to_lsp_params_or_response(
        &self,
        uri: Option<String>,
        capabilities: &RequestCapabilities,
    ) -> (result: Result<
        LspParamsOrResponse<TextDocumentPosition, PrepareRenameResponse<PointUtf16>>,
        RequestError,
    >)
        ensures
            result == preparation(capabilities.rename_provider, uri, self.position),
    {
        match capabilities.rename_provider {
            Some(RenameProvider::Options { prepare_provider: Some(true) }) => {
                match self.to_lsp(uri) {
                    Ok(params) => Ok(LspParamsOrResponse::Params(params)),
                    Err(error) => Err(error),
                }
            },
            Some(RenameProvider::Options { .. }) => Ok(
                LspParamsOrResponse::Response(
                    PrepareRenameResponse::OnlyUnpreparedRenameSupported,
                ),
            ),
            Some(RenameProvider::Simple(true)) => Ok(
                LspParamsOrResponse::Response(
                    PrepareRenameResponse::OnlyUnpreparedRenameSupported,
                ),
            ),
            _ => Err(RequestError::RenameNotSupported),
        }
    }
}

/// What was changed by a rename: the buffers, by their numbers.
#[derive(Debug)]
pub struct ProjectTransaction {
    pub buffers: Vec<u64>,
}

impl LspCommand for PerformRename {
    type Params = RenameParams;

    type Response = ProjectTransaction;

    open spec fn title() -> Seq<char> {
        "Rename"@
    }

    open spec fn is_supported(capabilities: RequestCapabilities) -> bool {
        capabilities.rename_provider is Some && capabilities.rename_provider != Some(
            RenameProvider::Simple(false),
        )
    }

    open spec fn params_for(self, uri: String) -> RenameParams {
        RenameParams {
            text_document_position: TextDocumentPosition { uri, position: self.position },
            new_name: self.new_name,
        }
    }

    open spec fn says_nothing(response: ProjectTransaction) -> bool {
        response.buffers@.len() == 0
    }

    fn display_name(&self) -> (name: &'static str) {
        "Rename"
    }

    fn check_capabilities(&self, capabilities: &RequestCapabilities) -> (capable: bool) {
        match capabilities.rename_provider {
            Some(RenameProvider::Simple(enabled)) => enabled,
            Some(RenameProvider::Options { .. }) => true,
            None => false,
        }
    }

    fn to_lsp(&self, uri: Option<String>) -> (params: Result<RenameParams, RequestError>) {
        match make_lsp_text_document_position(uri, self.position) {
            Ok(position) => Ok(
                RenameParams {
                    text_document_position: position,
                    new_name: self.new_name.clone(),
                },
            ),
            Err(error) => Err(error),
        }
    }

    fn empty_response() -> (response: ProjectTransaction) {
        ProjectTransaction { buffers: Vec::new() }
    }
}

/// Asks where else a symbol occurs in a document.
#[derive(Clone, Copy, Debug, PartialEq, Eq, Structural)]
pub struct GetDocumentHighlights {
    pub position: PointUtf16,
}

impl LspCommand for GetDocumentHighlights {
    type Params = TextDocumentPosition;

    type Response = Vec<DocumentHighlight<PointUtf16>>;

    open spec fn title() -> Seq<char> {
        "Get document highlights"@
    }

    open spec fn is_supported(capabilities: RequestCapabilities) -> bool {
        is_on(capabilities.document_highlight_provider)
    }

    open spec fn params_for(self, uri: String) -> TextDocumentPosition {
        TextDocumentPosition { uri, position: self.position }
    }

    open spec fn says_nothing(response: Vec<DocumentHighlight<PointUtf16>>) -> bool {
        response@.len() == 0
    }

    fn display_name(&self) -> (name: &'static str) {
        "Get document highlights"
    }

    fn check_capabilities(&self, capabilities: &RequestCapabilities) -> (capable: bool) {
        is_switched_on(capabilities.document_highlight_provider)
    }

    fn to_lsp(&self, uri: Option<String>) -> (params: Result<TextDocumentPosition, RequestError>) {
        make_lsp_text_document_position(uri, self.position)
    }

    fn empty_response() -> (response: Vec<DocumentHighlight<PointUtf16>>) {
        Vec::new()
    }
}

/// Asks for the symbols of a document.
#[derive(Clone, Copy, Debug, PartialEq, Eq, Structural)]
pub struct GetDocumentSymbols;

impl LspCommand for GetDocumentSymbols {
    type Params = String;

    type Response = Vec<DocumentSymbol>;

    open spec fn title() -> Seq<char> {
        "Get document symbols"@
    }

    open spec fn is_supported(capabilities: RequestCapabilities) -> bool {
        is_on(capabilities.document_symbol_provider)
    }

    open spec fn params_for(self, uri: String) -> String {
        uri
    }

    open spec fn says_nothing(response: Vec<DocumentSymbol>) -> bool {
        response@.len() == 0
    }

    fn display_name(&self) -> (name: &'static str) {
        "Get document symbols"
    }

    fn check_capabilities(&self, capabilities: &RequestCapabilities) -> (capable: bool) {
        is_switched_on(capabilities.document_symbol_provider)
    }

    fn to_lsp(&self, uri: Option<String>) -> (params: Result<String, RequestError>) {
        make_text_document_identifier(uri)
    }

    fn empty_response() -> (response: Vec<DocumentSymbol>) {
        Vec::new()
    }
}

/// Asks what there is to say about a place.
#[derive(Clone, Copy, Debug, PartialEq, Eq, Structural)]
pub struct GetHover {
    pub position: PointUtf16,
}

impl LspCommand for GetHover {
    type Params = TextDocumentPosition;

    type Response = Option<Hover>;

    open spec fn title() -> Seq<char> {
        "Get hover"@
    }

    open spec fn is_supported(capabilities: RequestCapabilities) -> bool {
        is_on(capabilities.hover_provider)
    }

    open spec fn params_for(self, uri: String) -> TextDocumentPosition {
        TextDocumentPosition { uri, position: self.position }
    }

    open spec fn says_nothing(response: Option<Hover>) -> bool {
        response is None
    }

    fn display_name(&self) -> (name: &'static str) {
        "Get hover"
    }

    fn check_capabilities(&self, capabilities: &RequestCapabilities) -> (capable: bool) {
        is_switched_on(capabilities.hover_provider)
    }

    fn to_lsp(&self, uri: Option<String>) -> (params: Result<TextDocumentPosition, RequestError>) {
        make_lsp_text_document_position(uri, self.position)
    }

    fn empty_response() -> (response: Option<Hover>) {
        None
    }
}

/// Asks for all semantic tokens of a document, perhaps of one server only.
#[derive(Clone, Copy, Debug, PartialEq, Eq, Structural)]
pub struct SemanticTokensFull {
    pub for_server: Option<u64>,
}

pub open spec fn is_no_change(response: SemanticTokensResponse) -> bool {
    response matches SemanticTokensResponse::Delta { edits, result_id } && edits@.len() == 0
        && result_id is None
}

impl LspCommand for SemanticTokensFull {
    type Params = String;

    type Response = SemanticTokensResponse;

    open spec fn title() -> Seq<char> {
        "Semantic tokens full"@
    }

    open spec fn is_supported(capabilities: RequestCapabilities) -> bool {
        capabilities.semantic_tokens_full is Some && capabilities.semantic_tokens_full != Some(
            SemanticTokensFullOptions::Simple(false),
        )
    }

    open spec fn params_for(self, uri: String) -> String {
        uri
    }

    open spec fn says_nothing(response: SemanticTokensResponse) -> bool {
        is_no_change(response)
    }

    fn display_name(&self) -> (name: &'static str) {
        "Semantic tokens full"
    }

    fn check_capabilities(&self, capabilities: &RequestCapabilities) -> (capable: bool) {
        full_tokens_supported(capabilities.semantic_tokens_full)
    }

    fn to_lsp(&self, uri: Option<String>) -> (params: Result<String, RequestError>) {
        make_text_document_identifier(uri)
    }

    fn empty_response() -> (response: SemanticTokensResponse) {
        SemanticTokensResponse::default()
    }
}

/// Asks what changed of the semantic tokens since an earlier answer.
#[derive(Debug)]
pub struct SemanticTokensDelta {
    pub previous_result_id: String,
}

#[derive(Debug)]
pub struct SemanticTokensDeltaParams {
    pub uri: String,
    pub previous_result_id: String,
}

impl LspCommand for SemanticTokensDelta {
    type Params = SemanticTokensDeltaParams;

    type Response = SemanticTokensResponse;

    open spec fn title() -> Seq<char> {
        "Semantic tokens delta"@
    }

    open spec fn is_supported(capabilities: RequestCapabilities) -> bool {
        capabilities.semantic_tokens_full == Some(
            SemanticTokensFullOptions::Delta { delta: Some(true) },
        )
    }

    open spec fn params_for(self, uri: String) -> SemanticTokensDeltaParams {
        SemanticTokensDeltaParams { uri, previous_result_id: self.previous_result_id }
    }

    open spec fn says_nothing(response: SemanticTokensResponse) -> bool {
        is_no_change(response)
    }

    fn display_name(&self) -> (name: &'static str) {
        "Semantic tokens delta"
    }

    fn check_capabilities(&self, capabilities: &RequestCapabilities) -> (capable: bool) {
        delta_tokens_supported(capabilities.semantic_tokens_full)
    }

    fn to_lsp(&self, uri: Option<String>) -> (params: Result<SemanticTokensDeltaParams, RequestError>) {
        match make_text_document_identifier(uri) {
            Ok(uri) => Ok(
                SemanticTokensDeltaParams {
                    uri,
                    previous_result_id: self.previous_result_id.clone(),
                },
            ),
            Err(error) => Err(error),
        }
    }

    fn empty_response() -> (response: SemanticTokensResponse) {
        SemanticTokensResponse::default()
    }
}

/// Asks which ranges are edited together with the one at a place.
#[derive(Clone, Copy, Debug, PartialEq, Eq, Structural)]
pub struct LinkedEditingRange {
    pub position: PointUtf16,
}

impl LinkedEditingRange {
    /// Whether a server links ranges: everything but a plain no counts.
    pub fn check_server_capabilities(capabilities: &RequestCapabilities) -> (supported: bool)
        ensures
            supported == is_on(capabilities.linked_editing_range_provider),
    {
        match capabilities.linked_editing_range_provider {
            None => false,
            Some(Switch::Simple(false)) => false,
            Some(_) => true,
        }
    }
}

impl LspCommand for LinkedEditingRange {
    type Params = TextDocumentPosition;

    type Response = Vec<(u64, u64)>;

    open spec fn title() -> Seq<char> {
        "Linked editing range"@
    }

    open spec fn is_supported(capabilities: RequestCapabilities) -> bool {
        is_on(capabilities.linked_editing_range_provider)
    }

    open spec fn params_for(self, uri: String) -> TextDocumentPosition {
        TextDocumentPosition { uri, position: self.position }
    }

    open spec fn says_nothing(response: Vec<(u64, u64)>) -> bool {
        response@.len() == 0
    }

    fn display_name(&self) -> (name: &'static str) {
        "Linked editing range"
    }

    fn check_capabilities(&self, capabilities: &RequestCapabilities) -> (capable: bool) {
        Self::check_server_capabilities(capabilities)
    }

    fn to_lsp(&self, uri: Option<String>) -> (params: Result<TextDocumentPosition, RequestError>) {
        make_lsp_text_document_position(uri, self.position)
    }

    fn empty_response() -> (response: Vec<(u64, u64)>) {
        Vec::new()
    }
}

/// Asks for the colors of a document.
#[derive(Clone, Copy, Debug, PartialEq, Eq, Structural)]
pub struct GetDocumentColor;

impl LspCommand for GetDocumentColor {
    type Params = String;

    type Response = Vec<DocumentColor>;

    open spec fn title() -> Seq<char> {
        "Document color"@
    }

    open spec fn is_supported(capabilities: RequestCapabilities) -> bool {
        is_on(capabilities.color_provider)
    }

    open spec fn params_for(self, uri: String) -> String {
        uri
    }

    open spec fn says_nothing(response: Vec<DocumentColor>) -> bool {
        response@.len() == 0
    }

    fn display_name(&self) -> (name: &'static str) {
        "Document color"
    }

    fn check_capabilities(&self, capabilities: &RequestCapabilities) -> (capable: bool) {
        is_switched_on(capabilities.color_provider)
    }

    fn to_lsp(&self, uri: Option<String>) -> (params: Result<String, RequestError>) {
        make_text_document_identifier(uri)
    }

    fn empty_response() -> (response: Vec<DocumentColor>) {
        Vec::new()
    }
}

/// Asks which ranges of a document can be folded.
#[derive(Clone, Copy, Debug, PartialEq, Eq, Structural)]
pub struct GetFoldingRanges;

impl LspCommand for GetFoldingRanges {
    type Params = String;

    type Response = Vec<LspFoldingRange>;

    open spec fn title() -> Seq<char> {
        "Folding ranges"@
    }

    open spec fn is_supported(capabilities: RequestCapabilities) -> bool {
        is_on(capabilities.folding_range_provider)
    }

    open spec fn params_for(self, uri: String) -> String {
        uri
    }

    open spec fn says_nothing(response: Vec<LspFoldingRange>) -> bool {
        response@.len() == 0
    }

    fn display_name(&self) -> (name: &'static str) {
        "Folding ranges"
    }

    fn check_capabilities(&self, capabilities: &RequestCapabilities) -> (capable: bool) {
        is_switched_on(capabilities.folding_range_provider)
    }

    fn to_lsp(&self, uri: Option<String>) -> (params: Result<String, RequestError>) {
        make_text_document_identifier(uri)
    }

    fn empty_response() -> (response: Vec<LspFoldingRange>) {
        Vec::new()
    }
}

/// The wire form of a request about a document.
#[derive(Clone, Copy, Debug, PartialEq, Eq, Structural)]
pub struct ProtoDocumentRequest {
    pub project_id: u64,
    pub buffer_id: u64,
    /// The version of the buffer that the request is about.
    pub version: u64,
}

/// The wire form of a request about a place, which is an anchor. One that cannot be read is
/// missing.
#[derive(Clone, Copy, Debug, PartialEq, Eq, Structural)]
pub struct ProtoPositionRequest {
    pub document: ProtoDocumentRequest,
    pub position: Option<u64>,
}

#[derive(Debug)]
pub struct ProtoPerformRename {
    pub request: ProtoPositionRequest,
    pub new_name: String,
}

#[derive(Clone, Copy, Debug, PartialEq, Eq, Structural)]
pub struct ProtoSemanticTokensRequest {
    pub document: ProtoDocumentRequest,
    pub for_server: Option<u64>,
}

impl PrepareRename {
    /// The wire form, with the anchor of the place.
    pub fn to_proto(&self, document: ProtoDocumentRequest, anchor: u64) -> (message:
        ProtoPositionRequest)
        ensures
            message == (ProtoPositionRequest { document, position: Some(anchor) }),
    {
        ProtoPositionRequest { document, position: Some(anchor) }
    }

    /// A request that came over the wire. `point` is where its anchor is in the buffer.
    pub fn from_proto(message: &ProtoPositionRequest, point: PointUtf16) -> (request: Result<
        Self,
        InvalidRequestPosition,
    >)
        ensures
            request == (match message.position {
                Some(_) => Ok(PrepareRename { position: point }),
                None => Err(InvalidRequestPosition),
            }),
    {
        match requested_position(message.position) {
            Ok(_) => Ok(PrepareRename { position: point }),
            Err(error) => Err(error),
        }
    }
}

impl GetDocumentHighlights {
    /// The wire form, with the anchor of the place.
    pub fn to_proto(&self, document: ProtoDocumentRequest, anchor: u64) -> (message:
        ProtoPositionRequest)
        ensures
            message == (ProtoPositionRequest { document, position: Some(anchor) }),
    {
        ProtoPositionRequest { document, position: Some(anchor) }
    }

    /// A request that came over the wire. `point` is where its anchor is in the buffer.
    pub fn from_proto(message: &ProtoPositionRequest, point: PointUtf16) -> (request: Result<
        Self,
        InvalidRequestPosition,
    >)
        ensures
            request == (match message.position {
                Some(_) => Ok(GetDocumentHighlights { position: point }),
                None => Err(InvalidRequestPosition),
            }),
    {
        match requested_position(message.position) {
            Ok(_) => Ok(GetDocumentHighlights { position: point }),
            Err(error) => Err(error),
        }
    }
}

impl GetHover {
    /// The wire form, with the anchor of the place.
    pub fn to_proto(&self, document: ProtoDocumentRequest, anchor: u64) -> (message:
        ProtoPositionRequest)
        ensures
            message == (ProtoPositionRequest { document, position: Some(anchor) }),
    {
        ProtoPositionRequest { document, position: Some(anchor) }
    }

    /// A request that came over the wire. `point` is where its anchor is in the buffer.
    pub fn from_proto(message: &ProtoPositionRequest, point: PointUtf16) -> (request: Result<
        Self,
        InvalidRequestPosition,
    >)
        ensures
            request == (match message.position {
                Some(_) => Ok(GetHover { position: point }),
                None => Err(InvalidRequestPosition),
            }),
    {
        match requested_position(message.position) {
            Ok(_) => Ok(GetHover { position: point }),
            Err(error) => Err(error),
        }
    }
}

impl LinkedEditingRange {
    /// The wire form, with the anchor of the place.
    pub fn to_proto(&self, document: ProtoDocumentRequest, anchor: u64) -> (message:
        ProtoPositionRequest)
        ensures
            message == (ProtoPositionRequest { document, position: Some(anchor) }),
    {
        ProtoPositionRequest { document, position: Some(anchor) }
    }

    /// A request that came over the wire. `point` is where its anchor is in the buffer.
    pub fn from_proto(message: &ProtoPositionRequest, point: PointUtf16) -> (request: Result<
        Self,
        InvalidRequestPosition,
    >)
        ensures
            request == (match message.position {
                Some(_) => Ok(LinkedEditingRange { position: point }),
                None => Err(InvalidRequestPosition),
            }),
    {
        match requested_position(message.position) {
            Ok(_) => Ok(LinkedEditingRange { position: point }),
            Err(error) => Err(error),
        }
    }
}

impl PerformRename {
    /// The wire form, with the anchor of the place.
    pub fn to_proto(&self, document: ProtoDocumentRequest, anchor: u64) -> (message:
        ProtoPerformRename)
        ensures
            message == (ProtoPerformRename {
                request: ProtoPositionRequest { document, position: Some(anchor) },
                new_name: self.new_name,
            }),
    {
        ProtoPerformRename {
            request: ProtoPositionRequest { document, position: Some(anchor) },
            new_name: self.new_name.clone(),
        }
    }

    /// A request that came over the wire. Only who asks keeps the history.
    pub fn from_proto(message: ProtoPerformRename, point: PointUtf16) -> (request: Result<
        Self,
        InvalidRequestPosition,
    >)
        ensures
            request == (match message.request.position {
                Some(_) => Ok(
                    PerformRename {
                        position: point,
                        new_name: message.new_name,
                        push_to_history: false,
                    },
                ),
                None => Err(InvalidRequestPosition),
            }),
    {
        match requested_position(message.request.position) {
            Ok(_) => Ok(
                PerformRename {
                    position: point,
                    new_name: message.new_name,
                    push_to_history: false,
                },
            ),
            Err(error) => Err(error),
        }
    }
}

impl SemanticTokensFull {
    pub fn to_proto(&self, document: ProtoDocumentRequest) -> (message: ProtoSemanticTokensRequest)
        ensures
            message == (ProtoSemanticTokensRequest { document, for_server: self.for_server }),
    {
        ProtoSemanticTokensRequest { document, for_server: self.for_server }
    }

    pub fn from_proto(message: &ProtoSemanticTokensRequest) -> (request: Self)
        ensures
            request == (SemanticTokensFull { for_server: message.for_server }),
    {
        SemanticTokensFull { for_server: message.for_server }
    }
}

/// A place can be prepared for renaming without asking only where a server renames, and a
/// server that renames is asked to, whether or not it prepares it.
pub proof fn prepared_renames_can_be_performed(capabilities: RequestCapabilities, uri: Option<
    String,
>, position: PointUtf16)
    ensures
        preparation(capabilities.rename_provider, uri, position) is Ok
            ==> PerformRename::is_supported(capabilities),
        PerformRename::is_supported(capabilities) && uri is Some ==> preparation(
            capabilities.rename_provider,
            uri,
            position,
        ) is Ok,
{
}

/// A server that tells what changed of its tokens can also tell all of them.
pub proof fn delta_tokens_need_full_tokens(capabilities: RequestCapabilities)
    ensures
        SemanticTokensDelta::is_supported(capabilities) ==> SemanticTokensFull::is_supported(
            capabilities,
        ),
{
}
/// Each request is made of servers with the capability that it belongs to.
pub proof fn requests_need_their_own_capability(capabilities: RequestCapabilities)
    ensures
        GetHover::is_supported(capabilities) <==> (capabilities.hover_provider matches Some(switch)
            && !(switch is Simple && !switch->Simple_0)),
        GetDocumentHighlights::is_supported(capabilities) <==> (
        capabilities.document_highlight_provider matches Some(switch) && !(switch is Simple
            && !switch->Simple_0)),
        GetDocumentSymbols::is_supported(capabilities) <==> (
        capabilities.document_symbol_provider matches Some(switch) && !(switch is Simple
            && !switch->Simple_0)),
        LinkedEditingRange::is_supported(capabilities) <==> (
        capabilities.linked_editing_range_provider matches Some(switch) && !(switch is Simple
            && !switch->Simple_0)),
        GetDocumentColor::is_supported(capabilities) <==> (capabilities.color_provider matches Some(
            switch,
        ) && !(switch is Simple && !switch->Simple_0)),
        GetFoldingRanges::is_supported(capabilities) <==> (
        capabilities.folding_range_provider matches Some(switch) && !(switch is Simple
            && !switch->Simple_0)),
        PerformRename::is_supported(capabilities) <==> (capabilities.rename_provider matches Some(
            provider,
        ) && !(provider is Simple && !provider->Simple_0)),
        PrepareRename::is_supported(capabilities) <==> (capabilities.rename_provider matches Some(
            provider,
        ) && (if provider is Simple {
            provider->Simple_0
        } else {
            provider->prepare_provider == Some(true)
        })),
        SemanticTokensFull::is_supported(capabilities) <==> (
        capabilities.semantic_tokens_full matches Some(full) && !(full is Simple
            && !full->Simple_0)),
        SemanticTokensDelta::is_supported(capabilities) <==> (
        capabilities.semantic_tokens_full matches Some(full) && full is Delta && full->delta
            == Some(true)),
{
}

/// A request about a place names the document and the place; a rename also the new name, and a
/// request for changes what they are changes of.
pub proof fn requests_ask_about_their_place(
    uri: String,
    hover: GetHover,
    highlights: GetDocumentHighlights,
    linked: LinkedEditingRange,
    prepare: PrepareRename,
    rename: PerformRename,
    delta: SemanticTokensDelta,
)
    ensures
        hover.params_for(uri).uri == uri && hover.params_for(uri).position == hover.position,
        highlights.params_for(uri).uri == uri && highlights.params_for(uri).position
            == highlights.position,
        linked.params_for(uri).uri == uri && linked.params_for(uri).position == linked.position,
        prepare.params_for(uri).uri == uri && prepare.params_for(uri).position == prepare.position,
        rename.params_for(uri).text_document_position.uri == uri,
        rename.params_for(uri).text_document_position.position == rename.position,
        rename.params_for(uri).new_name == rename.new_name,
        delta.params_for(uri).uri == uri && delta.params_for(uri).previous_result_id
            == delta.previous_result_id,
{
}

/// A request about a whole document names the document.
pub proof fn requests_ask_about_their_document(
    uri: String,
    symbols: GetDocumentSymbols,
    tokens: SemanticTokensFull,
    colors: GetDocumentColor,
    folds: GetFoldingRanges,
)
    ensures
        symbols.params_for(uri) == uri,
        tokens.params_for(uri) == uri,
        colors.params_for(uri) == uri,
        folds.params_for(uri) == uri,
{
}

/// Each request is shown under its own name.
pub proof fn requests_have_names_of_their_own()
    ensures
        PrepareRename::title() == "Prepare rename"@,
        PerformRename::title() == "Rename"@,
        GetDocumentHighlights::title() == "Get document highlights"@,
        GetDocumentSymbols::title() == "Get document symbols"@,
        GetHover::title() == "Get hover"@,
        SemanticTokensFull::title() == "Semantic tokens full"@,
        SemanticTokensDelta::title() == "Semantic tokens delta"@,
        LinkedEditingRange::title() == "Linked editing range"@,
        GetDocumentColor::title() == "Document color"@,
        GetFoldingRanges::title() == "Folding ranges"@,
{
}

/// The answer that is given without asking says nothing: no hover, no places, no tokens, and
/// nothing changed.
pub proof fn empty_answers_say_nothing(
    hover: Option<Hover>,
    highlights: Vec<DocumentHighlight<PointUtf16>>,
    symbols: Vec<DocumentSymbol>,
    linked: Vec<(u64, u64)>,
    colors: Vec<DocumentColor>,
    folds: Vec<LspFoldingRange>,
    transaction: ProjectTransaction,
    tokens: SemanticTokensResponse,
    preparation: PrepareRenameResponse<PointUtf16>,
)
    ensures
        GetHover::says_nothing(hover) <==> hover is None,
        GetDocumentHighlights::says_nothing(highlights) <==> highlights@.len() == 0,
        GetDocumentSymbols::says_nothing(symbols) <==> symbols@.len() == 0,
        LinkedEditingRange::says_nothing(linked) <==> linked@.len() == 0,
        GetDocumentColor::says_nothing(colors) <==> colors@.len() == 0,
        GetFoldingRanges::says_nothing(folds) <==> folds@.len() == 0,
        PerformRename::says_nothing(transaction) <==> transaction.buffers@.len() == 0,
        PrepareRename::says_nothing(preparation) <==> preparation is InvalidPosition,
        SemanticTokensFull::says_nothing(tokens) ==> tokens is Delta && tokens->edits@.len() == 0
            && tokens->Delta_result_id is None,
        SemanticTokensDelta::says_nothing(tokens) <==> SemanticTokensFull::says_nothing(tokens),
{
}

/// Renaming is prepared by servers that prepare it. One that renames without that is not asked,
/// and one that does not rename cannot be.
pub proof fn renames_are_prepared_where_they_can_be(
    provider: Option<RenameProvider>,
    uri: Option<String>,
    position: PointUtf16,
)
    ensures
        provider is None ==> (preparation(provider, uri, position) matches Err(error) && error
            is RenameNotSupported),
        provider == Some(RenameProvider::Simple(false)) ==> (preparation(
            provider,
            uri,
            position,
        ) matches Err(error) && error is RenameNotSupported),
        provider == Some(RenameProvider::Simple(true)) ==> (preparation(
            provider,
            uri,
            position,
        ) matches Ok(LspParamsOrResponse::Response(response)) && response
            is OnlyUnpreparedRenameSupported),
        provider matches Some(RenameProvider::Options { prepare_provider }) ==> if prepare_provider
            == Some(true) {
            match uri {
                Some(uri) => preparation(provider, Some(uri), position) matches Ok(
                    LspParamsOrResponse::Params(params),
                ) && params.uri == uri && params.position == position,
                None => preparation(provider, None, position) matches Err(error) && error
                    is InvalidFilePath,
            }
        } else {
            preparation(provider, uri, position) matches Ok(
                LspParamsOrResponse::Response(response),
            ) && response is OnlyUnpreparedRenameSupported
        },
{
}

/// A request about a place comes over the wire with its place, its document and its name; that
/// a rename is kept in the history is the affair of who asked.
pub proof fn requests_arrive_as_sent(
    rename: PerformRename,
    hover: GetHover,
    document: ProtoDocumentRequest,
    anchor: u64,
    point: PointUtf16,
    message: ProtoPerformRename,
    received: Result<PerformRename, InvalidRequestPosition>,
    asked: ProtoPositionRequest,
    heard: Result<GetHover, InvalidRequestPosition>,
)
    requires
        call_ensures(PerformRename::to_proto, (&rename, document, anchor), message),
        call_ensures(PerformRename::from_proto, (message, point), received),
        call_ensures(GetHover::to_proto, (&hover, document, anchor), asked),
        call_ensures(GetHover::from_proto, (&asked, point), heard),
    ensures
        message.request.document == document && message.request.position == Some(anchor),
        received is Ok && received->Ok_0.new_name == rename.new_name && received->Ok_0.position
            == point && !received->Ok_0.push_to_history,
        asked.document == document && asked.position == Some(anchor),
        heard is Ok && heard->Ok_0.position == point,
{
}

/// So do the other requests about a place.
pub proof fn other_requests_arrive_as_sent(
    prepare: PrepareRename,
    highlights: GetDocumentHighlights,
    linked: LinkedEditingRange,
    document: ProtoDocumentRequest,
    anchor: u64,
    point: PointUtf16,
    first: ProtoPositionRequest,
    second: ProtoPositionRequest,
    third: ProtoPositionRequest,
)
    requires
        call_ensures(PrepareRename::to_proto, (&prepare, document, anchor), first),
        call_ensures(GetDocumentHighlights::to_proto, (&highlights, document, anchor), second),
        call_ensures(LinkedEditingRange::to_proto, (&linked, document, anchor), third),
    ensures
        first.document == document && first.position == Some(anchor),
        second.document == document && second.position == Some(anchor),
        third.document == document && third.position == Some(anchor),
{
}

/// A request whose place cannot be read is refused, and no other.
pub proof fn requests_need_a_place(
    message: ProtoPositionRequest,
    rename: ProtoPerformRename,
    point: PointUtf16,
    prepare: Result<PrepareRename, InvalidRequestPosition>,
    highlights: Result<GetDocumentHighlights, InvalidRequestPosition>,
    hover: Result<GetHover, InvalidRequestPosition>,
    linked: Result<LinkedEditingRange, InvalidRequestPosition>,
    perform: Result<PerformRename, InvalidRequestPosition>,
)
    requires
        call_ensures(PrepareRename::from_proto, (&message, point), prepare),
        call_ensures(GetDocumentHighlights::from_proto, (&message, point), highlights),
        call_ensures(GetHover::from_proto, (&message, point), hover),
        call_ensures(LinkedEditingRange::from_proto, (&message, point), linked),
        call_ensures(PerformRename::from_proto, (rename, point), perform),
    ensures
        message.position is None <==> prepare is Err,
        message.position is None <==> highlights is Err,
        message.position is None <==> hover is Err,
        message.position is None <==> linked is Err,
        rename.request.position is None <==> perform is Err,
        prepare is Ok ==> prepare->Ok_0.position == point,
        highlights is Ok ==> highlights->Ok_0.position == point,
        linked is Ok ==> linked->Ok_0.position == point,
{
}

/// A request for tokens comes over the wire with the server that it is meant for.
pub proof fn token_requests_name_their_server(
    request: SemanticTokensFull,
    document: ProtoDocumentRequest,
    message: ProtoSemanticTokensRequest,
    received: SemanticTokensFull,
)
    requires
        call_ensures(SemanticTokensFull::to_proto, (&request, document), message),
        call_ensures(SemanticTokensFull::from_proto, (&message,), received),
    ensures
        message.document == document,
        received.for_server == request.for_server,
{
}

} // verus!
