//! Requests to language servers: when they are made, and what becomes of the answers.
//! Answers also travel to other instances of the program, in a wire form of their own.
use vstd::prelude::*;

use crate::lsp_store::text_edits::PointUtf16;

pub mod colors;
pub mod commands;
pub mod highlights;
pub mod hover;
pub mod locations;
pub mod ranges;
pub mod rename;
pub mod symbols;
pub mod tokens;

verus! {

/// What is sent to the server, or an answer that needs no server.
#[derive(Debug)]
pub enum LspParamsOrResponse<P, R> {
    Params(P),
    Response(R),
}

/// A place in a document.
#[derive(Debug)]
pub struct TextDocumentPosition {
    pub uri: String,
    pub position: PointUtf16,
}

/// Why a request is not made.
#[derive(Clone, Copy, Debug, PartialEq, Eq, Structural)]
pub enum RequestError {
    /// The path of the document cannot be written as a URI.
    InvalidFilePath,
    RenameNotSupported,
}

/// What is said of an error.
pub open spec fn error_text(error: RequestError) -> Seq<char> {
    match error {
        RequestError::InvalidFilePath => "Invalid file path provided to LSP request"@,
        RequestError::RenameNotSupported => "Rename not supported"@,
    }
}

impl RequestError {
    pub fn message(&self) -> (message: &'static str)
        ensures
            message@ == error_text(*self),
    {
        match self {
            RequestError::InvalidFilePath => "Invalid file path provided to LSP request",
            RequestError::RenameNotSupported => "Rename not supported",
        }
    }
}

/// A place in a request cannot be read.
#[derive(Clone, Copy, Debug, PartialEq, Eq, Structural)]
pub struct InvalidRequestPosition;

impl InvalidRequestPosition {
    pub fn message(&self) -> (message: &'static str)
        ensures
            message@ == "invalid position"@,
    {
        "invalid position"
    }
}

/// The document that a request asks about.
pub fn make_text_document_identifier(uri: Option<String>) -> (document: Result<String, RequestError>)
    ensures
        document == (match uri {
            Some(uri) => Ok(uri),
            None => Err(RequestError::InvalidFilePath),
        }),
{
    match uri {
        Some(uri) => Ok(uri),
        None => Err(RequestError::InvalidFilePath),
    }
}

/// The place that a request asks about.
pub fn make_lsp_text_document_position(uri: Option<String>, position: PointUtf16) -> (params:
    Result<TextDocumentPosition, RequestError>)
    ensures
        params == (match uri {
            Some(uri) => Ok(TextDocumentPosition { uri, position }),
            None => Err(RequestError::InvalidFilePath),
        }),
{
    match uri {
        Some(uri) => Ok(TextDocumentPosition { uri, position }),
        None => Err(RequestError::InvalidFilePath),
    }
}

/// A request is sent where the server can handle it; elsewhere the default answer is
/// given without asking.
pub fn params_or_response<P, R>(
    is_capable: bool,
    params: Result<P, RequestError>,
    default: R,
) -> (result: Result<LspParamsOrResponse<P, R>, RequestError>)
    ensures
        result == (if !is_capable {
            Ok(LspParamsOrResponse::Response(default))
        } else {
            match params {
                Ok(params) => Ok(LspParamsOrResponse::Params(params)),
                Err(error) => Err(error),
            }
        }),
{
    if !is_capable {
        return Ok(LspParamsOrResponse::Response(default));
    }
    match params {
        Ok(params) => Ok(LspParamsOrResponse::Params(params)),
        Err(error) => Err(error),
    }
}

/// The place of a request that came over the wire, where it could be read.
pub fn requested_position(position: Option<u64>) -> (result: Result<u64, InvalidRequestPosition>)
    ensures
        result == (match position {
            Some(position) => Ok(position),
            None => Err(InvalidRequestPosition),
        }),
{
    match position {
        Some(position) => Ok(position),
        None => Err(InvalidRequestPosition),
    }
}

/// A capability that is switched on as such, or comes with options.
#[derive(Clone, Copy, Debug, PartialEq, Eq, Structural)]
pub enum Switch {
    Simple(bool),
    WithOptions,
}

/// Whether a capability is there: one with options is.
pub fn is_switched_on(capability: Option<Switch>) -> (on: bool)
    ensures
        on == (capability == Some(Switch::Simple(true)) || capability == Some(
            Switch::WithOptions,
        )),
{
    match capability {
        Some(Switch::Simple(on)) => on,
        Some(Switch::WithOptions) => true,
        None => false,
    }
}

/// The settings of a language that concern formatting.
#[derive(Clone, Copy, Debug, PartialEq, Eq, Structural)]
pub struct LanguageSettings {
    pub tab_size: u32,
    pub hard_tabs: bool,
    pub remove_trailing_whitespace_on_save: bool,
    pub ensure_final_newline_on_save: bool,
}

#[derive(Clone, Copy, Debug, PartialEq, Eq, Structural)]
pub struct FormattingOptions {
    pub tab_size: u32,
    pub insert_spaces: bool,
    pub trim_trailing_whitespace: Option<bool>,
    pub trim_final_newlines: Option<bool>,
    pub insert_final_newline: Option<bool>,
}

/// What a server is told about how to format.
pub fn lsp_formatting_options(settings: &LanguageSettings) -> (options: FormattingOptions)
    ensures
        options == (FormattingOptions {
            tab_size: settings.tab_size,
            insert_spaces: !settings.hard_tabs,
            trim_trailing_whitespace: Some(settings.remove_trailing_whitespace_on_save),
            trim_final_newlines: Some(settings.ensure_final_newline_on_save),
            insert_final_newline: Some(settings.ensure_final_newline_on_save),
        }),
{
    FormattingOptions {
        tab_size: settings.tab_size,
        insert_spaces: !settings.hard_tabs,
        trim_trailing_whitespace: Some(settings.remove_trailing_whitespace_on_save),
        trim_final_newlines: Some(settings.ensure_final_newline_on_save),
        insert_final_newline: Some(settings.ensure_final_newline_on_save),
    }
}
/// A server that cannot handle a request is not asked, whatever the parameters: the default
/// answer is given. Any other is asked with the parameters, and why there are none is kept.
pub proof fn only_capable_servers_are_asked<P, R>(
    is_capable: bool,
    params: Result<P, RequestError>,
    default: R,
    result: Result<LspParamsOrResponse<P, R>, RequestError>,
)
    requires
        call_ensures(params_or_response::<P, R>, (is_capable, params, default), result),
    ensures
        !is_capable ==> result is Ok && result->Ok_0 is Response && result->Ok_0->Response_0
            == default,
        is_capable && params is Ok ==> result is Ok && result->Ok_0 is Params
            && result->Ok_0->Params_0 == params->Ok_0,
        is_capable && params is Err ==> result is Err && result->Err_0 == params->Err_0,
{
}

/// A request names the document and the place that it asks about, and is not made of a
/// document without a URI.
pub proof fn requests_name_their_document(
    uri: Option<String>,
    position: PointUtf16,
    document: Result<String, RequestError>,
    place: Result<TextDocumentPosition, RequestError>,
)
    requires
        call_ensures(make_text_document_identifier, (uri,), document),
        call_ensures(make_lsp_text_document_position, (uri, position), place),
    ensures
        uri is Some ==> document is Ok && document->Ok_0 == uri->0,
        uri is Some ==> place is Ok && place->Ok_0.uri == uri->0 && place->Ok_0.position
            == position,
        uri is None ==> document is Err && document->Err_0 is InvalidFilePath,
        uri is None ==> place is Err && place->Err_0 is InvalidFilePath,
{
}

/// A place that could be read is the one that is asked about.
pub proof fn readable_positions_are_taken(
    position: Option<u64>,
    result: Result<u64, InvalidRequestPosition>,
)
    requires
        call_ensures(requested_position, (position,), result),
    ensures
        position is Some <==> result is Ok,
        position is Some ==> result->Ok_0 == position->0,
{
}

/// A capability is off where it is missing or switched off, and on anywhere else.
pub proof fn capabilities_are_on_unless_switched_off(capability: Option<Switch>, on: bool)
    requires
        call_ensures(is_switched_on, (capability,), on),
    ensures
        capability is None ==> !on,
        capability is Some && capability->0 is WithOptions ==> on,
        capability is Some && capability->0 is Simple ==> on == capability->0->Simple_0,
{
}

/// Spaces are inserted where tabs are not, and final newlines are trimmed just where one is
/// ensured.
pub proof fn formatting_follows_the_settings(settings: LanguageSettings, options: FormattingOptions)
    requires
        call_ensures(lsp_formatting_options, (&settings,), options),
    ensures
        options.tab_size == settings.tab_size,
        options.insert_spaces != settings.hard_tabs,
        options.trim_trailing_whitespace == Some(settings.remove_trailing_whitespace_on_save),
        options.trim_final_newlines == Some(settings.ensure_final_newline_on_save),
        options.insert_final_newline == Some(settings.ensure_final_newline_on_save),
{
}

/// Each error is called by its name.
pub proof fn errors_are_called_by_name(error: RequestError, message: &'static str)
    requires
        call_ensures(RequestError::message, (&error,), message),
    ensures
        error is InvalidFilePath ==> message@ == "Invalid file path provided to LSP request"@,
        error is RenameNotSupported ==> message@ == "Rename not supported"@,
{
}

} // verus!
