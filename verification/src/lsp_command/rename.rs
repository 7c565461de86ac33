//! Renaming a symbol.
use vstd::prelude::*;

use crate::lsp_command::{LspParamsOrResponse, RequestError, TextDocumentPosition};
use crate::lsp_store::text_edits::PointUtf16;

verus! {

/// What a server offers in the way of renaming.
#[derive(Clone, Copy, Debug, PartialEq, Eq, Structural)]
pub enum RenameProvider {
    Simple(bool),
    Options { prepare_provider: Option<bool> },
}

/// Whether and where a symbol can be renamed. Places are points in a text, or anchors.
#[derive(Clone, Copy, Debug)]
pub enum PrepareRenameResponse<A> {
    Success { start: A, end: A },
    OnlyUnpreparedRenameSupported,
    InvalidPosition,
}

/// The wire form says that renaming is possible, but not where.
#[derive(Clone, Copy, Debug, PartialEq, Eq, Structural)]
pub struct MissingPosition;

impl MissingPosition {
    pub fn message(&self) -> (message: &'static str)
        ensures
            message@ == "Missing start or end position in remote project PrepareRenameResponse"@,
    {
        "Missing start or end position in remote project PrepareRenameResponse"
    }
}

/// What a server answers. A range comes with the places in the buffer to which it was
/// clipped.
#[derive(Clone, Copy, Debug, PartialEq, Eq, Structural)]
pub enum PrepareRenameReply {
    Range {
        start: PointUtf16,
        end: PointUtf16,
        clipped_start: PointUtf16,
        clipped_end: PointUtf16,
    },
    /// The word around the place that was asked about.
    DefaultBehavior { word_start: PointUtf16, word_end: PointUtf16 },
}

/// The wire form of an answer.
#[derive(Clone, Copy, Debug, PartialEq, Eq, Structural)]
pub struct ProtoPrepareRenameResponse {
    pub can_rename: bool,
    pub only_unprepared_rename_supported: bool,
    pub start: Option<u64>,
    pub end: Option<u64>,
    /// The version of the buffer that the places are in, where there are any.
    pub version: Option<u64>,
}

/// What is sent to a server: the place, if it prepares renaming. A server that renames
/// without preparing it is not asked, and one that does not rename cannot be.
pub open spec fn preparation(
    provider: Option<RenameProvider>,
    uri: Option<String>,
    position: PointUtf16,
) -> Result<
    LspParamsOrResponse<TextDocumentPosition, PrepareRenameResponse<PointUtf16>>,
    RequestError,
> {
    match provider {
        Some(RenameProvider::Options { prepare_provider: Some(true) }) => match uri {
            Some(uri) => Ok(LspParamsOrResponse::Params(TextDocumentPosition { uri, position })),
            None => Err(RequestError::InvalidFilePath),
        },
        Some(RenameProvider::Options { .. }) | Some(RenameProvider::Simple(true)) => Ok(
            LspParamsOrResponse::Response(PrepareRenameResponse::OnlyUnpreparedRenameSupported),
        ),
        _ => Err(RequestError::RenameNotSupported),
    }
}

/// Asks where a symbol can be renamed.
#[derive(Clone, Copy, Debug, PartialEq, Eq, Structural)]
pub struct PrepareRename {
    pub position: PointUtf16,
}

impl PrepareRename {
    /// What an answer means. A range that does not lie in the buffer is no answer.
    pub fn response_from_lsp(&self, message: Option<PrepareRenameReply>) -> (response:
        PrepareRenameResponse<PointUtf16>)
        ensures
            response == (match message {
                Some(PrepareRenameReply::Range { start, end, clipped_start, clipped_end }) => {
                    if clipped_start == start && clipped_end == end {
                        PrepareRenameResponse::Success { start, end }
                    } else {
                        PrepareRenameResponse::InvalidPosition
                    }
                },
                Some(PrepareRenameReply::DefaultBehavior { word_start, word_end }) => {
                    PrepareRenameResponse::Success { start: word_start, end: word_end }
                },
                None => PrepareRenameResponse::InvalidPosition,
            }),
    {
        match message {
            Some(PrepareRenameReply::Range { start, end, clipped_start, clipped_end }) => {
                if clipped_start == start && clipped_end == end {
                    PrepareRenameResponse::Success { start, end }
                } else {
                    PrepareRenameResponse::InvalidPosition
                }
            },
            Some(PrepareRenameReply::DefaultBehavior { word_start, word_end }) => {
                PrepareRenameResponse::Success { start: word_start, end: word_end }
            },
            None => PrepareRenameResponse::InvalidPosition,
        }
    }
}

/// The wire form of an answer.
pub open spec fn wire(response: PrepareRenameResponse<u64>, version: u64) -> ProtoPrepareRenameResponse {
    match response {
        PrepareRenameResponse::Success { start, end } => ProtoPrepareRenameResponse {
            can_rename: true,
            only_unprepared_rename_supported: false,
            start: Some(start),
            end: Some(end),
            version: Some(version),
        },
        PrepareRenameResponse::OnlyUnpreparedRenameSupported => ProtoPrepareRenameResponse {
            can_rename: false,
            only_unprepared_rename_supported: true,
            start: None,
            end: None,
            version: None,
        },
        PrepareRenameResponse::InvalidPosition => ProtoPrepareRenameResponse {
            can_rename: false,
            only_unprepared_rename_supported: false,
            start: None,
            end: None,
            version: None,
        },
    }
}

/// What a wire form means.
pub open spec fn unwire(message: ProtoPrepareRenameResponse) -> Result<
    PrepareRenameResponse<u64>,
    MissingPosition,
> {
    if message.can_rename {
        match (message.start, message.end) {
            (Some(start), Some(end)) => Ok(PrepareRenameResponse::Success { start, end }),
            _ => Err(MissingPosition),
        }
    } else if message.only_unprepared_rename_supported {
        Ok(PrepareRenameResponse::OnlyUnpreparedRenameSupported)
    } else {
        Ok(PrepareRenameResponse::InvalidPosition)
    }
}

pub fn prepare_rename_response_to_proto(response: PrepareRenameResponse<u64>, version: u64) -> (
    message: ProtoPrepareRenameResponse)
    ensures
        message == wire(response, version),
{
    match response {
        PrepareRenameResponse::Success { start, end } => ProtoPrepareRenameResponse {
            can_rename: true,
            only_unprepared_rename_supported: false,
            start: Some(start),
            end: Some(end),
            version: Some(version),
        },
        PrepareRenameResponse::OnlyUnpreparedRenameSupported => ProtoPrepareRenameResponse {
            can_rename: false,
            only_unprepared_rename_supported: true,
            start: None,
            end: None,
            version: None,
        },
        PrepareRenameResponse::InvalidPosition => ProtoPrepareRenameResponse {
            can_rename: false,
            only_unprepared_rename_supported: false,
            start: None,
            end: None,
            version: None,
        },
    }
}

pub fn prepare_rename_response_from_proto(message: &ProtoPrepareRenameResponse) -> (response: Result<
    PrepareRenameResponse<u64>,
    MissingPosition,
>)
    ensures
        response == unwire(*message),
{
    if message.can_rename {
        match (message.start, message.end) {
            (Some(start), Some(end)) => Ok(PrepareRenameResponse::Success { start, end }),
            _ => Err(MissingPosition),
        }
    } else if message.only_unprepared_rename_supported {
        Ok(PrepareRenameResponse::OnlyUnpreparedRenameSupported)
    } else {
        Ok(PrepareRenameResponse::InvalidPosition)
    }
}

/// An answer comes over the wire as it was sent.
pub proof fn prepare_rename_round_trip(response: PrepareRenameResponse<u64>, version: u64)
    ensures
        unwire(wire(response, version)) == Ok::<PrepareRenameResponse<u64>, MissingPosition>(
            response,
        ),
{
}

/// Renames a symbol.
#[derive(Debug)]
pub struct PerformRename {
    pub position: PointUtf16,
    pub new_name: String,
    pub push_to_history: bool,
}

/// What is sent to a server to rename a symbol.
#[derive(Debug)]
pub struct RenameParams {
    pub text_document_position: TextDocumentPosition,
    pub new_name: String,
}
/// A symbol can be renamed where the server says, if that lies in the buffer; the word around
/// the place is meant where it says nothing else.
pub proof fn renames_stay_in_the_buffer(
    request: PrepareRename,
    message: Option<PrepareRenameReply>,
    response: PrepareRenameResponse<PointUtf16>,
)
    requires
        call_ensures(PrepareRename::response_from_lsp, (&request, message), response),
    ensures
        message is None ==> response is InvalidPosition,
        message matches Some(PrepareRenameReply::Range { start, end, clipped_start, clipped_end })
            ==> {
            &&& response is Success <==> start == clipped_start && end == clipped_end
            &&& response is InvalidPosition <==> start != clipped_start || end != clipped_end
            &&& response matches PrepareRenameResponse::Success { start: from, end: to } ==> from
                == start && to == end
        },
        message matches Some(PrepareRenameReply::DefaultBehavior { word_start, word_end })
            ==> response == (PrepareRenameResponse::Success { start: word_start, end: word_end }),
{
}

/// Where a symbol can be renamed arrives as it was sent, under the version of the buffer.
pub proof fn preparations_arrive_as_sent(
    response: PrepareRenameResponse<u64>,
    version: u64,
    message: ProtoPrepareRenameResponse,
    received: Result<PrepareRenameResponse<u64>, MissingPosition>,
)
    requires
        call_ensures(prepare_rename_response_to_proto, (response, version), message),
        call_ensures(prepare_rename_response_from_proto, (&message,), received),
    ensures
        received is Ok && received->Ok_0 == response,
        message.can_rename <==> response is Success,
        message.only_unprepared_rename_supported <==> response is OnlyUnpreparedRenameSupported,
        message.version == (if response is Success {
            Some(version)
        } else {
            None
        }),
{
    prepare_rename_round_trip(response, version);
}

/// A symbol that can be renamed needs a range, and nothing else does.
pub proof fn renames_need_a_range(
    message: ProtoPrepareRenameResponse,
    response: Result<PrepareRenameResponse<u64>, MissingPosition>,
)
    requires
        call_ensures(prepare_rename_response_from_proto, (&message,), response),
    ensures
        response is Err <==> message.can_rename && (message.start is None || message.end is None),
        response is Ok && message.can_rename ==> response->Ok_0 == (
        PrepareRenameResponse::Success { start: message.start->0, end: message.end->0 }),
        !message.can_rename ==> (response->Ok_0 is OnlyUnpreparedRenameSupported
            <==> message.only_unprepared_rename_supported),
        !message.can_rename ==> !(response->Ok_0 is Success),
{
}

} // verus!
