//! Semantic tokens.
use vstd::prelude::*;

verus! {

/// How a server offers all tokens of a document.
#[derive(Clone, Copy, Debug, PartialEq, Eq, Structural)]
pub enum SemanticTokensFullOptions {
    Simple(bool),
    Delta { delta: Option<bool> },
}

/// Whether a server can send all tokens. `full` is missing where the server has no
/// tokens at all.
pub fn full_tokens_supported(full: Option<SemanticTokensFullOptions>) -> (supported: bool)
    ensures
        supported == (full is Some && full != Some(SemanticTokensFullOptions::Simple(false))),
{
    match full {
        Some(SemanticTokensFullOptions::Simple(supported)) => supported,
        Some(SemanticTokensFullOptions::Delta { .. }) => true,
        None => false,
    }
}

/// Whether a server can send what changed. One that merely sends all tokens cannot.
pub fn delta_tokens_supported(full: Option<SemanticTokensFullOptions>) -> (supported: bool)
    ensures
        supported == (full == Some(SemanticTokensFullOptions::Delta { delta: Some(true) })),
{
    match full {
        Some(SemanticTokensFullOptions::Delta { delta }) => match delta {
            Some(delta) => delta,
            None => false,
        },
        _ => false,
    }
}

#[derive(Debug)]
pub struct SemanticTokensEdit {
    pub start: u32,
    pub delete_count: u32,
    pub data: Vec<u32>,
}

/// A change of the tokens as a server states it.
#[derive(Debug)]
pub struct LspTokensEdit {
    pub start: u32,
    pub delete_count: u32,
    pub data: Option<Vec<u32>>,
}

#[derive(Debug)]
pub enum SemanticTokensResponse {
    Full { data: Vec<u32>, result_id: Option<String> },
    Delta { edits: Vec<SemanticTokensEdit>, result_id: Option<String> },
}

impl Default for SemanticTokensResponse {
    /// Nothing changed.
    fn default() -> (response: Self)
        ensures
            response matches SemanticTokensResponse::Delta { edits, result_id } && edits@.len()
                == 0 && result_id is None,
    {
        SemanticTokensResponse::Delta { edits: Vec::new(), result_id: None }
    }
}

/// What a server answers.
#[derive(Debug)]
pub enum SemanticTokensReply {
    Tokens { data: Vec<u32>, result_id: Option<String> },
    TokensDelta { edits: Vec<LspTokensEdit>, result_id: Option<String> },
    Partial,
}

/// A partial answer was not asked for.
#[derive(Clone, Copy, Debug, PartialEq, Eq, Structural)]
pub struct UnexpectedPartialResult;

impl UnexpectedPartialResult {
    pub fn message(&self) -> (message: &'static str)
        ensures
            message@
                == "Unexpected semantic tokens response with partial result for inlay hints"@,
    {
        "Unexpected semantic tokens response with partial result for inlay hints"
    }
}

/// The edit is the one that the server stated; data that it leaves out are none.
pub open spec fn is_edit_of(edit: SemanticTokensEdit, lsp: LspTokensEdit) -> bool {
    &&& edit.start == lsp.start
    &&& edit.delete_count == lsp.delete_count
    &&& edit.data@ == (match lsp.data {
        Some(data) => data@,
        None => Seq::empty(),
    })
}

pub open spec fn are_edits_of(edits: Seq<SemanticTokensEdit>, lsp: Seq<LspTokensEdit>) -> bool {
    &&& edits.len() == lsp.len()
    &&& forall|i: int| 0 <= i < lsp.len() ==> is_edit_of(#[trigger] edits[i], lsp[i])
}

fn edits_from_lsp(lsp: Vec<LspTokensEdit>) -> (edits: Vec<SemanticTokensEdit>)
    ensures
        are_edits_of(edits@, lsp@),
{
    let ghost given = lsp@;
    let mut rest: Vec<LspTokensEdit> = lsp;
    let mut edits: Vec<SemanticTokensEdit> = Vec::new();
    while rest.len() > 0
        invariant
            rest@.len() + edits@.len() == given.len(),
            rest@ == given.skip(edits@.len() as int),
            forall|i: int| 0 <= i < edits@.len() ==> is_edit_of(#[trigger] edits@[i], given[i]),
        decreases rest@.len(),
    {
        let ghost done = edits@.len() as int;
        let edit: LspTokensEdit = rest.remove(0);
        assert(rest@ =~= given.skip(done + 1));
        let data: Vec<u32> = match edit.data {
            Some(data) => data,
            None => Vec::new(),
        };
        edits.push(
            SemanticTokensEdit { start: edit.start, delete_count: edit.delete_count, data },
        );
    }
    edits
}

/// What an answer means: all tokens, or what changed. No answer means that nothing did.
pub fn semantic_tokens_from_lsp(message: Option<SemanticTokensReply>) -> (response: Result<
    SemanticTokensResponse,
    UnexpectedPartialResult,
>)
    ensures
        match message {
            None => response matches Ok(SemanticTokensResponse::Delta { edits, result_id })
                && edits@.len() == 0 && result_id is None,
            Some(SemanticTokensReply::Tokens { data, result_id }) => response == Ok::<
                SemanticTokensResponse,
                UnexpectedPartialResult,
            >(SemanticTokensResponse::Full { data, result_id }),
            Some(SemanticTokensReply::TokensDelta { edits: lsp, result_id: id }) => {
                response matches Ok(SemanticTokensResponse::Delta { edits, result_id })
                    && are_edits_of(edits@, lsp@) && result_id == id
            },
            Some(SemanticTokensReply::Partial) => response is Err,
        },
{
    match message {
        None => Ok(SemanticTokensResponse::default()),
        Some(SemanticTokensReply::Tokens { data, result_id }) => Ok(
            SemanticTokensResponse::Full { data, result_id },
        ),
        Some(SemanticTokensReply::TokensDelta { edits, result_id }) => Ok(
            SemanticTokensResponse::Delta { edits: edits_from_lsp(edits), result_id },
        ),
        Some(SemanticTokensReply::Partial) => Err(UnexpectedPartialResult),
    }
}

/// The wire form of an answer.
#[derive(Debug)]
pub struct ProtoSemanticTokens {
    pub data: Vec<u32>,
    pub edits: Vec<SemanticTokensEdit>,
    pub result_id: Option<String>,
    pub version: u64,
}

/// The message is the wire form of the answer.
pub open spec fn is_wire(message: ProtoSemanticTokens, response: SemanticTokensResponse) -> bool {
    match response {
        SemanticTokensResponse::Full { data, result_id } => {
            &&& message.data == data
            &&& message.edits@.len() == 0
            &&& message.result_id == result_id
        },
        SemanticTokensResponse::Delta { edits, result_id } => {
            &&& message.data@.len() == 0
            &&& message.edits == edits
            &&& message.result_id == result_id
        },
    }
}

/// What a wire form means. Differences are never asked for over the wire.
pub open spec fn meant(message: ProtoSemanticTokens) -> SemanticTokensResponse {
    SemanticTokensResponse::Full { data: message.data, result_id: message.result_id }
}

pub fn semantic_tokens_to_proto(response: SemanticTokensResponse, version: u64) -> (message:
    ProtoSemanticTokens)
    ensures
        message.version == version,
        is_wire(message, response),
{
    match response {
        SemanticTokensResponse::Full { data, result_id } => ProtoSemanticTokens {
            data,
            edits: Vec::new(),
            result_id,
            version,
        },
        SemanticTokensResponse::Delta { edits, result_id } => ProtoSemanticTokens {
            data: Vec::new(),
            edits,
            result_id,
            version,
        },
    }
}

pub fn semantic_tokens_from_proto(message: ProtoSemanticTokens) -> (response: SemanticTokensResponse)
    ensures
        response == meant(message),
{
    SemanticTokensResponse::Full { data: message.data, result_id: message.result_id }
}

/// All tokens of a document come over the wire as they were sent.
pub proof fn full_tokens_round_trip(response: SemanticTokensResponse, message: ProtoSemanticTokens)
    requires
        response is Full,
        is_wire(message, response),
    ensures
        meant(message) == response,
{
}
/// All tokens are sent by a server unless it says that it does not, and changes only by one that
/// says that it does.
pub proof fn tokens_are_sent_as_offered(
    full: Option<SemanticTokensFullOptions>,
    supported: bool,
    delta_supported: bool,
)
    requires
        call_ensures(full_tokens_supported, (full,), supported),
        call_ensures(delta_tokens_supported, (full,), delta_supported),
    ensures
        full is None ==> !supported && !delta_supported,
        full is Some && full->0 is Simple ==> supported == full->0->Simple_0 && !delta_supported,
        full is Some && full->0 is Delta ==> supported && delta_supported == (full->0->delta
            == Some(true)),
{
}

/// Tokens are taken over as the server states them, and changes too, with none of the data that
/// it leaves out. No answer is no change, and part of one is an error.
pub proof fn tokens_are_taken_over(
    message: Option<SemanticTokensReply>,
    response: Result<SemanticTokensResponse, UnexpectedPartialResult>,
    i: int,
)
    requires
        call_ensures(semantic_tokens_from_lsp, (message,), response),
    ensures
        response is Err <==> message is Some && message->0 is Partial,
        message is None ==> response->Ok_0 is Delta && response->Ok_0->edits@.len() == 0
            && response->Ok_0->Delta_result_id is None,
        message is Some && message->0 is Tokens ==> response->Ok_0 is Full
            && response->Ok_0->Full_data == message->0->Tokens_data
            && response->Ok_0->Full_result_id == message->0->Tokens_result_id,
        message is Some && message->0 is TokensDelta ==> {
            let lsp = message->0->TokensDelta_edits@;
            let edits = response->Ok_0->edits@;
            &&& response->Ok_0 is Delta
            &&& response->Ok_0->Delta_result_id == message->0->TokensDelta_result_id
            &&& edits.len() == lsp.len()
            &&& 0 <= i < lsp.len() ==> {
                &&& edits[i].start == lsp[i].start
                &&& edits[i].delete_count == lsp[i].delete_count
                &&& lsp[i].data is None ==> edits[i].data@.len() == 0
                &&& lsp[i].data is Some ==> edits[i].data@ == lsp[i].data->0@
            }
        },
{
    if message is Some && message->0 is TokensDelta {
        let lsp = message->0->TokensDelta_edits@;
        let edits = response->Ok_0->edits@;
        assert(are_edits_of(edits, lsp));
        if 0 <= i < lsp.len() {
            assert(is_edit_of(edits[i], lsp[i]));
        }
    }
}

/// All tokens arrive as they were sent, under the version of the buffer.
pub proof fn tokens_arrive_as_sent(
    response: SemanticTokensResponse,
    version: u64,
    message: ProtoSemanticTokens,
    received: SemanticTokensResponse,
)
    requires
        call_ensures(semantic_tokens_to_proto, (response, version), message),
        call_ensures(semantic_tokens_from_proto, (message,), received),
    ensures
        message.version == version,
        received is Full,
        response is Full ==> received == response && message.edits@.len() == 0,
        response is Delta ==> message.edits == response->edits && message.data@.len() == 0
            && received->Full_result_id == response->Delta_result_id,
{
}

} // verus!
