//! Highlights of the places that a symbol occurs at.
use vstd::prelude::*;

use crate::lsp_store::text_edits::PointUtf16;
use crate::sorting::{is_sort_of, sort, Ordered};

verus! {

#[derive(Clone, Copy, Debug, PartialEq, Eq, Structural)]
pub enum DocumentHighlightKind {
    Text,
    Read,
    Write,
    /// One that is not known here.
    Other,
}

/// A highlight as a server states it, with the places in the buffer to which it was
/// clipped.
#[derive(Clone, Copy, Debug, PartialEq, Eq, Structural)]
pub struct LspHighlight {
    pub start: PointUtf16,
    pub end: PointUtf16,
    pub clipped_start: PointUtf16,
    pub clipped_end: PointUtf16,
    pub kind: Option<DocumentHighlightKind>,
}

impl Ordered for LspHighlight {
    /// By where they start, the longest first.
    open spec fn le(self, other: Self) -> bool {
        self.start.before(other.start) || (self.start == other.start && !self.end.before(
            other.end,
        ))
    }

    proof fn le_total(a: Self, b: Self) {
    }

    proof fn le_transitive(a: Self, b: Self, c: Self) {
    }

    fn is_le(&self, other: &Self) -> (result: bool) {
        self.start.is_before(&other.start) || (self.start == other.start && !self.end.is_before(
            &other.end,
        ))
    }
}

/// A highlight. Places are points in a text, or anchors.
#[derive(Clone, Copy, Debug, PartialEq, Eq, Structural)]
pub struct DocumentHighlight<A> {
    pub start: A,
    pub end: A,
    pub kind: DocumentHighlightKind,
}

/// A highlight without a kind is one of a place that is read.
pub open spec fn highlight_of(highlight: LspHighlight) -> DocumentHighlight<PointUtf16> {
    DocumentHighlight {
        start: highlight.clipped_start,
        end: highlight.clipped_end,
        kind: match highlight.kind {
            Some(kind) => kind,
            None => DocumentHighlightKind::Read,
        },
    }
}

pub open spec fn highlights_of(highlights: Seq<LspHighlight>) -> Seq<DocumentHighlight<PointUtf16>> {
    highlights.map_values(|h: LspHighlight| highlight_of(h))
}

/// The highlights of some ascending order of what the server sent.
pub open spec fn is_response_of(
    response: Seq<DocumentHighlight<PointUtf16>>,
    message: Seq<LspHighlight>,
) -> bool {
    exists|sorted: Seq<LspHighlight>| #[trigger]
        is_sort_of(sorted, message) && response == highlights_of(sorted)
}

/// What an answer means: the highlights in the order of the text.
pub fn document_highlights_from_lsp(message: Option<Vec<LspHighlight>>) -> (response: Vec<
    DocumentHighlight<PointUtf16>,
>)
    ensures
        match message {
            Some(message) => is_response_of(response@, message@),
            None => response@.len() == 0,
        },
{
    let highlights: Vec<LspHighlight> = match message {
        Some(highlights) => highlights,
        None => return Vec::new(),
    };
    let sorted: Vec<LspHighlight> = sort(highlights);
    let mut response: Vec<DocumentHighlight<PointUtf16>> = Vec::new();
    let mut i: usize = 0;
    assert(response@ =~= highlights_of(sorted@.take(0)));
    while i < sorted.len()
        invariant
            i <= sorted@.len(),
            response@ == highlights_of(sorted@.take(i as int)),
        decreases sorted@.len() - i,
    {
        let highlight: LspHighlight = sorted[i];
        let kind: DocumentHighlightKind = match highlight.kind {
            Some(kind) => kind,
            None => DocumentHighlightKind::Read,
        };
        response.push(
            DocumentHighlight { start: highlight.clipped_start, end: highlight.clipped_end, kind },
        );
        assert(sorted@.take(i + 1) =~= sorted@.take(i as int).push(highlight));
        assert(response@ =~= highlights_of(sorted@.take(i + 1)));
        i += 1;
    }
    assert(sorted@.take(i as int) =~= sorted@);
    response
}

/// The wire form of the kind of a highlight.
#[derive(Clone, Copy, Debug, PartialEq, Eq, Structural)]
pub enum ProtoHighlightKind {
    Text,
    Read,
    Write,
}

/// The wire form of a highlight. A place is missing where it could not be read, and the
/// kind where it is not known.
#[derive(Clone, Copy, Debug, PartialEq, Eq, Structural)]
pub struct ProtoDocumentHighlight {
    pub start: Option<u64>,
    pub end: Option<u64>,
    pub kind: Option<ProtoHighlightKind>,
}

#[derive(Clone, Copy, Debug, PartialEq, Eq, Structural)]
pub enum HighlightError {
    MissingStart,
    MissingEnd,
}

impl HighlightError {
    pub fn message(&self) -> (message: &'static str)
        ensures
            message@ == (match *self {
                HighlightError::MissingStart => "missing target start"@,
                HighlightError::MissingEnd => "missing target end"@,
            }),
    {
        match self {
            HighlightError::MissingStart => "missing target start",
            HighlightError::MissingEnd => "missing target end",
        }
    }
}

pub open spec fn wire(highlight: DocumentHighlight<u64>) -> ProtoDocumentHighlight {
    ProtoDocumentHighlight {
        start: Some(highlight.start),
        end: Some(highlight.end),
        kind: Some(
            match highlight.kind {
                DocumentHighlightKind::Write => ProtoHighlightKind::Write,
                DocumentHighlightKind::Read => ProtoHighlightKind::Read,
                _ => ProtoHighlightKind::Text,
            },
        ),
    }
}

pub open spec fn unwire(message: ProtoDocumentHighlight) -> Result<
    DocumentHighlight<u64>,
    HighlightError,
> {
    match (message.start, message.end) {
        (None, _) => Err(HighlightError::MissingStart),
        (_, None) => Err(HighlightError::MissingEnd),
        (Some(start), Some(end)) => Ok(
            DocumentHighlight {
                start,
                end,
                kind: match message.kind {
                    Some(ProtoHighlightKind::Read) => DocumentHighlightKind::Read,
                    Some(ProtoHighlightKind::Write) => DocumentHighlightKind::Write,
                    _ => DocumentHighlightKind::Text,
                },
            },
        ),
    }
}

/// What the messages mean, up to the first that cannot be read.
pub open spec fn all_unwired(messages: Seq<ProtoDocumentHighlight>) -> Result<
    Seq<DocumentHighlight<u64>>,
    HighlightError,
>
    decreases messages.len(),
{
    if messages.len() == 0 {
        Ok(Seq::empty())
    } else {
        match all_unwired(messages.drop_last()) {
            Err(error) => Err(error),
            Ok(earlier) => match unwire(messages.last()) {
                Err(error) => Err(error),
                Ok(highlight) => Ok(earlier.push(highlight)),
            },
        }
    }
}

pub fn document_highlights_to_proto(response: &Vec<DocumentHighlight<u64>>) -> (message: Vec<
    ProtoDocumentHighlight,
>)
    ensures
        message@ == response@.map_values(|h: DocumentHighlight<u64>| wire(h)),
{
    let mut message: Vec<ProtoDocumentHighlight> = Vec::new();
    let mut i: usize = 0;
    while i < response.len()
        invariant
            i <= response@.len(),
            message@ =~= response@.take(i as int).map_values(|h: DocumentHighlight<u64>| wire(h)),
        decreases response@.len() - i,
    {
        let highlight: &DocumentHighlight<u64> = &response[i];
        let kind: ProtoHighlightKind = match highlight.kind {
            DocumentHighlightKind::Text => ProtoHighlightKind::Text,
            DocumentHighlightKind::Write => ProtoHighlightKind::Write,
            DocumentHighlightKind::Read => ProtoHighlightKind::Read,
            DocumentHighlightKind::Other => ProtoHighlightKind::Text,
        };
        message.push(
            ProtoDocumentHighlight {
                start: Some(highlight.start),
                end: Some(highlight.end),
                kind: Some(kind),
            },
        );
        i += 1;
    }
    assert(response@.take(i as int) =~= response@);
    message
}

pub fn document_highlights_from_proto(message: &Vec<ProtoDocumentHighlight>) -> (response: Result<
    Vec<DocumentHighlight<u64>>,
    HighlightError,
>)
    ensures
        match response {
            Ok(response) => all_unwired(message@) == Ok::<
                Seq<DocumentHighlight<u64>>,
                HighlightError,
            >(response@),
            Err(error) => all_unwired(message@) == Err::<
                Seq<DocumentHighlight<u64>>,
                HighlightError,
            >(error),
        },
{
    let mut response: Vec<DocumentHighlight<u64>> = Vec::new();
    let mut failed: Option<HighlightError> = None;
    let mut i: usize = 0;
    while i < message.len()
        invariant
            i <= message@.len(),
            match failed {
                None => all_unwired(message@.take(i as int)) == Ok::<
                    Seq<DocumentHighlight<u64>>,
                    HighlightError,
                >(response@),
                Some(error) => all_unwired(message@.take(i as int)) == Err::<
                    Seq<DocumentHighlight<u64>>,
                    HighlightError,
                >(error),
            },
        decreases message@.len() - i,
    {
        let highlight: ProtoDocumentHighlight = message[i];
        assert(message@.take(i + 1).drop_last() =~= message@.take(i as int));
        assert(message@.take(i + 1).last() == highlight);
        if failed.is_none() {
            match (highlight.start, highlight.end) {
                (None, _) => {
                    failed = Some(HighlightError::MissingStart);
                },
                (Some(_), None) => {
                    failed = Some(HighlightError::MissingEnd);
                },
                (Some(start), Some(end)) => {
                    let kind: DocumentHighlightKind = match highlight.kind {
                        Some(ProtoHighlightKind::Text) => DocumentHighlightKind::Text,
                        Some(ProtoHighlightKind::Read) => DocumentHighlightKind::Read,
                        Some(ProtoHighlightKind::Write) => DocumentHighlightKind::Write,
                        None => DocumentHighlightKind::Text,
                    };
                    response.push(DocumentHighlight { start, end, kind });
                },
            }
        }
        i += 1;
    }
    assert(message@.take(i as int) =~= message@);
    match failed {
        Some(error) => Err(error),
        None => Ok(response),
    }
}

/// Highlights come over the wire as they were sent; a kind that is not known arrives as
/// plain text.
pub proof fn document_highlight_round_trip(highlight: DocumentHighlight<u64>)
    ensures
        unwire(wire(highlight)) == Ok::<DocumentHighlight<u64>, HighlightError>(
            DocumentHighlight {
                kind: if highlight.kind == DocumentHighlightKind::Other {
                    DocumentHighlightKind::Text
                } else {
                    highlight.kind
                },
                ..highlight
            },
        ),
{
}
proof fn sorted_highlights_are_those_sent(sorted: Seq<LspHighlight>, message: Seq<LspHighlight>, k: int)
    requires
        is_sort_of(sorted, message),
        0 <= k < sorted.len(),
    ensures
        message.contains(sorted[k]),
        sorted.len() == message.len(),
{
    sorted.to_multiset_ensures();
    message.to_multiset_ensures();
    assert(sorted.contains(sorted[k]));
    assert(sorted.to_multiset().count(sorted[k]) > 0);
}

/// Highlights come in the order of the text, longer ones before shorter ones that start at the
/// same place. None is lost and none is added.
pub proof fn highlights_are_in_the_order_of_the_text(
    message: Vec<LspHighlight>,
    response: Vec<DocumentHighlight<PointUtf16>>,
    i: int,
    j: int,
)
    requires
        call_ensures(document_highlights_from_lsp, (Some(message),), response),
        forall|k: int|
            0 <= k < message@.len() ==> (#[trigger] message@[k]).start == message@[k].clipped_start
                && message@[k].end == message@[k].clipped_end,
        0 <= i < j < response@.len(),
    ensures
        response@.len() == message@.len(),
        response@[i].start.row <= response@[j].start.row,
        response@[i].start.row == response@[j].start.row ==> response@[i].start.column
            <= response@[j].start.column,
        response@[i].start == response@[j].start ==> response@[i].end.row >= response@[j].end.row,
        response@[i].start == response@[j].start && response@[i].end.row == response@[j].end.row
            ==> response@[i].end.column >= response@[j].end.column,
        exists|k: int|
            0 <= k < message@.len() && (#[trigger] message@[k]).start == response@[i].start
                && message@[k].end == response@[i].end,
{
    let sorted = choose|sorted: Seq<LspHighlight>| #[trigger]
        is_sort_of(sorted, message@) && response@ == highlights_of(sorted);
    assert(response@.len() == sorted.len());
    sorted_highlights_are_those_sent(sorted, message@, i);
    sorted_highlights_are_those_sent(sorted, message@, j);
    let a = choose|k: int| 0 <= k < message@.len() && message@[k] == sorted[i];
    let b = choose|k: int| 0 <= k < message@.len() && message@[k] == sorted[j];
    assert(message@[a].start == message@[a].clipped_start);
    assert(message@[b].start == message@[b].clipped_start);
    assert(response@[i] == highlight_of(sorted[i]));
    assert(response@[j] == highlight_of(sorted[j]));
    assert(sorted[i].le(sorted[j]));
}

/// A highlight lies where it was clipped to, and one without a kind is that of a place that is
/// read.
pub proof fn highlights_are_clipped(
    message: Vec<LspHighlight>,
    response: Vec<DocumentHighlight<PointUtf16>>,
    none: Vec<DocumentHighlight<PointUtf16>>,
)
    requires
        call_ensures(document_highlights_from_lsp, (Some(message),), response),
        call_ensures(document_highlights_from_lsp, (None,), none),
        message@.len() == 1,
    ensures
        none@.len() == 0,
        response@.len() == 1,
        response@[0].start == message@[0].clipped_start,
        response@[0].end == message@[0].clipped_end,
        message@[0].kind is None ==> response@[0].kind is Read,
        message@[0].kind is Some ==> response@[0].kind == message@[0].kind->0,
{
    let sorted = choose|sorted: Seq<LspHighlight>| #[trigger]
        is_sort_of(sorted, message@) && response@ == highlights_of(sorted);
    sorted.to_multiset_ensures();
    message@.to_multiset_ensures();
    assert(sorted.len() == 1);
    sorted_highlights_are_those_sent(sorted, message@, 0);
    assert(sorted[0] == message@[0]);
    assert(response@[0] == highlight_of(sorted[0]));
}

proof fn wired_highlights_are_read(highlights: Seq<DocumentHighlight<u64>>)
    ensures
        ({
            let messages = highlights.map_values(|h: DocumentHighlight<u64>| wire(h));
            &&& all_unwired(messages) is Ok
            &&& all_unwired(messages)->Ok_0.len() == highlights.len()
            &&& forall|i: int|
                0 <= i < highlights.len() ==> unwire(wire(highlights[i])) == Ok::<
                    DocumentHighlight<u64>,
                    HighlightError,
                >(#[trigger] all_unwired(messages)->Ok_0[i])
        }),
    decreases highlights.len(),
{
    let messages = highlights.map_values(|h: DocumentHighlight<u64>| wire(h));
    if highlights.len() > 0 {
        let shorter = highlights.drop_last();
        wired_highlights_are_read(shorter);
        let fewer = shorter.map_values(|h: DocumentHighlight<u64>| wire(h));
        assert(messages.drop_last() =~= fewer);
        assert(messages.last() == wire(highlights.last()));
        let all = all_unwired(messages)->Ok_0;
        assert(all == all_unwired(fewer)->Ok_0.push(unwire(wire(highlights.last()))->Ok_0));
        assert forall|i: int| 0 <= i < highlights.len() implies unwire(wire(highlights[i])) == Ok::<
            DocumentHighlight<u64>,
            HighlightError,
        >(#[trigger] all[i]) by {
            if i < shorter.len() {
                assert(shorter[i] == highlights[i]);
                assert(all[i] == all_unwired(fewer)->Ok_0[i]);
            }
        }
    }
}

/// Highlights arrive as they were sent; a kind that is not known arrives as plain text.
pub proof fn highlights_arrive_as_sent(
    sent: Vec<DocumentHighlight<u64>>,
    message: Vec<ProtoDocumentHighlight>,
    received: Result<Vec<DocumentHighlight<u64>>, HighlightError>,
    i: int,
)
    requires
        call_ensures(document_highlights_to_proto, (&sent,), message),
        call_ensures(document_highlights_from_proto, (&message,), received),
        0 <= i < sent@.len(),
    ensures
        received is Ok,
        received->Ok_0@.len() == sent@.len(),
        received->Ok_0@[i].start == sent@[i].start,
        received->Ok_0@[i].end == sent@[i].end,
        sent@[i].kind is Other ==> received->Ok_0@[i].kind is Text,
        !(sent@[i].kind is Other) ==> received->Ok_0@[i].kind == sent@[i].kind,
        sent@[i].kind is Read <==> message@[i].kind == Some(ProtoHighlightKind::Read),
        sent@[i].kind is Write <==> message@[i].kind == Some(ProtoHighlightKind::Write),
{
    wired_highlights_are_read(sent@);
    assert(message@[i] == wire(sent@[i]));
}

/// A highlight needs both of its places.
pub proof fn highlights_need_their_places(
    message: Vec<ProtoDocumentHighlight>,
    response: Result<Vec<DocumentHighlight<u64>>, HighlightError>,
)
    requires
        call_ensures(document_highlights_from_proto, (&message,), response),
        message@.len() == 1,
    ensures
        message@[0].start is None ==> response is Err && response->Err_0 is MissingStart,
        message@[0].start is Some && message@[0].end is None ==> response is Err && response->Err_0
            is MissingEnd,
        message@[0].start is Some && message@[0].end is Some ==> response is Ok,
        message@[0].kind is None && response is Ok ==> response->Ok_0@.len() == 1
            && response->Ok_0@[0].kind is Text,
{
    reveal_with_fuel(all_unwired, 2);
    assert(message@.drop_last().len() == 0);
    assert(message@.last() == message@[0]);
}
/// Each error is called by what is missing.
pub proof fn highlight_errors_say_what_is_missing(error: HighlightError, message: &'static str)
    requires
        call_ensures(HighlightError::message, (&error,), message),
    ensures
        error is MissingStart ==> message@ == "missing target start"@,
        error is MissingEnd ==> message@ == "missing target end"@,
{
}

} // verus!
