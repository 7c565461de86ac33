//! Ranges that are edited together, and ranges that can be folded.
use vstd::prelude::*;

use crate::lsp_store::text_edits::PointUtf16;
use crate::text_lines::{collapse_newlines, filled_lines, lines_of};

verus! {

/// A range as a server states it, with the places in the buffer to which it was clipped.
#[derive(Clone, Copy, Debug, PartialEq, Eq, Structural)]
pub struct LspRange {
    pub start: PointUtf16,
    pub end: PointUtf16,
    pub clipped_start: PointUtf16,
    pub clipped_end: PointUtf16,
}

/// How many ranges from the front on start no later than a place.
pub open spec fn count_up_to(ranges: Seq<LspRange>, start: PointUtf16) -> nat
    decreases ranges.len(),
{
    if ranges.len() == 0 {
        0
    } else if start.before(ranges.last().start) {
        count_up_to(ranges.drop_last(), start)
    } else {
        ranges.len()
    }
}

/// The ranges by where they start; ranges that start at the same place keep their order.
pub open spec fn by_start(ranges: Seq<LspRange>) -> Seq<LspRange>
    decreases ranges.len(),
{
    if ranges.len() == 0 {
        Seq::empty()
    } else {
        let earlier = by_start(ranges.drop_last());
        earlier.insert(count_up_to(earlier, ranges.last().start) as int, ranges.last())
    }
}

proof fn lemma_count_bound(ranges: Seq<LspRange>, start: PointUtf16)
    ensures
        count_up_to(ranges, start) <= ranges.len(),
    decreases ranges.len(),
{
    if ranges.len() > 0 {
        lemma_count_bound(ranges.drop_last(), start);
    }
}

/// Ranges by where they start are in ascending order, and none is lost.
pub proof fn by_start_is_sorted(ranges: Seq<LspRange>)
    ensures
        by_start(ranges).len() == ranges.len(),
        by_start(ranges).to_multiset() == ranges.to_multiset(),
        forall|i: int, j: int|
            0 <= i < j < by_start(ranges).len() ==> !(#[trigger] by_start(ranges)[j]).start.before(
                (#[trigger] by_start(ranges)[i]).start,
            ),
    decreases ranges.len(),
{
    if ranges.len() > 0 {
        let earlier = by_start(ranges.drop_last());
        let range = ranges.last();
        let at = count_up_to(earlier, range.start) as int;
        by_start_is_sorted(ranges.drop_last());
        lemma_count_bound(earlier, range.start);
        lemma_count_splits(earlier, range.start);
        let sorted = by_start(ranges);
        crate::sorting::insert_multiset(earlier, at, range);
        assert(ranges.drop_last().push(range) =~= ranges);
        assert(ranges.to_multiset() =~= ranges.drop_last().to_multiset().insert(range)) by {
            ranges.drop_last().to_multiset_ensures();
        }
        assert forall|i: int, j: int| 0 <= i < j < sorted.len() implies !(
        #[trigger] sorted[j]).start.before((#[trigger] sorted[i]).start) by {
            if i < at && j < at {
                assert(sorted[i] == earlier[i] && sorted[j] == earlier[j]);
            } else if i < at && j == at {
                assert(sorted[i] == earlier[i]);
            } else if i < at {
                assert(sorted[i] == earlier[i] && sorted[j] == earlier[j - 1]);
            } else if i == at {
                assert(sorted[j] == earlier[j - 1]);
            } else {
                assert(sorted[i] == earlier[i - 1] && sorted[j] == earlier[j - 1]);
            }
        }
    } else {
        assert(by_start(ranges) =~= ranges);
    }
}

/// In an ascending list, what starts no later comes before what starts later.
proof fn lemma_count_splits(ranges: Seq<LspRange>, start: PointUtf16)
    requires
        forall|i: int, j: int|
            0 <= i < j < ranges.len() ==> !(#[trigger] ranges[j]).start.before(
                (#[trigger] ranges[i]).start,
            ),
    ensures
        forall|i: int|
            0 <= i < count_up_to(ranges, start) ==> !start.before((#[trigger] ranges[i]).start),
        forall|i: int|
            count_up_to(ranges, start) <= i < ranges.len() ==> start.before(
                (#[trigger] ranges[i]).start,
            ),
    decreases ranges.len(),
{
    if ranges.len() > 0 {
        let earlier = ranges.drop_last();
        assert forall|i: int, j: int| 0 <= i < j < earlier.len() implies !(
        #[trigger] earlier[j]).start.before((#[trigger] earlier[i]).start) by {
            assert(earlier[i] == ranges[i] && earlier[j] == ranges[j]);
        }
        lemma_count_splits(earlier, start);
        lemma_count_bound(earlier, start);
        if start.before(ranges.last().start) {
            assert forall|i: int| 0 <= i < count_up_to(ranges, start) implies !start.before(
                (#[trigger] ranges[i]).start,
            ) by {
                assert(ranges[i] == earlier[i]);
            }
            assert forall|i: int|
                count_up_to(ranges, start) <= i < ranges.len() implies start.before(
                (#[trigger] ranges[i]).start,
            ) by {
                if i < earlier.len() {
                    assert(ranges[i] == earlier[i]);
                }
            }
        } else {
            assert forall|i: int| 0 <= i < ranges.len() implies !start.before(
                (#[trigger] ranges[i]).start,
            ) by {
                if i < ranges.len() - 1 {
                    assert(!ranges[ranges.len() - 1].start.before(ranges[i].start));
                }
            }
        }
    }
}

/// What an answer means: the ranges by where they start.
pub fn linked_ranges_from_lsp(message: Option<Vec<LspRange>>) -> (ranges: Vec<LspRange>)
    ensures
        ranges@ == (match message {
            Some(ranges) => by_start(ranges@),
            None => Seq::empty(),
        }),
{
    let given: Vec<LspRange> = match message {
        Some(ranges) => ranges,
        None => return Vec::new(),
    };
    let mut sorted: Vec<LspRange> = Vec::new();
    let mut i: usize = 0;
    while i < given.len()
        invariant
            i <= given@.len(),
            sorted@ == by_start(given@.take(i as int)),
        decreases given@.len() - i,
    {
        let range: LspRange = given[i];
        assert(given@.take(i + 1).drop_last() =~= given@.take(i as int));
        assert(given@.take(i + 1).last() == range);
        let mut at: usize = sorted.len();
        assert(sorted@.take(at as int) =~= sorted@);
        while at > 0 && range.start.is_before(&sorted[at - 1].start)
            invariant
                at <= sorted@.len(),
                count_up_to(sorted@, range.start) == count_up_to(
                    sorted@.take(at as int),
                    range.start,
                ),
            ensures
                at <= sorted@.len(),
                count_up_to(sorted@, range.start) == count_up_to(
                    sorted@.take(at as int),
                    range.start,
                ),
                at > 0 ==> !range.start.before(sorted@[at - 1].start),
            decreases at,
        {
            assert(sorted@.take(at as int).drop_last() =~= sorted@.take(at - 1));
            at -= 1;
        }
        assert(count_up_to(sorted@.take(at as int), range.start) == at);
        sorted.insert(at, range);
        i += 1;
    }
    assert(given@.take(i as int) =~= given@);
    sorted
}

/// A pair of places on the wire, each of which may be missing.
#[derive(Clone, Copy, Debug, PartialEq, Eq, Structural)]
pub struct ProtoAnchorRange {
    pub start: Option<u64>,
    pub end: Option<u64>,
}

/// The ranges of which both ends are there.
pub open spec fn complete(ranges: Seq<ProtoAnchorRange>) -> Seq<(u64, u64)>
    decreases ranges.len(),
{
    if ranges.len() == 0 {
        Seq::empty()
    } else {
        let earlier = complete(ranges.drop_last());
        match (ranges.last().start, ranges.last().end) {
            (Some(start), Some(end)) => earlier.push((start, end)),
            _ => earlier,
        }
    }
}

pub open spec fn wire_range(range: (u64, u64)) -> ProtoAnchorRange {
    ProtoAnchorRange { start: Some(range.0), end: Some(range.1) }
}

pub fn linked_ranges_to_proto(ranges: &Vec<(u64, u64)>) -> (message: Vec<ProtoAnchorRange>)
    ensures
        message@ == ranges@.map_values(|r: (u64, u64)| wire_range(r)),
{
    let mut message: Vec<ProtoAnchorRange> = Vec::new();
    let mut i: usize = 0;
    while i < ranges.len()
        invariant
            i <= ranges@.len(),
            message@ =~= ranges@.take(i as int).map_values(|r: (u64, u64)| wire_range(r)),
        decreases ranges@.len() - i,
    {
        let (start, end) = ranges[i];
        message.push(ProtoAnchorRange { start: Some(start), end: Some(end) });
        i += 1;
    }
    assert(ranges@.take(i as int) =~= ranges@);
    message
}

/// What a wire form means. Ranges of which an end cannot be read are left out.
pub fn linked_ranges_from_proto(message: &Vec<ProtoAnchorRange>) -> (ranges: Vec<(u64, u64)>)
    ensures
        ranges@ == complete(message@),
{
    let mut ranges: Vec<(u64, u64)> = Vec::new();
    let mut i: usize = 0;
    while i < message.len()
        invariant
            i <= message@.len(),
            ranges@ == complete(message@.take(i as int)),
        decreases message@.len() - i,
    {
        assert(message@.take(i + 1).drop_last() =~= message@.take(i as int));
        assert(message@.take(i + 1).last() == message@[i as int]);
        if let Some(start) = message[i].start {
            if let Some(end) = message[i].end {
                ranges.push((start, end));
            }
        }
        i += 1;
    }
    assert(message@.take(i as int) =~= message@);
    ranges
}

/// Linked ranges come over the wire as they were sent.
pub proof fn linked_ranges_round_trip(ranges: Seq<(u64, u64)>)
    ensures
        complete(ranges.map_values(|r: (u64, u64)| wire_range(r))) == ranges,
    decreases ranges.len(),
{
    let wired = ranges.map_values(|r: (u64, u64)| wire_range(r));
    if ranges.len() > 0 {
        linked_ranges_round_trip(ranges.drop_last());
        assert(wired.drop_last() =~= ranges.drop_last().map_values(
            |r: (u64, u64)| wire_range(r),
        ));
        assert(ranges.drop_last().push(ranges.last()) =~= ranges);
    } else {
        assert(complete(wired) =~= ranges);
    }
}

/// A range that a server says can be folded.
#[derive(Debug)]
pub struct FoldingRange {
    pub start_line: u32,
    pub start_character: Option<u32>,
    pub end_line: u32,
    pub end_character: Option<u32>,
    pub collapsed_text: Option<String>,
}

/// A range that can be folded, from a place to a place, and what is shown instead. The
/// places are yet to be clipped to the buffer, the first to the right, the second to the
/// left.
#[derive(Debug)]
pub struct FoldPlaces {
    pub start: PointUtf16,
    pub end: PointUtf16,
    pub collapsed_text: Option<String>,
}

pub ghost struct FoldView {
    pub start: PointUtf16,
    pub end: PointUtf16,
    pub collapsed_text: Option<Seq<char>>,
}

impl View for FoldPlaces {
    type V = FoldView;

    open spec fn view(&self) -> FoldView {
        FoldView {
            start: self.start,
            end: self.end,
            collapsed_text: match self.collapsed_text {
                Some(text) => Some(text@),
                None => None,
            },
        }
    }
}

/// The range spans lines, and all of them are in the buffer.
pub open spec fn is_foldable(range: FoldingRange, max_row: u32) -> bool {
    range.start_line < range.end_line && range.start_line <= max_row && range.end_line <= max_row
}

/// A column that is left out stands for the end of the line.
pub open spec fn column_or_end(column: Option<u32>) -> u32 {
    match column {
        Some(column) => column,
        None => u32::MAX,
    }
}

pub open spec fn fold_of(range: FoldingRange) -> FoldView {
    FoldView {
        start: PointUtf16 {
            row: range.start_line,
            column: column_or_end(range.start_character),
        },
        end: PointUtf16 { row: range.end_line, column: column_or_end(range.end_character) },
        collapsed_text: match range.collapsed_text {
            Some(text) => if text@.len() == 0 {
                None
            } else {
                Some(crate::text::joined(filled_lines(lines_of(text@)), " "@))
            },
            None => None,
        },
    }
}

pub open spec fn folds_of(ranges: Seq<FoldingRange>, max_row: u32) -> Seq<FoldView>
    decreases ranges.len(),
{
    if ranges.len() == 0 {
        Seq::empty()
    } else if is_foldable(ranges.last(), max_row) {
        folds_of(ranges.drop_last(), max_row).push(fold_of(ranges.last()))
    } else {
        folds_of(ranges.drop_last(), max_row)
    }
}

pub open spec fn fold_views(folds: Seq<FoldPlaces>) -> Seq<FoldView> {
    folds.map_values(|f: FoldPlaces| f@)
}

fn column(given: Option<u32>) -> (column: u32)
    ensures
        column == column_or_end(given),
{
    match given {
        Some(column) => column,
        None => u32::MAX,
    }
}

/// What an answer means: the ranges that span lines of the buffer. What is shown instead
/// of them is brought into one line.
pub fn folding_ranges_from_lsp(message: &Option<Vec<FoldingRange>>, max_row: u32) -> (folds: Vec<
    FoldPlaces,
>)
    ensures
        fold_views(folds@) == (match *message {
            Some(ranges) => folds_of(ranges@, max_row),
            None => Seq::empty(),
        }),
{
    let mut folds: Vec<FoldPlaces> = Vec::new();
    assert(fold_views(folds@) =~= Seq::<FoldView>::empty());
    if let Some(ranges) = message {
        let mut i: usize = 0;
        while i < ranges.len()
            invariant
                i <= ranges@.len(),
                fold_views(folds@) == folds_of(ranges@.take(i as int), max_row),
            decreases ranges@.len() - i,
        {
            let range: &FoldingRange = &ranges[i];
            let ghost before = fold_views(folds@);
            assert(ranges@.take(i + 1).drop_last() =~= ranges@.take(i as int));
            assert(ranges@.take(i + 1).last() == ranges@[i as int]);
            if range.start_line < range.end_line && range.start_line <= max_row && range.end_line
                <= max_row {
                let collapsed_text: Option<String> = match &range.collapsed_text {
                    Some(text) => if text.as_str().is_empty() {
                        None
                    } else {
                        Some(collapse_newlines(text.as_str(), " "))
                    },
                    None => None,
                };
                let fold = FoldPlaces {
                    start: PointUtf16 {
                        row: range.start_line,
                        column: column(range.start_character),
                    },
                    end: PointUtf16 { row: range.end_line, column: column(range.end_character) },
                    collapsed_text,
                };
                assert(fold@ == fold_of(*range));
                folds.push(fold);
                assert(fold_views(folds@) =~= before.push(fold_of(*range)));
            }
            i += 1;
        }
        assert(ranges@.take(i as int) =~= ranges@);
    }
    folds
}

/// A fold between two anchors.
#[derive(Debug)]
pub struct LspFoldingRange {
    pub start: u64,
    pub end: u64,
    pub collapsed_text: Option<String>,
}

pub ghost struct FoldingRangeView {
    pub start: u64,
    pub end: u64,
    pub collapsed_text: Option<Seq<char>>,
}

impl View for LspFoldingRange {
    type V = FoldingRangeView;

    open spec fn view(&self) -> FoldingRangeView {
        FoldingRangeView {
            start: self.start,
            end: self.end,
            collapsed_text: match self.collapsed_text {
                Some(text) => Some(text@),
                None => None,
            },
        }
    }
}

pub open spec fn range_views(ranges: Seq<LspFoldingRange>) -> Seq<FoldingRangeView> {
    ranges.map_values(|r: LspFoldingRange| r@)
}

/// The wire form of folds: the ranges, of which one may be unreadable, and the texts,
/// of which there may be fewer.
#[derive(Debug)]
pub struct ProtoFoldingRanges {
    pub ranges: Vec<Option<(u64, u64)>>,
    pub collapsed_texts: Vec<String>,
}

/// The text of a fold on the wire; one that has none has an empty one.
pub open spec fn text_or_empty(text: Option<Seq<char>>) -> Seq<char> {
    match text {
        Some(text) => text,
        None => Seq::empty(),
    }
}

pub open spec fn is_wire(message: ProtoFoldingRanges, folds: Seq<FoldingRangeView>) -> bool {
    &&& message.ranges@.len() == folds.len()
    &&& message.collapsed_texts@.len() == folds.len()
    &&& forall|i: int|
        0 <= i < folds.len() ==> #[trigger] message.ranges@[i] == Some(
            (folds[i].start, folds[i].end),
        )
    &&& forall|i: int|
        0 <= i < folds.len() ==> (#[trigger] message.collapsed_texts@[i])@ == text_or_empty(
            folds[i].collapsed_text,
        )
}

/// What a wire form means, where all ranges can be read.
pub open spec fn is_meant(folds: Seq<FoldingRangeView>, message: ProtoFoldingRanges) -> bool {
    &&& folds.len() == message.ranges@.len()
    &&& forall|i: int|
        0 <= i < folds.len() ==> {
            &&& message.ranges@[i] == Some(((#[trigger] folds[i]).start, folds[i].end))
            &&& folds[i].collapsed_text == (if i < message.collapsed_texts@.len()
                && message.collapsed_texts@[i]@.len() > 0 {
                Some(message.collapsed_texts@[i]@)
            } else {
                None
            })
        }
}

pub fn folding_ranges_to_proto(response: &Vec<LspFoldingRange>) -> (message: ProtoFoldingRanges)
    ensures
        is_wire(message, range_views(response@)),
{
    let mut ranges: Vec<Option<(u64, u64)>> = Vec::new();
    let mut collapsed_texts: Vec<String> = Vec::new();
    let ghost views = range_views(response@);
    let mut i: usize = 0;
    while i < response.len()
        invariant
            i <= response@.len(),
            views == range_views(response@),
            ranges@.len() == i,
            collapsed_texts@.len() == i,
            forall|j: int|
                0 <= j < i ==> #[trigger] ranges@[j] == Some((views[j].start, views[j].end)),
            forall|j: int|
                0 <= j < i ==> (#[trigger] collapsed_texts@[j])@ == text_or_empty(
                    views[j].collapsed_text,
                ),
        decreases response@.len() - i,
    {
        ranges.push(Some((response[i].start, response[i].end)));
        let text: String = match &response[i].collapsed_text {
            Some(text) => text.clone(),
            None => String::new(),
        };
        assert(text@ =~= text_or_empty(views[i as int].collapsed_text));
        collapsed_texts.push(text);
        i += 1;
    }
    ProtoFoldingRanges { ranges, collapsed_texts }
}

/// What a wire form means; nothing, if a range cannot be read.
pub fn folding_ranges_from_proto(message: &ProtoFoldingRanges) -> (response: Option<
    Vec<LspFoldingRange>,
>)
    ensures
        response is Some <==> forall|i: int|
            0 <= i < message.ranges@.len() ==> (#[trigger] message.ranges@[i]) is Some,
        response matches Some(response) ==> is_meant(range_views(response@), *message),
{
    let mut response: Vec<LspFoldingRange> = Vec::new();
    let mut i: usize = 0;
    while i < message.ranges.len()
        invariant
            i <= message.ranges@.len(),
            response@.len() == i,
            forall|j: int| 0 <= j < i ==> (#[trigger] message.ranges@[j]) is Some,
            forall|j: int|
                0 <= j < i ==> {
                    let fold = (#[trigger] response@[j])@;
                    &&& message.ranges@[j] == Some((fold.start, fold.end))
                    &&& fold.collapsed_text == (if j < message.collapsed_texts@.len()
                        && message.collapsed_texts@[j]@.len() > 0 {
                        Some(message.collapsed_texts@[j]@)
                    } else {
                        None
                    })
                },
        decreases message.ranges@.len() - i,
    {
        let (start, end) = match message.ranges[i] {
            Some((start, end)) => (start, end),
            None => {
                assert(message.ranges@[i as int] is None);
                return None;
            },
        };
        let mut collapsed_text: Option<String> = None;
        if i < message.collapsed_texts.len() {
            if !message.collapsed_texts[i].as_str().is_empty() {
                collapsed_text = Some(message.collapsed_texts[i].clone());
            }
        }
        response.push(LspFoldingRange { start, end, collapsed_text });
        i += 1;
    }
    Some(response)
}

/// Folds come over the wire as they were sent; an empty text arrives as none.
pub proof fn folding_ranges_round_trip(
    sent: Seq<FoldingRangeView>,
    message: ProtoFoldingRanges,
    received: Seq<FoldingRangeView>,
)
    requires
        is_wire(message, sent),
        is_meant(received, message),
        forall|i: int|
            0 <= i < sent.len() ==> ((#[trigger] sent[i]).collapsed_text matches Some(text)
                ==> text.len() > 0),
    ensures
        received == sent,
{
    assert forall|i: int| 0 <= i < sent.len() implies received[i] == sent[i] by {
        assert(message.ranges@[i] == Some((sent[i].start, sent[i].end)));
        assert(message.collapsed_texts@[i]@ == text_or_empty(sent[i].collapsed_text));
    }
    assert(received =~= sent);
}
/// Linked ranges come by where they start, and ranges that start at the same place in the order
/// in which they were stated.
pub proof fn linked_ranges_come_by_their_start(
    message: Vec<LspRange>,
    ranges: Vec<LspRange>,
    none: Vec<LspRange>,
    i: int,
    j: int,
)
    requires
        call_ensures(linked_ranges_from_lsp, (Some(message),), ranges),
        call_ensures(linked_ranges_from_lsp, (None,), none),
    ensures
        none@.len() == 0,
        ranges@.len() == message@.len(),
        ranges@.to_multiset() == message@.to_multiset(),
        0 <= i < j < ranges@.len() ==> ranges@[i].start.row < ranges@[j].start.row || (
        ranges@[i].start.row == ranges@[j].start.row && ranges@[i].start.column
            <= ranges@[j].start.column),
        message@.len() == 2 && message@[0].start == message@[1].start ==> ranges@ == message@,
{
    by_start_is_sorted(message@);
    if message@.len() == 2 {
        reveal_with_fuel(by_start, 3);
        reveal_with_fuel(count_up_to, 2);
        let first = message@.drop_last();
        assert(first.drop_last().len() == 0);
        assert(by_start(first) =~= seq![message@[0]]);
        assert(by_start(first).last() == message@[0]);
        if message@[0].start == message@[1].start {
            assert(count_up_to(by_start(first), message@[1].start) == 1);
            assert(by_start(message@) =~= message@);
        }
    }
}

/// Linked ranges arrive as they were sent, and one of which an end is missing is left out.
pub proof fn linked_ranges_arrive_as_sent(
    sent: Vec<(u64, u64)>,
    message: Vec<ProtoAnchorRange>,
    received: Vec<(u64, u64)>,
    range: ProtoAnchorRange,
    more: Vec<ProtoAnchorRange>,
    all: Vec<(u64, u64)>,
)
    requires
        call_ensures(linked_ranges_to_proto, (&sent,), message),
        call_ensures(linked_ranges_from_proto, (&message,), received),
        more@ == message@.push(range),
        call_ensures(linked_ranges_from_proto, (&more,), all),
    ensures
        received@ == sent@,
        range.start is Some && range.end is Some ==> all@ == sent@.push(
            (range.start->0, range.end->0),
        ),
        range.start is None || range.end is None ==> all@ == sent@,
{
    linked_ranges_round_trip(sent@);
    assert(more@.drop_last() =~= message@);
}

/// A range can be folded if it spans lines and lies in the buffer; a column that is left out is
/// the end of the line. An empty text is none.
pub proof fn ranges_across_lines_are_folded(
    ranges: Vec<FoldingRange>,
    max_row: u32,
    folds: Vec<FoldPlaces>,
    none: Vec<FoldPlaces>,
)
    requires
        call_ensures(folding_ranges_from_lsp, (&Some(ranges), max_row), folds),
        call_ensures(folding_ranges_from_lsp, (&None, max_row), none),
        ranges@.len() == 1,
    ensures
        none@.len() == 0,
        ({
            let range = ranges@[0];
            let foldable = range.start_line < range.end_line && range.end_line <= max_row;
            &&& folds@.len() == if foldable { 1int } else { 0 }
            &&& foldable ==> {
                &&& folds@[0].start.row == range.start_line
                &&& folds@[0].end.row == range.end_line
                &&& folds@[0].start.column == (match range.start_character {
                    Some(column) => column,
                    None => u32::MAX,
                })
                &&& folds@[0].end.column == (match range.end_character {
                    Some(column) => column,
                    None => u32::MAX,
                })
                &&& folds@[0].collapsed_text is Some <==> range.collapsed_text is Some
                    && range.collapsed_text->0@.len() > 0
            }
        }),
{
    reveal_with_fuel(folds_of, 2);
    assert(ranges@.drop_last().len() == 0);
    assert(ranges@.last() == ranges@[0]);
    let views = fold_views(folds@);
    assert(views.len() == folds@.len());
    assert(fold_views(none@).len() == none@.len());
    if views.len() > 0 {
        assert(views[0] == folds@[0]@);
    }
}

/// A further range adds at most one fold, behind the others.
pub proof fn folds_come_in_their_order(
    ranges: Vec<FoldingRange>,
    max_row: u32,
    folds: Vec<FoldPlaces>,
    range: FoldingRange,
    more: Vec<FoldingRange>,
    all: Vec<FoldPlaces>,
    i: int,
)
    requires
        call_ensures(folding_ranges_from_lsp, (&Some(ranges), max_row), folds),
        call_ensures(folding_ranges_from_lsp, (&Some(more), max_row), all),
        more@ == ranges@.push(range),
    ensures
        folds@.len() <= all@.len() <= folds@.len() + 1,
        0 <= i < folds@.len() ==> all@[i]@ == folds@[i]@,
        all@.len() > folds@.len() ==> all@.last().start.row == range.start_line
            && all@.last().end.row == range.end_line,
{
    assert(more@.drop_last() =~= ranges@);
    let before = fold_views(folds@);
    let after = fold_views(all@);
    assert(before.len() == folds@.len() && after.len() == all@.len());
    if 0 <= i < folds@.len() {
        assert(before[i] == folds@[i]@ && after[i] == all@[i]@);
    }
    if all@.len() > folds@.len() {
        assert(after[all@.len() - 1] == all@.last()@);
    }
}

/// Folds arrive as they were sent, but for an empty text, which arrives as none. A range that
/// cannot be read makes all of them unreadable.
pub proof fn folds_arrive_as_sent(
    sent: Vec<LspFoldingRange>,
    message: ProtoFoldingRanges,
    received: Option<Vec<LspFoldingRange>>,
    i: int,
)
    requires
        call_ensures(folding_ranges_to_proto, (&sent,), message),
        call_ensures(folding_ranges_from_proto, (&message,), received),
        received is Some,
        0 <= i < sent@.len(),
    ensures
        received->0@.len() == sent@.len(),
        received->0@[i].start == sent@[i].start,
        received->0@[i].end == sent@[i].end,
        sent@[i].collapsed_text is None || sent@[i].collapsed_text->0@.len() == 0
            ==> received->0@[i].collapsed_text is None,
        sent@[i].collapsed_text is Some && sent@[i].collapsed_text->0@.len() > 0
            ==> received->0@[i].collapsed_text is Some && received->0@[i].collapsed_text->0@
            == sent@[i].collapsed_text->0@,
{
    let views = range_views(sent@);
    let back = range_views(received->0@);
    assert(views.len() == sent@.len() && back.len() == received->0@.len());
    assert(views[i] == sent@[i]@);
    assert(back[i] == received->0@[i]@);
    assert(message.ranges@[i] == Some((views[i].start, views[i].end)));
    assert(message.collapsed_texts@[i]@ == text_or_empty(views[i].collapsed_text));
}

} // verus!
