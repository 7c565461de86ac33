//! What a text becomes when edits are applied to it, and the places in it.
use vstd::prelude::*;

use crate::lsp_store::text_edits::PointUtf16;

verus! {

/// A part of a text that is replaced by another text. Places are counted in characters.
pub ghost struct OffsetEdit {
    pub start: int,
    pub end: int,
    pub text: Seq<char>,
}

/// The edits lie in the text, one after the other.
pub open spec fn are_in_order(text: Seq<char>, edits: Seq<OffsetEdit>) -> bool
    decreases edits.len(),
{
    edits.len() == 0 || {
        &&& are_in_order(text, edits.drop_last())
        &&& end_of(edits.drop_last()) <= edits.last().start <= edits.last().end <= text.len()
    }
}

/// Where the last of the edits ends.
pub open spec fn end_of(edits: Seq<OffsetEdit>) -> int {
    if edits.len() == 0 {
        0
    } else {
        edits.last().end
    }
}

/// What the text is up to the end of the last edit, with all edits applied.
pub open spec fn edited_start(text: Seq<char>, edits: Seq<OffsetEdit>) -> Seq<char>
    decreases edits.len(),
{
    if edits.len() == 0 {
        Seq::empty()
    } else {
        let earlier = edits.drop_last();
        edited_start(text, earlier) + text.subrange(end_of(earlier), edits.last().start)
            + edits.last().text
    }
}

/// The text with all edits applied.
pub open spec fn edited_text(text: Seq<char>, edits: Seq<OffsetEdit>) -> Seq<char> {
    edited_start(text, edits) + text.skip(end_of(edits))
}

/// Where an edit that follows others begins once those are applied.
pub open spec fn moved_start(text: Seq<char>, earlier: Seq<OffsetEdit>, start: int) -> int {
    edited_start(text, earlier).len() + start - end_of(earlier)
}

/// Edits that are in order end in the text.
proof fn lemma_end_of(text: Seq<char>, edits: Seq<OffsetEdit>)
    requires
        are_in_order(text, edits),
    ensures
        0 <= end_of(edits) <= text.len(),
    decreases edits.len(),
{
    if edits.len() > 0 {
        lemma_end_of(text, edits.drop_last());
    }
}

/// A place in a text, without a bound on rows and columns.
pub ghost struct Place {
    pub row: nat,
    pub column: nat,
}

/// How many UTF-16 code units a character takes.
pub open spec fn units(c: char) -> nat {
    if c as u32 >= 0x10000 {
        2
    } else {
        1
    }
}

/// The place at the end of a text.
pub open spec fn extent(text: Seq<char>) -> Place
    decreases text.len(),
{
    if text.len() == 0 {
        Place { row: 0, column: 0 }
    } else {
        let before = extent(text.drop_last());
        if text.last() == '\n' {
            Place { row: before.row + 1, column: 0 }
        } else {
            Place { row: before.row, column: before.column + units(text.last()) }
        }
    }
}

/// The place that lies behind `start` by as much as `distance` lies behind the start of a text.
pub open spec fn beyond(start: Place, distance: Place) -> Place {
    if distance.row == 0 {
        Place { row: start.row, column: start.column + distance.column }
    } else {
        Place { row: start.row + distance.row, column: distance.column }
    }
}

/// By how much `end` lies behind `start`.
pub open spec fn distance(start: Place, end: Place) -> Place
    recommends
        start.row < end.row || start.row == end.row && start.column <= end.column,
{
    if start.row == end.row {
        Place { row: 0, column: (end.column - start.column) as nat }
    } else {
        Place { row: (end.row - start.row) as nat, column: end.column }
    }
}

pub open spec fn place(point: PointUtf16) -> Place {
    Place { row: point.row as nat, column: point.column as nat }
}

/// A text behind another one ends as far behind it as it is long.
pub proof fn extent_of_both(a: Seq<char>, b: Seq<char>)
    ensures
        extent(a + b) == beyond(extent(a), extent(b)),
        distance(extent(a), extent(a + b)) == extent(b),
    decreases b.len(),
{
    if b.len() == 0 {
        assert(a + b =~= a);
    } else {
        extent_of_both(a, b.drop_last());
        assert((a + b).drop_last() =~= a + b.drop_last());
        assert((a + b).last() == b.last());
    }
}

/// A server that is sent the edits one after the other, each with a range that begins where the
/// edit begins in the new text and is as long as the part that it replaces, ends up with the new
/// text: each range covers, in what the server has by then, just the part that the edit replaces.
pub proof fn edits_can_be_sent_in_order(text: Seq<char>, edits: Seq<OffsetEdit>)
    requires
        edits.len() > 0,
        are_in_order(text, edits),
    ensures
        ({
            let earlier = edits.drop_last();
            let edit = edits.last();
            let has = edited_text(text, earlier);
            let becomes = edited_text(text, edits);
            let start = moved_start(text, earlier, edit.start);
            let end = start + (edit.end - edit.start);
            let range_start = extent(becomes.take(start));
            let range_end = beyond(
                range_start,
                distance(extent(text.take(edit.start)), extent(text.take(edit.end))),
            );
            &&& 0 <= start <= end <= has.len()
            &&& range_start == extent(has.take(start))
            &&& range_end == extent(has.take(end))
            &&& becomes == has.take(start) + edit.text + has.skip(end)
        }),
{
    let earlier = edits.drop_last();
    let edit = edits.last();
    lemma_end_of(text, earlier);
    let has = edited_text(text, earlier);
    let becomes = edited_text(text, edits);
    let start = moved_start(text, earlier, edit.start);
    let end = start + (edit.end - edit.start);
    let replaced = text.subrange(edit.start, edit.end);
    let kept = edited_start(text, earlier) + text.subrange(end_of(earlier), edit.start);
    assert(has.take(start) =~= kept);
    assert(becomes.take(start) =~= kept);
    assert(has.take(end) =~= kept + replaced);
    assert(has.skip(end) =~= text.skip(edit.end));
    assert(becomes =~= kept + edit.text + has.skip(end));
    assert(text.take(edit.end) =~= text.take(edit.start) + replaced);
    extent_of_both(text.take(edit.start), replaced);
    extent_of_both(kept, replaced);
}

/// The rows of a text as one text.
pub open spec fn joined_rows(rows: Seq<Seq<char>>) -> Seq<char>
    decreases rows.len(),
{
    if rows.len() == 0 {
        Seq::empty()
    } else if rows.len() == 1 {
        rows[0]
    } else {
        joined_rows(rows.drop_last()).push('\n') + rows.last()
    }
}

/// How many UTF-16 code units a row takes.
pub open spec fn width(row: Seq<char>) -> nat
    decreases row.len(),
{
    if row.len() == 0 {
        0
    } else {
        width(row.drop_last()) + units(row.last())
    }
}

/// How many characters of a row fit before a column.
pub open spec fn chars_before(row: Seq<char>, column: nat) -> nat
    decreases row.len(),
{
    if row.len() == 0 || width(row) <= column {
        row.len()
    } else {
        chars_before(row.drop_last(), column)
    }
}

/// Where a row begins.
pub open spec fn row_start(rows: Seq<Seq<char>>, row: int) -> int
    decreases row,
{
    if row <= 0 {
        0
    } else {
        row_start(rows, row - 1) + rows[row - 1].len() + 1
    }
}

/// How many characters lie before a place.
pub open spec fn offset(rows: Seq<Seq<char>>, point: PointUtf16) -> int {
    row_start(rows, point.row as int) + chars_before(rows[point.row as int], point.column as nat)
}

proof fn lemma_chars_before(row: Seq<char>, a: nat, b: nat)
    requires
        a <= b,
    ensures
        chars_before(row, a) <= chars_before(row, b) <= row.len(),
        chars_before(row, 0) == 0,
    decreases row.len(),
{
    if row.len() > 0 {
        lemma_chars_before(row.drop_last(), a, b);
    }
}

proof fn lemma_row_start(rows: Seq<Seq<char>>, a: int, b: int)
    requires
        0 <= a < b < rows.len(),
    ensures
        row_start(rows, a) + rows[a].len() < row_start(rows, b),
    decreases b,
{
    if a < b - 1 {
        lemma_row_start(rows, a, b - 1);
    }
}

/// The joined rows hold the last row at its start, and end with it.
proof fn lemma_joined(rows: Seq<Seq<char>>)
    requires
        rows.len() > 0,
    ensures
        joined_rows(rows).len() == row_start(rows, rows.len() - 1) + rows.last().len(),
    decreases rows.len(),
{
    if rows.len() > 1 {
        let earlier = rows.drop_last();
        lemma_joined(earlier);
        lemma_same_starts(rows, earlier, earlier.len() - 1);
    }
}

proof fn lemma_same_starts(rows: Seq<Seq<char>>, earlier: Seq<Seq<char>>, row: int)
    requires
        rows.len() > 0,
        earlier == rows.drop_last(),
        0 <= row <= earlier.len(),
    ensures
        row_start(rows, row) == row_start(earlier, row),
    decreases row,
{
    if row > 0 {
        lemma_same_starts(rows, earlier, row - 1);
        assert(earlier[row - 1] == rows[row - 1]);
    }
}

/// A later place has no fewer characters before it, and none has more than there are.
pub proof fn places_are_in_order(rows: Seq<Seq<char>>, a: PointUtf16, b: PointUtf16)
    requires
        a.row < rows.len(),
        b.row < rows.len(),
        !b.before(a),
    ensures
        0 <= offset(rows, a) <= offset(rows, b) <= joined_rows(rows).len(),
{
    lemma_chars_before(rows[a.row as int], a.column as nat, a.column as nat);
    lemma_chars_before(rows[b.row as int], b.column as nat, b.column as nat);
    if a.row < b.row {
        lemma_row_start(rows, a.row as int, b.row as int);
    } else {
        lemma_chars_before(rows[a.row as int], a.column as nat, b.column as nat);
    }
    if a.row > 0 {
        lemma_row_start(rows, 0, a.row as int);
    }
    lemma_joined(rows);
    if b.row < rows.len() - 1 {
        lemma_row_start(rows, b.row as int, rows.len() - 1);
    }
}

/// Between the end of a row and the start of the next one lies a newline.
pub proof fn newline_ends_row(rows: Seq<Seq<char>>, end: PointUtf16, next: PointUtf16)
    requires
        next.row < rows.len(),
        next.row == end.row + 1,
        next.column == 0,
        width(rows[end.row as int]) <= end.column,
    ensures
        offset(rows, next) == offset(rows, end) + 1,
        offset(rows, next) <= joined_rows(rows).len(),
        joined_rows(rows)[offset(rows, end)] == '\n',
    decreases rows.len(),
{
    lemma_chars_before(rows[next.row as int], 0, 0);
    lemma_joined(rows);
    let earlier = rows.drop_last();
    lemma_joined(earlier);
    lemma_same_starts(rows, earlier, end.row as int);
    if next.row == rows.len() - 1 {
        lemma_same_starts(rows, earlier, earlier.len() - 1);
        assert(joined_rows(rows)[joined_rows(earlier).len() as int] == '\n');
    } else {
        newline_ends_row(earlier, end, next);
        lemma_same_starts(rows, earlier, next.row as int);
        places_are_in_order(earlier, end, next);
        assert(offset(rows, end) == offset(earlier, end));
        assert(joined_rows(rows)[offset(rows, end)] == joined_rows(earlier)[offset(rows, end)]);
        places_are_in_order(rows, next, next);
    }
}

} // verus!
