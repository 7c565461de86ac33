//! Edits of a language server, brought into the form in which a buffer takes them.
use vstd::prelude::*;

use crate::lsp_store::edited_text::{
    edited_start, edited_text, end_of, joined_rows, newline_ends_row, offset,
    places_are_in_order, width, OffsetEdit,
};
use crate::sorting::{is_sort_of, sort, Ordered};

verus! {

/// A place in a text, in rows and UTF-16 code units.
#[derive(Clone, Copy, Debug, PartialEq, Eq, Structural)]
pub struct PointUtf16 {
    pub row: u32,
    pub column: u32,
}

impl PointUtf16 {
    /// Comes before another place.
    pub open spec fn before(self, other: PointUtf16) -> bool {
        self.row < other.row || (self.row == other.row && self.column < other.column)
    }

    pub fn is_before(&self, other: &PointUtf16) -> (result: bool)
        ensures
            result == self.before(*other),
    {
        self.row < other.row || (self.row == other.row && self.column < other.column)
    }
}

/// An edit as the language server sent it, with the places in the snapshot to which
/// its range was clipped.
#[derive(Debug)]
pub struct TextEdit {
    pub start: PointUtf16,
    pub end: PointUtf16,
    pub clipped_start: PointUtf16,
    pub clipped_end: PointUtf16,
    pub new_text: String,
}

impl Ordered for TextEdit {
    open spec fn le(self, other: Self) -> bool {
        self.start.before(other.start) || (self.start == other.start && !other.end.before(
            self.end,
        ))
    }

    proof fn le_total(a: Self, b: Self) {
    }

    proof fn le_transitive(a: Self, b: Self, c: Self) {
    }

    fn is_le(&self, other: &Self) -> (result: bool) {
        self.start.is_before(&other.start) || (self.start == other.start
            && !other.end.is_before(&self.end))
    }
}

/// One edit made out of neighbouring ones.
pub ghost struct MergedView {
    pub start: PointUtf16,
    pub end: PointUtf16,
    pub text: Seq<char>,
}

#[derive(Debug)]
pub struct MergedEdit {
    pub start: PointUtf16,
    pub end: PointUtf16,
    pub text: String,
}

impl View for MergedEdit {
    type V = MergedView;

    open spec fn view(&self) -> MergedView {
        MergedView { start: self.start, end: self.end, text: self.text@ }
    }
}

/// How a merged edit is applied.
#[derive(Clone, Copy, Debug, PartialEq, Eq, Structural)]
pub enum EditKind {
    /// The edit spans rows: the old and the new text are compared, and only what
    /// differs is replaced.
    Diff,
    Insert,
    Replace,
}

/// How a following edit relates to an edit that ends at `end`.
#[derive(Clone, Copy, Debug, PartialEq, Eq, Structural)]
pub enum Neighbour {
    /// It begins at or before that end.
    Adjacent,
    /// Only the newline at the end of the row lies between them.
    NextRow,
    Apart,
}

/// A row of the snapshot ends at `row_ends[row]`.
pub open spec fn neighbour(row_ends: Seq<u32>, end: PointUtf16, next: PointUtf16) -> Neighbour {
    if !end.before(next) {
        Neighbour::Adjacent
    } else if next.row > end.row + 1 || next.column > 0 || row_ends[end.row as int] > end.column {
        Neighbour::Apart
    } else {
        Neighbour::NextRow
    }
}

/// The last edit takes up the following one, if nothing or only a newline lies
/// between them.
pub open spec fn merge_one(
    row_ends: Seq<u32>,
    merged: Seq<MergedView>,
    edit: TextEdit,
) -> Seq<MergedView> {
    let last = merged.last();
    let alone = MergedView {
        start: edit.clipped_start,
        end: edit.clipped_end,
        text: edit.new_text@,
    };
    if merged.len() == 0 {
        seq![alone]
    } else {
        match neighbour(row_ends, last.end, edit.start) {
            Neighbour::Apart => merged.push(alone),
            Neighbour::Adjacent => merged.drop_last().push(
                MergedView { end: edit.clipped_end, text: last.text + edit.new_text@, ..last },
            ),
            Neighbour::NextRow => merged.drop_last().push(
                MergedView {
                    end: edit.clipped_end,
                    text: last.text.push('\n') + edit.new_text@,
                    ..last
                },
            ),
        }
    }
}

/// Edits in ascending order, merged from the first to the last.
pub open spec fn merged(row_ends: Seq<u32>, edits: Seq<TextEdit>) -> Seq<MergedView>
    decreases edits.len(),
{
    if edits.len() == 0 {
        Seq::empty()
    } else {
        merge_one(row_ends, merged(row_ends, edits.drop_last()), edits.last())
    }
}

/// The places that an edit was clipped to lie in the snapshot.
pub open spec fn in_snapshot(row_ends: Seq<u32>, edit: TextEdit) -> bool {
    edit.clipped_start.row < row_ends.len() && edit.clipped_end.row < row_ends.len()
}

pub open spec fn merged_views(edits: Seq<MergedEdit>) -> Seq<MergedView> {
    edits.map_values(|e: MergedEdit| e@)
}

/// Some order of the edits is ascending, and merging in that order gives the result.
pub open spec fn is_merge_of(
    result: Seq<MergedView>,
    row_ends: Seq<u32>,
    edits: Seq<TextEdit>,
) -> bool {
    exists|sorted: Seq<TextEdit>| #[trigger]
        is_sort_of(sorted, edits) && result == merged(row_ends, sorted)
}

/// Decides how an edit that begins at `next` relates to one that ends at `end`.
fn neighbour_of(row_ends: &Vec<u32>, end: PointUtf16, next: PointUtf16) -> (result: Neighbour)
    requires
        end.row < row_ends@.len(),
    ensures
        result == neighbour(row_ends@, end, next),
{
    if !end.is_before(&next) {
        Neighbour::Adjacent
    } else if next.row - end.row > 1 || next.column > 0 || row_ends[end.row as usize]
        > end.column {
        Neighbour::Apart
    } else {
        Neighbour::NextRow
    }
}

/// Sorts the edits of a language server by their ranges and merges those that touch,
/// or that only a newline separates, so that edits which cancel each other out meet in
/// one edit.
pub fn edits_from_lsp(row_ends: &Vec<u32>, lsp_edits: Vec<TextEdit>) -> (edits: Vec<MergedEdit>)
    requires
        forall|i: int|
            0 <= i < lsp_edits@.len() ==> in_snapshot(row_ends@, #[trigger] lsp_edits@[i]),
    ensures
        is_merge_of(merged_views(edits@), row_ends@, lsp_edits@),
{
    let ghost given = lsp_edits@;
    let sorted: Vec<TextEdit> = sort(lsp_edits);
    proof {
        crate::sorting::same_elements(sorted@, given);
        assert forall|i: int| 0 <= i < sorted@.len() implies in_snapshot(
            row_ends@,
            #[trigger] sorted@[i],
        ) by {
            assert(sorted@.contains(sorted@[i]));
            assert(given.contains(sorted@[i]));
        }
    }
    let mut edits: Vec<MergedEdit> = Vec::new();
    let mut i: usize = 0;
    assert(merged_views(edits@) =~= Seq::<MergedView>::empty());
    while i < sorted.len()
        invariant
            i <= sorted@.len(),
            merged_views(edits@) == merged(row_ends@, sorted@.take(i as int)),
            forall|j: int|
                0 <= j < sorted@.len() ==> in_snapshot(row_ends@, #[trigger] sorted@[j]),
            forall|j: int|
                0 <= j < edits@.len() ==> (#[trigger] edits@[j]).end.row < row_ends@.len(),
        decreases sorted@.len() - i,
    {
        let edit: &TextEdit = &sorted[i];
        let ghost before = merged_views(edits@);
        let ghost list = edits@;
        assert(sorted@.take(i + 1).drop_last() =~= sorted@.take(i as int));
        assert(sorted@.take(i + 1).last() == sorted@[i as int]);
        match edits.pop() {
            None => {
                edits.push(
                    MergedEdit {
                        start: edit.clipped_start,
                        end: edit.clipped_end,
                        text: edit.new_text.clone(),
                    },
                );
                assert(merged_views(edits@) =~= merge_one(row_ends@, before, *edit));
            },
            Some(last) => {
                let mut last: MergedEdit = last;
                assert(before.last() == last@);
                assert(before.drop_last() =~= merged_views(edits@));
                match neighbour_of(row_ends, last.end, edit.start) {
                    Neighbour::Apart => {
                        edits.push(last);
                        edits.push(
                            MergedEdit {
                                start: edit.clipped_start,
                                end: edit.clipped_end,
                                text: edit.new_text.clone(),
                            },
                        );
                    },
                    Neighbour::Adjacent => {
                        last.end = edit.clipped_end;
                        last.text.append(edit.new_text.as_str());
                        edits.push(last);
                    },
                    Neighbour::NextRow => {
                        last.end = edit.clipped_end;
                        last.text.push('\n');
                        last.text.append(edit.new_text.as_str());
                        edits.push(last);
                    },
                }
                assert(merged_views(edits@) =~= merge_one(row_ends@, before, *edit));
            },
        }
        i += 1;
    }
    assert(sorted@.take(i as int) =~= sorted@);
    edits
}

impl MergedEdit {
    /// How the edit is applied to the buffer.
    pub fn kind(&self) -> (kind: EditKind)
        ensures
            kind == (if self.end.row > self.start.row {
                EditKind::Diff
            } else if self.end == self.start {
                EditKind::Insert
            } else {
                EditKind::Replace
            }),
    {
        if self.end.row > self.start.row {
            EditKind::Diff
        } else if self.end == self.start {
            EditKind::Insert
        } else {
            EditKind::Replace
        }
    }
}

/// An edit that is clipped to begin at `start` begins apart from `end`.
pub open spec fn begins_apart(
    row_ends: Seq<u32>,
    edits: Seq<TextEdit>,
    end: PointUtf16,
    start: PointUtf16,
) -> bool {
    exists|i: int|
        0 <= i < edits.len() && (#[trigger] edits[i]).clipped_start == start && neighbour(
            row_ends,
            end,
            edits[i].start,
        ) == Neighbour::Apart
}

/// Merging leaves nothing to merge: every merged edit begins with an edit that lies
/// apart from the merged edit before it.
pub proof fn merged_edits_stay_apart(row_ends: Seq<u32>, edits: Seq<TextEdit>, k: int)
    requires
        0 <= k,
        k + 1 < merged(row_ends, edits).len(),
    ensures
        begins_apart(
            row_ends,
            edits,
            merged(row_ends, edits)[k].end,
            merged(row_ends, edits)[k + 1].start,
        ),
    decreases edits.len(),
{
    let earlier = edits.drop_last();
    let before = merged(row_ends, earlier);
    let after = merged(row_ends, edits);
    assert(after == merge_one(row_ends, before, edits.last()));
    assert(before.len() > 0);
    if k + 1 < before.len() {
        merged_edits_stay_apart(row_ends, earlier, k);
        let i = choose|i: int|
            0 <= i < earlier.len() && (#[trigger] earlier[i]).clipped_start == before[k + 1].start
                && neighbour(row_ends, before[k].end, earlier[i].start) == Neighbour::Apart;
        assert(edits[i] == earlier[i]);
        assert(after[k].end == before[k].end);
        assert(after[k + 1].start == before[k + 1].start);
    } else {
        assert(edits[edits.len() - 1].clipped_start == after[k + 1].start);
    }
}

/// The edit, with its places counted in characters.
pub open spec fn offset_edit(rows: Seq<Seq<char>>, edit: MergedView) -> OffsetEdit {
    OffsetEdit { start: offset(rows, edit.start), end: offset(rows, edit.end), text: edit.text }
}

/// Merged edits, with their places counted in characters.
pub open spec fn merged_offsets(rows: Seq<Seq<char>>, edits: Seq<MergedView>) -> Seq<OffsetEdit> {
    edits.map_values(|edit: MergedView| offset_edit(rows, edit))
}

/// The edits of a server, with their places counted in characters.
pub open spec fn sent_offsets(rows: Seq<Seq<char>>, edits: Seq<TextEdit>) -> Seq<OffsetEdit> {
    edits.map_values(
        |edit: TextEdit|
            OffsetEdit {
                start: offset(rows, edit.start),
                end: offset(rows, edit.end),
                text: edit.new_text@,
            },
    )
}

/// The ranges of the edits lie in the text, one after the other.
pub open spec fn follow_each_other(rows: Seq<Seq<char>>, edits: Seq<TextEdit>) -> bool {
    &&& forall|i: int|
        0 <= i < edits.len() ==> {
            &&& (#[trigger] edits[i]).clipped_start == edits[i].start
            &&& edits[i].clipped_end == edits[i].end
            &&& edits[i].end.row < rows.len()
            &&& !edits[i].end.before(edits[i].start)
        }
    &&& forall|i: int, j: int|
        0 <= i < j < edits.len() ==> !(#[trigger] edits[j]).start.before(
            (#[trigger] edits[i]).end,
        )
}

/// Merging edits changes nothing of what comes of them: applied to the text, the merged edits
/// give what the edits of the server give.
pub proof fn merged_edits_give_the_same_text(
    rows: Seq<Seq<char>>,
    row_ends: Seq<u32>,
    edits: Seq<TextEdit>,
)
    requires
        row_ends.len() == rows.len(),
        forall|i: int| 0 <= i < rows.len() ==> #[trigger] row_ends[i] == width(rows[i]),
        follow_each_other(rows, edits),
    ensures
        edited_text(joined_rows(rows), merged_offsets(rows, merged(row_ends, edits)))
            == edited_text(joined_rows(rows), sent_offsets(rows, edits)),
{
    lemma_merged_start(rows, row_ends, edits);
}

proof fn lemma_merged_start(rows: Seq<Seq<char>>, row_ends: Seq<u32>, edits: Seq<TextEdit>)
    requires
        row_ends.len() == rows.len(),
        forall|i: int| 0 <= i < rows.len() ==> #[trigger] row_ends[i] == width(rows[i]),
        follow_each_other(rows, edits),
    ensures
        ({
            let text = joined_rows(rows);
            let some = merged(row_ends, edits);
            &&& edited_start(text, merged_offsets(rows, some)) == edited_start(
                text,
                sent_offsets(rows, edits),
            )
            &&& end_of(merged_offsets(rows, some)) == end_of(sent_offsets(rows, edits))
            &&& some.len() == 0 <==> edits.len() == 0
            &&& edits.len() > 0 ==> some.last().end == edits.last().end
        }),
    decreases edits.len(),
{
    let text = joined_rows(rows);
    if edits.len() == 0 {
        assert(merged_offsets(rows, merged(row_ends, edits)) =~= sent_offsets(rows, edits));
    } else {
        let earlier = edits.drop_last();
        let edit = edits.last();
        assert(edits[edits.len() - 1] == edit);
        assert forall|i: int| 0 <= i < earlier.len() implies {
            &&& (#[trigger] earlier[i]).clipped_start == earlier[i].start
            &&& earlier[i].clipped_end == earlier[i].end
            &&& earlier[i].end.row < rows.len()
            &&& !earlier[i].end.before(earlier[i].start)
        } by {
            assert(earlier[i] == edits[i]);
        }
        assert forall|i: int, j: int| 0 <= i < j < earlier.len() implies !(
        #[trigger] earlier[j]).start.before((#[trigger] earlier[i]).end) by {
            assert(earlier[i] == edits[i] && earlier[j] == edits[j]);
        }
        lemma_merged_start(rows, row_ends, earlier);
        let before = merged(row_ends, earlier);
        let after = merged(row_ends, edits);
        let sent = sent_offsets(rows, edits);
        assert(sent.drop_last() =~= sent_offsets(rows, earlier));
        let last = merged_offsets(rows, after);
        places_are_in_order(rows, edit.start, edit.end);
        if before.len() == 0 {
            assert(last.drop_last() =~= merged_offsets(rows, before));
        } else {
            let end = before.last().end;
            assert(edits[edits.len() - 2] == earlier.last());
            assert(!edit.start.before(end));
            places_are_in_order(rows, end, edit.start);
            let gap = text.subrange(offset(rows, end), offset(rows, edit.start));
            match neighbour(row_ends, end, edit.start) {
                Neighbour::Apart => {
                    assert(last.drop_last() =~= merged_offsets(rows, before));
                },
                Neighbour::Adjacent => {
                    assert(gap =~= Seq::<char>::empty());
                    lemma_taken_up(rows, before, edit, gap);
                },
                Neighbour::NextRow => {
                    newline_ends_row(rows, end, edit.start);
                    assert(gap =~= seq!['\n']);
                    lemma_taken_up(rows, before, edit, gap);
                    assert(before.last().text.push('\n') =~= before.last().text + gap);
                },
            }
        }
    }
}

/// An edit that takes up the following one, with what lies between them, gives what the two
/// give.
proof fn lemma_taken_up(
    rows: Seq<Seq<char>>,
    before: Seq<MergedView>,
    edit: TextEdit,
    gap: Seq<char>,
)
    requires
        before.len() > 0,
        gap == joined_rows(rows).subrange(
            offset(rows, before.last().end),
            offset(rows, edit.start),
        ),
    ensures
        ({
            let text = joined_rows(rows);
            let last = MergedView {
                end: edit.end,
                text: before.last().text + gap + edit.new_text@,
                ..before.last()
            };
            edited_start(text, merged_offsets(rows, before.drop_last().push(last)))
                == edited_start(text, merged_offsets(rows, before)) + gap + edit.new_text@
        }),
{
    let text = joined_rows(rows);
    let last = MergedView {
        end: edit.end,
        text: before.last().text + gap + edit.new_text@,
        ..before.last()
    };
    let after = merged_offsets(rows, before.drop_last().push(last));
    let known = merged_offsets(rows, before);
    assert(after.drop_last() =~= merged_offsets(rows, before.drop_last()));
    assert(known.drop_last() =~= merged_offsets(rows, before.drop_last()));
    assert(after.last() == offset_edit(rows, last));
    assert(known.last() == offset_edit(rows, before.last()));
    assert(edited_start(text, after) =~= edited_start(text, known) + gap + edit.new_text@);
}

/// What comes of applying edits to a buffer.
#[derive(Clone, Copy, Debug, PartialEq, Eq, Structural)]
pub struct EditOutcome {
    /// The transaction, if the edits changed anything.
    pub transaction: Option<u64>,
    /// The transaction is taken out of the history, so that it cannot be undone.
    pub forget: bool,
}

/// Decides what comes of applying edits. Unless they go to the history, their transaction is
/// forgotten.
pub fn deserialize_text_edits(changed: Option<u64>, push_to_history: bool) -> (outcome: EditOutcome)
    ensures
        outcome == (EditOutcome {
            transaction: changed,
            forget: changed is Some && !push_to_history,
        }),
{
    EditOutcome { transaction: changed, forget: changed.is_some() && !push_to_history }
}

/// An edit whose range is empty inserts, one that spans rows is compared, and any other
/// replaces.
pub proof fn kinds_follow_the_range(edit: MergedEdit, kind: EditKind)
    requires
        call_ensures(MergedEdit::kind, (&edit,), kind),
        !edit.end.before(edit.start),
    ensures
        kind == EditKind::Insert <==> edit.start.row == edit.end.row && edit.start.column
            == edit.end.column,
        kind == EditKind::Diff <==> edit.start.row != edit.end.row,
{
}

/// Edits are taken from the first place to the last, those at one place from the shortest to the
/// longest, and every edit is taken once.
pub proof fn edits_are_taken_in_ascending_order(a: TextEdit, b: TextEdit, taken: bool)
    requires
        call_ensures(TextEdit::is_le, (&a, &b), taken),
    ensures
        a.start.row < b.start.row ==> taken,
        a.start.row > b.start.row ==> !taken,
        a.start.row == b.start.row && a.start.column < b.start.column ==> taken,
        a.start.row == b.start.row && a.start.column > b.start.column ==> !taken,
        a.start == b.start && a.end.row < b.end.row ==> taken,
        a.start == b.start && a.end.row > b.end.row ==> !taken,
        a.start == b.start && a.end.row == b.end.row ==> taken == (a.end.column <= b.end.column),
{
}

/// One edit alone is applied as it was sent, in the place that it was clipped to.
pub proof fn single_edits_stay_as_they_are(
    row_ends: Vec<u32>,
    lsp_edits: Vec<TextEdit>,
    edits: Vec<MergedEdit>,
)
    requires
        call_ensures(edits_from_lsp, (&row_ends, lsp_edits), edits),
        lsp_edits@.len() == 1,
    ensures
        edits@.len() == 1,
        edits@[0].start == lsp_edits@[0].clipped_start,
        edits@[0].end == lsp_edits@[0].clipped_end,
        edits@[0].text@ == lsp_edits@[0].new_text@,
{
    let sorted = choose|sorted: Seq<TextEdit>| #[trigger]
        is_sort_of(sorted, lsp_edits@) && merged_views(edits@) == merged(row_ends@, sorted);
    crate::sorting::same_elements(sorted, lsp_edits@);
    sorted.to_multiset_ensures();
    lsp_edits@.to_multiset_ensures();
    assert(sorted.len() == 1);
    assert(sorted.contains(sorted[0]));
    assert(sorted[0] == lsp_edits@[0]);
    reveal_with_fuel(merged, 2);
    assert(sorted.drop_last() =~= Seq::<TextEdit>::empty());
    assert(merged_views(edits@).len() == 1);
    assert(merged_views(edits@)[0] == edits@[0]@);
}

/// Two edits become one where the second begins at or before the end of the first, or where only
/// the newline at the end of a row lies between them, which is then kept. Otherwise both stay as
/// they are.
pub proof fn touching_edits_become_one(row_ends: Seq<u32>, a: TextEdit, b: TextEdit)
    ensures
        ({
            let end = a.clipped_end;
            let touch = b.start.row < end.row || b.start.row == end.row && b.start.column
                <= end.column;
            let newline = b.start.row == end.row + 1 && b.start.column == 0 && row_ends[end.row as int]
                <= end.column;
            let both = merged(row_ends, seq![a, b]);
            if touch {
                both.len() == 1 && both[0].start == a.clipped_start && both[0].end == b.clipped_end
                    && both[0].text == a.new_text@ + b.new_text@
            } else if newline {
                both.len() == 1 && both[0].start == a.clipped_start && both[0].end == b.clipped_end
                    && both[0].text == a.new_text@ + seq!['\n'] + b.new_text@
            } else {
                both.len() == 2 && both[0].start == a.clipped_start && both[0].end
                    == a.clipped_end && both[0].text == a.new_text@ && both[1].start
                    == b.clipped_start && both[1].end == b.clipped_end && both[1].text
                    == b.new_text@
            }
        }),
{
    reveal_with_fuel(merged, 3);
    let both = seq![a, b];
    assert(both.drop_last() =~= seq![a]);
    assert(seq![a].drop_last() =~= Seq::<TextEdit>::empty());
    assert(merged(row_ends, seq![a]) == merge_one(row_ends, Seq::empty(), a));
    assert(a.new_text@.push('\n') =~= a.new_text@ + seq!['\n']);
}

} // verus!
