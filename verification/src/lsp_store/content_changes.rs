//! What a server is sent when a buffer changed.
use vstd::prelude::*;

use crate::lsp_store::edited_text::{
    are_in_order, beyond, distance, edited_text, edits_can_be_sent_in_order, extent, moved_start,
    place, OffsetEdit, Place,
};
use crate::lsp_store::text_edits::PointUtf16;

verus! {

/// An edit since a snapshot: the part of the snapshot that it replaced, where it begins in the
/// new text, and the text that it put there.
#[derive(Debug)]
pub struct SnapshotEdit {
    pub old_start: PointUtf16,
    pub old_end: PointUtf16,
    pub new_start: PointUtf16,
    pub new_text: String,
}

/// A change that is sent to a server. Without a range the whole text is meant.
#[derive(Debug)]
pub struct ContentChange {
    pub range: Option<(PointUtf16, PointUtf16)>,
    pub text: String,
}

/// Where the range of a change ends: as far behind its start as the replaced part was long.
pub open spec fn range_end(edit: SnapshotEdit) -> Place {
    beyond(
        place(edit.new_start),
        distance(place(edit.old_start), place(edit.old_end)),
    )
}

/// The replaced part does not end before it begins, and the end of the range has a row and a
/// column.
pub open spec fn is_sendable(edit: SnapshotEdit) -> bool {
    &&& !edit.old_end.before(edit.old_start)
    &&& range_end(edit).row <= u32::MAX
    &&& range_end(edit).column <= u32::MAX
}

/// The change that an edit is sent as.
pub open spec fn is_change_for(change: ContentChange, edit: SnapshotEdit) -> bool {
    &&& change.text@ == edit.new_text@
    &&& change.range matches Some((start, end)) && start == edit.new_start && place(end)
        == range_end(edit)
}

/// The place where the range of a change ends.
fn end_of_range(edit: &SnapshotEdit) -> (end: PointUtf16)
    requires
        is_sendable(*edit),
    ensures
        place(end) == range_end(*edit),
{
    if edit.old_start.row == edit.old_end.row {
        PointUtf16 {
            row: edit.new_start.row,
            column: edit.new_start.column + (edit.old_end.column - edit.old_start.column),
        }
    } else {
        PointUtf16 {
            row: edit.new_start.row + (edit.old_end.row - edit.old_start.row),
            column: edit.old_end.column,
        }
    }
}

/// What a server is sent for a new version: the whole text, or the edits since the version that
/// it was sent last, in their order.
pub fn content_changes(full: bool, text: String, edits: &Vec<SnapshotEdit>) -> (changes: Vec<
    ContentChange,
>)
    requires
        !full ==> forall|i: int| 0 <= i < edits@.len() ==> is_sendable(#[trigger] edits@[i]),
    ensures
        if full {
            &&& changes@.len() == 1
            &&& changes@[0].range is None
            &&& changes@[0].text@ == text@
        } else {
            &&& changes@.len() == edits@.len()
            &&& forall|i: int|
                0 <= i < edits@.len() ==> is_change_for(#[trigger] changes@[i], edits@[i])
        },
{
    let mut changes: Vec<ContentChange> = Vec::new();
    if full {
        changes.push(ContentChange { range: None, text });
        return changes;
    }
    let mut i: usize = 0;
    while i < edits.len()
        invariant
            i <= edits@.len(),
            changes@.len() == i,
            forall|k: int| 0 <= k < edits@.len() ==> is_sendable(#[trigger] edits@[k]),
            forall|k: int| 0 <= k < i ==> is_change_for(#[trigger] changes@[k], edits@[k]),
        decreases edits@.len() - i,
    {
        let edit: &SnapshotEdit = &edits[i];
        let end: PointUtf16 = end_of_range(edit);
        changes.push(
            ContentChange { range: Some((edit.new_start, end)), text: edit.new_text.clone() },
        );
        i += 1;
    }
    changes
}

/// A server that takes whole texts is sent the new text without a range, and nothing else.
pub proof fn whole_texts_have_no_range(
    text: String,
    edits: Vec<SnapshotEdit>,
    changes: Vec<ContentChange>,
)
    requires
        call_ensures(content_changes, (true, text, &edits), changes),
    ensures
        changes@.len() == 1,
        changes@[0].range is None,
        changes@[0].text@ == text@,
{
}

/// A server that takes edits is sent each edit in its order, with its text. Its range begins where
/// the edit begins in the new text. It spans as many rows as the part that was replaced, and ends
/// at the column where that part ended, or, in one row, after as many columns.
pub proof fn ranges_are_as_long_as_what_was_replaced(
    text: String,
    edits: Vec<SnapshotEdit>,
    changes: Vec<ContentChange>,
    i: int,
)
    requires
        call_ensures(content_changes, (false, text, &edits), changes),
        0 <= i < edits@.len(),
        is_sendable(edits@[i]),
    ensures
        changes@.len() == edits@.len(),
        changes@[i].text@ == edits@[i].new_text@,
        changes@[i].range matches Some((start, end)) && start == edits@[i].new_start && end.row
            - start.row == edits@[i].old_end.row - edits@[i].old_start.row && end.column == (if end.row
            == start.row {
            start.column + (edits@[i].old_end.column - edits@[i].old_start.column)
        } else {
            edits@[i].old_end.column as int
        }),
{
    assert(is_change_for(changes@[i], edits@[i]));
}

/// The last of some edits, with what it replaced in the old text and where it begins in the new
/// one, is sent with a range that covers just the part that it replaces in the text that the
/// server has by then.
pub proof fn servers_replace_what_was_replaced(
    text: String,
    edits: Vec<SnapshotEdit>,
    changes: Vec<ContentChange>,
    old_text: Seq<char>,
    made: Seq<OffsetEdit>,
    i: int,
)
    requires
        call_ensures(content_changes, (false, text, &edits), changes),
        0 <= i < edits@.len(),
        is_sendable(edits@[i]),
        made.len() == i + 1,
        are_in_order(old_text, made),
        place(edits@[i].old_start) == extent(old_text.take(made.last().start)),
        place(edits@[i].old_end) == extent(old_text.take(made.last().end)),
        edits@[i].new_text@ == made.last().text,
        place(edits@[i].new_start) == extent(
            edited_text(old_text, made).take(
                moved_start(old_text, made.drop_last(), made.last().start),
            ),
        ),
    ensures
        ({
            let has = edited_text(old_text, made.drop_last());
            let start = moved_start(old_text, made.drop_last(), made.last().start);
            let end = start + (made.last().end - made.last().start);
            &&& changes@[i].range matches Some((from, to)) && place(from) == extent(has.take(start))
                && place(to) == extent(has.take(end))
            &&& edited_text(old_text, made) == has.take(start) + changes@[i].text@ + has.skip(end)
        }),
{
    assert(is_change_for(changes@[i], edits@[i]));
    edits_can_be_sent_in_order(old_text, made);
}

} // verus!
