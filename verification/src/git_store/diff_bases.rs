//! The texts that a buffer is compared with: those in the index, at the head and of
//! single commits, and when the comparisons have to be made again.
use vstd::prelude::*;

use crate::git_store::wire::Oid;
use crate::list_map::{Key, ListMap};
use crate::rel_path::RepoPath;
use crate::text::text_view;
use crate::text_lines::{
    newlines_stay, no_return_is_left, normalize_line_endings, with_newlines,
};

verus! {

/// A change of the texts that a buffer is compared with.
#[derive(Debug)]
pub enum DiffBasesChange {
    SetIndex(Option<String>),
    SetHead(Option<String>),
    SetEach { index: Option<String>, head: Option<String> },
    SetBoth(Option<String>),
}

/// What a buffer is compared with.
#[derive(Clone, Copy, Debug, PartialEq, Eq, Structural)]
pub enum DiffKind {
    Unstaged,
    Uncommitted,
    SinceOid(Option<Oid>),
}

/// Whether two optional texts are the same.
pub fn same_opt_text(a: &Option<String>, b: &Option<String>) -> (same: bool)
    ensures
        same == (text_view(*a) == text_view(*b)),
{
    match (a, b) {
        (Some(a), Some(b)) => *a == *b,
        (None, None) => true,
        _ => false,
    }
}

/// A copy of a text.
pub fn clone_opt(text: &Option<String>) -> (copy: Option<String>)
    ensures
        copy == *text,
{
    match text {
        Some(text) => Some(text.clone()),
        None => None,
    }
}

/// The change that sets the committed and the staged text. Where they are the same
/// they are set as one.
pub fn committed_text_change(committed: Option<String>, staged: Option<String>) -> (change:
    DiffBasesChange)
    ensures
        change == (if text_view(committed) == text_view(staged) {
            DiffBasesChange::SetBoth(committed)
        } else {
            DiffBasesChange::SetEach { index: staged, head: committed }
        }),
{
    if same_opt_text(&committed, &staged) {
        DiffBasesChange::SetBoth(committed)
    } else {
        DiffBasesChange::SetEach { index: staged, head: committed }
    }
}

/// The change that brings the texts in use in line with those that were read. A text
/// that is not in use is `None`, one that is in use may be missing.
pub open spec fn reload_change_for(
    current_index: Option<Option<String>>,
    current_head: Option<Option<String>>,
    index: Option<String>,
    head: Option<String>,
) -> Option<DiffBasesChange> {
    let index_changed = current_index matches Some(current) && text_view(current) != text_view(index);
    let head_changed = current_head matches Some(current) && text_view(current) != text_view(head);
    if index_changed && head_changed {
        if text_view(index) == text_view(head) {
            Some(DiffBasesChange::SetBoth(head))
        } else {
            Some(DiffBasesChange::SetEach { index, head })
        }
    } else if index_changed {
        Some(DiffBasesChange::SetIndex(index))
    } else if head_changed {
        Some(DiffBasesChange::SetHead(head))
    } else {
        None
    }
}

/// Decides how the texts in use have to change after they were read again.
pub fn reload_change(
    current_index: &Option<Option<String>>,
    current_head: &Option<Option<String>>,
    index: Option<String>,
    head: Option<String>,
) -> (change: Option<DiffBasesChange>)
    ensures
        change == reload_change_for(*current_index, *current_head, index, head),
{
    let index_changed = match current_index {
        Some(current) => !same_opt_text(current, &index),
        None => false,
    };
    let head_changed = match current_head {
        Some(current) => !same_opt_text(current, &head),
        None => false,
    };
    if index_changed && head_changed {
        if same_opt_text(&index, &head) {
            Some(DiffBasesChange::SetBoth(head))
        } else {
            Some(DiffBasesChange::SetEach { index, head })
        }
    } else if index_changed {
        Some(DiffBasesChange::SetIndex(index))
    } else if head_changed {
        Some(DiffBasesChange::SetHead(head))
    } else {
        None
    }
}

/// How a message says which of its texts count.
#[derive(Clone, Copy, Debug, PartialEq, Eq, Structural)]
pub enum DiffBasesMode {
    IndexOnly,
    HeadOnly,
    IndexMatchesHead,
    IndexAndHead,
}

/// A message about changed texts.
#[derive(Debug)]
pub struct UpdateDiffBases {
    pub project_id: u64,
    pub buffer_id: u64,
    pub staged_text: Option<String>,
    pub committed_text: Option<String>,
    pub mode: DiffBasesMode,
}

/// The message about a change of texts.
pub open spec fn diff_bases_message_for(
    change: DiffBasesChange,
    project_id: u64,
    buffer_id: u64,
) -> UpdateDiffBases {
    let (staged_text, committed_text, mode) = match change {
        DiffBasesChange::SetIndex(index) => (index, None, DiffBasesMode::IndexOnly),
        DiffBasesChange::SetHead(head) => (None, head, DiffBasesMode::HeadOnly),
        DiffBasesChange::SetEach { index, head } => (index, head, DiffBasesMode::IndexAndHead),
        DiffBasesChange::SetBoth(text) => (None, text, DiffBasesMode::IndexMatchesHead),
    };
    UpdateDiffBases { project_id, buffer_id, staged_text, committed_text, mode }
}

/// Builds the message about a change of texts.
pub fn diff_bases_message(change: &DiffBasesChange, project_id: u64, buffer_id: u64) -> (message:
    UpdateDiffBases)
    ensures
        message == diff_bases_message_for(*change, project_id, buffer_id),
{
    let (staged_text, committed_text, mode) = match change {
        DiffBasesChange::SetIndex(index) => (clone_opt(index), None, DiffBasesMode::IndexOnly),
        DiffBasesChange::SetHead(head) => (None, clone_opt(head), DiffBasesMode::HeadOnly),
        DiffBasesChange::SetEach { index, head } => (
            clone_opt(index),
            clone_opt(head),
            DiffBasesMode::IndexAndHead,
        ),
        DiffBasesChange::SetBoth(text) => (None, clone_opt(text), DiffBasesMode::IndexMatchesHead),
    };
    UpdateDiffBases { project_id, buffer_id, staged_text, committed_text, mode }
}

/// A comparison that has to be made: with which text, and whether that text changed.
#[derive(Debug)]
pub struct DiffTask {
    pub base_text: Option<String>,
    pub base_changed: bool,
}

/// How the comparison with the head comes about.
#[derive(Debug)]
pub enum UncommittedPlan {
    /// It is not made.
    Skip,
    /// The index holds the same text, so the comparison with the index serves.
    ReuseUnstaged,
    Compute(DiffTask),
}

/// A comparison with the text of a commit.
#[derive(Debug)]
pub struct OidDiffTask {
    pub oid: Option<Oid>,
    pub base_text: Option<String>,
}

/// The comparisons that a recalculation makes.
#[derive(Debug)]
pub struct RecalculationPlan {
    pub unstaged: Option<DiffTask>,
    pub uncommitted: UncommittedPlan,
    pub oid_diffs: Vec<OidDiffTask>,
    pub language_changed: bool,
    /// How many hunk operations were written when the recalculation began.
    pub written_operations: usize,
}

/// What a buffer is compared with, and what is under way.
#[derive(Debug)]
pub struct BufferGitState {
    pub recalculating: bool,
    /// Hunk operations that the user started.
    pub hunk_staging_operation_count: usize,
    /// Hunk operations that have been written to the index.
    pub hunk_staging_operation_count_as_of_write: usize,
    pub head_text: Option<String>,
    pub index_text: Option<String>,
    /// The two texts were set as one.
    pub texts_shared: bool,
    /// The commits that the buffer is compared with.
    pub oid_diffs: Vec<Option<Oid>>,
    pub oid_texts: ListMap<Oid, String>,
    pub head_changed: bool,
    pub index_changed: bool,
    pub language_changed: bool,
}

/// The kept elements of a list.
pub open spec fn kept<T>(items: Seq<T>, alive: Seq<bool>) -> Seq<T>
    decreases items.len(),
{
    if items.len() == 0 {
        Seq::empty()
    } else if alive[items.len() - 1] {
        kept(items.drop_last(), alive).push(items.last())
    } else {
        kept(items.drop_last(), alive)
    }
}

/// The texts that remain when those of commits that are not in use any more go.
pub open spec fn kept_texts(
    texts: Map<Oid, String>,
    oids: Seq<Option<Oid>>,
    alive: Seq<bool>,
) -> Map<Oid, String>
    decreases oids.len(),
{
    if oids.len() == 0 {
        texts
    } else {
        let before = kept_texts(texts, oids.drop_last(), alive);
        match oids.last() {
            Some(oid) if !alive[oids.len() - 1] => before.remove(oid),
            _ => before,
        }
    }
}

/// The text of a commit, where there is one and it is known.
pub open spec fn oid_text(texts: Map<Oid, String>, oid: Option<Oid>) -> Option<String> {
    match oid {
        Some(oid) if texts.contains_key(oid) => Some(texts[oid]),
        _ => None,
    }
}

/// The lines of the text, if there is one, end in newlines.
pub open spec fn has_newlines(text: Option<String>) -> bool {
    text matches Some(text) ==> !text@.contains('\r')
}

/// The text, if there is one, with newlines as line ends.
pub open spec fn newline_view(text: Option<String>) -> Option<Seq<char>> {
    match text {
        Some(text) => Some(with_newlines(text@)),
        None => None,
    }
}

/// Writes the line ends of a text, if there is one, as newlines.
fn normalize(text: &Option<String>) -> (normal: Option<String>)
    ensures
        text_view(normal) == newline_view(*text),
        has_newlines(normal),
{
    match text {
        Some(text) => {
            proof {
                no_return_is_left(text@);
            }
            Some(normalize_line_endings(text.as_str()))
        },
        None => None,
    }
}

impl BufferGitState {
    /// Texts that were set as one are the same, no operation is written before it starts,
    /// and the lines of both texts end in newlines.
    pub open spec fn well_formed(&self) -> bool {
        &&& (self.texts_shared ==> self.index_text is Some && self.head_text is Some && text_view(
            self.index_text,
        ) == text_view(self.head_text))
        &&& self.hunk_staging_operation_count_as_of_write <= self.hunk_staging_operation_count
        &&& has_newlines(self.index_text)
        &&& has_newlines(self.head_text)
    }

    /// The comparison with the index serves for the head too.
    pub open spec fn index_matches_head(&self) -> bool {
        match (self.index_text, self.head_text) {
            (Some(_), Some(_)) => self.texts_shared,
            (None, None) => true,
            _ => false,
        }
    }

    /// A state with no texts and nothing under way.
    pub fn new() -> (state: Self)
        ensures
            state.well_formed(),
            !state.recalculating,
            state.hunk_staging_operation_count == 0,
            state.hunk_staging_operation_count_as_of_write == 0,
            state.head_text is None,
            state.index_text is None,
            state.oid_diffs@.len() == 0,
            state.oid_texts@ == Map::<Oid, String>::empty(),
            !state.head_changed,
            !state.index_changed,
            !state.language_changed,
    {
        BufferGitState {
            recalculating: false,
            hunk_staging_operation_count: 0,
            hunk_staging_operation_count_as_of_write: 0,
            head_text: None,
            index_text: None,
            texts_shared: false,
            oid_diffs: Vec::new(),
            oid_texts: ListMap::new(),
            head_changed: false,
            index_changed: false,
            language_changed: false,
        }
    }

    /// Takes over a change of texts, with newlines as line ends. A recalculation has to
    /// follow.
    pub fn diff_bases_changed(&mut self, change: Option<DiffBasesChange>)
        requires
            old(self).well_formed(),
        ensures
            final(self).well_formed(),
            text_view(final(self).index_text) == index_after(*old(self), change),
            text_view(final(self).head_text) == head_after(*old(self), change),
            final(self).index_changed == (old(self).index_changed || change is Some && !(
            change->0 is SetHead)),
            final(self).head_changed == (old(self).head_changed || change is Some && !(
            change->0 is SetIndex)),
            final(self).texts_shared == (match change {
                None => old(self).texts_shared,
                Some(DiffBasesChange::SetBoth(text)) => text is Some,
                Some(_) => false,
            }),
            *final(self) == (BufferGitState {
                index_text: final(self).index_text,
                head_text: final(self).head_text,
                index_changed: final(self).index_changed,
                head_changed: final(self).head_changed,
                texts_shared: final(self).texts_shared,
                ..*old(self)
            }),
    {
        match change {
            Some(DiffBasesChange::SetIndex(index)) => {
                self.index_text = normalize(&index);
                self.texts_shared = false;
                self.index_changed = true;
            },
            Some(DiffBasesChange::SetHead(head)) => {
                self.head_text = normalize(&head);
                self.texts_shared = false;
                self.head_changed = true;
            },
            Some(DiffBasesChange::SetBoth(text)) => {
                let text: Option<String> = normalize(&text);
                self.texts_shared = text.is_some();
                self.head_text = clone_opt(&text);
                self.index_text = text;
                self.head_changed = true;
                self.index_changed = true;
            },
            Some(DiffBasesChange::SetEach { index, head }) => {
                self.index_text = normalize(&index);
                self.index_changed = true;
                self.head_text = normalize(&head);
                self.head_changed = true;
                self.texts_shared = false;
            },
            None => {},
        }
    }

    /// Begins a recalculation: forgets the comparisons whose results nobody holds any
    /// more, and says which ones have to be made.
    pub fn recalculate_diffs(
        &mut self,
        has_unstaged_diff: bool,
        has_uncommitted_diff: bool,
        oid_diffs_alive: &Vec<bool>,
    ) -> (plan: RecalculationPlan)
        requires
            old(self).well_formed(),
            oid_diffs_alive@.len() == old(self).oid_diffs@.len(),
        ensures
            final(self).well_formed(),
            final(self).recalculating,
            final(self).oid_diffs@ == kept(old(self).oid_diffs@, oid_diffs_alive@),
            final(self).oid_texts@ == kept_texts(
                old(self).oid_texts@,
                old(self).oid_diffs@,
                oid_diffs_alive@,
            ),
            *final(self) == (BufferGitState {
                recalculating: true,
                oid_diffs: final(self).oid_diffs,
                oid_texts: final(self).oid_texts,
                ..*old(self)
            }),
            plan.unstaged == (if has_unstaged_diff {
                Some(
                    DiffTask {
                        base_text: old(self).index_text,
                        base_changed: old(self).index_changed,
                    },
                )
            } else {
                None
            }),
            plan.uncommitted == (if !has_uncommitted_diff {
                UncommittedPlan::Skip
            } else if !old(self).index_matches_head() {
                UncommittedPlan::Compute(
                    DiffTask {
                        base_text: old(self).head_text,
                        base_changed: old(self).head_changed,
                    },
                )
            } else if has_unstaged_diff {
                UncommittedPlan::ReuseUnstaged
            } else {
                UncommittedPlan::Skip
            }),
            plan.oid_diffs@ == final(self).oid_diffs@.map_values(
                |oid: Option<Oid>|
                    OidDiffTask { oid, base_text: oid_text(old(self).oid_texts@, oid) },
            ),
            plan.language_changed == old(self).language_changed,
            plan.written_operations == old(self).hunk_staging_operation_count_as_of_write,
    {
        let ghost before = *self;
        self.recalculating = true;
        let unstaged = if has_unstaged_diff {
            Some(
                DiffTask {
                    base_text: clone_opt(&self.index_text),
                    base_changed: self.index_changed,
                },
            )
        } else {
            None
        };
        let index_matches_head: bool = match (&self.index_text, &self.head_text) {
            (Some(_), Some(_)) => self.texts_shared,
            (None, None) => true,
            _ => false,
        };
        let uncommitted = if !has_uncommitted_diff {
            UncommittedPlan::Skip
        } else if !index_matches_head {
            UncommittedPlan::Compute(
                DiffTask {
                    base_text: clone_opt(&self.head_text),
                    base_changed: self.head_changed,
                },
            )
        } else if has_unstaged_diff {
            UncommittedPlan::ReuseUnstaged
        } else {
            UncommittedPlan::Skip
        };
        let mut tasks: Vec<OidDiffTask> = Vec::new();
        let mut alive_oids: Vec<Option<Oid>> = Vec::new();
        let mut i: usize = 0;
        assert(self.oid_diffs@.take(0) =~= Seq::<Option<Oid>>::empty());
        while i < self.oid_diffs.len()
            invariant
                i <= self.oid_diffs@.len(),
                oid_diffs_alive@.len() == self.oid_diffs@.len(),
                self.oid_diffs@ == before.oid_diffs@,
                self.oid_texts@ == before.oid_texts@,
                *self == (BufferGitState { recalculating: true, ..before }),
                alive_oids@ == kept(before.oid_diffs@.take(i as int), oid_diffs_alive@),
                tasks@ == alive_oids@.map_values(
                    |oid: Option<Oid>|
                        OidDiffTask { oid, base_text: oid_text(before.oid_texts@, oid) },
                ),
            decreases self.oid_diffs@.len() - i,
        {
            let oid: Option<Oid> = self.oid_diffs[i];
            let ghost alive_before = alive_oids@;
            let ghost tasks_before = tasks@;
            assert(before.oid_diffs@.take(i + 1).drop_last() =~= before.oid_diffs@.take(i as int));
            if oid_diffs_alive[i] {
                let base_text = match oid {
                    Some(oid) => match self.oid_texts.get(&oid) {
                        Some(text) => Some(text.clone()),
                        None => None,
                    },
                    None => None,
                };
                tasks.push(OidDiffTask { oid, base_text });
                alive_oids.push(oid);
                assert(tasks@ =~= alive_oids@.map_values(
                    |oid: Option<Oid>|
                        OidDiffTask { oid, base_text: oid_text(before.oid_texts@, oid) },
                ));
            }
            i += 1;
        }
        assert(before.oid_diffs@.take(i as int) =~= before.oid_diffs@);
        let mut k: usize = 0;
        while k < self.oid_diffs.len()
            invariant
                k <= self.oid_diffs@.len(),
                oid_diffs_alive@.len() == self.oid_diffs@.len(),
                self.oid_diffs@ == before.oid_diffs@,
                *self == (BufferGitState {
                    recalculating: true,
                    oid_texts: self.oid_texts,
                    ..before
                }),
                self.oid_texts@ == kept_texts(
                    before.oid_texts@,
                    before.oid_diffs@.take(k as int),
                    oid_diffs_alive@,
                ),
            decreases self.oid_diffs@.len() - k,
        {
            assert(before.oid_diffs@.take(k + 1).drop_last() =~= before.oid_diffs@.take(k as int));
            if !oid_diffs_alive[k] {
                if let Some(oid) = self.oid_diffs[k] {
                    let dropped = self.oid_texts.remove(&oid);
                }
            }
            k += 1;
        }
        assert(before.oid_diffs@.take(k as int) =~= before.oid_diffs@);
        self.oid_diffs = alive_oids;
        RecalculationPlan {
            unstaged,
            uncommitted,
            oid_diffs: tasks,
            language_changed: self.language_changed,
            written_operations: self.hunk_staging_operation_count_as_of_write,
        }
    }

    /// Decides, once the comparisons are made, whether to drop them because hunk
    /// operations were started whose outcome they do not show.
    pub fn cancel_recalculation(&mut self, written_operations: usize) -> (cancelled: bool)
        ensures
            cancelled == (old(self).hunk_staging_operation_count > written_operations),
            *final(self) == (BufferGitState {
                recalculating: old(self).recalculating && !cancelled,
                ..*old(self)
            }),
    {
        if self.hunk_staging_operation_count > written_operations {
            self.recalculating = false;
            true
        } else {
            false
        }
    }

    /// Ends a recalculation whose comparisons have been taken over.
    pub fn finish_recalculation(&mut self)
        ensures
            *final(self) == (BufferGitState {
                recalculating: false,
                index_changed: false,
                head_changed: false,
                language_changed: false,
                ..*old(self)
            }),
    {
        self.index_changed = false;
        self.head_changed = false;
        self.language_changed = false;
        self.recalculating = false;
    }

    /// Whether somebody who wants the comparisons has to wait for a recalculation.
    pub fn wait_for_recalculation(&self) -> (wait: bool)
        ensures
            wait == self.recalculating,
    {
        self.recalculating
    }

    /// Notes that the language of the buffer changed. A recalculation has to follow.
    pub fn buffer_language_changed(&mut self)
        ensures
            *final(self) == (BufferGitState { language_changed: true, ..*old(self) }),
    {
        self.language_changed = true;
    }

    /// Hunks were staged or unstaged, which makes `new_index_text` the text of the
    /// index. If it differs from the one in use, that counts as an operation, and the
    /// text has to be written under its number.
    pub fn hunks_staged_or_unstaged(&mut self, new_index_text: &Option<String>) -> (operation:
        Option<usize>)
        requires
            old(self).well_formed(),
            old(self).hunk_staging_operation_count < usize::MAX,
        ensures
            final(self).well_formed(),
            operation is Some <==> text_view(*new_index_text) != text_view(old(self).index_text),
            operation matches Some(count) ==> count == old(self).hunk_staging_operation_count + 1,
            *final(self) == (BufferGitState {
                hunk_staging_operation_count: match operation {
                    Some(count) => count,
                    None => old(self).hunk_staging_operation_count,
                },
                ..*old(self)
            }),
    {
        if same_opt_text(new_index_text, &self.index_text) {
            return None;
        }
        self.hunk_staging_operation_count = self.hunk_staging_operation_count + 1;
        Some(self.hunk_staging_operation_count)
    }

    /// All hunks of the buffer are being staged or unstaged: that counts as an operation.
    pub fn begin_staging(&mut self) -> (operation: usize)
        requires
            old(self).well_formed(),
            old(self).hunk_staging_operation_count < usize::MAX,
        ensures
            final(self).well_formed(),
            operation == old(self).hunk_staging_operation_count + 1,
            *final(self) == (BufferGitState {
                hunk_staging_operation_count: operation,
                ..*old(self)
            }),
    {
        self.hunk_staging_operation_count = self.hunk_staging_operation_count + 1;
        self.hunk_staging_operation_count
    }

    /// An operation has been written to the index.
    pub fn index_written(&mut self, operation: usize)
        requires
            old(self).well_formed(),
            operation <= old(self).hunk_staging_operation_count,
        ensures
            final(self).well_formed(),
            *final(self) == (BufferGitState {
                hunk_staging_operation_count_as_of_write: operation,
                ..*old(self)
            }),
    {
        self.hunk_staging_operation_count_as_of_write = operation;
    }

    /// An operation on the whole buffer has ended. If it was written it counts as
    /// such; if not, hunks that wait for it have to be cleared.
    pub fn end_staging(&mut self, operation: usize, written: bool) -> (clear_pending_hunks: bool)
        requires
            old(self).well_formed(),
            operation <= old(self).hunk_staging_operation_count,
        ensures
            final(self).well_formed(),
            clear_pending_hunks == !written,
            *final(self) == (BufferGitState {
                hunk_staging_operation_count_as_of_write: if written {
                    operation
                } else {
                    old(self).hunk_staging_operation_count_as_of_write
                },
                ..*old(self)
            }),
    {
        if written {
            self.index_written(operation);
            false
        } else {
            true
        }
    }

    /// The buffer is compared with the text of a commit from now on.
    pub fn add_oid_diff(&mut self, oid: Option<Oid>, content: Option<String>)
        requires
            old(self).well_formed(),
        ensures
            final(self).well_formed(),
            final(self).oid_diffs@ == (if old(self).oid_diffs@.contains(oid) {
                old(self).oid_diffs@
            } else {
                old(self).oid_diffs@.push(oid)
            }),
            final(self).oid_texts@ == (match (oid, content) {
                (Some(oid), Some(content)) => old(self).oid_texts@.insert(oid, content),
                _ => old(self).oid_texts@,
            }),
            *final(self) == (BufferGitState {
                oid_diffs: final(self).oid_diffs,
                oid_texts: final(self).oid_texts,
                ..*old(self)
            }),
    {
        if let Some(oid) = oid {
            if let Some(content) = content {
                self.oid_texts.insert(oid, content);
            }
        }
        let mut known: bool = false;
        let mut i: usize = 0;
        while i < self.oid_diffs.len()
            invariant
                i <= self.oid_diffs@.len(),
                known == exists|k: int| 0 <= k < i && #[trigger] self.oid_diffs@[k] == oid,
            decreases self.oid_diffs@.len() - i,
        {
            if self.oid_diffs[i].same(&oid) {
                known = true;
                assert(self.oid_diffs@[i as int] == oid);
            }
            i += 1;
        }
        if !known {
            self.oid_diffs.push(oid);
        }
    }
}

/// The text of the index after a change.
pub open spec fn index_after(
    state: BufferGitState,
    change: Option<DiffBasesChange>,
) -> Option<Seq<char>> {
    match change {
        Some(DiffBasesChange::SetIndex(index)) => newline_view(index),
        Some(DiffBasesChange::SetEach { index, .. }) => newline_view(index),
        Some(DiffBasesChange::SetBoth(text)) => newline_view(text),
        _ => text_view(state.index_text),
    }
}

/// The text at the head after a change.
pub open spec fn head_after(
    state: BufferGitState,
    change: Option<DiffBasesChange>,
) -> Option<Seq<char>> {
    match change {
        Some(DiffBasesChange::SetHead(head)) => newline_view(head),
        Some(DiffBasesChange::SetEach { head, .. }) => newline_view(head),
        Some(DiffBasesChange::SetBoth(text)) => newline_view(text),
        _ => text_view(state.head_text),
    }
}

/// Reading the texts again and taking over the resulting change leaves a buffer with
/// the texts that were read, with newlines as line ends, as far as it uses them.
pub proof fn reload_brings_texts_in_line(
    state: BufferGitState,
    uses_index: bool,
    uses_head: bool,
    index: Option<String>,
    head: Option<String>,
)
    requires
        state.well_formed(),
    ensures
        ({
            let change = reload_change_for(
                if uses_index {
                    Some(state.index_text)
                } else {
                    None
                },
                if uses_head {
                    Some(state.head_text)
                } else {
                    None
                },
                index,
                head,
            );
            &&& uses_index ==> index_after(state, change) == newline_view(index)
            &&& !uses_index ==> index_after(state, change) == text_view(state.index_text)
            &&& uses_head ==> head_after(state, change) == newline_view(head)
            &&& !uses_head ==> head_after(state, change) == text_view(state.head_text)
        }),
{
    if let Some(text) = index {
        if !text@.contains('\r') {
            newlines_stay(text@);
        }
    }
    if let Some(text) = head {
        if !text@.contains('\r') {
            newlines_stay(text@);
        }
    }
}

/// Where one comparison serves for both, the two texts are the same.
pub proof fn reuse_is_sound(state: BufferGitState)
    requires
        state.well_formed(),
        state.index_matches_head(),
    ensures
        text_view(state.index_text) == text_view(state.head_text),
{
}

/// A buffer whose texts may have to be read again.
#[derive(Debug)]
pub struct ReloadCandidate {
    pub buffer_id: u64,
    pub repo_path: RepoPath,
    pub is_symlink: bool,
    /// The text of the index, if a comparison with it is in use.
    pub current_index: Option<Option<String>>,
    /// The text at the head, if a comparison with it is in use.
    pub current_head: Option<Option<String>>,
}

/// The texts that were read for a buffer.
#[derive(Debug)]
pub struct LoadedTexts {
    pub index: Option<String>,
    pub head: Option<String>,
}

impl ReloadCandidate {
    /// Which texts have to be read: those in use, and none of a symbolic link.
    pub fn texts_to_load(&self) -> (load: (bool, bool))
        ensures
            load.0 == (self.current_index is Some && !self.is_symlink),
            load.1 == (self.current_head is Some && !self.is_symlink),
    {
        (
            self.current_index.is_some() && !self.is_symlink,
            self.current_head.is_some() && !self.is_symlink,
        )
    }
}

/// The text that counts as read: none where none had to be read.
pub open spec fn read_text(in_use: bool, is_symlink: bool, text: Option<String>) -> Option<String> {
    if in_use && !is_symlink {
        text
    } else {
        None
    }
}

/// The change for a buffer whose texts were read again.
pub open spec fn candidate_change(
    candidate: ReloadCandidate,
    loaded: LoadedTexts,
) -> Option<DiffBasesChange> {
    reload_change_for(
        candidate.current_index,
        candidate.current_head,
        read_text(candidate.current_index is Some, candidate.is_symlink, loaded.index),
        read_text(candidate.current_head is Some, candidate.is_symlink, loaded.head),
    )
}

/// What a reload means for one buffer.
#[derive(Debug)]
pub struct ReloadOutcome {
    pub buffer_id: u64,
    pub change: Option<DiffBasesChange>,
    /// The message to whom the project is shared with, if there is anything to say.
    pub message: Option<UpdateDiffBases>,
}

/// `outcome` is what a reload means for a buffer.
pub open spec fn is_reload_outcome(
    outcome: ReloadOutcome,
    candidate: ReloadCandidate,
    loaded: LoadedTexts,
    shared_project: Option<u64>,
) -> bool {
    &&& outcome.buffer_id == candidate.buffer_id
    &&& outcome.change == candidate_change(candidate, loaded)
    &&& outcome.message == (match (outcome.change, shared_project) {
        (Some(change), Some(project_id)) => Some(
            diff_bases_message_for(change, project_id, candidate.buffer_id),
        ),
        _ => None,
    })
}

/// Decides, for all buffers of a repository, how the texts that they are compared with
/// change after those texts were read again, and what to tell whom the project is
/// shared with.
pub fn reload_buffer_diff_bases(
    candidates: &Vec<ReloadCandidate>,
    loaded: &Vec<LoadedTexts>,
    shared_project: Option<u64>,
) -> (outcomes: Vec<ReloadOutcome>)
    requires
        candidates@.len() == loaded@.len(),
    ensures
        outcomes@.len() == candidates@.len(),
        forall|i: int|
            0 <= i < outcomes@.len() ==> is_reload_outcome(
                #[trigger] outcomes@[i],
                candidates@[i],
                loaded@[i],
                shared_project,
            ),
{
    let mut outcomes: Vec<ReloadOutcome> = Vec::new();
    let mut i: usize = 0;
    while i < candidates.len()
        invariant
            i <= candidates@.len(),
            candidates@.len() == loaded@.len(),
            outcomes@.len() == i,
            forall|k: int|
                0 <= k < i ==> is_reload_outcome(
                    #[trigger] outcomes@[k],
                    candidates@[k],
                    loaded@[k],
                    shared_project,
                ),
        decreases candidates@.len() - i,
    {
        let candidate = &candidates[i];
        let (load_index, load_head) = candidate.texts_to_load();
        let index = if load_index {
            clone_opt(&loaded[i].index)
        } else {
            None
        };
        let head = if load_head {
            clone_opt(&loaded[i].head)
        } else {
            None
        };
        let change = reload_change(&candidate.current_index, &candidate.current_head, index, head);
        let message = match (&change, shared_project) {
            (Some(change), Some(project_id)) => Some(
                diff_bases_message(change, project_id, candidate.buffer_id),
            ),
            _ => None,
        };
        outcomes.push(ReloadOutcome { buffer_id: candidate.buffer_id, change, message });
        i += 1;
    }
    outcomes
}

/// What opening a comparison comes down to.
#[derive(Clone, Copy, Debug, PartialEq, Eq, Structural)]
pub enum OpenDiff {
    /// It is open: hand it out.
    Ready,
    /// It is open and being made again: hand it out when that is done.
    AfterRecalculation,
    /// The buffer belongs to no repository.
    NoRepository,
    /// It is being opened already: wait for that.
    JoinLoading,
    /// Open it. A symbolic link is compared with no text.
    Load { without_text: bool },
}

/// Decides how to open the comparison of a buffer with the index or the head.
/// `open` is the state of the buffer if the comparison is open.
pub fn open_diff(
    open: Option<&BufferGitState>,
    has_repository: bool,
    is_loading: bool,
    is_symlink: bool,
) -> (decision: OpenDiff)
    ensures
        decision == (match open {
            Some(state) => if state.recalculating {
                OpenDiff::AfterRecalculation
            } else {
                OpenDiff::Ready
            },
            None => if !has_repository {
                OpenDiff::NoRepository
            } else if is_loading {
                OpenDiff::JoinLoading
            } else {
                OpenDiff::Load { without_text: is_symlink }
            },
        }),
{
    match open {
        Some(state) => {
            if state.wait_for_recalculation() {
                OpenDiff::AfterRecalculation
            } else {
                OpenDiff::Ready
            }
        },
        None => {
            if !has_repository {
                OpenDiff::NoRepository
            } else if is_loading {
                OpenDiff::JoinLoading
            } else {
                OpenDiff::Load { without_text: is_symlink }
            }
        },
    }
}

/// A change sets the text that it names, and no other. What it sets counts as changed until the
/// comparisons are made again. Texts without carriage returns are set as they are.
pub proof fn changes_set_what_they_name(
    state: &mut BufferGitState,
    change: DiffBasesChange,
    index: String,
    head: String,
)
    requires
        call_ensures(BufferGitState::diff_bases_changed, (state, Some(change)), ()),
        !index@.contains('\r'),
        !head@.contains('\r'),
    ensures
        change == DiffBasesChange::SetIndex(Some(index)) ==> {
            &&& final(state).index_text matches Some(text) && text@ == index@
            &&& text_view(final(state).head_text) == text_view(old(state).head_text)
            &&& final(state).index_changed
            &&& final(state).head_changed == old(state).head_changed
            &&& !final(state).texts_shared
        },
        change == DiffBasesChange::SetHead(Some(head)) ==> {
            &&& final(state).head_text matches Some(text) && text@ == head@
            &&& text_view(final(state).index_text) == text_view(old(state).index_text)
            &&& final(state).head_changed
            &&& final(state).index_changed == old(state).index_changed
            &&& !final(state).texts_shared
        },
        change == (DiffBasesChange::SetEach { index: Some(index), head: Some(head) }) ==> {
            &&& final(state).index_text matches Some(text) && text@ == index@
            &&& final(state).head_text matches Some(text) && text@ == head@
            &&& final(state).index_changed
            &&& final(state).head_changed
            &&& !final(state).texts_shared
        },
        change == DiffBasesChange::SetBoth(Some(head)) ==> {
            &&& final(state).index_text matches Some(text) && text@ == head@
            &&& final(state).head_text matches Some(text) && text@ == head@
            &&& final(state).index_changed
            &&& final(state).head_changed
            &&& final(state).texts_shared
        },
        change == DiffBasesChange::SetBoth(None) ==> final(state).index_text is None && final(state).head_text is None && final(state).index_changed && final(state).head_changed,
        change == DiffBasesChange::SetIndex(None) ==> final(state).index_text is None,
        change == DiffBasesChange::SetHead(None) ==> final(state).head_text is None,
{
    newlines_stay(index@);
    newlines_stay(head@);
}

/// The texts of a commit that was just made are set as one where they are the same, and each in
/// its place where they are not.
pub proof fn committed_texts_are_set(
    committed: String,
    staged: String,
    change: DiffBasesChange,
    unstaged: DiffBasesChange,
)
    requires
        call_ensures(committed_text_change, (Some(committed), Some(staged)), change),
        call_ensures(committed_text_change, (Some(committed), None::<String>), unstaged),
    ensures
        committed@ == staged@ ==> change == DiffBasesChange::SetBoth(Some(committed)),
        committed@ != staged@ ==> change == (DiffBasesChange::SetEach {
            index: Some(staged),
            head: Some(committed),
        }),
        unstaged == (DiffBasesChange::SetEach { index: None, head: Some(committed) }),
{
}

/// After a reload only texts that are in use and differ are set, each to what was read of it.
pub proof fn reloads_set_what_differs(
    old_index: String,
    old_head: String,
    index: String,
    head: String,
    change: Option<DiffBasesChange>,
    index_change: Option<DiffBasesChange>,
    head_change: Option<DiffBasesChange>,
    no_change: Option<DiffBasesChange>,
)
    requires
        call_ensures(
            reload_change,
            (&Some(Some(old_index)), &Some(Some(old_head)), Some(index), Some(head)),
            change,
        ),
        call_ensures(
            reload_change,
            (&Some(Some(old_index)), &None::<Option<String>>, Some(index), Some(head)),
            index_change,
        ),
        call_ensures(
            reload_change,
            (&None::<Option<String>>, &Some(Some(old_head)), Some(index), Some(head)),
            head_change,
        ),
        call_ensures(
            reload_change,
            (&None::<Option<String>>, &None::<Option<String>>, Some(index), Some(head)),
            no_change,
        ),
    ensures
        index@ == old_index@ && head@ == old_head@ ==> change is None,
        index@ != old_index@ && head@ == old_head@ ==> change == Some(
            DiffBasesChange::SetIndex(Some(index)),
        ),
        index@ == old_index@ && head@ != old_head@ ==> change == Some(
            DiffBasesChange::SetHead(Some(head)),
        ),
        index@ != old_index@ && head@ != old_head@ && index@ == head@ ==> change == Some(
            DiffBasesChange::SetBoth(Some(head)),
        ),
        index@ != old_index@ && head@ != old_head@ && index@ != head@ ==> change == Some(
            DiffBasesChange::SetEach { index: Some(index), head: Some(head) },
        ),
        index@ == old_index@ ==> index_change is None,
        index@ != old_index@ ==> index_change == Some(DiffBasesChange::SetIndex(Some(index))),
        head@ == old_head@ ==> head_change is None,
        head@ != old_head@ ==> head_change == Some(DiffBasesChange::SetHead(Some(head))),
        no_change is None,
{
}

/// A message about changed texts holds the text of the index as staged and that of the head as
/// committed, and says which of them count. Texts that are one are sent once, as committed.
pub proof fn messages_hold_the_changed_texts(
    index: Option<String>,
    head: Option<String>,
    project_id: u64,
    buffer_id: u64,
    of_index: UpdateDiffBases,
    of_head: UpdateDiffBases,
    of_each: UpdateDiffBases,
    of_both: UpdateDiffBases,
)
    requires
        call_ensures(
            diff_bases_message,
            (&DiffBasesChange::SetIndex(index), project_id, buffer_id),
            of_index,
        ),
        call_ensures(
            diff_bases_message,
            (&DiffBasesChange::SetHead(head), project_id, buffer_id),
            of_head,
        ),
        call_ensures(
            diff_bases_message,
            (&DiffBasesChange::SetEach { index, head }, project_id, buffer_id),
            of_each,
        ),
        call_ensures(
            diff_bases_message,
            (&DiffBasesChange::SetBoth(head), project_id, buffer_id),
            of_both,
        ),
    ensures
        of_index.project_id == project_id && of_index.buffer_id == buffer_id,
        of_index.mode is IndexOnly && of_index.staged_text == index && of_index.committed_text is None,
        of_head.project_id == project_id && of_head.buffer_id == buffer_id,
        of_head.mode is HeadOnly && of_head.staged_text is None && of_head.committed_text == head,
        of_each.project_id == project_id && of_each.buffer_id == buffer_id,
        of_each.mode is IndexAndHead && of_each.staged_text == index && of_each.committed_text
            == head,
        of_both.project_id == project_id && of_both.buffer_id == buffer_id,
        of_both.mode is IndexMatchesHead && of_both.staged_text is None && of_both.committed_text
            == head,
{
}

proof fn lemma_kept_oid(
    texts: Map<Oid, String>,
    oids: Seq<Option<Oid>>,
    alive: Seq<bool>,
    i: int,
)
    requires
        0 <= i < oids.len(),
        oids.len() == alive.len(),
        oids.no_duplicates(),
        alive[i],
    ensures
        kept(oids, alive).contains(oids[i]),
        oids[i] matches Some(oid) ==> (kept_texts(texts, oids, alive).contains_key(oid)
            <==> texts.contains_key(oid)) && (texts.contains_key(oid) ==> kept_texts(
            texts,
            oids,
            alive,
        )[oid] == texts[oid]),
{
    lemma_kept_part(texts, oids, alive, i);
}

proof fn lemma_kept_part(
    texts: Map<Oid, String>,
    oids: Seq<Option<Oid>>,
    alive: Seq<bool>,
    i: int,
)
    requires
        0 <= i < oids.len(),
        oids.len() <= alive.len(),
        oids.no_duplicates(),
        alive[i],
    ensures
        kept(oids, alive).contains(oids[i]),
        oids[i] matches Some(oid) ==> (kept_texts(texts, oids, alive).contains_key(oid)
            <==> texts.contains_key(oid)) && (texts.contains_key(oid) ==> kept_texts(
            texts,
            oids,
            alive,
        )[oid] == texts[oid]),
    decreases oids.len(),
{
    let before = oids.drop_last();
    let all = kept(oids, alive);
    if i < oids.len() - 1 {
        assert(before[i] == oids[i]);
        lemma_kept_part(texts, before, alive, i);
        let earlier = kept(before, alive);
        let at = choose|at: int| 0 <= at < earlier.len() && earlier[at] == oids[i];
        assert(all[at] == oids[i]);
        assert(oids[oids.len() - 1] != oids[i]);
    } else {
        assert(all[all.len() - 1] == oids[i]);
        lemma_unkept(texts, before, alive, oids.last());
    }
}

proof fn lemma_unkept(
    texts: Map<Oid, String>,
    oids: Seq<Option<Oid>>,
    alive: Seq<bool>,
    other: Option<Oid>,
)
    requires
        !oids.contains(other),
    ensures
        other matches Some(oid) ==> (kept_texts(texts, oids, alive).contains_key(oid)
            <==> texts.contains_key(oid)) && (texts.contains_key(oid) ==> kept_texts(
            texts,
            oids,
            alive,
        )[oid] == texts[oid]),
    decreases oids.len(),
{
    if oids.len() > 0 {
        assert(oids.contains(oids[oids.len() - 1]));
        assert(!oids.drop_last().contains(other)) by {
            if oids.drop_last().contains(other) {
                let k = choose|k: int|
                    0 <= k < oids.drop_last().len() && oids.drop_last()[k] == other;
                assert(oids[k] == other);
            }
        }
        lemma_unkept(texts, oids.drop_last(), alive, other);
    }
}

/// A recalculation compares with the index where that is in use, and with the head where that is
/// in use and was not set together with the index. Where both were set as one, the comparison with
/// the index serves for both. Which texts changed is said of each.
pub proof fn recalculations_make_what_is_in_use(
    state: &mut BufferGitState,
    has_unstaged_diff: bool,
    has_uncommitted_diff: bool,
    alive: Vec<bool>,
    plan: RecalculationPlan,
)
    requires
        call_ensures(
            BufferGitState::recalculate_diffs,
            (state, has_unstaged_diff, has_uncommitted_diff, &alive),
            plan,
        ),
    ensures
        final(state).recalculating,
        final(state).index_text == old(state).index_text,
        final(state).head_text == old(state).head_text,
        plan.unstaged is Some <==> has_unstaged_diff,
        plan.unstaged matches Some(task) ==> task.base_text == old(state).index_text
            && task.base_changed == old(state).index_changed,
        !has_uncommitted_diff ==> plan.uncommitted is Skip,
        has_uncommitted_diff && old(state).index_text is Some && old(state).head_text is Some
            && !old(state).texts_shared ==> (plan.uncommitted matches UncommittedPlan::Compute(task)
            && task.base_text == old(state).head_text && task.base_changed == old(state).head_changed),
        has_uncommitted_diff && (old(state).index_text is Some) != (old(state).head_text is Some)
            ==> (plan.uncommitted matches UncommittedPlan::Compute(task) && task.base_text == old(state).head_text && task.base_changed == old(state).head_changed),
        has_uncommitted_diff && has_unstaged_diff && old(state).texts_shared && old(state).index_text is Some && old(state).head_text is Some ==> plan.uncommitted is ReuseUnstaged,
        plan.language_changed == old(state).language_changed,
        plan.written_operations == old(state).hunk_staging_operation_count_as_of_write,
{
}

/// A commit whose comparison somebody holds is compared with its text again.
pub proof fn held_comparisons_are_made_again(
    state: &mut BufferGitState,
    has_unstaged_diff: bool,
    has_uncommitted_diff: bool,
    alive: Vec<bool>,
    plan: RecalculationPlan,
    i: int,
)
    requires
        call_ensures(
            BufferGitState::recalculate_diffs,
            (state, has_unstaged_diff, has_uncommitted_diff, &alive),
            plan,
        ),
        alive@.len() == old(state).oid_diffs@.len(),
        old(state).oid_diffs@.no_duplicates(),
        0 <= i < alive@.len(),
        alive@[i],
    ensures
        exists|at: int|
            0 <= at < plan.oid_diffs@.len() && (#[trigger] plan.oid_diffs@[at]).oid == old(state).oid_diffs@[i] && (old(state).oid_diffs@[i] matches Some(oid) ==> (
            plan.oid_diffs@[at].base_text is Some <==> old(state).oid_texts@.contains_key(oid)) && (
            plan.oid_diffs@[at].base_text matches Some(text) ==> text == old(state).oid_texts@[oid]))
                && (old(state).oid_diffs@[i] is None ==> plan.oid_diffs@[at].base_text is None),
        final(state).oid_diffs@.contains(old(state).oid_diffs@[i]),
{
    lemma_kept_oid(old(state).oid_texts@, old(state).oid_diffs@, alive@, i);
    let left = final(state).oid_diffs@;
    let oid = old(state).oid_diffs@[i];
    let at = choose|at: int| 0 <= at < left.len() && left[at] == oid;
    let tasks = left.map_values(
        |oid: Option<Oid>|
            OidDiffTask { oid, base_text: oid_text(old(state).oid_texts@, oid) },
    );
    assert(tasks[at].oid == oid);
    assert(plan.oid_diffs@[at] == tasks[at]);
}

/// Comparisons are dropped just if operations on hunks were started after those that they show.
/// Otherwise they are taken over, and then nothing counts as changed.
pub proof fn comparisons_are_dropped_or_taken_over(
    dropping: &mut BufferGitState,
    written_operations: usize,
    cancelled: bool,
    ending: &mut BufferGitState,
    language: &mut BufferGitState,
    waiting: BufferGitState,
    wait: bool,
)
    requires
        call_ensures(
            BufferGitState::cancel_recalculation,
            (dropping, written_operations),
            cancelled,
        ),
        call_ensures(BufferGitState::finish_recalculation, (ending,), ()),
        call_ensures(BufferGitState::buffer_language_changed, (language,), ()),
        call_ensures(BufferGitState::wait_for_recalculation, (&waiting,), wait),
    ensures
        cancelled <==> old(dropping).hunk_staging_operation_count > written_operations,
        cancelled ==> !final(dropping).recalculating,
        !cancelled ==> *final(dropping) == *old(dropping),
        !final(ending).recalculating,
        !final(ending).index_changed,
        !final(ending).head_changed,
        !final(ending).language_changed,
        final(ending).index_text == old(ending).index_text,
        final(ending).head_text == old(ending).head_text,
        final(language).language_changed,
        final(language).recalculating == old(language).recalculating,
        wait == waiting.recalculating,
{
}

/// Staging hunks counts as an operation just if it changes the text of the index. Operations are
/// numbered in ascending order; the one that was written is the last that counts as written, and
/// one that was not written leaves hunks to be cleared.
pub proof fn operations_are_numbered(
    hunks: &mut BufferGitState,
    new_index_text: String,
    operation: Option<usize>,
    all: &mut BufferGitState,
    number: usize,
    writing: &mut BufferGitState,
    ended: &mut BufferGitState,
    failed: &mut BufferGitState,
    written: usize,
    clear_ended: bool,
    clear_failed: bool,
)
    requires
        call_ensures(
            BufferGitState::hunks_staged_or_unstaged,
            (hunks, &Some(new_index_text)),
            operation,
        ),
        call_ensures(BufferGitState::begin_staging, (all,), number),
        call_ensures(BufferGitState::index_written, (writing, written), ()),
        call_ensures(BufferGitState::end_staging, (ended, written, true), clear_ended),
        call_ensures(BufferGitState::end_staging, (failed, written, false), clear_failed),
    ensures
        operation is Some <==> (old(hunks).index_text matches Some(text) ==> text@
            != new_index_text@),
        operation matches Some(count) ==> count == old(hunks).hunk_staging_operation_count + 1
            && final(hunks).hunk_staging_operation_count == count,
        operation is None ==> *final(hunks) == *old(hunks),
        number == old(all).hunk_staging_operation_count + 1,
        final(all).hunk_staging_operation_count == number,
        final(all).hunk_staging_operation_count_as_of_write
            == old(all).hunk_staging_operation_count_as_of_write,
        final(writing).hunk_staging_operation_count_as_of_write == written,
        final(writing).hunk_staging_operation_count == old(writing).hunk_staging_operation_count,
        final(ended).hunk_staging_operation_count_as_of_write == written,
        !clear_ended,
        *final(failed) == *old(failed),
        clear_failed,
{
}

/// A commit that a buffer is compared with is noted once, with its text where there is one.
pub proof fn commits_are_compared_with_once(
    state: &mut BufferGitState,
    oid: Oid,
    content: String,
    other: Oid,
)
    requires
        call_ensures(BufferGitState::add_oid_diff, (state, Some(oid), Some(content)), ()),
        other != oid,
    ensures
        final(state).oid_diffs@.contains(Some(oid)),
        final(state).oid_texts@.contains_key(oid) && final(state).oid_texts@[oid] == content,
        final(state).oid_texts@.contains_key(other) <==> old(state).oid_texts@.contains_key(other),
        old(state).oid_diffs@.no_duplicates() ==> final(state).oid_diffs@.no_duplicates(),
        final(state).index_text == old(state).index_text,
        final(state).head_text == old(state).head_text,
{
    if !old(state).oid_diffs@.contains(Some(oid)) {
        let after = old(state).oid_diffs@.push(Some(oid));
        assert(after[after.len() - 1] == Some(oid));
    }
}

/// Of a buffer the texts in use are read, and none of a symbolic link, for which nothing counts as
/// read. Whom the project is shared with is told of each change, under the number of its buffer.
pub proof fn reloads_reach_every_buffer(
    candidates: Vec<ReloadCandidate>,
    loaded: Vec<LoadedTexts>,
    shared_project: Option<u64>,
    outcomes: Vec<ReloadOutcome>,
    i: int,
    load: (bool, bool),
)
    requires
        call_ensures(
            reload_buffer_diff_bases,
            (&candidates, &loaded, shared_project),
            outcomes,
        ),
        0 <= i < candidates@.len(),
        call_ensures(ReloadCandidate::texts_to_load, (&candidates@[i],), load),
    ensures
        load.0 <==> candidates@[i].current_index is Some && !candidates@[i].is_symlink,
        load.1 <==> candidates@[i].current_head is Some && !candidates@[i].is_symlink,
        outcomes@.len() == candidates@.len(),
        outcomes@[i].buffer_id == candidates@[i].buffer_id,
        outcomes@[i].message is Some <==> outcomes@[i].change is Some && shared_project is Some,
        outcomes@[i].message matches Some(message) ==> message.buffer_id
            == candidates@[i].buffer_id && message.project_id == shared_project->0,
        candidates@[i].current_index is None && candidates@[i].current_head is None
            ==> outcomes@[i].change is None,
        !candidates@[i].is_symlink && candidates@[i].current_head is None ==> (
        candidates@[i].current_index matches Some(current) ==> outcomes@[i].change == (if text_view(
            current,
        ) != text_view(loaded@[i].index) {
            Some(DiffBasesChange::SetIndex(loaded@[i].index))
        } else {
            None
        })),
        !candidates@[i].is_symlink && candidates@[i].current_index is None ==> (
        candidates@[i].current_head matches Some(current) ==> outcomes@[i].change == (if text_view(
            current,
        ) != text_view(loaded@[i].head) {
            Some(DiffBasesChange::SetHead(loaded@[i].head))
        } else {
            None
        })),
        candidates@[i].is_symlink && candidates@[i].current_head is None ==> (
        candidates@[i].current_index matches Some(Some(_)) ==> outcomes@[i].change == Some(
            DiffBasesChange::SetIndex(None),
        )),
{
    assert(is_reload_outcome(outcomes@[i], candidates@[i], loaded@[i], shared_project));
}

/// A comparison that is open is handed out, after a recalculation that runs. One that is not is
/// opened once, and only in a repository; a symbolic link is compared with no text.
pub proof fn comparisons_are_opened_once(
    state: BufferGitState,
    has_repository: bool,
    is_loading: bool,
    is_symlink: bool,
    open: OpenDiff,
    closed: OpenDiff,
)
    requires
        call_ensures(open_diff, (Some(&state), has_repository, is_loading, is_symlink), open),
        call_ensures(
            open_diff,
            (None::<&BufferGitState>, has_repository, is_loading, is_symlink),
            closed,
        ),
    ensures
        state.recalculating ==> open is AfterRecalculation,
        !state.recalculating ==> open is Ready,
        !has_repository ==> closed is NoRepository,
        has_repository && is_loading ==> closed is JoinLoading,
        has_repository && !is_loading ==> (closed matches OpenDiff::Load { without_text }
            && without_text == is_symlink),
{
}

} // verus!
