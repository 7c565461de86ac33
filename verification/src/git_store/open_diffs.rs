//! The comparisons of buffers with what git knows: which are open, which are being opened,
//! and the conflicts that buffers show.
use std::collections::BTreeMap;
use vstd::prelude::*;

use crate::git_store::diff_bases::{
    clone_opt, head_after, index_after, open_diff, BufferGitState, DiffBasesChange, DiffKind,
    OpenDiff, ReloadCandidate,
};
use crate::git_store::snapshot::RepositorySnapshot;
use crate::git_store::wire::Oid;
use crate::ids::{ascending, contains_push, map_get, map_has, map_keys, map_put, map_take};
use crate::rel_path::{has_prefix, RelPath};
use crate::text::text_view;

verus! {

/// The states of buffers, and the comparisons that are being opened.
#[derive(Debug)]
pub struct OpenDiffs {
    pub diffs: BTreeMap<u64, BufferGitState>,
    pub loading_diffs: Vec<(u64, DiffKind)>,
}

/// The state of a buffer, or a new one.
pub open spec fn is_state_of(
    diffs: Map<u64, BufferGitState>,
    buffer_id: u64,
    state: BufferGitState,
) -> bool {
    if diffs.contains_key(buffer_id) {
        state == diffs[buffer_id]
    } else {
        is_new_state(state)
    }
}

/// Nothing is known of the buffer yet.
pub open spec fn is_new_state(state: BufferGitState) -> bool {
    &&& state.well_formed()
    &&& !state.recalculating
    &&& state.hunk_staging_operation_count == 0
    &&& state.hunk_staging_operation_count_as_of_write == 0
    &&& state.head_text is None
    &&& state.index_text is None
    &&& state.oid_diffs@.len() == 0
    &&& state.oid_texts@ == Map::<Oid, String>::empty()
    &&& !state.head_changed
    &&& !state.index_changed
    &&& !state.language_changed
}

/// A buffer that is open with a file, and which of its comparisons are in use.
#[derive(Debug)]
pub struct DiffBuffer {
    pub abs_path: RelPath,
    pub is_symlink: bool,
    pub has_unstaged_diff: bool,
    pub has_uncommitted_diff: bool,
}

pub open spec fn candidate_ids(candidates: Seq<ReloadCandidate>) -> Seq<u64> {
    candidates.map_values(|candidate: ReloadCandidate| candidate.buffer_id)
}

/// The texts of the buffer may have to be read again: it has a state, and is open with a file
/// in the work directory.
pub open spec fn is_affected(
    diffs: Map<u64, BufferGitState>,
    buffers: Map<u64, DiffBuffer>,
    work_directory: Seq<Seq<char>>,
    id: u64,
) -> bool {
    diffs.contains_key(id) && buffers.contains_key(id) && has_prefix(
        buffers[id].abs_path@,
        work_directory,
    )
}

/// The candidate for a buffer: the texts that are in use, and where its file lies in the
/// repository.
pub open spec fn is_candidate(
    candidate: ReloadCandidate,
    diffs: Map<u64, BufferGitState>,
    buffers: Map<u64, DiffBuffer>,
    work_directory: Seq<Seq<char>>,
) -> bool {
    let state = diffs[candidate.buffer_id];
    let buffer = buffers[candidate.buffer_id];
    &&& work_directory + candidate.repo_path@ == buffer.abs_path@
    &&& candidate.is_symlink == buffer.is_symlink
    &&& candidate.current_index == if buffer.has_unstaged_diff {
        Some(state.index_text)
    } else {
        None
    }
    &&& candidate.current_head == if buffer.has_uncommitted_diff {
        Some(state.head_text)
    } else {
        None
    }
}

impl BufferGitState {
    /// What may have to be read again for the buffer, if its file lies in the repository.
    fn reload_candidate(&self, id: u64, repository: &RepositorySnapshot, buffer: &DiffBuffer) -> (
    candidate: Option<ReloadCandidate>)
        ensures
            candidate is Some <==> has_prefix(
                buffer.abs_path@,
                repository.dirs.work_directory@,
            ),
            candidate matches Some(candidate) ==> candidate.buffer_id == id && is_candidate(
                candidate,
                Map::empty().insert(id, *self),
                Map::empty().insert(id, *buffer),
                repository.dirs.work_directory@,
            ),
    {
        match repository.abs_path_to_repo_path(&buffer.abs_path) {
            Some(repo_path) => Some(
                ReloadCandidate {
                    buffer_id: id,
                    repo_path,
                    is_symlink: buffer.is_symlink,
                    current_index: if buffer.has_unstaged_diff {
                        Some(clone_opt(&self.index_text))
                    } else {
                        None
                    },
                    current_head: if buffer.has_uncommitted_diff {
                        Some(clone_opt(&self.head_text))
                    } else {
                        None
                    },
                },
            ),
            None => None,
        }
    }
}

impl OpenDiffs {
    /// The states are in order.
    pub open spec fn well_formed(self) -> bool {
        forall|id: u64| #[trigger]
            self.diffs@.contains_key(id) ==> self.diffs@[id].well_formed()
    }

    /// The buffers whose texts may have to be read again for a repository, in ascending order:
    /// those that are open with a file of it.
    pub fn reload_candidates(
        &self,
        repository: &RepositorySnapshot,
        buffers: &BTreeMap<u64, DiffBuffer>,
    ) -> (candidates: Vec<ReloadCandidate>)
        ensures
            ascending(candidate_ids(candidates@)),
            forall|id: u64| #[trigger]
                candidate_ids(candidates@).contains(id) <==> is_affected(
                    self.diffs@,
                    buffers@,
                    repository.dirs.work_directory@,
                    id,
                ),
            forall|i: int|
                0 <= i < candidates@.len() ==> is_candidate(
                    #[trigger] candidates@[i],
                    self.diffs@,
                    buffers@,
                    repository.dirs.work_directory@,
                ),
    {
        let ids: Vec<u64> = map_keys(&self.diffs);
        let ghost work_directory = repository.dirs.work_directory@;
        let mut candidates: Vec<ReloadCandidate> = Vec::new();
        let mut i: usize = 0;
        assert(candidate_ids(candidates@) =~= Seq::<u64>::empty());
        while i < ids.len()
            invariant
                i <= ids@.len(),
                ascending(ids@),
                work_directory == repository.dirs.work_directory@,
                forall|k: u64| #[trigger] ids@.contains(k) <==> self.diffs@.contains_key(k),
                ascending(candidate_ids(candidates@)),
                forall|id: u64| #[trigger]
                    candidate_ids(candidates@).contains(id) <==> is_affected(
                        self.diffs@,
                        buffers@,
                        work_directory,
                        id,
                    ) && ids@.take(i as int).contains(id),
                forall|k: int|
                    0 <= k < candidates@.len() ==> is_candidate(
                        #[trigger] candidates@[k],
                        self.diffs@,
                        buffers@,
                        work_directory,
                    ),
            decreases ids@.len() - i,
        {
            let id: u64 = ids[i];
            let ghost earlier = candidate_ids(candidates@);
            proof {
                assert(ids@.contains(ids@[i as int]));
                assert(ids@.take(i + 1) =~= ids@.take(i as int).push(id));
            }
            let candidate: Option<ReloadCandidate> = match (
                map_get(&self.diffs, id),
                map_get(buffers, id),
            ) {
                (Some(state), Some(buffer)) => state.reload_candidate(id, repository, buffer),
                _ => None,
            };
            assert(candidate is Some <==> is_affected(self.diffs@, buffers@, work_directory, id));
            if let Some(candidate) = candidate {
                candidates.push(candidate);
                assert(candidate_ids(candidates@) =~= earlier.push(id));
            }
            proof {
                let now = candidate_ids(candidates@);
                assert forall|other: u64| #[trigger] now.contains(other) <==> is_affected(
                    self.diffs@,
                    buffers@,
                    work_directory,
                    other,
                ) && ids@.take(i + 1).contains(other) by {
                    contains_push(earlier, id, other);
                    contains_push(ids@.take(i as int), id, other);
                }
                assert forall|a: int, b: int| 0 <= a < b < now.len() implies now[a] < now[b] by {
                    assert(now[a] == earlier[a]);
                    if b < earlier.len() {
                        assert(now[b] == earlier[b]);
                    } else {
                        assert(earlier.contains(earlier[a]));
                        let k = ids@.take(i as int).index_of(earlier[a]);
                        assert(ids@[k] == earlier[a]);
                    }
                }
            }
            i += 1;
        }
        proof {
            assert(ids@.take(i as int) =~= ids@);
            assert forall|id: u64| #[trigger]
                candidate_ids(candidates@).contains(id) <==> is_affected(
                    self.diffs@,
                    buffers@,
                    work_directory,
                    id,
                ) by {
                if is_affected(self.diffs@, buffers@, work_directory, id) {
                    assert(ids@.contains(id));
                }
            }
        }
        candidates
    }

    /// The comparison is being opened.
    pub open spec fn is_loading(self, buffer_id: u64, kind: DiffKind) -> bool {
        self.loading_diffs@.contains((buffer_id, kind))
    }

    /// What opening a comparison comes down to. One that is open is handed out, if need be
    /// when it has been made again. One that is being opened is waited for.
    pub open spec fn opening(
        self,
        buffer_id: u64,
        kind: DiffKind,
        is_open: bool,
        has_repository: bool,
        is_symlink: bool,
    ) -> OpenDiff {
        if is_open && self.diffs@.contains_key(buffer_id) {
            if self.diffs@[buffer_id].recalculating {
                OpenDiff::AfterRecalculation
            } else {
                OpenDiff::Ready
            }
        } else if !has_repository {
            OpenDiff::NoRepository
        } else if self.is_loading(buffer_id, kind) {
            OpenDiff::JoinLoading
        } else {
            OpenDiff::Load { without_text: is_symlink }
        }
    }

    pub fn new() -> (diffs: Self)
        ensures
            diffs.well_formed(),
            diffs.diffs@ == Map::<u64, BufferGitState>::empty(),
            diffs.loading_diffs@.len() == 0,
    {
        OpenDiffs { diffs: BTreeMap::new(), loading_diffs: Vec::new() }
    }

    fn loads(&self, buffer_id: u64, kind: DiffKind) -> (loading: bool)
        ensures
            loading == self.is_loading(buffer_id, kind),
    {
        let mut i: usize = 0;
        while i < self.loading_diffs.len()
            invariant
                i <= self.loading_diffs@.len(),
                forall|k: int|
                    0 <= k < i ==> #[trigger] self.loading_diffs@[k] != (buffer_id, kind),
            decreases self.loading_diffs@.len() - i,
        {
            let (id, other) = self.loading_diffs[i];
            if id == buffer_id && other == kind {
                assert(self.loading_diffs@[i as int] == (buffer_id, kind));
                return true;
            }
            i += 1;
        }
        false
    }

    /// Opens the comparison of a buffer with the index or the head. `is_open` says whether
    /// it is in use already.
    pub fn open(
        &mut self,
        buffer_id: u64,
        kind: DiffKind,
        is_open: bool,
        has_repository: bool,
        is_symlink: bool,
    ) -> (decision: OpenDiff)
        ensures
            decision == old(self).opening(buffer_id, kind, is_open, has_repository, is_symlink),
            final(self).diffs == old(self).diffs,
            final(self).loading_diffs@ == if decision is Load {
                old(self).loading_diffs@.push((buffer_id, kind))
            } else {
                old(self).loading_diffs@
            },
    {
        let loading: bool = self.loads(buffer_id, kind);
        let state: Option<&BufferGitState> = if is_open {
            map_get(&self.diffs, buffer_id)
        } else {
            None
        };
        let decision: OpenDiff = open_diff(state, has_repository, loading, is_symlink);
        if let OpenDiff::Load { .. } = decision {
            self.loading_diffs.push((buffer_id, kind));
        }
        decision
    }

    /// Opens the comparison of a buffer with the index.
    pub fn open_unstaged_diff(
        &mut self,
        buffer_id: u64,
        is_open: bool,
        has_repository: bool,
        is_symlink: bool,
    ) -> (decision: OpenDiff)
        ensures
            decision == old(self).opening(
                buffer_id,
                DiffKind::Unstaged,
                is_open,
                has_repository,
                is_symlink,
            ),
            final(self).diffs == old(self).diffs,
            final(self).loading_diffs@ == if decision is Load {
                old(self).loading_diffs@.push((buffer_id, DiffKind::Unstaged))
            } else {
                old(self).loading_diffs@
            },
    {
        self.open(buffer_id, DiffKind::Unstaged, is_open, has_repository, is_symlink)
    }

    /// Opens the comparison of a buffer with the head.
    pub fn open_uncommitted_diff(
        &mut self,
        buffer_id: u64,
        is_open: bool,
        has_repository: bool,
        is_symlink: bool,
    ) -> (decision: OpenDiff)
        ensures
            decision == old(self).opening(
                buffer_id,
                DiffKind::Uncommitted,
                is_open,
                has_repository,
                is_symlink,
            ),
            final(self).diffs == old(self).diffs,
            final(self).loading_diffs@ == if decision is Load {
                old(self).loading_diffs@.push((buffer_id, DiffKind::Uncommitted))
            } else {
                old(self).loading_diffs@
            },
    {
        self.open(buffer_id, DiffKind::Uncommitted, is_open, has_repository, is_symlink)
    }

    /// Opens the comparison of a buffer with the text of a commit, for which no repository
    /// is looked up.
    pub fn open_diff_since(&mut self, buffer_id: u64, oid: Option<Oid>, is_open: bool) -> (decision:
        OpenDiff)
        ensures
            decision == old(self).opening(
                buffer_id,
                DiffKind::SinceOid(oid),
                is_open,
                true,
                oid is None,
            ),
            final(self).diffs == old(self).diffs,
            final(self).loading_diffs@ == if decision is Load {
                old(self).loading_diffs@.push((buffer_id, DiffKind::SinceOid(oid)))
            } else {
                old(self).loading_diffs@
            },
    {
        self.open(buffer_id, DiffKind::SinceOid(oid), is_open, true, oid.is_none())
    }

    /// The comparison is not being opened any more.
    fn stop_loading(&mut self, buffer_id: u64, kind: DiffKind)
        ensures
            final(self).diffs == old(self).diffs,
            !final(self).is_loading(buffer_id, kind),
            forall|other: (u64, DiffKind)|
                other != (buffer_id, kind) ==> (#[trigger] final(self).loading_diffs@.contains(
                    other,
                ) <==> old(self).loading_diffs@.contains(other)),
    {
        let ghost all = self.loading_diffs@;
        let mut kept: Vec<(u64, DiffKind)> = Vec::new();
        let mut i: usize = 0;
        while i < self.loading_diffs.len()
            invariant
                i <= self.loading_diffs@.len(),
                self.diffs == old(self).diffs,
                all == self.loading_diffs@,
                all == old(self).loading_diffs@,
                forall|k: int| 0 <= k < kept@.len() ==> #[trigger] kept@[k] != (buffer_id, kind),
                forall|k: int| 0 <= k < kept@.len() ==> all.contains(#[trigger] kept@[k]),
                forall|k: int|
                    0 <= k < i && #[trigger] all[k] != (buffer_id, kind) ==> kept@.contains(all[k]),
            decreases self.loading_diffs@.len() - i,
        {
            let (id, other) = self.loading_diffs[i];
            let ghost before = kept@;
            assert(all.contains(all[i as int]));
            if id != buffer_id || other != kind {
                kept.push((id, other));
                assert(kept@[kept@.len() - 1] == all[i as int]);
            }
            proof {
                assert forall|k: int|
                    0 <= k < i + 1 && #[trigger] all[k] != (
                        buffer_id,
                        kind,
                    ) implies kept@.contains(all[k]) by {
                    if k < i {
                        let at = before.index_of(all[k]);
                        assert(kept@[at] == all[k]);
                    }
                }
            }
            i += 1;
        }
        proof {
            assert forall|other: (u64, DiffKind)|
                other != (buffer_id, kind) implies (#[trigger] kept@.contains(other)
                <==> all.contains(other)) by {
                if all.contains(other) {
                    let at = all.index_of(other);
                    assert(kept@.contains(all[at]));
                }
            }
        }
        self.loading_diffs = kept;
    }

    fn take_state(&mut self, buffer_id: u64) -> (state: BufferGitState)
        requires
            old(self).well_formed(),
        ensures
            final(self).well_formed(),
            state.well_formed(),
            is_state_of(old(self).diffs@, buffer_id, state),
            final(self).diffs@ == old(self).diffs@.remove(buffer_id),
            final(self).loading_diffs == old(self).loading_diffs,
    {
        match map_take(&mut self.diffs, buffer_id) {
            Some(state) => state,
            None => BufferGitState::new(),
        }
    }

    /// The texts of a comparison with the index or the head were read, or could not be. If
    /// they were, the buffer takes them over, and a recalculation has to follow.
    pub fn open_diff_internal(
        &mut self,
        buffer_id: u64,
        kind: DiffKind,
        texts: Option<DiffBasesChange>,
    )
        requires
            old(self).well_formed(),
        ensures
            final(self).well_formed(),
            !final(self).is_loading(buffer_id, kind),
            forall|other: (u64, DiffKind)|
                other != (buffer_id, kind) ==> (#[trigger] final(self).loading_diffs@.contains(
                    other,
                ) <==> old(self).loading_diffs@.contains(other)),
            match texts {
                None => final(self).diffs == old(self).diffs,
                Some(change) => {
                    &&& final(self).diffs@.contains_key(buffer_id)
                    &&& final(self).diffs@.remove(buffer_id) == old(self).diffs@.remove(buffer_id)
                    &&& exists|state: BufferGitState| #[trigger]
                        is_state_of(old(self).diffs@, buffer_id, state) && takes_over(
                            state,
                            change,
                            final(self).diffs@[buffer_id],
                        )
                },
            },
    {
        self.stop_loading(buffer_id, kind);
        let ghost before = self.diffs@;
        if let Some(change) = texts {
            let mut state: BufferGitState = self.take_state(buffer_id);
            let ghost first = state;
            state.language_changed = true;
            state.diff_bases_changed(Some(change));
            assert(takes_over(first, change, state));
            map_put(&mut self.diffs, buffer_id, state);
            assert(self.diffs@.remove(buffer_id) =~= before.remove(buffer_id));
            assert(is_state_of(before, buffer_id, first));
        }
    }

    /// The text of a commit was read, or there is none: the buffer is compared with it.
    pub fn oid_diff_opened(&mut self, buffer_id: u64, oid: Option<Oid>, content: Option<String>)
        requires
            old(self).well_formed(),
        ensures
            final(self).well_formed(),
            !final(self).is_loading(buffer_id, DiffKind::SinceOid(oid)),
            forall|other: (u64, DiffKind)|
                other != (buffer_id, DiffKind::SinceOid(oid)) ==> (
                #[trigger] final(self).loading_diffs@.contains(other) <==> old(
                    self,
                ).loading_diffs@.contains(other)),
            final(self).diffs@.contains_key(buffer_id),
            final(self).diffs@.remove(buffer_id) == old(self).diffs@.remove(buffer_id),
            final(self).diffs@[buffer_id].oid_diffs@.contains(oid),
            exists|state: BufferGitState| #[trigger]
                is_state_of(old(self).diffs@, buffer_id, state) && adds_oid_diff(
                    state,
                    oid,
                    content,
                    final(self).diffs@[buffer_id],
                ),
    {
        self.stop_loading(buffer_id, DiffKind::SinceOid(oid));
        let ghost before = self.diffs@;
        let mut state: BufferGitState = self.take_state(buffer_id);
        let ghost first = state;
        state.add_oid_diff(oid, content);
        proof {
            if !first.oid_diffs@.contains(oid) {
                assert(state.oid_diffs@[first.oid_diffs@.len() as int] == oid);
            }
            assert(adds_oid_diff(first, oid, content, state));
        }
        map_put(&mut self.diffs, buffer_id, state);
        assert(self.diffs@.remove(buffer_id) =~= before.remove(buffer_id));
        assert(is_state_of(before, buffer_id, first));
    }

    /// A buffer was closed.
    pub fn buffer_dropped(&mut self, buffer_id: u64)
        requires
            old(self).well_formed(),
        ensures
            final(self).well_formed(),
            final(self).diffs@ == old(self).diffs@.remove(buffer_id),
            final(self).loading_diffs == old(self).loading_diffs,
    {
        let _ = map_take(&mut self.diffs, buffer_id);
    }

    /// The language of a buffer changed. Says whether its comparisons have to be made again.
    pub fn buffer_language_changed(&mut self, buffer_id: u64) -> (recalculate: bool)
        requires
            old(self).well_formed(),
        ensures
            final(self).well_formed(),
            recalculate == old(self).diffs@.contains_key(buffer_id),
            final(self).diffs@ == (if recalculate {
                old(self).diffs@.insert(
                    buffer_id,
                    BufferGitState { language_changed: true, ..old(self).diffs@[buffer_id] },
                )
            } else {
                old(self).diffs@
            }),
            final(self).loading_diffs == old(self).loading_diffs,
    {
        let ghost before = self.diffs@;
        match map_take(&mut self.diffs, buffer_id) {
            Some(state) => {
                let mut state: BufferGitState = state;
                state.buffer_language_changed();
                map_put(&mut self.diffs, buffer_id, state);
                assert(self.diffs@ =~= before.insert(
                    buffer_id,
                    BufferGitState { language_changed: true, ..before[buffer_id] },
                ));
                true
            },
            None => {
                assert(self.diffs@ =~= before);
                false
            },
        }
    }

    /// What a buffer is compared with after its file was renamed.
    pub fn file_path_changed(&self, buffer_id: u64, has_repository: bool, is_symlink: bool) -> (
    texts: RenamedTexts)
        ensures
            texts == if self.diffs@.contains_key(buffer_id) && has_repository {
                if is_symlink {
                    RenamedTexts::NoText
                } else {
                    RenamedTexts::Load
                }
            } else {
                RenamedTexts::Keep
            },
    {
        if map_has(&self.diffs, buffer_id) && has_repository {
            if is_symlink {
                RenamedTexts::NoText
            } else {
                RenamedTexts::Load
            }
        } else {
            RenamedTexts::Keep
        }
    }

    /// The buffers among these whose comparisons have to be made again: all that have any.
    pub fn recalculate_buffer_diffs(&self, buffers: &Vec<u64>) -> (recalculate: Vec<u64>)
        ensures
            recalculate@ == compared_buffers(self.diffs@, buffers@),
    {
        let mut recalculate: Vec<u64> = Vec::new();
        let mut i: usize = 0;
        while i < buffers.len()
            invariant
                i <= buffers@.len(),
                recalculate@ == compared_buffers(self.diffs@, buffers@.take(i as int)),
            decreases buffers@.len() - i,
        {
            assert(buffers@.take(i + 1).drop_last() =~= buffers@.take(i as int));
            assert(buffers@.take(i + 1).last() == buffers@[i as int]);
            if map_has(&self.diffs, buffers[i]) {
                recalculate.push(buffers[i]);
            }
            i += 1;
        }
        assert(buffers@.take(i as int) =~= buffers@);
        recalculate
    }
}

/// Where the texts of a buffer come from after its file was renamed.
#[derive(Clone, Copy, Debug, PartialEq, Eq, Structural)]
pub enum RenamedTexts {
    /// It has no comparisons, or lies in no repository.
    Keep,
    /// A symbolic link is compared with no text.
    NoText,
    Load,
}

/// The buffers that have comparisons.
pub open spec fn compared_buffers(diffs: Map<u64, BufferGitState>, buffers: Seq<u64>) -> Seq<u64>
    decreases buffers.len(),
{
    if buffers.len() == 0 {
        Seq::empty()
    } else {
        let earlier = compared_buffers(diffs, buffers.drop_last());
        if diffs.contains_key(buffers.last()) {
            earlier.push(buffers.last())
        } else {
            earlier
        }
    }
}

/// A buffer took over a change of its texts, and its language counts as changed.
pub open spec fn takes_over(
    before: BufferGitState,
    change: DiffBasesChange,
    after: BufferGitState,
) -> bool {
    &&& text_view(after.index_text) == index_after(before, Some(change))
    &&& text_view(after.head_text) == head_after(before, Some(change))
    &&& after.texts_shared == (change matches DiffBasesChange::SetBoth(text) && text is Some)
    &&& after.index_changed == (before.index_changed || !(change is SetHead))
    &&& after.head_changed == (before.head_changed || !(change is SetIndex))
    &&& after.language_changed
    &&& after.oid_diffs == before.oid_diffs
    &&& after.oid_texts == before.oid_texts
    &&& after.recalculating == before.recalculating
    &&& after.hunk_staging_operation_count == before.hunk_staging_operation_count
    &&& after.hunk_staging_operation_count_as_of_write
        == before.hunk_staging_operation_count_as_of_write
}

/// A buffer is compared with a commit from now on.
pub open spec fn adds_oid_diff(
    before: BufferGitState,
    oid: Option<Oid>,
    content: Option<String>,
    after: BufferGitState,
) -> bool {
    &&& after.oid_diffs@ == (if before.oid_diffs@.contains(oid) {
        before.oid_diffs@
    } else {
        before.oid_diffs@.push(oid)
    })
    &&& after.oid_texts@ == (match (oid, content) {
        (Some(oid), Some(content)) => before.oid_texts@.insert(oid, content),
        _ => before.oid_texts@,
    })
    &&& after == (BufferGitState {
        oid_diffs: after.oid_diffs,
        oid_texts: after.oid_texts,
        ..before
    })
}

/// The comparisons of a buffer that are handed out, by their identifiers. One may be gone
/// although it is still noted here.
#[derive(Clone, Copy, Debug, PartialEq, Eq, Structural)]
pub struct DiffHandles {
    pub unstaged: Option<u64>,
    pub uncommitted: Option<u64>,
}

/// What a new comparison with the head is connected with.
#[derive(Clone, Copy, Debug, PartialEq, Eq, Structural)]
pub enum Secondary {
    /// It is a comparison with the index and has none.
    Nothing,
    /// The comparison with the index that is in use.
    Existing(u64),
    /// The comparison with the index that was made for it.
    Created(u64),
}

impl DiffHandles {
    /// Notes a new comparison with the index or the head. One with the head is shown together
    /// with the one with the index, which is made for it where none is in use.
    pub fn opened(&mut self, is_uncommitted: bool, diff: u64, unstaged_is_alive: bool, spare: u64)
        -> (secondary: Secondary)
        ensures
            secondary == (if !is_uncommitted {
                Secondary::Nothing
            } else {
                match old(self).unstaged {
                    Some(unstaged) if unstaged_is_alive => Secondary::Existing(unstaged),
                    _ => Secondary::Created(spare),
                }
            }),
            final(self).unstaged == (if !is_uncommitted {
                match old(self).unstaged {
                    Some(unstaged) => Some(unstaged),
                    None => Some(diff),
                }
            } else {
                match secondary {
                    Secondary::Created(spare) => Some(spare),
                    _ => old(self).unstaged,
                }
            }),
            final(self).uncommitted == (if is_uncommitted {
                Some(diff)
            } else {
                old(self).uncommitted
            }),
    {
        if !is_uncommitted {
            if self.unstaged.is_none() {
                self.unstaged = Some(diff);
            }
            return Secondary::Nothing;
        }
        self.uncommitted = Some(diff);
        if unstaged_is_alive {
            if let Some(unstaged) = self.unstaged {
                return Secondary::Existing(unstaged);
            }
        }
        self.unstaged = Some(spare);
        Secondary::Created(spare)
    }
}

/// The conflict markers of a buffer, and who waits for them to be read.
#[derive(Debug)]
pub struct BufferConflicts {
    pub has_conflict: bool,
    pub waiting: Vec<u64>,
}

impl BufferConflicts {
    /// The file of the buffer is in conflict, or is not.
    pub fn new(is_unmerged: bool) -> (conflicts: Self)
        ensures
            conflicts.has_conflict == is_unmerged,
            conflicts.waiting@.len() == 0,
    {
        BufferConflicts { has_conflict: is_unmerged, waiting: Vec::new() }
    }

    /// Somebody wants the markers to be read again. Says whether they are: only those of a
    /// file in conflict.
    pub fn reparse_conflict_markers(&mut self, waiter: u64) -> (reparse: bool)
        ensures
            reparse == old(self).has_conflict,
            final(self).has_conflict == old(self).has_conflict,
            final(self).waiting@ == if reparse {
                old(self).waiting@.push(waiter)
            } else {
                old(self).waiting@
            },
    {
        if self.has_conflict {
            self.waiting.push(waiter);
            true
        } else {
            false
        }
    }

    /// The markers have been read. Returns those who waited for that.
    pub fn markers_parsed(&mut self) -> (served: Vec<u64>)
        ensures
            served@ == old(self).waiting@,
            final(self).waiting@.len() == 0,
            final(self).has_conflict == old(self).has_conflict,
    {
        let mut served: Vec<u64> = Vec::new();
        served.append(&mut self.waiting);
        assert(served@ =~= old(self).waiting@);
        served
    }

    /// The repository changed. Says whether the file entered or left a conflict, in which case
    /// the markers are read again.
    pub fn repository_updated(&mut self, has_conflict: bool) -> (changed: bool)
        ensures
            changed == (old(self).has_conflict != has_conflict),
            final(self).has_conflict == has_conflict,
            final(self).waiting == old(self).waiting,
    {
        let changed: bool = self.has_conflict != has_conflict;
        self.has_conflict = has_conflict;
        changed
    }
}

/// A comparison is opened once: while it is being opened, whoever asks for it waits.
pub proof fn loading_is_joined(
    before: OpenDiffs,
    after: OpenDiffs,
    buffer_id: u64,
    kind: DiffKind,
    is_symlink: bool,
)
    requires
        before.opening(buffer_id, kind, false, true, is_symlink) is Load,
        after.diffs == before.diffs,
        after.loading_diffs@ == before.loading_diffs@.push((buffer_id, kind)),
    ensures
        after.opening(buffer_id, kind, false, true, is_symlink) is JoinLoading,
{
    assert(after.loading_diffs@[before.loading_diffs@.len() as int] == (buffer_id, kind));
}

/// A comparison that could not be opened can be asked for again.
pub proof fn failed_loading_is_retried(
    after: OpenDiffs,
    buffer_id: u64,
    kind: DiffKind,
    is_symlink: bool,
)
    requires
        !after.is_loading(buffer_id, kind),
    ensures
        after.opening(buffer_id, kind, false, true, is_symlink) == (OpenDiff::Load {
            without_text: is_symlink,
        }),
{
}

/// The buffer of a symbolic link is compared with nothing: the link is read without a text, and
/// taking that over leaves the buffer without one.
pub proof fn symlinks_have_no_base(
    diffs: OpenDiffs,
    buffer_id: u64,
    kind: DiffKind,
    before: BufferGitState,
    after: BufferGitState,
)
    requires
        !diffs.is_loading(buffer_id, kind),
        takes_over(before, DiffBasesChange::SetBoth(None), after),
    ensures
        diffs.opening(buffer_id, kind, false, true, true) == (OpenDiff::Load { without_text: true }),
        after.head_text is None,
        after.index_text is None,
{
}

/// A comparison is handed out where it is open, waited for while it is being opened, and else
/// opened, in which case it counts as being opened. With a commit a buffer is compared wherever
/// it lies, and without a commit with no text.
pub proof fn comparisons_are_asked_for(
    unstaged: &mut OpenDiffs,
    uncommitted: &mut OpenDiffs,
    since: &mut OpenDiffs,
    buffer_id: u64,
    is_open: bool,
    has_repository: bool,
    is_symlink: bool,
    oid: Option<Oid>,
    of_index: OpenDiff,
    of_head: OpenDiff,
    of_commit: OpenDiff,
)
    requires
        call_ensures(
            OpenDiffs::open_unstaged_diff,
            (unstaged, buffer_id, is_open, has_repository, is_symlink),
            of_index,
        ),
        call_ensures(
            OpenDiffs::open_uncommitted_diff,
            (uncommitted, buffer_id, is_open, has_repository, is_symlink),
            of_head,
        ),
        call_ensures(OpenDiffs::open_diff_since, (since, buffer_id, oid, is_open), of_commit),
    ensures
        is_open && old(unstaged).diffs@.contains_key(buffer_id) ==> (of_index is Ready || of_index
            is AfterRecalculation) && (of_index is AfterRecalculation <==> old(unstaged).diffs@[buffer_id].recalculating),
        !is_open && !has_repository ==> of_index is NoRepository && of_head is NoRepository,
        !is_open && has_repository ==> {
            &&& of_index is JoinLoading <==> old(unstaged).loading_diffs@.contains(
                (buffer_id, DiffKind::Unstaged),
            )
            &&& of_head is JoinLoading <==> old(uncommitted).loading_diffs@.contains(
                (buffer_id, DiffKind::Uncommitted),
            )
            &&& of_index is Load <==> !(of_index is JoinLoading)
            &&& of_head is Load <==> !(of_head is JoinLoading)
        },
        !is_open ==> (of_commit is JoinLoading <==> old(since).loading_diffs@.contains(
            (buffer_id, DiffKind::SinceOid(oid)),
        )) && (of_commit is Load <==> !(of_commit is JoinLoading)),
        of_index matches OpenDiff::Load { without_text } ==> without_text == is_symlink
            && final(unstaged).loading_diffs@.contains((buffer_id, DiffKind::Unstaged)),
        of_head matches OpenDiff::Load { without_text } ==> without_text == is_symlink
            && final(uncommitted).loading_diffs@.contains((buffer_id, DiffKind::Uncommitted)),
        of_commit matches OpenDiff::Load { without_text } ==> without_text == (oid is None) && final(since).loading_diffs@.contains((buffer_id, DiffKind::SinceOid(oid))),
        final(unstaged).diffs == old(unstaged).diffs,
        final(uncommitted).diffs == old(uncommitted).diffs,
        final(since).diffs == old(since).diffs,
{
    let more = old(unstaged).loading_diffs@.push((buffer_id, DiffKind::Unstaged));
    assert(more[more.len() - 1] == (buffer_id, DiffKind::Unstaged));
    let more = old(uncommitted).loading_diffs@.push((buffer_id, DiffKind::Uncommitted));
    assert(more[more.len() - 1] == (buffer_id, DiffKind::Uncommitted));
    let more = old(since).loading_diffs@.push((buffer_id, DiffKind::SinceOid(oid)));
    assert(more[more.len() - 1] == (buffer_id, DiffKind::SinceOid(oid)));
}

/// A comparison whose texts were read is not being opened any more, and the buffer has the texts;
/// where they could not be read, nothing else changes. Other buffers keep their states.
pub proof fn read_texts_are_taken_over(
    good: &mut OpenDiffs,
    bad: &mut OpenDiffs,
    buffer_id: u64,
    kind: DiffKind,
    text: String,
    other: u64,
)
    requires
        call_ensures(
            OpenDiffs::open_diff_internal,
            (good, buffer_id, kind, Some(DiffBasesChange::SetBoth(Some(text)))),
            (),
        ),
        call_ensures(
            OpenDiffs::open_diff_internal,
            (bad, buffer_id, kind, None::<DiffBasesChange>),
            (),
        ),
        !text@.contains('\r'),
        other != buffer_id,
    ensures
        !final(good).loading_diffs@.contains((buffer_id, kind)),
        !final(bad).loading_diffs@.contains((buffer_id, kind)),
        final(bad).diffs == old(bad).diffs,
        final(good).diffs@.contains_key(buffer_id),
        ({
            let state = final(good).diffs@[buffer_id];
            &&& state.index_text matches Some(index) && index@ == text@
            &&& state.head_text matches Some(head) && head@ == text@
            &&& state.index_changed
            &&& state.head_changed
            &&& state.language_changed
        }),
        final(good).diffs@.contains_key(other) <==> old(good).diffs@.contains_key(other),
        old(good).diffs@.contains_key(other) ==> final(good).diffs@[other]
            == old(good).diffs@[other],
{
    crate::text_lines::newlines_stay(text@);
    let left = final(good).diffs@.remove(buffer_id);
    assert(left == old(good).diffs@.remove(buffer_id));
    assert(left.contains_key(other) <==> final(good).diffs@.contains_key(other));
    if old(good).diffs@.contains_key(other) {
        assert(left[other] == old(good).diffs@[other]);
        assert(left[other] == final(good).diffs@[other]);
    }
}

/// A closed buffer is forgotten. A new language makes the comparisons of a buffer that has any be
/// made again. After a rename the texts are read anew, where the buffer has comparisons and the
/// file lies in a repository; a symbolic link then has none.
pub proof fn buffers_keep_comparisons_up_to_date(
    closing: &mut OpenDiffs,
    speaking: &mut OpenDiffs,
    diffs: OpenDiffs,
    buffer_id: u64,
    other: u64,
    recalculate: bool,
    has_repository: bool,
    is_symlink: bool,
    texts: RenamedTexts,
)
    requires
        call_ensures(OpenDiffs::buffer_dropped, (closing, buffer_id), ()),
        call_ensures(OpenDiffs::buffer_language_changed, (speaking, buffer_id), recalculate),
        call_ensures(
            OpenDiffs::file_path_changed,
            (&diffs, buffer_id, has_repository, is_symlink),
            texts,
        ),
        other != buffer_id,
    ensures
        !final(closing).diffs@.contains_key(buffer_id),
        final(closing).diffs@.contains_key(other) <==> old(closing).diffs@.contains_key(other),
        recalculate <==> old(speaking).diffs@.contains_key(buffer_id),
        recalculate ==> final(speaking).diffs@[buffer_id].language_changed,
        old(speaking).diffs@.contains_key(other) ==> final(speaking).diffs@[other]
            == old(speaking).diffs@[other],
        texts is Keep <==> !diffs.diffs@.contains_key(buffer_id) || !has_repository,
        texts is NoText <==> diffs.diffs@.contains_key(buffer_id) && has_repository && is_symlink,
        texts is Load <==> diffs.diffs@.contains_key(buffer_id) && has_repository && !is_symlink,
{
}

proof fn lemma_compared(diffs: Map<u64, BufferGitState>, buffers: Seq<u64>, id: u64)
    ensures
        compared_buffers(diffs, buffers).contains(id) <==> buffers.contains(id)
            && diffs.contains_key(id),
    decreases buffers.len(),
{
    if buffers.len() > 0 {
        lemma_compared(diffs, buffers.drop_last(), id);
        contains_push(buffers.drop_last(), buffers.last(), id);
        assert(buffers.drop_last().push(buffers.last()) =~= buffers);
        contains_push(compared_buffers(diffs, buffers.drop_last()), buffers.last(), id);
    }
}

/// Of some buffers those that have comparisons have them made again, and no others.
pub proof fn compared_buffers_are_recalculated(
    diffs: OpenDiffs,
    buffers: Vec<u64>,
    recalculate: Vec<u64>,
    id: u64,
)
    requires
        call_ensures(OpenDiffs::recalculate_buffer_diffs, (&diffs, &buffers), recalculate),
    ensures
        recalculate@.contains(id) <==> buffers@.contains(id) && diffs.diffs@.contains_key(id),
{
    lemma_compared(diffs.diffs@, buffers@, id);
}

/// The buffers of a repository whose texts may have to be read again are those with comparisons
/// that are open with a file below its work directory. Each is given with its path in the
/// repository, and with the texts that are in use.
pub proof fn buffers_of_a_repository_are_read_again(
    diffs: OpenDiffs,
    repository: RepositorySnapshot,
    buffers: BTreeMap<u64, DiffBuffer>,
    candidates: Vec<ReloadCandidate>,
    id: u64,
    i: int,
)
    requires
        call_ensures(OpenDiffs::reload_candidates, (&diffs, &repository, &buffers), candidates),
    ensures
        (exists|at: int|
            0 <= at < candidates@.len() && (#[trigger] candidates@[at]).buffer_id == id) <==> {
            &&& diffs.diffs@.contains_key(id)
            &&& buffers@.contains_key(id)
            &&& buffers@[id].abs_path@.len() >= repository.dirs.work_directory@.len()
            &&& buffers@[id].abs_path@.take(repository.dirs.work_directory@.len() as int)
                == repository.dirs.work_directory@
        },
        0 <= i < candidates@.len() ==> ({
            let candidate = candidates@[i];
            let buffer = buffers@[candidate.buffer_id];
            let state = diffs.diffs@[candidate.buffer_id];
            &&& repository.dirs.work_directory@ + candidate.repo_path@ == buffer.abs_path@
            &&& candidate.is_symlink == buffer.is_symlink
            &&& buffer.has_unstaged_diff ==> candidate.current_index == Some(state.index_text)
            &&& !buffer.has_unstaged_diff ==> candidate.current_index is None
            &&& buffer.has_uncommitted_diff ==> candidate.current_head == Some(state.head_text)
            &&& !buffer.has_uncommitted_diff ==> candidate.current_head is None
        }),
{
    let ids = candidate_ids(candidates@);
    if exists|at: int| 0 <= at < candidates@.len() && (#[trigger] candidates@[at]).buffer_id == id {
        let at = choose|at: int|
            0 <= at < candidates@.len() && (#[trigger] candidates@[at]).buffer_id == id;
        assert(ids[at] == id);
        assert(ids.contains(id));
    }
    if ids.contains(id) {
        let at = choose|at: int| 0 <= at < ids.len() && ids[at] == id;
        assert(candidates@[at].buffer_id == id);
    }
    if 0 <= i < candidates@.len() {
        assert(is_candidate(
            candidates@[i],
            diffs.diffs@,
            buffers@,
            repository.dirs.work_directory@,
        ));
    }
}

/// A comparison with the head is shown together with the one with the index that is in use, or
/// else with a new one; a comparison with the index is shown alone.
pub proof fn comparisons_are_shown_together(
    handles: &mut DiffHandles,
    is_uncommitted: bool,
    diff: u64,
    unstaged_is_alive: bool,
    spare: u64,
    secondary: Secondary,
)
    requires
        call_ensures(
            DiffHandles::opened,
            (handles, is_uncommitted, diff, unstaged_is_alive, spare),
            secondary,
        ),
    ensures
        !is_uncommitted ==> secondary is Nothing && final(handles).uncommitted
            == old(handles).uncommitted,
        !is_uncommitted && old(handles).unstaged is None ==> final(handles).unstaged == Some(diff),
        !is_uncommitted && old(handles).unstaged is Some ==> final(handles).unstaged
            == old(handles).unstaged,
        is_uncommitted ==> final(handles).uncommitted == Some(diff),
        is_uncommitted && unstaged_is_alive ==> (old(handles).unstaged matches Some(unstaged) ==> (
        secondary matches Secondary::Existing(shown) && shown == unstaged && final(handles).unstaged
            == Some(unstaged))),
        is_uncommitted && (old(handles).unstaged is None || !unstaged_is_alive) ==> (secondary
            matches Secondary::Created(shown) && shown == spare && final(handles).unstaged == Some(
            spare,
        )),
{
}

/// The markers of a file are read again for whoever asks while it is in conflict, and whenever it
/// enters or leaves one. Whoever waited is served once.
pub proof fn conflict_markers_are_read_in_conflict(
    asked: &mut BufferConflicts,
    waiter: u64,
    reparse: bool,
    parsed: &mut BufferConflicts,
    served: Vec<u64>,
    updated: &mut BufferConflicts,
    has_conflict: bool,
    changed: bool,
    made: BufferConflicts,
    is_unmerged: bool,
)
    requires
        call_ensures(BufferConflicts::reparse_conflict_markers, (asked, waiter), reparse),
        call_ensures(BufferConflicts::markers_parsed, (parsed,), served),
        call_ensures(BufferConflicts::repository_updated, (updated, has_conflict), changed),
        call_ensures(BufferConflicts::new, (is_unmerged,), made),
    ensures
        reparse == old(asked).has_conflict,
        reparse ==> final(asked).waiting@ == old(asked).waiting@.push(waiter),
        !reparse ==> final(asked).waiting@ == old(asked).waiting@,
        final(asked).has_conflict == old(asked).has_conflict,
        served@ == old(parsed).waiting@,
        final(parsed).waiting@.len() == 0,
        changed <==> old(updated).has_conflict != has_conflict,
        final(updated).has_conflict == has_conflict,
        final(updated).waiting == old(updated).waiting,
        made.has_conflict == is_unmerged,
        made.waiting@.len() == 0,
{
}

} // verus!
