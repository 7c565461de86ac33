//! Staging all hunks of several buffers at once.
use std::collections::BTreeMap;
use vstd::prelude::*;

use crate::git_store::diff_bases::BufferGitState;
use crate::ids::{ascending, contains_push, map_keys, map_put, map_take};

verus! {

/// The states after an operation started on each of the buffers, as often as it
/// occurs, except for those that are not known.
pub open spec fn after_starting(
    states: Map<u64, BufferGitState>,
    buffers: Seq<u64>,
) -> Map<u64, BufferGitState>
    decreases buffers.len(),
{
    if buffers.len() == 0 {
        states
    } else {
        let before = after_starting(states, buffers.drop_last());
        let id = buffers.last();
        if before.contains_key(id) {
            before.insert(
                id,
                BufferGitState {
                    hunk_staging_operation_count: (before[id].hunk_staging_operation_count
                        + 1) as usize,
                    ..before[id]
                },
            )
        } else {
            before
        }
    }
}

/// All states are in order and can count `more` operations.
pub open spec fn can_count(states: Map<u64, BufferGitState>, more: int) -> bool {
    forall|id: u64| #[trigger]
        states.contains_key(id) ==> states[id].well_formed()
            && states[id].hunk_staging_operation_count + more <= usize::MAX
}

proof fn lemma_after_starting(states: Map<u64, BufferGitState>, buffers: Seq<u64>, more: int)
    requires
        more >= 0,
        can_count(states, buffers.len() + more),
    ensures
        can_count(after_starting(states, buffers), more),
        after_starting(states, buffers).dom() == states.dom(),
    decreases buffers.len(),
{
    if buffers.len() > 0 {
        lemma_after_starting(states, buffers.drop_last(), more + 1);
        assert(after_starting(states, buffers).dom() =~= states.dom());
    }
}

/// Starts an operation on each of the buffers, and says under which number each of
/// them has to be written.
pub fn begin_staging_buffers(states: &mut BTreeMap<u64, BufferGitState>, buffers: &Vec<u64>) -> (
    operations: BTreeMap<u64, usize>)
    requires
        can_count(old(states)@, buffers@.len() as int),
    ensures
        final(states)@ == after_starting(old(states)@, buffers@),
        can_count(final(states)@, 0),
        forall|id: u64| #[trigger]
            operations@.contains_key(id) <==> buffers@.contains(id) && old(states)@.contains_key(
                id,
            ),
        forall|id: u64| #[trigger]
            operations@.contains_key(id) ==> operations@[id]
                == final(states)@[id].hunk_staging_operation_count,
{
    let mut operations: BTreeMap<u64, usize> = BTreeMap::new();
    let mut i: usize = 0;
    assert(buffers@.take(0) =~= Seq::<u64>::empty());
    while i < buffers.len()
        invariant
            i <= buffers@.len(),
            can_count(old(states)@, buffers@.len() as int),
            states@ == after_starting(old(states)@, buffers@.take(i as int)),
            forall|id: u64| #[trigger]
                operations@.contains_key(id) <==> buffers@.take(i as int).contains(id) && old(
                    states,
                )@.contains_key(id),
            forall|id: u64| #[trigger]
                operations@.contains_key(id) ==> operations@[id]
                    == states@[id].hunk_staging_operation_count,
        decreases buffers@.len() - i,
    {
        let id: u64 = buffers[i];
        let ghost before = states@;
        let ghost seen = buffers@.take(i as int);
        let ghost next = buffers@.take(i + 1);
        proof {
            assert(next.drop_last() =~= seen);
            assert(next.last() == id);
            assert(next =~= seen.push(id));
            assert(can_count(old(states)@, i + 1));
            lemma_after_starting(old(states)@, seen, 1);
            assert forall|k: u64| next.contains(k) <==> seen.contains(k) || k == id by {
                contains_push(seen, id, k);
            }
        }
        if let Some(state) = map_take(states, id) {
            let mut state: BufferGitState = state;
            assert(before.contains_key(id));
            let operation: usize = state.begin_staging();
            map_put(states, id, state);
            map_put(&mut operations, id, operation);
            assert(states@ =~= before.insert(
                id,
                BufferGitState { hunk_staging_operation_count: operation, ..before[id] },
            ));
        } else {
            assert(states@ =~= before);
        }
        i += 1;
    }
    assert(buffers@.take(i as int) =~= buffers@);
    proof {
        lemma_after_starting(old(states)@, buffers@, 0);
    }
    operations
}

/// Ends the operations. Those that were written count as such. If they were not, the
/// buffers whose hunks wait for them are returned: they have to be cleared.
pub fn end_staging_buffers(
    states: &mut BTreeMap<u64, BufferGitState>,
    operations: &BTreeMap<u64, usize>,
    written: bool,
) -> (to_clear: Vec<u64>)
    requires
        can_count(old(states)@, 0),
        forall|id: u64| #[trigger]
            operations@.contains_key(id) && old(states)@.contains_key(id) ==> operations@[id]
                <= old(states)@[id].hunk_staging_operation_count,
    ensures
        can_count(final(states)@, 0),
        final(states)@.dom() == old(states)@.dom(),
        forall|id: u64| #[trigger]
            old(states)@.contains_key(id) ==> final(states)@[id] == (if written
                && operations@.contains_key(id) {
                BufferGitState {
                    hunk_staging_operation_count_as_of_write: operations@[id],
                    ..old(states)@[id]
                }
            } else {
                old(states)@[id]
            }),
        ascending(to_clear@),
        forall|id: u64| #[trigger]
            to_clear@.contains(id) <==> !written && operations@.contains_key(id) && old(
                states,
            )@.contains_key(id),
{
    let keys: Vec<u64> = map_keys(operations);
    let mut to_clear: Vec<u64> = Vec::new();
    let mut i: usize = 0;
    while i < keys.len()
        invariant
            i <= keys@.len(),
            ascending(keys@),
            forall|k: u64| #[trigger] keys@.contains(k) <==> operations@.contains_key(k),
            can_count(old(states)@, 0),
            can_count(states@, 0),
            forall|id: u64| #[trigger]
                operations@.contains_key(id) && old(states)@.contains_key(id) ==> operations@[id]
                    <= old(states)@[id].hunk_staging_operation_count,
            states@.dom() == old(states)@.dom(),
            forall|id: u64| #[trigger]
                old(states)@.contains_key(id) ==> states@[id] == (if written && keys@.take(
                    i as int,
                ).contains(id) {
                    BufferGitState {
                        hunk_staging_operation_count_as_of_write: operations@[id],
                        ..old(states)@[id]
                    }
                } else {
                    old(states)@[id]
                }),
            ascending(to_clear@),
            forall|k: int|
                0 <= k < to_clear@.len() && i < keys@.len() ==> to_clear@[k] < keys@[i as int],
            forall|id: u64| #[trigger]
                to_clear@.contains(id) <==> !written && keys@.take(i as int).contains(id) && old(
                    states,
                )@.contains_key(id),
        decreases keys@.len() - i,
    {
        let id: u64 = keys[i];
        let ghost before = states@;
        let ghost seen = keys@.take(i as int);
        let ghost next = keys@.take(i + 1);
        let ghost clear_before = to_clear@;
        proof {
            assert(keys@.contains(keys@[i as int]));
            assert(next =~= seen.push(id));
            assert forall|k: u64| next.contains(k) <==> seen.contains(k) || k == id by {
                contains_push(seen, id, k);
            }
            if seen.contains(id) {
                let j = choose|j: int| 0 <= j < seen.len() && seen[j] == id;
                assert(keys@[j] < keys@[i as int]);
            }
        }
        let operation: usize = match crate::ids::map_get(operations, id) {
            Some(operation) => *operation,
            None => 0,
        };
        if let Some(state) = map_take(states, id) {
            let mut state: BufferGitState = state;
            assert(before.contains_key(id));
            assert(old(states)@.contains_key(id));
            assert(before[id] == old(states)@[id]);
            let clear = state.end_staging(operation, written);
            map_put(states, id, state);
            if clear {
                to_clear.push(id);
            }
            proof {
                assert(states@.dom() =~= old(states)@.dom());
                assert forall|k: u64|
                    #[trigger] to_clear@.contains(k) <==> clear_before.contains(k) || (clear && k
                        == id) by {
                    contains_push(clear_before, id, k);
                }
            }
        } else {
            assert(states@ =~= before);
        }
        i += 1;
    }
    proof {
        assert(keys@.take(i as int) =~= keys@);
        assert forall|id: u64| #[trigger]
            to_clear@.contains(id) <==> !written && operations@.contains_key(id) && old(
                states,
            )@.contains_key(id) by {
            assert(keys@.contains(id) <==> operations@.contains_key(id));
        }
    }
    to_clear
}

/// How often a buffer occurs.
pub open spec fn occurrences(buffers: Seq<u64>, id: u64) -> nat
    decreases buffers.len(),
{
    if buffers.len() == 0 {
        0
    } else {
        occurrences(buffers.drop_last(), id) + if buffers.last() == id {
            1nat
        } else {
            0
        }
    }
}

proof fn lemma_started(states: Map<u64, BufferGitState>, buffers: Seq<u64>, id: u64)
    requires
        can_count(states, buffers.len() as int),
    ensures
        occurrences(buffers, id) <= buffers.len(),
        after_starting(states, buffers).contains_key(id) <==> states.contains_key(id),
        states.contains_key(id) ==> after_starting(states, buffers)[id] == (BufferGitState {
            hunk_staging_operation_count: (states[id].hunk_staging_operation_count + occurrences(
                buffers,
                id,
            )) as usize,
            ..states[id]
        }),
    decreases buffers.len(),
{
    if buffers.len() > 0 {
        assert(can_count(states, buffers.len() - 1)) by {
            assert forall|id: u64| #[trigger] states.contains_key(id) implies states[id].well_formed()
                && states[id].hunk_staging_operation_count + (buffers.len() - 1) <= usize::MAX by {}
        }
        lemma_started(states, buffers.drop_last(), id);
        lemma_started(states, buffers.drop_last(), buffers.last());
        if states.contains_key(id) {
            assert(states[id].hunk_staging_operation_count + buffers.len() <= usize::MAX);
        }
    }
}

/// Staging buffers counts an operation on each of them, as often as it is named, and tells the
/// number of the last. Nothing else changes of a buffer, and nothing of others.
pub proof fn operations_start_on_each_buffer(
    states: &mut BTreeMap<u64, BufferGitState>,
    buffers: Vec<u64>,
    operations: BTreeMap<u64, usize>,
    id: u64,
)
    requires
        call_ensures(begin_staging_buffers, (states, &buffers), operations),
        can_count(old(states)@, buffers@.len() as int),
    ensures
        final(states)@.contains_key(id) <==> old(states)@.contains_key(id),
        operations@.contains_key(id) <==> buffers@.contains(id) && old(states)@.contains_key(id),
        old(states)@.contains_key(id) ==> ({
            &&& final(states)@[id].hunk_staging_operation_count
                == old(states)@[id].hunk_staging_operation_count + occurrences(buffers@, id)
            &&& final(states)@[id].hunk_staging_operation_count_as_of_write
                == old(states)@[id].hunk_staging_operation_count_as_of_write
            &&& final(states)@[id].index_text == old(states)@[id].index_text
            &&& final(states)@[id].head_text == old(states)@[id].head_text
            &&& final(states)@[id].recalculating == old(states)@[id].recalculating
        }),
        operations@.contains_key(id) ==> operations@[id]
            == old(states)@[id].hunk_staging_operation_count + occurrences(buffers@, id),
{
    lemma_started(old(states)@, buffers@, id);
    if old(states)@.contains_key(id) {
        assert(old(states)@[id].hunk_staging_operation_count + buffers@.len() <= usize::MAX);
    }
}

/// Operations that were written count as written, and leave nothing to clear. Those that were not
/// change nothing, and their buffers are cleared.
pub proof fn operations_end_written_or_cleared(
    good: &mut BTreeMap<u64, BufferGitState>,
    bad: &mut BTreeMap<u64, BufferGitState>,
    operations: BTreeMap<u64, usize>,
    none: Vec<u64>,
    to_clear: Vec<u64>,
    id: u64,
)
    requires
        call_ensures(end_staging_buffers, (good, &operations, true), none),
        call_ensures(end_staging_buffers, (bad, &operations, false), to_clear),
    ensures
        !none@.contains(id),
        old(good)@.contains_key(id) && operations@.contains_key(id) ==> ({
            &&& final(good)@.contains_key(id)
            &&& final(good)@[id].hunk_staging_operation_count_as_of_write == operations@[id]
            &&& final(good)@[id].hunk_staging_operation_count
                == old(good)@[id].hunk_staging_operation_count
            &&& final(good)@[id].index_text == old(good)@[id].index_text
        }),
        old(good)@.contains_key(id) && !operations@.contains_key(id) ==> final(good)@[id] == old(good)@[id],
        old(bad)@.contains_key(id) ==> final(bad)@[id] == old(bad)@[id],
        to_clear@.contains(id) <==> operations@.contains_key(id) && old(bad)@.contains_key(id),
{
    assert(final(good)@.dom().contains(id) <==> old(good)@.dom().contains(id));
    assert(none@.contains(id) ==> false);
}

} // verus!
