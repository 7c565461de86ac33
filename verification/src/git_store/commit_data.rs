//! Commit data that is loaded on demand, one request per commit, by a handler that
//! closes when nothing has been asked of it for a while.
use vstd::prelude::*;

use crate::git_store::wire::Oid;
use crate::list_map::ListMap;

verus! {

/// How far the data of a commit has come.
#[derive(Debug)]
pub enum CommitDataState<D> {
    Loading {
        /// Somebody waits for the data.
        awaited: bool,
    },
    Loaded(D),
}

/// The handler that reads commit data.
#[derive(Debug)]
pub struct CommitDataHandler {
    /// Commits that were asked for and have not come yet.
    pub pending_requests: ListMap<Oid, ()>,
    /// Commits that somebody waits for.
    pub completion_senders: ListMap<Oid, ()>,
}

/// The commit data of a repository.
#[derive(Debug)]
pub struct CommitDataStore<D> {
    pub commit_data: ListMap<Oid, CommitDataState<D>>,
    /// The handler, while it is open.
    pub handler: Option<CommitDataHandler>,
}

/// What a request for commit data brings about.
#[derive(Clone, Copy, Debug, PartialEq, Eq, Structural)]
pub struct FetchOutcome {
    /// The handler has to be started.
    pub open_handler: bool,
    /// The request has to be handed to the handler.
    pub send_request: bool,
    /// The data is there; otherwise it is being loaded, or cannot be for now.
    pub is_loaded: bool,
}

/// The commit is being loaded.
pub open spec fn is_loading<D>(data: Map<Oid, CommitDataState<D>>, sha: Oid) -> bool {
    data.contains_key(sha) && data[sha] is Loading
}

/// The commit is being loaded and somebody waits for it.
pub open spec fn is_awaited<D>(data: Map<Oid, CommitDataState<D>>, sha: Oid) -> bool {
    is_loading(data, sha) && data[sha]->awaited
}

/// What is known after a commit was asked for: it is being loaded, unless it is known or the
/// handler takes no requests.
pub open spec fn after_fetch<D>(
    before: Map<Oid, CommitDataState<D>>,
    sha: Oid,
    await_result: bool,
    accepts_requests: bool,
) -> Map<Oid, CommitDataState<D>> {
    if !before.contains_key(sha) {
        if accepts_requests {
            before.insert(sha, CommitDataState::Loading { awaited: await_result })
        } else {
            before
        }
    } else if is_loading(before, sha) && await_result {
        before.insert(sha, CommitDataState::Loading { awaited: true })
    } else {
        before
    }
}

/// The data that has come, by commit.
pub open spec fn loaded<D>(data: Map<Oid, CommitDataState<D>>) -> Map<Oid, D> {
    Map::new(
        |sha: Oid| data.contains_key(sha) && data[sha] is Loaded,
        |sha: Oid| data[sha]->Loaded_0,
    )
}

impl<D> CommitDataStore<D> {
    /// While the handler is open, the commits that are being loaded are those that
    /// were asked for, and those that somebody waits for are those with a sender.
    /// While it is closed nothing is being loaded.
    pub open spec fn well_formed(&self) -> bool {
        match self.handler {
            Some(handler) => forall|sha: Oid|
                (#[trigger] handler.pending_requests@.contains_key(sha) <==> is_loading(
                    self.commit_data@,
                    sha,
                )) && (handler.completion_senders@.contains_key(sha) <==> is_awaited(
                    self.commit_data@,
                    sha,
                )),
            None => forall|sha: Oid| !#[trigger] is_loading(self.commit_data@, sha),
        }
    }

    /// A store that holds nothing.
    pub fn new() -> (store: Self)
        ensures
            store.well_formed(),
            store.commit_data@ == Map::<Oid, CommitDataState<D>>::empty(),
            store.handler is None,
    {
        CommitDataStore { commit_data: ListMap::new(), handler: None }
    }

    /// Asks for the data of a commit. What is known already is not asked for again;
    /// who wants to wait for what is being loaded is entered as waiting. If the
    /// handler takes no more requests, the commit is as unknown as before.
    #[verifier::spinoff_prover]
    pub fn fetch_commit_data(&mut self, sha: Oid, await_result: bool, accepts_requests: bool) -> (
        outcome: FetchOutcome)
        requires
            old(self).well_formed(),
        ensures
            final(self).well_formed(),
            outcome.open_handler == (old(self).handler is None && !old(
                self,
            ).commit_data@.contains_key(sha)),
            outcome.send_request == (!old(self).commit_data@.contains_key(sha)
                && accepts_requests),
            outcome.is_loaded == (old(self).commit_data@.contains_key(sha) && old(
                self,
            ).commit_data@[sha] is Loaded),
            (final(self).handler is Some) == (old(self).handler is Some || !old(
                self,
            ).commit_data@.contains_key(sha)),
            final(self).commit_data@ == after_fetch(
                old(self).commit_data@,
                sha,
                await_result,
                accepts_requests,
            ),
    {
        let ghost before = self.commit_data@;
        let unawaited: bool = match self.commit_data.get(&sha) {
            Some(CommitDataState::Loading { awaited }) => !*awaited,
            _ => false,
        };
        let is_loaded: bool = match self.commit_data.get(&sha) {
            Some(CommitDataState::Loaded(_)) => true,
            _ => false,
        };
        if self.commit_data.contains_key(&sha) {
            if unawaited && await_result {
                self.commit_data.insert(sha, CommitDataState::Loading { awaited: true });
                if let Some(taken) = self.handler.take() {
                    let mut handler: CommitDataHandler = taken;
                    let ghost pending = handler.pending_requests@;
                    let ghost senders = handler.completion_senders@;
                    handler.completion_senders.insert(sha, ());
                    proof {
                        let after = self.commit_data@;
                        assert forall|other: Oid|
                            (#[trigger] handler.pending_requests@.contains_key(other)
                                <==> is_loading(after, other)) && (
                            handler.completion_senders@.contains_key(other) <==> is_awaited(
                                after,
                                other,
                            )) by {
                            assert(pending.contains_key(other) <==> is_loading(before, other));
                        }
                    }
                    self.handler = Some(handler);
                } else {
                    assert(is_loading(before, sha));
                }
            } else {
                proof {
                    if is_loading(before, sha) && await_result {
                        assert(before =~= before.insert(
                            sha,
                            CommitDataState::Loading { awaited: true },
                        ));
                    }
                }
            }
            return FetchOutcome { open_handler: false, send_request: false, is_loaded };
        }
        let open_handler = self.handler.is_none();
        let mut handler: CommitDataHandler = match self.handler.take() {
            Some(handler) => handler,
            None => CommitDataHandler {
                pending_requests: ListMap::new(),
                completion_senders: ListMap::new(),
            },
        };
        proof {
            assert forall|other: Oid|
                (#[trigger] handler.pending_requests@.contains_key(other) <==> is_loading(
                    before,
                    other,
                )) && (handler.completion_senders@.contains_key(other) <==> is_awaited(
                    before,
                    other,
                )) by {
                if open_handler {
                    assert(!is_loading(before, other));
                }
            }
        }
        let ghost pending = handler.pending_requests@;
        if accepts_requests {
            self.commit_data.insert(sha, CommitDataState::Loading { awaited: await_result });
            handler.pending_requests.insert(sha, ());
            if await_result {
                handler.completion_senders.insert(sha, ());
            }
        }
        proof {
            let after = self.commit_data@;
            assert forall|other: Oid|
                (#[trigger] handler.pending_requests@.contains_key(other) <==> is_loading(
                    after,
                    other,
                )) && (handler.completion_senders@.contains_key(other) <==> is_awaited(
                    after,
                    other,
                )) by {
                assert(pending.contains_key(other) <==> is_loading(before, other));
            }
        }
        self.handler = Some(handler);
        FetchOutcome { open_handler, send_request: accepts_requests, is_loaded: false }
    }

    /// The data of a commit that was asked for has come. Says whether somebody waits
    /// for it.
    pub fn commit_data_received(&mut self, sha: Oid, data: D) -> (notify: bool)
        requires
            old(self).well_formed(),
            old(self).handler is Some,
            is_loading(old(self).commit_data@, sha),
        ensures
            final(self).well_formed(),
            final(self).handler is Some,
            notify == is_awaited(old(self).commit_data@, sha),
            final(self).commit_data@ == old(self).commit_data@.insert(
                sha,
                CommitDataState::Loaded(data),
            ),
    {
        let ghost before = self.commit_data@;
        let mut notify: bool = false;
        if let Some(handler) = self.handler.take() {
            let mut handler: CommitDataHandler = handler;
            let ghost pending = handler.pending_requests@;
            let ghost senders = handler.completion_senders@;
            assert(pending.contains_key(sha) <==> is_loading(before, sha));
            let removed = handler.pending_requests.remove(&sha);
            notify = handler.completion_senders.remove(&sha).is_some();
            self.commit_data.insert(sha, CommitDataState::Loaded(data));
            proof {
                let after = self.commit_data@;
                assert forall|other: Oid|
                    (#[trigger] handler.pending_requests@.contains_key(other) <==> is_loading(
                        after,
                        other,
                    )) && (handler.completion_senders@.contains_key(other) <==> is_awaited(
                        after,
                        other,
                    )) by {
                    assert(pending.contains_key(other) <==> is_loading(before, other));
                }
            }
            self.handler = Some(handler);
        }
        notify
    }

    /// The data that has come, with the commits that it is of.
    pub fn loaded_commit_data_for_test(&self) -> (result: Vec<(Oid, &D)>)
        ensures
            forall|i: int|
                0 <= i < result@.len() ==> loaded(self.commit_data@).contains_key(
                    (#[trigger] result@[i]).0,
                ) && loaded(self.commit_data@)[result@[i].0] == *result@[i].1,
            forall|sha: Oid| #[trigger]
                loaded(self.commit_data@).contains_key(sha) ==> exists|i: int|
                    0 <= i < result@.len() && (#[trigger] result@[i]).0 == sha,
    {
        let mut result: Vec<(Oid, &D)> = Vec::new();
        let ghost entries = self.commit_data.entries@;
        let mut i: usize = 0;
        while i < self.commit_data.entries.len()
            invariant
                i <= self.commit_data.entries@.len(),
                entries == self.commit_data.entries@,
                forall|k: int|
                    0 <= k < result@.len() ==> loaded(self.commit_data@).contains_key(
                        (#[trigger] result@[k]).0,
                    ) && loaded(self.commit_data@)[result@[k].0] == *result@[k].1,
                forall|j: int|
                    0 <= j < i && loaded(self.commit_data@).contains_key(
                        (#[trigger] entries[j]).0,
                    ) ==> exists|k: int|
                        0 <= k < result@.len() && (#[trigger] result@[k]).0 == entries[j].0,
            decreases self.commit_data.entries@.len() - i,
        {
            let ghost before = result@;
            let sha: Oid = self.commit_data.entries[i].0;
            if let Some(CommitDataState::Loaded(data)) = self.commit_data.get(&sha) {
                result.push((sha, data));
                assert(result@[before.len() as int].0 == sha);
            }
            proof {
                assert forall|j: int|
                    0 <= j < i + 1 && loaded(self.commit_data@).contains_key(
                        (#[trigger] entries[j]).0,
                    ) implies exists|k: int|
                    0 <= k < result@.len() && (#[trigger] result@[k]).0 == entries[j].0 by {
                    if j < i {
                        let k = choose|k: int|
                            0 <= k < before.len() && (#[trigger] before[k]).0 == entries[j].0;
                        assert(result@[k].0 == entries[j].0);
                    }
                }
            }
            i += 1;
        }
        proof {
            assert forall|sha: Oid| #[trigger]
                loaded(self.commit_data@).contains_key(sha) implies exists|i: int|
                0 <= i < result@.len() && (#[trigger] result@[i]).0 == sha by {
                let j = crate::list_map::lookup_finds_entry(entries, sha);
                assert(entries[j].0 == sha);
            }
        }
        result
    }

    /// The handler closed: what it has not delivered is as unknown as before it was
    /// asked for.
    pub fn close_handler(&mut self)
        requires
            old(self).well_formed(),
        ensures
            final(self).well_formed(),
            final(self).handler is None,
            forall|sha: Oid| #[trigger]
                final(self).commit_data@.contains_key(sha) <==> old(
                    self,
                ).commit_data@.contains_key(sha) && !is_loading(old(self).commit_data@, sha),
            forall|sha: Oid| #[trigger]
                final(self).commit_data@.contains_key(sha) ==> final(self).commit_data@[sha] == old(
                    self,
                ).commit_data@[sha],
    {
        let ghost before = self.commit_data@;
        if let Some(handler) = self.handler.take() {
            let ghost entries = handler.pending_requests.entries@;
            let mut i: usize = 0;
            while i < handler.pending_requests.entries.len()
                invariant
                    i <= handler.pending_requests.entries@.len(),
                    entries == handler.pending_requests.entries@,
                    before == old(self).commit_data@,
                    self.handler is None,
                    forall|sha: Oid|
                        (#[trigger] handler.pending_requests@.contains_key(sha) <==> is_loading(
                            before,
                            sha,
                        )),
                    forall|sha: Oid| #[trigger]
                        self.commit_data@.contains_key(sha) <==> before.contains_key(sha)
                            && !listed(entries.take(i as int), sha),
                    forall|sha: Oid| #[trigger]
                        self.commit_data@.contains_key(sha) ==> self.commit_data@[sha]
                            == before[sha],
                decreases handler.pending_requests.entries@.len() - i,
            {
                let sha: Oid = handler.pending_requests.entries[i].0;
                let removed = self.commit_data.remove(&sha);
                proof {
                    let seen = entries.take(i as int);
                    let next = entries.take(i + 1);
                    assert forall|other: Oid| #[trigger] listed(next, other) <==> listed(
                        seen,
                        other,
                    ) || other == sha by {
                        if listed(seen, other) {
                            let k = choose|k: int|
                                0 <= k < seen.len() && (#[trigger] seen[k]).0 == other;
                            assert(next[k].0 == other);
                        }
                        if listed(next, other) {
                            let k = choose|k: int|
                                0 <= k < next.len() && (#[trigger] next[k]).0 == other;
                            if k < i {
                                assert(seen[k].0 == other);
                            }
                        }
                        assert(next[i as int].0 == sha);
                    }
                }
                i += 1;
            }
            proof {
                assert(entries.take(i as int) =~= entries);
                assert forall|sha: Oid| #[trigger] listed(entries, sha) <==> is_loading(
                    before,
                    sha,
                ) by {
                    lemma_listed(entries, sha);
                    assert(handler.pending_requests@.contains_key(sha) <==> is_loading(
                        before,
                        sha,
                    ));
                }
                assert forall|sha: Oid| !#[trigger] is_loading(self.commit_data@, sha) by {
                    if is_loading(self.commit_data@, sha) {
                        assert(self.commit_data@.contains_key(sha));
                        assert(!listed(entries, sha));
                    }
                }
            }
        } else {
            assert forall|sha: Oid| !#[trigger] is_loading(before, sha) by {
                assert(!is_loading(old(self).commit_data@, sha));
            }
        }
    }
}

spec fn listed(entries: Seq<(Oid, ())>, sha: Oid) -> bool {
    exists|i: int| 0 <= i < entries.len() && (#[trigger] entries[i]).0 == sha
}

proof fn lemma_listed(entries: Seq<(Oid, ())>, sha: Oid)
    ensures
        listed(entries, sha) <==> crate::list_map::lookup(entries, sha) is Some,
    decreases entries.len(),
{
    if entries.len() > 0 {
        let before = entries.drop_last();
        lemma_listed(before, sha);
        if listed(before, sha) {
            let i = choose|i: int| 0 <= i < before.len() && (#[trigger] before[i]).0 == sha;
            assert(entries[i].0 == sha);
        }
        if listed(entries, sha) && entries.last().0 != sha {
            let i = choose|i: int| 0 <= i < entries.len() && (#[trigger] entries[i]).0 == sha;
            assert(before[i].0 == sha);
        }
        assert(entries[entries.len() - 1] == entries.last());
    }
}

/// Data that was loaded stays loaded, whatever is asked for afterwards, and so does
/// what is being loaded until it comes or the handler closes.
pub proof fn fetch_keeps_what_is_known<D>(
    before: Map<Oid, CommitDataState<D>>,
    sha: Oid,
    await_result: bool,
    accepts_requests: bool,
    other: Oid,
)
    requires
        before.contains_key(other),
    ensures
        before[other] is Loaded ==> after_fetch(
            before,
            sha,
            await_result,
            accepts_requests,
        ).contains_key(other) && after_fetch(before, sha, await_result, accepts_requests)[other]
            == before[other],
        is_loading(before, other) ==> is_loading(
            after_fetch(before, sha, await_result, accepts_requests),
            other,
        ),
{
}

/// What happens to commit data while the handler is open.
pub ghost enum CommitStep<D> {
    /// A commit was asked for.
    Requested { sha: Oid, awaited: bool },
    /// The data of a commit that is being loaded has come.
    Received { sha: Oid, data: D },
}

/// What is known of commits after some steps, where nothing was known before.
pub open spec fn after_steps<D>(steps: Seq<CommitStep<D>>) -> Map<Oid, CommitDataState<D>>
    decreases steps.len(),
{
    if steps.len() == 0 {
        Map::empty()
    } else {
        let before = after_steps(steps.drop_last());
        match steps.last() {
            CommitStep::Requested { sha, awaited } => after_fetch(before, sha, awaited, true),
            CommitStep::Received { sha, data } => if is_loading(before, sha) {
                before.insert(sha, CommitDataState::Loaded(data))
            } else {
                before
            },
        }
    }
}

/// Some step asked for the commit.
pub open spec fn is_requested<D>(steps: Seq<CommitStep<D>>, sha: Oid) -> bool {
    exists|i: int|
        0 <= i < steps.len() && (#[trigger] steps[i] matches CommitStep::Requested {
            sha: requested,
            ..
        } && requested == sha)
}

/// Everything that comes is what can be read.
pub open spec fn are_reads<D>(steps: Seq<CommitStep<D>>, readable: Map<Oid, D>) -> bool {
    forall|i: int|
        0 <= i < steps.len() ==> (#[trigger] steps[i] matches CommitStep::Received { sha, data }
            ==> readable.contains_key(sha) && data == readable[sha])
}

proof fn lemma_steps<D>(steps: Seq<CommitStep<D>>, readable: Map<Oid, D>, sha: Oid)
    requires
        are_reads(steps, readable),
    ensures
        after_steps(steps).contains_key(sha) <==> is_requested(steps, sha),
        loaded(after_steps(steps)).contains_key(sha) ==> readable.contains_key(sha) && loaded(
            after_steps(steps),
        )[sha] == readable[sha],
    decreases steps.len(),
{
    if steps.len() > 0 {
        let earlier = steps.drop_last();
        assert forall|i: int| 0 <= i < earlier.len() implies (#[trigger] earlier[i] matches
            CommitStep::Received { sha, data } ==> readable.contains_key(sha) && data
            == readable[sha]) by {
            assert(earlier[i] == steps[i]);
        }
        lemma_steps(earlier, readable, sha);
        assert(steps[steps.len() - 1] == steps.last());
        if is_requested(earlier, sha) {
            let i = choose|i: int|
                0 <= i < earlier.len() && (#[trigger] earlier[i] matches CommitStep::Requested {
                    sha: requested,
                    ..
                } && requested == sha);
            assert(steps[i] == earlier[i]);
        }
        if is_requested(steps, sha) {
            let i = choose|i: int|
                0 <= i < steps.len() && (#[trigger] steps[i] matches CommitStep::Requested {
                    sha: requested,
                    ..
                } && requested == sha);
            if i < earlier.len() {
                assert(earlier[i] == steps[i]);
            }
        }
    }
}

/// Whatever is asked for, in whatever order: once everything that can be read has come, exactly
/// the commits that were asked for and can be read are loaded, each with what was read.
pub proof fn drained_reads_load_what_is_readable<D>(
    steps: Seq<CommitStep<D>>,
    readable: Map<Oid, D>,
)
    requires
        are_reads(steps, readable),
        forall|sha: Oid| #[trigger]
            is_loading(after_steps(steps), sha) ==> !readable.contains_key(sha),
    ensures
        forall|sha: Oid| #[trigger]
            loaded(after_steps(steps)).contains_key(sha) <==> is_requested(steps, sha)
                && readable.contains_key(sha),
        forall|sha: Oid| #[trigger]
            loaded(after_steps(steps)).contains_key(sha) ==> loaded(after_steps(steps))[sha]
                == readable[sha],
{
    assert forall|sha: Oid|
        (#[trigger] loaded(after_steps(steps)).contains_key(sha) <==> is_requested(steps, sha)
            && readable.contains_key(sha)) && (loaded(after_steps(steps)).contains_key(sha)
            ==> loaded(after_steps(steps))[sha] == readable[sha]) by {
        lemma_steps(steps, readable, sha);
        assert(is_loading(after_steps(steps), sha) ==> !readable.contains_key(sha));
    }
}

/// How long the reader waits for a request while it reads nothing, in seconds.
pub const READER_IDLE_TIMEOUT: u64 = 10;

/// What happens to the reader of commit data.
#[derive(Clone, Copy, Debug, PartialEq, Eq, Structural)]
pub enum ReaderEvent {
    /// A commit is asked for.
    Request(Oid),
    /// A commit was read, or could not be.
    Read { sha: Oid, ok: bool },
    /// Nobody takes what was read any more.
    ResultsRefused,
    /// Nothing was asked for in a while.
    TimedOut,
}

/// What the reader does next.
#[derive(Clone, Copy, Debug, PartialEq, Eq, Structural)]
pub enum ReaderAction {
    StartReading(Oid),
    Deliver(Oid),
    Wait,
    Stop,
}

/// The commits that are being read.
#[derive(Debug)]
pub struct CommitDataReader {
    pub reading: Vec<Oid>,
}

/// The commits without the first occurrence of one of them.
pub open spec fn without(reading: Seq<Oid>, sha: Oid) -> Seq<Oid>
    decreases reading.len(),
{
    if reading.len() == 0 {
        reading
    } else if reading[0] == sha {
        reading.skip(1)
    } else {
        seq![reading[0]] + without(reading.skip(1), sha)
    }
}

impl CommitDataReader {
    pub fn new() -> (reader: Self)
        ensures
            reader.reading@.len() == 0,
    {
        CommitDataReader { reading: Vec::new() }
    }

    /// Whether the reader waits for requests only so long: while it reads nothing.
    pub fn times_out(&self) -> (result: bool)
        ensures
            result == (self.reading@.len() == 0),
    {
        self.reading.len() == 0
    }

    /// Reads what is asked for, all at a time, and delivers what could be read. It stops when
    /// nobody takes the results, or when nothing is asked for while it reads nothing.
    pub fn local_commit_data_reader(&mut self, event: ReaderEvent) -> (action: ReaderAction)
        ensures
            action == (match event {
                ReaderEvent::Request(sha) => ReaderAction::StartReading(sha),
                ReaderEvent::Read { sha, ok } => if ok {
                    ReaderAction::Deliver(sha)
                } else {
                    ReaderAction::Wait
                },
                ReaderEvent::ResultsRefused => ReaderAction::Stop,
                ReaderEvent::TimedOut => if old(self).reading@.len() == 0 {
                    ReaderAction::Stop
                } else {
                    ReaderAction::Wait
                },
            }),
            final(self).reading@ == (match event {
                ReaderEvent::Request(sha) => old(self).reading@.push(sha),
                ReaderEvent::Read { sha, .. } => without(old(self).reading@, sha),
                _ => old(self).reading@,
            }),
    {
        match event {
            ReaderEvent::Request(sha) => {
                self.reading.push(sha);
                ReaderAction::StartReading(sha)
            },
            ReaderEvent::Read { sha, ok } => {
                let mut rest: Vec<Oid> = Vec::new();
                core::mem::swap(&mut rest, &mut self.reading);
                self.reading = drop_first(rest, sha);
                if ok {
                    ReaderAction::Deliver(sha)
                } else {
                    ReaderAction::Wait
                }
            },
            ReaderEvent::ResultsRefused => ReaderAction::Stop,
            ReaderEvent::TimedOut => {
                if self.reading.len() == 0 {
                    ReaderAction::Stop
                } else {
                    ReaderAction::Wait
                }
            },
        }
    }
}

proof fn lemma_without(reading: Seq<Oid>, sha: Oid, at: int)
    requires
        0 <= at <= reading.len(),
        forall|i: int| 0 <= i < at ==> reading[i] != sha,
        at < reading.len() ==> reading[at] == sha,
    ensures
        without(reading, sha) == (if at < reading.len() {
            reading.remove(at)
        } else {
            reading
        }),
    decreases reading.len(),
{
    if reading.len() > 0 {
        if at == 0 {
            assert(reading.skip(1) =~= reading.remove(0));
        } else {
            assert(reading[0] != sha);
            lemma_without(reading.skip(1), sha, at - 1);
            if at < reading.len() {
                assert(seq![reading[0]] + reading.skip(1).remove(at - 1) =~= reading.remove(at));
            } else {
                assert(seq![reading[0]] + reading.skip(1) =~= reading);
            }
        }
    }
}

/// Drops the first occurrence of a commit.
fn drop_first(reading: Vec<Oid>, sha: Oid) -> (rest: Vec<Oid>)
    ensures
        rest@ == without(reading@, sha),
{
    let mut rest: Vec<Oid> = reading;
    let mut at: usize = 0;
    while at < rest.len() && rest[at] != sha
        invariant
            rest@ == reading@,
            at <= rest@.len(),
            forall|i: int| 0 <= i < at ==> reading@[i] != sha,
        ensures
            rest@ == reading@,
            at <= rest@.len(),
            forall|i: int| 0 <= i < at ==> reading@[i] != sha,
            at < rest@.len() ==> reading@[at as int] == sha,
        decreases rest@.len() - at,
    {
        at += 1;
    }
    proof {
        lemma_without(reading@, sha, at as int);
    }
    if at < rest.len() {
        let _ = rest.remove(at);
    }
    rest
}

/// What was asked for is read once: when it has been read, nothing of the request is left.
pub proof fn reading_a_request_ends_it(reading: Seq<Oid>, sha: Oid)
    requires
        !reading.contains(sha),
    ensures
        without(reading.push(sha), sha) == reading,
{
    let all = reading.push(sha);
    assert forall|i: int| 0 <= i < reading.len() implies all[i] != sha by {
        assert(reading.contains(reading[i]));
    }
    lemma_without(all, sha, reading.len() as int);
    assert(all.remove(reading.len() as int) =~= reading);
}

/// A commit that is not known is asked for once: its request is sent, a handler is opened where
/// there is none, and from then on it is being loaded. What is known is not asked for again.
pub proof fn unknown_commits_are_asked_for_once<D>(
    store: &mut CommitDataStore<D>,
    sha: Oid,
    await_result: bool,
    outcome: FetchOutcome,
    other: Oid,
)
    requires
        call_ensures(
            CommitDataStore::<D>::fetch_commit_data,
            (store, sha, await_result, true),
            outcome,
        ),
        other != sha,
    ensures
        !old(store).commit_data@.contains_key(sha) ==> {
            &&& outcome.send_request
            &&& !outcome.is_loaded
            &&& (outcome.open_handler <==> old(store).handler is None)
            &&& final(store).commit_data@.contains_key(sha)
            &&& final(store).commit_data@[sha] matches CommitDataState::Loading { awaited }
                && awaited == await_result
        },
        old(store).commit_data@.contains_key(sha) ==> {
            &&& !outcome.send_request
            &&& !outcome.open_handler
            &&& (outcome.is_loaded <==> old(store).commit_data@[sha] is Loaded)
            &&& (old(store).commit_data@[sha] is Loaded ==> final(store).commit_data@[sha] == old(store).commit_data@[sha])
            &&& (old(store).commit_data@[sha] matches CommitDataState::Loading { awaited } ==> (
            final(store).commit_data@[sha] matches CommitDataState::Loading { awaited: now } && now
                == (awaited || await_result)))
        },
        final(store).commit_data@.contains_key(other) <==> old(store).commit_data@.contains_key(
            other,
        ),
        final(store).commit_data@.contains_key(other) ==> final(store).commit_data@[other] == old(store).commit_data@[other],
{
}

/// Where the handler takes no requests, an unknown commit stays unknown and no request is sent.
pub proof fn refused_requests_change_nothing<D>(
    store: &mut CommitDataStore<D>,
    sha: Oid,
    await_result: bool,
    outcome: FetchOutcome,
)
    requires
        call_ensures(
            CommitDataStore::<D>::fetch_commit_data,
            (store, sha, await_result, false),
            outcome,
        ),
        !old(store).commit_data@.contains_key(sha),
    ensures
        !outcome.send_request,
        !outcome.is_loaded,
        final(store).commit_data@ == old(store).commit_data@,
{
}

/// Data that came is kept as it came, and whoever waits for it is told. Other commits stay as they
/// were.
pub proof fn received_data_is_kept<D>(
    store: &mut CommitDataStore<D>,
    sha: Oid,
    data: D,
    notify: bool,
    other: Oid,
)
    requires
        call_ensures(CommitDataStore::<D>::commit_data_received, (store, sha, data), notify),
        other != sha,
    ensures
        final(store).commit_data@.contains_key(sha),
        final(store).commit_data@[sha] matches CommitDataState::Loaded(kept) && kept == data,
        old(store).commit_data@.contains_key(sha) ==> (old(store).commit_data@[sha]
            matches CommitDataState::Loading { awaited } ==> notify == awaited),
        final(store).commit_data@.contains_key(other) <==> old(store).commit_data@.contains_key(
            other,
        ),
        final(store).commit_data@.contains_key(other) ==> final(store).commit_data@[other] == old(store).commit_data@[other],
{
}

/// When the handler closes, what was loaded stays and what was being loaded is forgotten.
pub proof fn closing_forgets_what_was_loading<D>(store: &mut CommitDataStore<D>, sha: Oid)
    requires
        call_ensures(CommitDataStore::<D>::close_handler, (store,), ()),
    ensures
        final(store).handler is None,
        old(store).commit_data@.contains_key(sha) && old(store).commit_data@[sha] is Loaded
            ==> final(store).commit_data@.contains_key(sha) && final(store).commit_data@[sha]
            == old(store).commit_data@[sha],
        old(store).commit_data@.contains_key(sha) && old(store).commit_data@[sha] is Loading
            ==> !final(store).commit_data@.contains_key(sha),
        !old(store).commit_data@.contains_key(sha) ==> !final(store).commit_data@.contains_key(sha),
{
}

proof fn lemma_one_less(reading: Seq<Oid>, sha: Oid)
    ensures
        without(reading, sha).to_multiset() == reading.to_multiset().remove(sha),
        reading.contains(sha) ==> without(reading, sha).len() == reading.len() - 1,
        !reading.contains(sha) ==> without(reading, sha) == reading,
    decreases reading.len(),
{
    reading.to_multiset_ensures();
    if reading.len() == 0 {
        assert(reading.to_multiset().remove(sha) =~= reading.to_multiset());
    } else {
        let rest = reading.skip(1);
        assert(reading =~= seq![reading[0]] + rest);
        assert(seq![reading[0]].to_multiset() =~= vstd::multiset::Multiset::singleton(reading[0]))
            by {
            let empty = Seq::<Oid>::empty();
            empty.to_multiset_ensures();
            assert(seq![reading[0]] =~= empty.push(reading[0]));
            assert(empty.to_multiset() =~= vstd::multiset::Multiset::empty());
        }
        vstd::seq_lib::lemma_multiset_commutative(seq![reading[0]], rest);
        if reading[0] == sha {
            assert(reading.contains(reading[0]));
            assert(reading.to_multiset().remove(sha) =~= rest.to_multiset());
        } else {
            lemma_one_less(rest, sha);
            let left = without(rest, sha);
            vstd::seq_lib::lemma_multiset_commutative(seq![reading[0]], left);
            assert(without(reading, sha).to_multiset() =~= reading.to_multiset().remove(sha));
            if reading.contains(sha) {
                let k = choose|k: int| 0 <= k < reading.len() && reading[k] == sha;
                assert(rest[k - 1] == sha);
            } else {
                assert(!rest.contains(sha)) by {
                    if rest.contains(sha) {
                        let k = choose|k: int| 0 <= k < rest.len() && rest[k] == sha;
                        assert(reading[k + 1] == sha);
                    }
                }
                assert(seq![reading[0]] + rest =~= reading);
            }
        }
    }
}

/// A reader reads what is asked for, and delivers what it could read. What was read is not being
/// read any more, whether it could be or not. It stops when nobody takes its results, or when
/// nothing is asked for while it reads nothing.
pub proof fn readers_deliver_what_they_read(
    asked: &mut CommitDataReader,
    good: &mut CommitDataReader,
    bad: &mut CommitDataReader,
    refused: &mut CommitDataReader,
    idle: &mut CommitDataReader,
    sha: Oid,
    to_asked: ReaderAction,
    to_good: ReaderAction,
    to_bad: ReaderAction,
    to_refused: ReaderAction,
    to_idle: ReaderAction,
)
    requires
        call_ensures(
            CommitDataReader::local_commit_data_reader,
            (asked, ReaderEvent::Request(sha)),
            to_asked,
        ),
        call_ensures(
            CommitDataReader::local_commit_data_reader,
            (good, ReaderEvent::Read { sha, ok: true }),
            to_good,
        ),
        call_ensures(
            CommitDataReader::local_commit_data_reader,
            (bad, ReaderEvent::Read { sha, ok: false }),
            to_bad,
        ),
        call_ensures(
            CommitDataReader::local_commit_data_reader,
            (refused, ReaderEvent::ResultsRefused),
            to_refused,
        ),
        call_ensures(
            CommitDataReader::local_commit_data_reader,
            (idle, ReaderEvent::TimedOut),
            to_idle,
        ),
    ensures
        to_asked == ReaderAction::StartReading(sha),
        final(asked).reading@ == old(asked).reading@.push(sha),
        to_good == ReaderAction::Deliver(sha),
        final(good).reading@.to_multiset() == old(good).reading@.to_multiset().remove(sha),
        to_bad is Wait,
        final(bad).reading@.to_multiset() == old(bad).reading@.to_multiset().remove(sha),
        to_refused is Stop,
        to_idle is Stop <==> old(idle).reading@.len() == 0,
        to_idle is Stop || to_idle is Wait,
        final(idle).reading@ == old(idle).reading@,
{
    lemma_one_less(old(good).reading@, sha);
    lemma_one_less(old(bad).reading@, sha);
}

} // verus!
