//! The commit graph of a repository as it is loaded.
use vstd::prelude::*;

use crate::git_store::wire::Oid;
use crate::git_store::GitGraphEvent;
use crate::list_map::ListMap;

verus! {

/// The commits of a graph in log order.
#[derive(Debug)]
pub struct InitialGitGraphData {
    pub commit_data: Vec<Oid>,
    pub commit_oid_to_index: ListMap<Oid, usize>,
    pub error: Option<String>,
    pub is_loading: bool,
}

/// The part of a graph that was asked for.
#[derive(Debug)]
pub struct GraphDataResponse {
    pub commits: Vec<Oid>,
    pub is_loading: bool,
    pub error: Option<String>,
}

/// The first position that can be asked for: the last commit, or zero.
pub open spec fn clamp_start(len: nat, start: usize) -> int {
    let max = if len == 0 {
        0
    } else {
        len - 1
    };
    if start < max {
        start as int
    } else {
        max as int
    }
}

pub open spec fn clamp_end(len: nat, end: usize) -> int {
    if end < len {
        end as int
    } else {
        len as int
    }
}

impl InitialGitGraphData {
    /// The index finds the last position of each commit, and nothing else.
    pub open spec fn well_formed(&self) -> bool {
        &&& forall|sha: Oid| #[trigger]
            self.commit_oid_to_index@.contains_key(sha) <==> self.commit_data@.contains(sha)
        &&& forall|sha: Oid| #[trigger]
            self.commit_oid_to_index@.contains_key(sha) ==> {
                let i = self.commit_oid_to_index@[sha] as int;
                &&& 0 <= i < self.commit_data@.len()
                &&& self.commit_data@[i] == sha
                &&& forall|j: int| i < j < self.commit_data@.len() ==> self.commit_data@[j] != sha
            }
    }

    /// A graph that has just begun to load.
    pub fn new() -> (data: Self)
        ensures
            data.well_formed(),
            data.commit_data@.len() == 0,
            data.error is None,
            data.is_loading,
    {
        InitialGitGraphData {
            commit_data: Vec::new(),
            commit_oid_to_index: ListMap::new(),
            error: None,
            is_loading: true,
        }
    }

    /// Appends commits that have been loaded, and says how many there are now.
    pub fn append_initial_graph_commits(&mut self, commits: &Vec<Oid>) -> (event: GitGraphEvent)
        requires
            old(self).well_formed(),
        ensures
            final(self).well_formed(),
            final(self).commit_data@ == old(self).commit_data@ + commits@,
            final(self).error == old(self).error,
            final(self).is_loading == old(self).is_loading,
            event == GitGraphEvent::CountUpdated(final(self).commit_data@.len() as usize),
    {
        let mut i: usize = 0;
        assert(old(self).commit_data@ + commits@.take(0) =~= old(self).commit_data@);
        while i < commits.len()
            invariant
                i <= commits@.len(),
                self.well_formed(),
                self.commit_data@ == old(self).commit_data@ + commits@.take(i as int),
                self.error == old(self).error,
                self.is_loading == old(self).is_loading,
            decreases commits@.len() - i,
        {
            let sha: Oid = commits[i];
            let ghost data = self.commit_data@;
            let ghost index = self.commit_oid_to_index@;
            self.commit_oid_to_index.insert(sha, self.commit_data.len());
            self.commit_data.push(sha);
            proof {
                let after = self.commit_data@;
                assert(commits@.take(i + 1) =~= commits@.take(i as int).push(sha));
                assert(after =~= old(self).commit_data@ + commits@.take(i + 1));
                assert forall|other: Oid| #[trigger]
                    self.commit_oid_to_index@.contains_key(other) <==> after.contains(other) by {
                    assert(after[data.len() as int] == sha);
                    if data.contains(other) {
                        let k = choose|k: int| 0 <= k < data.len() && data[k] == other;
                        assert(after[k] == other);
                    }
                    if after.contains(other) {
                        let k = choose|k: int| 0 <= k < after.len() && after[k] == other;
                        if k < data.len() {
                            assert(data[k] == other);
                        }
                    }
                    assert(index.contains_key(other) <==> data.contains(other));
                }
                assert forall|other: Oid| #[trigger]
                    self.commit_oid_to_index@.contains_key(other) implies {
                    let i = self.commit_oid_to_index@[other] as int;
                    &&& 0 <= i < after.len()
                    &&& after[i] == other
                    &&& forall|j: int| i < j < after.len() ==> after[j] != other
                } by {
                    if other != sha {
                        assert(index.contains_key(other));
                    }
                }
            }
            i += 1;
        }
        assert(commits@.take(i as int) =~= commits@);
        GitGraphEvent::CountUpdated(self.commit_data.len())
    }

    /// The loading ended, in full or with an error.
    pub fn loading_finished(&mut self, error: Option<String>) -> (event: GitGraphEvent)
        ensures
            *final(self) == (InitialGitGraphData {
                is_loading: false,
                error: match error {
                    Some(_) => error,
                    None => old(self).error,
                },
                ..*old(self)
            }),
            event == (match error {
                Some(_) => GitGraphEvent::LoadingError,
                None => GitGraphEvent::FullyLoaded,
            }),
    {
        self.is_loading = false;
        match error {
            Some(error) => {
                self.error = Some(error);
                GitGraphEvent::LoadingError
            },
            None => GitGraphEvent::FullyLoaded,
        }
    }

    /// The commits in a range, as far as they have been loaded. A range that starts
    /// behind the last commit starts at it.
    pub fn graph_data(&self, start: usize, end: usize) -> (response: GraphDataResponse)
        requires
            clamp_start(self.commit_data@.len(), start) <= clamp_end(
                self.commit_data@.len(),
                end,
            ),
        ensures
            response.commits@ == self.commit_data@.subrange(
                clamp_start(self.commit_data@.len(), start),
                clamp_end(self.commit_data@.len(), end),
            ),
            response.is_loading == self.is_loading,
            response.error == self.error,
    {
        let len: usize = self.commit_data.len();
        let max_start: usize = if len == 0 {
            0
        } else {
            len - 1
        };
        let from: usize = if start < max_start {
            start
        } else {
            max_start
        };
        let to: usize = if end < len {
            end
        } else {
            len
        };
        let mut commits: Vec<Oid> = Vec::new();
        let mut i: usize = from;
        while i < to
            invariant
                from <= i <= to <= self.commit_data@.len(),
                commits@ == self.commit_data@.subrange(from as int, i as int),
            decreases to - i,
        {
            commits.push(self.commit_data[i]);
            i += 1;
            assert(commits@ =~= self.commit_data@.subrange(from as int, i as int));
        }
        GraphDataResponse {
            commits,
            is_loading: self.is_loading,
            error: match &self.error {
                Some(error) => Some(error.clone()),
                None => None,
            },
        }
    }
}

/// Changes of a repository that concern its graphs.
#[derive(Clone, Copy, Debug, PartialEq, Eq, Structural)]
pub enum GraphChange {
    HeadChanged,
    BranchListChanged,
    StashEntriesChanged,
    Other,
}

/// Whether a graph is still good after a change. Until the first snapshot is complete
/// no change counts; after that a new head or branch list outdates all graphs, and
/// new stashes outdate those of all references.
pub fn graph_survives(change: GraphChange, scan_id: u64, is_graph_of_all: bool) -> (survives: bool)
    ensures
        survives == (match change {
            GraphChange::HeadChanged | GraphChange::BranchListChanged => scan_id <= 2,
            GraphChange::StashEntriesChanged => scan_id <= 2 || !is_graph_of_all,
            GraphChange::Other => true,
        }),
{
    match change {
        GraphChange::HeadChanged | GraphChange::BranchListChanged => scan_id <= 2,
        GraphChange::StashEntriesChanged => scan_id <= 2 || !is_graph_of_all,
        GraphChange::Other => true,
    }
}

/// Commits that are loaded stand behind those that were, in their order, and can be asked for from
/// then on. How many there are is told.
pub proof fn loaded_commits_are_appended(
    data: &mut InitialGitGraphData,
    commits: Vec<Oid>,
    event: GitGraphEvent,
    i: int,
)
    requires
        call_ensures(InitialGitGraphData::append_initial_graph_commits, (data, &commits), event),
        old(data).commit_data@.len() + commits@.len() <= usize::MAX,
    ensures
        final(data).commit_data@.len() == old(data).commit_data@.len() + commits@.len(),
        0 <= i < old(data).commit_data@.len() ==> final(data).commit_data@[i]
            == old(data).commit_data@[i],
        0 <= i < commits@.len() ==> final(data).commit_data@[old(data).commit_data@.len() + i]
            == commits@[i],
        event matches GitGraphEvent::CountUpdated(count) && count == final(data).commit_data@.len(),
        final(data).is_loading == old(data).is_loading,
        final(data).error == old(data).error,
        0 <= i < commits@.len() ==> final(data).commit_oid_to_index@.contains_key(commits@[i])
            && final(data).commit_data@[final(data).commit_oid_to_index@[commits@[i]] as int]
            == commits@[i],
{
    if 0 <= i < commits@.len() {
        let at = old(data).commit_data@.len() + i;
        assert(final(data).commit_data@[at] == commits@[i]);
        assert(final(data).commit_data@.contains(commits@[i]));
        assert(final(data).well_formed());
        assert(final(data).commit_oid_to_index@.contains_key(commits@[i]));
    }
}

/// When the loading ends, no more is awaited. An error is told and kept, and an earlier error is
/// not forgotten. What was loaded stays.
pub proof fn loading_ends_once(
    good: &mut InitialGitGraphData,
    bad: &mut InitialGitGraphData,
    message: String,
    loaded: GitGraphEvent,
    failed: GitGraphEvent,
)
    requires
        call_ensures(InitialGitGraphData::loading_finished, (good, None::<String>), loaded),
        call_ensures(InitialGitGraphData::loading_finished, (bad, Some(message)), failed),
    ensures
        loaded is FullyLoaded,
        failed is LoadingError,
        !final(good).is_loading,
        !final(bad).is_loading,
        final(good).error == old(good).error,
        final(bad).error == Some(message),
        final(good).commit_data == old(good).commit_data,
        final(bad).commit_data == old(bad).commit_data,
        final(good).commit_oid_to_index == old(good).commit_oid_to_index,
        final(bad).commit_oid_to_index == old(bad).commit_oid_to_index,
{
}

/// A part of a graph is answered with its commits in their order, from the first asked for up to
/// the last that was loaded.
pub proof fn graphs_are_answered_in_parts(
    data: InitialGitGraphData,
    start: usize,
    end: usize,
    response: GraphDataResponse,
    i: int,
)
    requires
        call_ensures(InitialGitGraphData::graph_data, (&data, start, end), response),
        start < data.commit_data@.len(),
        start <= end,
    ensures
        end <= data.commit_data@.len() ==> response.commits@.len() == end - start,
        end > data.commit_data@.len() ==> response.commits@.len() == data.commit_data@.len()
            - start,
        0 <= i < response.commits@.len() ==> response.commits@[i] == data.commit_data@[start + i],
        response.is_loading == data.is_loading,
        response.error == data.error,
{
}

/// Before the first snapshot is complete no graph is given up. After that a new head or a new
/// list of branches ends every graph, new stashes those of all references, and nothing else any.
pub proof fn graphs_end_with_what_they_show(
    change: GraphChange,
    scan_id: u64,
    is_graph_of_all: bool,
    survives: bool,
)
    requires
        call_ensures(graph_survives, (change, scan_id, is_graph_of_all), survives),
    ensures
        scan_id <= 2 ==> survives,
        scan_id > 2 && change is HeadChanged ==> !survives,
        scan_id > 2 && change is BranchListChanged ==> !survives,
        scan_id > 2 && change is StashEntriesChanged ==> survives == !is_graph_of_all,
        change is Other ==> survives,
{
}

} // verus!
