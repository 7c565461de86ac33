//! Which servers are told, before or after, that a file or a folder is renamed.
use globset::GlobMatcher;
use std::collections::BTreeMap;
use vstd::prelude::*;

use crate::globs::{
    compile_matcher, glob_is_valid, glob_matches_alone, is_compilable, matcher_ignores_case,
    matcher_pattern, matches_path,
};
use crate::ids::{ascending, contains_push, map_get, map_keys, map_put};

verus! {

#[derive(Clone, Copy, Debug, PartialEq, Eq, Structural)]
pub enum FileOperationPatternKind {
    File,
    Folder,
}

/// What a server wants to know of, as it states it.
#[derive(Debug)]
pub struct FileOperationFilter {
    pub glob: String,
    /// Files only, or folders only.
    pub kind: Option<FileOperationPatternKind>,
    pub ignore_case: Option<bool>,
}

pub ghost struct PredicateView {
    pub pattern: Seq<char>,
    pub ignores_case: bool,
    pub kind: Option<FileOperationPatternKind>,
}

/// A filter that can be asked.
#[derive(Debug)]
pub struct RenameActionPredicate {
    pub glob: GlobMatcher,
    pub kind: Option<FileOperationPatternKind>,
}

pub open spec fn filter_view(filter: FileOperationFilter) -> PredicateView {
    PredicateView {
        pattern: filter.glob@,
        ignores_case: filter.ignore_case == Some(true),
        kind: filter.kind,
    }
}

/// The pattern is valid.
pub open spec fn is_usable(view: PredicateView) -> bool {
    glob_is_valid(view.pattern, view.ignores_case)
}

/// The predicate asks what the filter states.
pub open spec fn asks(predicate: RenameActionPredicate, view: PredicateView) -> bool {
    &&& predicate.kind == view.kind
    &&& matcher_pattern(predicate.glob) == view.pattern
    &&& matcher_ignores_case(predicate.glob) == view.ignores_case
}

/// The filter speaks of what is renamed: of things of its kind, and its pattern matches
/// the path.
pub open spec fn applies(view: PredicateView, path: Seq<char>, is_dir: bool) -> bool {
    &&& (view.kind matches Some(kind) ==> (kind == FileOperationPatternKind::Folder) == is_dir)
    &&& glob_matches_alone(view.pattern, view.ignores_case, path)
}

/// What is renamed is of the predicate's kind, and its pattern matches the path.
pub open spec fn predicate_applies(
    predicate: RenameActionPredicate,
    path: Seq<char>,
    is_dir: bool,
) -> bool {
    &&& (predicate.kind matches Some(kind) ==> (kind == FileOperationPatternKind::Folder)
        == is_dir)
    &&& glob_matches_alone(
        matcher_pattern(predicate.glob),
        matcher_ignores_case(predicate.glob),
        path,
    )
}

/// Some predicate speaks of what is renamed.
pub open spec fn some_predicate_applies(
    predicates: Seq<RenameActionPredicate>,
    path: Seq<char>,
    is_dir: bool,
) -> bool {
    exists|i: int|
        0 <= i < predicates.len() && predicate_applies(#[trigger] predicates[i], path, is_dir)
}

impl RenameActionPredicate {
    /// Makes a filter that can be asked, if its pattern is valid.
    pub fn from_filter(filter: &FileOperationFilter) -> (predicate: Option<RenameActionPredicate>)
        requires
            is_compilable(filter.glob@),
        ensures
            predicate is Some <==> is_usable(filter_view(*filter)),
            predicate matches Some(predicate) ==> asks(predicate, filter_view(*filter)),
    {
        let ignores_case: bool = match filter.ignore_case {
            Some(ignore) => ignore,
            None => false,
        };
        match compile_matcher(filter.glob.as_str(), ignores_case) {
            Some(glob) => Some(RenameActionPredicate { glob, kind: filter.kind }),
            None => None,
        }
    }

    /// Whether the server is told.
    pub fn eval(&self, path: &str, is_dir: bool) -> (result: bool)
        ensures
            result == predicate_applies(*self, path@, is_dir),
            forall|view: PredicateView| #[trigger]
                asks(*self, view) ==> result == applies(view, path@, is_dir),
    {
        let of_kind: bool = match self.kind {
            None => true,
            Some(FileOperationPatternKind::Folder) => is_dir,
            Some(FileOperationPatternKind::File) => !is_dir,
        };
        of_kind && matches_path(&self.glob, path)
    }
}

/// The filters of a server that can be asked, for renames that happened and for those
/// that are about to.
#[derive(Debug)]
pub struct RenamePathsWatchedForServer {
    pub did_rename: Vec<RenameActionPredicate>,
    pub will_rename: Vec<RenameActionPredicate>,
}

/// The usable ones of some filters, in their order.
pub open spec fn usable(filters: Seq<FileOperationFilter>) -> Seq<PredicateView>
    decreases filters.len(),
{
    if filters.len() == 0 {
        Seq::empty()
    } else if is_usable(filter_view(filters.last())) {
        usable(filters.drop_last()).push(filter_view(filters.last()))
    } else {
        usable(filters.drop_last())
    }
}

pub open spec fn all_ask(
    predicates: Seq<RenameActionPredicate>,
    views: Seq<PredicateView>,
) -> bool {
    &&& predicates.len() == views.len()
    &&& forall|i: int| 0 <= i < views.len() ==> asks(#[trigger] predicates[i], views[i])
}

/// Some filter speaks of what is renamed.
pub open spec fn some_applies(views: Seq<PredicateView>, path: Seq<char>, is_dir: bool) -> bool {
    exists|i: int| 0 <= i < views.len() && applies(#[trigger] views[i], path, is_dir)
}

/// The patterns of the filters are small enough to be matched.
pub open spec fn are_compilable(filters: Option<Vec<FileOperationFilter>>) -> bool {
    filters matches Some(filters) ==> forall|i: int|
        0 <= i < filters@.len() ==> is_compilable((#[trigger] filters@[i]).glob@)
}

fn usable_predicates(filters: &Vec<FileOperationFilter>) -> (predicates: Vec<RenameActionPredicate>)
    requires
        are_compilable(Some(*filters)),
    ensures
        all_ask(predicates@, usable(filters@)),
{
    let mut predicates: Vec<RenameActionPredicate> = Vec::new();
    let mut i: usize = 0;
    while i < filters.len()
        invariant
            i <= filters@.len(),
            are_compilable(Some(*filters)),
            all_ask(predicates@, usable(filters@.take(i as int))),
        decreases filters@.len() - i,
    {
        assert(filters@.take(i + 1).drop_last() =~= filters@.take(i as int));
        assert(filters@.take(i + 1).last() == filters@[i as int]);
        if let Some(predicate) = RenameActionPredicate::from_filter(&filters[i]) {
            predicates.push(predicate);
        }
        i += 1;
    }
    assert(filters@.take(i as int) =~= filters@);
    predicates
}

fn any_applies(predicates: &Vec<RenameActionPredicate>, path: &str, is_dir: bool) -> (result: bool)
    ensures
        result == some_predicate_applies(predicates@, path@, is_dir),
        forall|views: Seq<PredicateView>| #[trigger]
            all_ask(predicates@, views) ==> result == some_applies(views, path@, is_dir),
{
    let mut result: bool = false;
    let mut i: usize = 0;
    while i < predicates.len()
        invariant
            i <= predicates@.len(),
            result == exists|k: int|
                0 <= k < i && predicate_applies(#[trigger] predicates@[k], path@, is_dir),
            forall|views: Seq<PredicateView>| #[trigger]
                all_ask(predicates@, views) ==> result == some_applies(
                    views.take(i as int),
                    path@,
                    is_dir,
                ),
        decreases predicates@.len() - i,
    {
        let ghost before = result;
        let found: bool = predicates[i].eval(path, is_dir);
        if found {
            result = true;
            assert(predicate_applies(predicates@[i as int], path@, is_dir));
        }
        proof {
            assert forall|views: Seq<PredicateView>| #[trigger]
                all_ask(predicates@, views) implies result == some_applies(
                views.take(i + 1),
                path@,
                is_dir,
            ) by {
                assert(asks(predicates@[i as int], views[i as int]));
                let seen = views.take(i as int);
                let next = views.take(i + 1);
                if some_applies(seen, path@, is_dir) {
                    let k = choose|k: int|
                        0 <= k < seen.len() && applies(#[trigger] seen[k], path@, is_dir);
                    assert(applies(next[k], path@, is_dir));
                }
                if some_applies(next, path@, is_dir) {
                    let k = choose|k: int|
                        0 <= k < next.len() && applies(#[trigger] next[k], path@, is_dir);
                    if k < i {
                        assert(applies(seen[k], path@, is_dir));
                    }
                }
                assert(next[i as int] == views[i as int]);
            }
        }
        i += 1;
    }
    proof {
        assert forall|views: Seq<PredicateView>| #[trigger]
            all_ask(predicates@, views) implies result == some_applies(
            views,
            path@,
            is_dir,
        ) by {
            assert(views.take(i as int) =~= views);
        }
    }
    result
}

pub open spec fn usable_of(filters: Option<Vec<FileOperationFilter>>) -> Seq<PredicateView> {
    match filters {
        Some(filters) => usable(filters@),
        None => Seq::empty(),
    }
}

impl RenamePathsWatchedForServer {
    /// The server asks with these filters.
    pub open spec fn asks_with(
        self,
        did_rename: Seq<PredicateView>,
        will_rename: Seq<PredicateView>,
    ) -> bool {
        all_ask(self.did_rename@, did_rename) && all_ask(self.will_rename@, will_rename)
    }

    /// Takes over the filters of a server. One that registered for neither kind of
    /// renames is not entered at all; filters whose patterns are not valid are left out.
    pub fn for_server(
        did_rename: &Option<Vec<FileOperationFilter>>,
        will_rename: &Option<Vec<FileOperationFilter>>,
    ) -> (watched: Option<RenamePathsWatchedForServer>)
        requires
            are_compilable(*did_rename),
            are_compilable(*will_rename),
        ensures
            watched is Some <==> did_rename is Some || will_rename is Some,
            watched matches Some(watched) ==> watched.asks_with(
                usable_of(*did_rename),
                usable_of(*will_rename),
            ),
    {
        if did_rename.is_none() && will_rename.is_none() {
            return None;
        }
        let did: Vec<RenameActionPredicate> = match did_rename {
            Some(filters) => usable_predicates(filters),
            None => Vec::new(),
        };
        let will: Vec<RenameActionPredicate> = match will_rename {
            Some(filters) => usable_predicates(filters),
            None => Vec::new(),
        };
        Some(RenamePathsWatchedForServer { did_rename: did, will_rename: will })
    }

    /// Whether the server is told after something was renamed.
    pub fn should_send_did_rename(&self, path: &str, is_dir: bool) -> (result: bool)
        ensures
            result == some_predicate_applies(self.did_rename@, path@, is_dir),
            forall|views: Seq<PredicateView>| #[trigger]
                all_ask(self.did_rename@, views) ==> result == some_applies(
                    views,
                    path@,
                    is_dir,
                ),
    {
        any_applies(&self.did_rename, path, is_dir)
    }

    /// Whether the server is asked before something is renamed.
    pub fn should_send_will_rename(&self, path: &str, is_dir: bool) -> (result: bool)
        ensures
            result == some_predicate_applies(self.will_rename@, path@, is_dir),
            forall|views: Seq<PredicateView>| #[trigger]
                all_ask(self.will_rename@, views) ==> result == some_applies(
                    views,
                    path@,
                    is_dir,
                ),
    {
        any_applies(&self.will_rename, path, is_dir)
    }
}

/// Whether a rename happened or is about to.
#[derive(Clone, Copy, Debug, PartialEq, Eq, Structural)]
pub enum RenameMoment {
    Did,
    Will,
}

/// The server is entered, and one of its filters speaks of what is renamed.
pub open spec fn wants_rename(
    watched: Map<u64, RenamePathsWatchedForServer>,
    server: u64,
    moment: RenameMoment,
    path: Seq<char>,
    is_dir: bool,
) -> bool {
    watched.contains_key(server) && match moment {
        RenameMoment::Did => some_predicate_applies(watched[server].did_rename@, path, is_dir),
        RenameMoment::Will => some_predicate_applies(watched[server].will_rename@, path, is_dir),
    }
}

/// The servers that are told of a rename, in their order.
pub open spec fn told_of_rename(
    servers: Seq<u64>,
    watched: Map<u64, RenamePathsWatchedForServer>,
    moment: RenameMoment,
    path: Seq<char>,
    is_dir: bool,
) -> Seq<u64>
    decreases servers.len(),
{
    if servers.len() == 0 {
        Seq::empty()
    } else {
        let earlier = told_of_rename(servers.drop_last(), watched, moment, path, is_dir);
        if wants_rename(watched, servers.last(), moment, path, is_dir) {
            earlier.push(servers.last())
        } else {
            earlier
        }
    }
}

/// Picks those of the servers of a worktree that are told after something was renamed, or
/// asked before something is. The old path counts, written as a URI.
pub fn servers_told_of_rename(
    servers: &Vec<u64>,
    watched: &BTreeMap<u64, RenamePathsWatchedForServer>,
    moment: RenameMoment,
    old_uri: &str,
    is_dir: bool,
) -> (told: Vec<u64>)
    ensures
        told@ == told_of_rename(servers@, watched@, moment, old_uri@, is_dir),
{
    let mut told: Vec<u64> = Vec::new();
    let mut i: usize = 0;
    while i < servers.len()
        invariant
            i <= servers@.len(),
            told@ == told_of_rename(
                servers@.take(i as int),
                watched@,
                moment,
                old_uri@,
                is_dir,
            ),
        decreases servers@.len() - i,
    {
        assert(servers@.take(i + 1).drop_last() =~= servers@.take(i as int));
        assert(servers@.take(i + 1).last() == servers@[i as int]);
        if let Some(filter) = map_get(watched, servers[i]) {
            let wanted: bool = match moment {
                RenameMoment::Did => filter.should_send_did_rename(old_uri, is_dir),
                RenameMoment::Will => filter.should_send_will_rename(old_uri, is_dir),
            };
            if wanted {
                told.push(servers[i]);
            }
        }
        i += 1;
    }
    assert(servers@.take(i as int) =~= servers@);
    told
}

/// The transactions of the servers' answers one after the other: in a buffer that several
/// of them edit, the last one counts.
pub open spec fn merged_transactions(answers: Seq<Option<BTreeMap<u64, u64>>>) -> Map<u64, u64>
    decreases answers.len(),
{
    if answers.len() == 0 {
        Map::empty()
    } else {
        let earlier = merged_transactions(answers.drop_last());
        match answers.last() {
            Some(transaction) => earlier.union_prefer_right(transaction@),
            None => earlier,
        }
    }
}

/// Takes over the transactions of an answer, which replace earlier ones of the same buffers.
fn take_over(merged: &mut BTreeMap<u64, u64>, transaction: &BTreeMap<u64, u64>)
    ensures
        final(merged)@ == old(merged)@.union_prefer_right(transaction@),
{
    let keys: Vec<u64> = map_keys(transaction);
    let ghost before = merged@;
    let mut i: usize = 0;
    while i < keys.len()
        invariant
            i <= keys@.len(),
            ascending(keys@),
            forall|k: u64| #[trigger] keys@.contains(k) <==> transaction@.contains_key(k),
            forall|k: u64| #[trigger]
                merged@.contains_key(k) <==> before.contains_key(k) || keys@.take(
                    i as int,
                ).contains(k),
            forall|k: u64| #[trigger]
                merged@.contains_key(k) ==> merged@[k] == (if keys@.take(i as int).contains(k) {
                    transaction@[k]
                } else {
                    before[k]
                }),
        decreases keys@.len() - i,
    {
        let key: u64 = keys[i];
        assert(keys@.contains(keys@[i as int]));
        assert(keys@.take(i + 1) =~= keys@.take(i as int).push(key));
        if let Some(value) = map_get(transaction, key) {
            map_put(merged, key, *value);
        }
        proof {
            assert forall|k: u64|
                #![trigger keys@.take(i + 1).contains(k)]
                keys@.take(i + 1).contains(k) <==> keys@.take(i as int).contains(k) || k
                    == key by {
                contains_push(keys@.take(i as int), key, k);
            }
        }
        i += 1;
    }
    proof {
        assert(keys@.take(i as int) =~= keys@);
        assert(merged@ =~= before.union_prefer_right(transaction@));
    }
}

/// Merges the transactions that servers answered a rename with, in the order of the servers.
pub fn will_rename_entry(answers: Vec<Option<BTreeMap<u64, u64>>>) -> (merged: BTreeMap<u64, u64>)
    ensures
        merged@ == merged_transactions(answers@),
{
    let mut merged: BTreeMap<u64, u64> = BTreeMap::new();
    let mut i: usize = 0;
    while i < answers.len()
        invariant
            i <= answers@.len(),
            merged@ == merged_transactions(answers@.take(i as int)),
        decreases answers@.len() - i,
    {
        assert(answers@.take(i + 1).drop_last() =~= answers@.take(i as int));
        assert(answers@.take(i + 1).last() == answers@[i as int]);
        if let Some(transaction) = &answers[i] {
            take_over(&mut merged, transaction);
        }
        i += 1;
    }
    assert(answers@.take(i as int) =~= answers@);
    merged
}

/// A predicate speaks of files, of folders, or of both, and only of paths that its pattern
/// matches. It is made from a filter whose pattern is valid, with its kind, pattern and case.
pub proof fn predicates_speak_of_their_kind(
    filter: FileOperationFilter,
    predicate: Option<RenameActionPredicate>,
    path: &str,
    of_file: bool,
    of_folder: bool,
)
    requires
        call_ensures(RenameActionPredicate::from_filter, (&filter,), predicate),
        predicate matches Some(made) ==> call_ensures(
            RenameActionPredicate::eval,
            (&made, path, false),
            of_file,
        ) && call_ensures(RenameActionPredicate::eval, (&made, path, true), of_folder),
    ensures
        predicate is Some <==> glob_is_valid(filter.glob@, filter.ignore_case == Some(true)),
        predicate is Some ==> ({
            let matched = glob_matches_alone(
                filter.glob@,
                filter.ignore_case == Some(true),
                path@,
            );
            &&& of_file <==> matched && filter.kind != Some(FileOperationPatternKind::Folder)
            &&& of_folder <==> matched && filter.kind != Some(FileOperationPatternKind::File)
        }),
{
    if let Some(made) = predicate {
        assert(asks(made, filter_view(filter)));
    }
}

/// A server that named no filters of either sort is not entered. What happened is told by the
/// filters for that, and what is about to happen by the others.
pub proof fn servers_ask_with_their_own_filters(
    did_rename: Option<Vec<FileOperationFilter>>,
    will_rename: Option<Vec<FileOperationFilter>>,
    watched: Option<RenamePathsWatchedForServer>,
    path: &str,
    is_dir: bool,
    did: bool,
    will: bool,
)
    requires
        call_ensures(
            RenamePathsWatchedForServer::for_server,
            (&did_rename, &will_rename),
            watched,
        ),
        watched matches Some(made) ==> call_ensures(
            RenamePathsWatchedForServer::should_send_did_rename,
            (&made, path, is_dir),
            did,
        ) && call_ensures(
            RenamePathsWatchedForServer::should_send_will_rename,
            (&made, path, is_dir),
            will,
        ),
    ensures
        watched is Some <==> did_rename is Some || will_rename is Some,
        watched is Some && did_rename is None ==> !did,
        watched is Some && will_rename is None ==> !will,
        watched is Some && did ==> (did_rename matches Some(filters) && exists|i: int|
            0 <= i < filters@.len() && #[trigger] filter_speaks_of(filters@[i], path@, is_dir)),
        watched is Some && will ==> (will_rename matches Some(filters) && exists|i: int|
            0 <= i < filters@.len() && #[trigger] filter_speaks_of(filters@[i], path@, is_dir)),
        watched is Some ==> (did_rename matches Some(filters) ==> (exists|i: int|
            0 <= i < filters@.len() && #[trigger] filter_speaks_of(filters@[i], path@, is_dir))
            ==> did),
        watched is Some ==> (will_rename matches Some(filters) ==> (exists|i: int|
            0 <= i < filters@.len() && #[trigger] filter_speaks_of(filters@[i], path@, is_dir))
            ==> will),
{
    if let Some(made) = watched {
        assert(all_ask(made.did_rename@, usable_of(did_rename)));
        assert(all_ask(made.will_rename@, usable_of(will_rename)));
        if let Some(filters) = did_rename {
            lemma_usable(filters@, path@, is_dir);
        }
        if let Some(filters) = will_rename {
            lemma_usable(filters@, path@, is_dir);
        }
    }
}

/// The pattern of a filter is valid and matches the path, which is that of a thing of its kind.
pub open spec fn filter_speaks_of(filter: FileOperationFilter, path: Seq<char>, is_dir: bool) -> bool {
    &&& glob_is_valid(filter.glob@, filter.ignore_case == Some(true))
    &&& glob_matches_alone(filter.glob@, filter.ignore_case == Some(true), path)
    &&& is_dir ==> filter.kind != Some(FileOperationPatternKind::File)
    &&& !is_dir ==> filter.kind != Some(FileOperationPatternKind::Folder)
}

proof fn lemma_usable(filters: Seq<FileOperationFilter>, path: Seq<char>, is_dir: bool)
    ensures
        some_applies(usable(filters), path, is_dir) <==> exists|i: int|
            0 <= i < filters.len() && #[trigger] filter_speaks_of(filters[i], path, is_dir),
    decreases filters.len(),
{
    if filters.len() > 0 {
        let earlier = filters.drop_last();
        let last = filters.last();
        lemma_usable(earlier, path, is_dir);
        let before = usable(earlier);
        let all = usable(filters);
        assert(filters[filters.len() - 1] == last);
        assert(forall|i: int| 0 <= i < earlier.len() ==> #[trigger] earlier[i] == filters[i]);
        assert(filter_speaks_of(last, path, is_dir) <==> is_usable(filter_view(last)) && applies(
            filter_view(last),
            path,
            is_dir,
        ));
        if some_applies(before, path, is_dir) {
            let k = choose|k: int|
                0 <= k < before.len() && applies(#[trigger] before[k], path, is_dir);
            assert(applies(all[k], path, is_dir));
            let i = choose|i: int|
                0 <= i < earlier.len() && #[trigger] filter_speaks_of(earlier[i], path, is_dir);
            assert(filter_speaks_of(filters[i], path, is_dir));
        }
        if filter_speaks_of(last, path, is_dir) {
            assert(applies(all[all.len() - 1], path, is_dir));
            assert(filter_speaks_of(filters[filters.len() - 1], path, is_dir));
        }
        if some_applies(all, path, is_dir) && !some_applies(before, path, is_dir) {
            let k = choose|k: int| 0 <= k < all.len() && applies(#[trigger] all[k], path, is_dir);
            if k < before.len() {
                assert(applies(before[k], path, is_dir));
            }
        }
        if exists|i: int|
            0 <= i < filters.len() && #[trigger] filter_speaks_of(filters[i], path, is_dir) {
            let i = choose|i: int|
                0 <= i < filters.len() && #[trigger] filter_speaks_of(filters[i], path, is_dir);
            if i < earlier.len() {
                assert(filter_speaks_of(earlier[i], path, is_dir));
            }
        }
    }
}

proof fn lemma_told(
    servers: Seq<u64>,
    watched: Map<u64, RenamePathsWatchedForServer>,
    moment: RenameMoment,
    path: Seq<char>,
    is_dir: bool,
    server: u64,
)
    ensures
        told_of_rename(servers, watched, moment, path, is_dir).contains(server)
            <==> servers.contains(server) && wants_rename(watched, server, moment, path, is_dir),
    decreases servers.len(),
{
    if servers.len() > 0 {
        let earlier = servers.drop_last();
        lemma_told(earlier, watched, moment, path, is_dir, server);
        contains_push(
            told_of_rename(earlier, watched, moment, path, is_dir),
            servers.last(),
            server,
        );
        contains_push(earlier, servers.last(), server);
        assert(earlier.push(servers.last()) =~= servers);
    }
}

/// A server of the worktree is told of a rename that happened just if a filter of its for that
/// applies, and asked before one just if a filter of its for that does.
pub proof fn renames_are_told_to_who_asks(
    servers: Vec<u64>,
    watched: BTreeMap<u64, RenamePathsWatchedForServer>,
    old_uri: &str,
    is_dir: bool,
    told: Vec<u64>,
    asked: Vec<u64>,
    server: u64,
    did: bool,
    will: bool,
)
    requires
        call_ensures(
            servers_told_of_rename,
            (&servers, &watched, RenameMoment::Did, old_uri, is_dir),
            told,
        ),
        call_ensures(
            servers_told_of_rename,
            (&servers, &watched, RenameMoment::Will, old_uri, is_dir),
            asked,
        ),
        watched@.contains_key(server) ==> call_ensures(
            RenamePathsWatchedForServer::should_send_did_rename,
            (&watched@[server], old_uri, is_dir),
            did,
        ) && call_ensures(
            RenamePathsWatchedForServer::should_send_will_rename,
            (&watched@[server], old_uri, is_dir),
            will,
        ),
    ensures
        told@.contains(server) <==> servers@.contains(server) && watched@.contains_key(server)
            && did,
        asked@.contains(server) <==> servers@.contains(server) && watched@.contains_key(server)
            && will,
{
    lemma_told(servers@, watched@, RenameMoment::Did, old_uri@, is_dir, server);
    lemma_told(servers@, watched@, RenameMoment::Will, old_uri@, is_dir, server);
}

proof fn lemma_merged(answers: Seq<Option<BTreeMap<u64, u64>>>, i: int, buffer: u64)
    requires
        0 <= i < answers.len(),
        answers[i] is Some,
        answers[i]->0@.contains_key(buffer),
        forall|j: int|
            i < j < answers.len() && (#[trigger] answers[j]) is Some
                ==> !answers[j]->0@.contains_key(buffer),
    ensures
        merged_transactions(answers).contains_key(buffer),
        merged_transactions(answers)[buffer] == answers[i]->0@[buffer],
    decreases answers.len(),
{
    if i < answers.len() - 1 {
        let earlier = answers.drop_last();
        assert(forall|j: int| 0 <= j < earlier.len() ==> #[trigger] earlier[j] == answers[j]);
        lemma_merged(earlier, i, buffer);
        assert(answers[answers.len() - 1] == answers.last());
    }
}

proof fn lemma_merged_from(answers: Seq<Option<BTreeMap<u64, u64>>>, buffer: u64)
    requires
        merged_transactions(answers).contains_key(buffer),
    ensures
        exists|i: int|
            0 <= i < answers.len() && (#[trigger] answers[i]) is Some
                && answers[i]->0@.contains_key(buffer),
    decreases answers.len(),
{
    if answers.len() > 0 {
        let earlier = answers.drop_last();
        if answers.last() is Some && answers.last()->0@.contains_key(buffer) {
            assert(answers[answers.len() - 1] is Some);
        } else {
            lemma_merged_from(earlier, buffer);
            let i = choose|i: int|
                0 <= i < earlier.len() && (#[trigger] earlier[i]) is Some
                    && earlier[i]->0@.contains_key(buffer);
            assert(answers[i] == earlier[i]);
        }
    }
}

/// Of the transactions that servers answered for a buffer the last one counts, and a buffer that
/// no server edits has none.
pub proof fn last_answers_count(
    answers: Vec<Option<BTreeMap<u64, u64>>>,
    merged: BTreeMap<u64, u64>,
    i: int,
    buffer: u64,
)
    requires
        call_ensures(will_rename_entry, (answers,), merged),
    ensures
        0 <= i < answers@.len() && answers@[i] is Some && answers@[i]->0@.contains_key(buffer) && (
        forall|j: int|
            i < j < answers@.len() && (#[trigger] answers@[j]) is Some
                ==> !answers@[j]->0@.contains_key(buffer)) ==> merged@.contains_key(buffer)
            && merged@[buffer] == answers@[i]->0@[buffer],
        merged@.contains_key(buffer) ==> exists|k: int|
            0 <= k < answers@.len() && (#[trigger] answers@[k]) is Some
                && answers@[k]->0@.contains_key(buffer),
{
    if 0 <= i < answers@.len() && answers@[i] is Some && answers@[i]->0@.contains_key(buffer) && (
    forall|j: int|
        i < j < answers@.len() && (#[trigger] answers@[j]) is Some
            ==> !answers@[j]->0@.contains_key(buffer)) {
        lemma_merged(answers@, i, buffer);
    }
    if merged@.contains_key(buffer) {
        lemma_merged_from(answers@, buffer);
    }
}

} // verus!
