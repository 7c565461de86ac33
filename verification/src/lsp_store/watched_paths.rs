//! The files that language servers want to be told about.
use globset::GlobSet;
use std::collections::{BTreeMap, BTreeSet};
use vstd::prelude::*;

use crate::globs::{
    build_glob_set, can_be_set, can_be_tried, fewer_fit, glob_is_valid, globs_of,
    is_match, is_parsable, is_valid_glob, rest_takes_no_more, set_globs, some_glob_matches,
    table_bound, text_bytes, total_bytes, MAX_TABLE,
};
use crate::ids::{ascending, map_get, map_keys, map_put, map_take, set_has};
use crate::list_map::{entry_is_found, has_distinct_keys, lookup, Key, ListMap};
use crate::lsp_store::servers::{
    serves_worktree, LanguageServerState, LocalLspStore, LocalView,
};
use crate::rel_path::texts;
use crate::text::{same_text, to_chars};

verus! {

/// What a component of a path is: the root, a name, or another one, such as `..`.
#[derive(Clone, Copy, Debug, PartialEq, Eq, Structural)]
pub enum PartKind {
    Root,
    Normal,
    Other,
}

/// A component of a path or of a glob pattern.
#[derive(Debug)]
pub struct PathPart {
    pub kind: PartKind,
    pub text: String,
}

pub ghost struct PartView {
    pub kind: PartKind,
    pub text: Seq<char>,
}

impl View for PathPart {
    type V = PartView;

    open spec fn view(&self) -> PartView {
        PartView { kind: self.kind, text: self.text@ }
    }
}

pub open spec fn part_views(parts: Seq<PathPart>) -> Seq<PartView> {
    parts.map_values(|p: PathPart| p@)
}

/// A path by its components.
#[derive(Debug)]
pub struct PathParts {
    pub parts: Vec<PathPart>,
}

impl View for PathParts {
    type V = Seq<PartView>;

    open spec fn view(&self) -> Seq<PartView> {
        part_views(self.parts@)
    }
}

impl Key for PathParts {
    type Id = Seq<PartView>;

    open spec fn id(self) -> Seq<PartView> {
        self@
    }

    fn same(&self, other: &Self) -> (same: bool) {
        if self.parts.len() != other.parts.len() {
            return false;
        }
        let same = starts_with(&self.parts, &other.parts);
        assert(self@.take(other@.len() as int) =~= self@);
        same
    }
}

/// A glob pattern by its components, and what is written from each of them on, which
/// for the last is nothing.
#[derive(Debug)]
pub struct PatternPath {
    pub parts: Vec<PathPart>,
    pub rests: Vec<String>,
}

/// What is written between components, besides the components themselves.
pub open spec fn is_between_parts(c: char) -> bool {
    c == '/' || c == '\\' || c == '.'
}

/// What is written from a component on is the component, and what is written from the next one
/// on, with nothing but separators between them.
pub open spec fn goes_on(part: Seq<char>, rest: Seq<char>, next: Seq<char>) -> bool {
    &&& part.len() + next.len() <= rest.len()
    &&& rest.take(part.len() as int) == part
    &&& rest.skip(rest.len() - next.len()) == next
    &&& forall|k: int|
        part.len() <= k < rest.len() - next.len() ==> is_between_parts(#[trigger] rest[k])
}

impl PatternPath {
    pub open spec fn well_formed(&self) -> bool {
        &&& self.rests@.len() == self.parts@.len() + 1
        &&& self.rests@.last()@.len() == 0
        &&& forall|i: int|
            0 <= i < self.parts@.len() ==> goes_on(
                (#[trigger] self.parts@[i]).text@,
                self.rests@[i]@,
                self.rests@[i + 1]@,
            )
    }
}

/// What a server wants to watch.
#[derive(Debug)]
pub enum GlobPattern {
    /// One pattern.
    Text(PatternPath),
    /// A pattern below a base, which is missing where its URI names no file.
    Relative { base: Option<PathParts>, pattern: PatternPath, pattern_text: String },
}

#[derive(Debug)]
pub struct FileSystemWatcher {
    pub glob_pattern: GlobPattern,
    /// The worktrees that cannot scan what lies at the literal prefix of the pattern there.
    pub rejected_by: BTreeSet<u64>,
}

/// A worktree.
#[derive(Debug)]
pub struct WatchRoot {
    pub id: u64,
    pub is_local: bool,
    pub abs_path: PathParts,
}

impl FileSystemWatcher {
    pub open spec fn well_formed(&self) -> bool {
        match self.glob_pattern {
            GlobPattern::Text(pattern) => pattern.well_formed(),
            GlobPattern::Relative { pattern, .. } => pattern.well_formed(),
        }
    }

    /// What is written from any component on can be parsed.
    pub open spec fn is_parsable(&self) -> bool {
        match self.glob_pattern {
            GlobPattern::Text(pattern) => forall|i: int|
                0 <= i < pattern.rests@.len() ==> is_parsable((#[trigger] pattern.rests@[i])@),
            GlobPattern::Relative { pattern, pattern_text, .. } => is_parsable(pattern_text@) && (
            forall|i: int|
                0 <= i < pattern.rests@.len() ==> is_parsable((#[trigger] pattern.rests@[i])@)),
        }
    }

    /// How many bytes the pattern takes at most, wherever it is watched.
    pub open spec fn bytes(&self) -> nat {
        match self.glob_pattern {
            GlobPattern::Text(pattern) => text_bytes(pattern.rests@[0]@),
            GlobPattern::Relative { pattern, pattern_text, .. } => text_bytes(pattern_text@)
                + text_bytes(pattern.rests@[0]@),
        }
    }
}

/// How many bytes the patterns of watchers take at most.
pub open spec fn all_bytes(watchers: Seq<FileSystemWatcher>) -> nat
    decreases watchers.len(),
{
    if watchers.len() == 0 {
        0
    } else {
        all_bytes(watchers.drop_last()) + watchers.last().bytes()
    }
}

/// A machine can build the patterns of the watchers, wherever they are watched.
pub open spec fn can_be_watched(watchers: Seq<FileSystemWatcher>) -> bool {
    &&& forall|i: int| 0 <= i < watchers.len() ==> (#[trigger] watchers[i]).is_parsable()
    &&& table_bound(watchers.len() as int, all_bytes(watchers) as int) <= MAX_TABLE
}

/// No worktree is there twice.
pub open spec fn are_distinct(worktrees: Seq<WatchRoot>) -> bool {
    forall|i: int, j: int|
        0 <= i < j < worktrees.len() ==> (#[trigger] worktrees[i]).id != (
        #[trigger] worktrees[j]).id
}

/// The character makes a component of a pattern more than a name.
pub open spec fn is_wild(c: char) -> bool {
    c == '*' || c == '?' || c == '{' || c == '}'
}

/// The component stands for itself.
pub open spec fn is_literal(part: PartView) -> bool {
    part.kind == PartKind::Normal ==> forall|i: int|
        0 <= i < part.text.len() ==> !is_wild(#[trigger] part.text[i])
}

/// How many components there are before the first that does not stand for itself.
pub open spec fn literal_len(parts: Seq<PartView>) -> nat
    decreases parts.len(),
{
    if parts.len() == 0 || !is_literal(parts[0]) {
        0
    } else {
        1 + literal_len(parts.skip(1))
    }
}

pub open spec fn literal_prefix(parts: Seq<PartView>) -> Seq<PartView> {
    parts.take(literal_len(parts) as int)
}

pub proof fn literal_len_bound(parts: Seq<PartView>)
    ensures
        literal_len(parts) <= parts.len(),
    decreases parts.len(),
{
    if parts.len() > 0 {
        literal_len_bound(parts.skip(1));
    }
}

pub open spec fn begins_with(path: Seq<PartView>, base: Seq<PartView>) -> bool {
    base.len() <= path.len() && path.take(base.len() as int) == base
}

/// A path below another; one that begins at the root stands for itself.
pub open spec fn joined(base: Seq<PartView>, path: Seq<PartView>) -> Seq<PartView> {
    if path.len() > 0 && path[0].kind == PartKind::Root {
        path
    } else {
        base + path
    }
}

/// Where in a worktree a watcher looks: the literal prefix to scan, and the pattern
/// relative to the worktree's root. Nothing, if it looks elsewhere.
pub open spec fn within(root: Seq<PartView>, watcher: FileSystemWatcher) -> Option<
    (Seq<PartView>, Seq<char>),
> {
    match watcher.glob_pattern {
        GlobPattern::Text(pattern) => {
            let parts = part_views(pattern.parts@);
            if begins_with(parts, root) {
                Some(
                    (
                        literal_prefix(parts.skip(root.len() as int)),
                        pattern.rests@[root.len() as int]@,
                    ),
                )
            } else {
                None
            }
        },
        GlobPattern::Relative { base, pattern, pattern_text } => match base {
            None => None,
            Some(base) => if begins_with(base@, root) {
                Some(
                    (
                        joined(
                            base@.skip(root.len() as int),
                            literal_prefix(part_views(pattern.parts@)),
                        ),
                        pattern_text@,
                    ),
                )
            } else {
                None
            },
        },
    }
}

/// Where a watcher looks that looks into no worktree: a path, and the pattern below it.
pub open spec fn outside(watcher: FileSystemWatcher) -> Option<(Seq<PartView>, Seq<char>)> {
    match watcher.glob_pattern {
        GlobPattern::Text(pattern) => {
            let parts = part_views(pattern.parts@);
            Some((literal_prefix(parts), pattern.rests@[literal_len(parts) as int]@))
        },
        GlobPattern::Relative { base, pattern, .. } => match base {
            None => None,
            Some(base) => {
                let parts = part_views(pattern.parts@);
                Some(
                    (
                        joined(base@, literal_prefix(parts)),
                        pattern.rests@[literal_len(parts) as int]@,
                    ),
                )
            },
        },
    }
}

/// The first worktree from `from` on that the watcher looks into.
pub open spec fn first_worktree(
    worktrees: Seq<WatchRoot>,
    watcher: FileSystemWatcher,
    from: int,
) -> Option<int>
    decreases worktrees.len() - from,
{
    if from < 0 || from >= worktrees.len() {
        None
    } else if within(worktrees[from].abs_path@, watcher) is Some
        && !watcher.rejected_by@.contains(worktrees[from].id) {
        Some(from)
    } else {
        first_worktree(worktrees, watcher, from + 1)
    }
}

/// Patterns by worktree and by path, and what the worktrees have to scan.
pub ghost struct WatchView {
    pub worktree_patterns: Map<u64, Seq<Seq<char>>>,
    pub abs_patterns: Map<Seq<PartView>, Seq<Seq<char>>>,
    pub scans: Seq<(u64, Seq<PartView>)>,
}

pub open spec fn with_pattern<K>(
    patterns: Map<K, Seq<Seq<char>>>,
    key: K,
    pattern: Seq<char>,
) -> Map<K, Seq<Seq<char>>> {
    patterns.insert(
        key,
        if patterns.contains_key(key) {
            patterns[key].push(pattern)
        } else {
            seq![pattern]
        },
    )
}

/// The pattern is watched in every worktree.
pub open spec fn in_all_worktrees(
    patterns: Map<u64, Seq<Seq<char>>>,
    worktrees: Seq<WatchRoot>,
    pattern: Seq<char>,
) -> Map<u64, Seq<Seq<char>>>
    decreases worktrees.len(),
{
    if worktrees.len() == 0 {
        patterns
    } else {
        with_pattern(
            in_all_worktrees(patterns, worktrees.drop_last(), pattern),
            worktrees.last().id,
            pattern,
        )
    }
}

/// Some component is a name.
pub open spec fn is_rooted(path: Seq<PartView>) -> bool {
    exists|i: int| 0 <= i < path.len() && (#[trigger] path[i]).kind == PartKind::Normal
}

/// What is watched with one more watcher. A watcher that looks into a worktree is
/// watched there. One that names no place, such as `**/Cargo.toml`, is watched in all
/// worktrees rather than everywhere. Patterns that are not valid are left out.
pub open spec fn with_watcher(
    watch: WatchView,
    worktrees: Seq<WatchRoot>,
    watcher: FileSystemWatcher,
) -> WatchView {
    match first_worktree(worktrees, watcher, 0) {
        Some(at) => {
            let (prefix, pattern) = within(worktrees[at].abs_path@, watcher)->0;
            if worktrees[at].is_local && glob_is_valid(pattern, false) {
                WatchView {
                    worktree_patterns: with_pattern(
                        watch.worktree_patterns,
                        worktrees[at].id,
                        pattern,
                    ),
                    scans: watch.scans.push((worktrees[at].id, prefix)),
                    ..watch
                }
            } else {
                watch
            }
        },
        None => match outside(watcher) {
            None => watch,
            Some((path, pattern)) => if !glob_is_valid(pattern, false) {
                watch
            } else if !is_rooted(path) {
                WatchView {
                    worktree_patterns: in_all_worktrees(
                        watch.worktree_patterns,
                        worktrees,
                        pattern,
                    ),
                    ..watch
                }
            } else {
                WatchView {
                    abs_patterns: with_pattern(watch.abs_patterns, path, pattern),
                    ..watch
                }
            },
        },
    }
}

pub open spec fn watched(worktrees: Seq<WatchRoot>, watchers: Seq<FileSystemWatcher>) -> WatchView
    decreases watchers.len(),
{
    if watchers.len() == 0 {
        WatchView {
            worktree_patterns: Map::empty(),
            abs_patterns: Map::empty(),
            scans: Seq::empty(),
        }
    } else {
        with_watcher(watched(worktrees, watchers.drop_last()), worktrees, watchers.last())
    }
}

/// What is written from a component on takes no more bytes than the whole pattern.
proof fn rests_take_no_more(pattern: PatternPath, at: int)
    requires
        pattern.well_formed(),
        0 <= at < pattern.rests@.len(),
    ensures
        text_bytes(pattern.rests@[at]@) <= text_bytes(pattern.rests@[0]@),
    decreases at,
{
    if at > 0 {
        let part = pattern.parts@[at - 1];
        let rest = pattern.rests@[at - 1]@;
        let next = pattern.rests@[at]@;
        assert(goes_on(part.text@, rest, next));
        rest_takes_no_more(rest, rest.len() - next.len());
        rests_take_no_more(pattern, at - 1);
    }
}

/// The pattern of a watcher in a worktree can be parsed, and takes no more bytes than the
/// watcher.
proof fn within_is_bounded(root: Seq<PartView>, watcher: FileSystemWatcher)
    requires
        watcher.well_formed(),
        watcher.is_parsable(),
        within(root, watcher) is Some,
    ensures
        is_parsable((within(root, watcher)->0).1),
        text_bytes((within(root, watcher)->0).1) <= watcher.bytes(),
{
    match watcher.glob_pattern {
        GlobPattern::Text(pattern) => {
            rests_take_no_more(pattern, root.len() as int);
        },
        GlobPattern::Relative { .. } => {},
    }
}

/// So does its pattern outside the worktrees.
proof fn outside_is_bounded(watcher: FileSystemWatcher)
    requires
        watcher.well_formed(),
        watcher.is_parsable(),
        outside(watcher) is Some,
    ensures
        is_parsable((outside(watcher)->0).1),
        text_bytes((outside(watcher)->0).1) <= watcher.bytes(),
{
    match watcher.glob_pattern {
        GlobPattern::Text(pattern) => {
            let parts = part_views(pattern.parts@);
            literal_len_bound(parts);
            rests_take_no_more(pattern, literal_len(parts) as int);
        },
        GlobPattern::Relative { pattern, .. } => {
            let parts = part_views(pattern.parts@);
            literal_len_bound(parts);
            rests_take_no_more(pattern, literal_len(parts) as int);
        },
    }
}

/// There are at most so many patterns, with at most so many bytes, and all can be parsed.
spec fn is_bounded(patterns: Seq<Seq<char>>, count: nat, bytes: nat) -> bool {
    &&& patterns.len() <= count
    &&& total_bytes(globs_of(patterns, false)) <= bytes
    &&& forall|i: int| 0 <= i < patterns.len() ==> is_parsable(#[trigger] patterns[i])
}

spec fn are_bounded<K>(patterns: Map<K, Seq<Seq<char>>>, count: nat, bytes: nat) -> bool {
    forall|key: K| #[trigger]
        patterns.contains_key(key) ==> is_bounded(patterns[key], count, bytes)
}

proof fn one_more_is_bounded<K>(
    patterns: Map<K, Seq<Seq<char>>>,
    key: K,
    pattern: Seq<char>,
    count: nat,
    bytes: nat,
    more: nat,
)
    requires
        patterns.contains_key(key) ==> is_bounded(patterns[key], count, bytes),
        is_parsable(pattern),
        text_bytes(pattern) <= more,
    ensures
        is_bounded(with_pattern(patterns, key, pattern)[key], count + 1, bytes + more),
{
    let earlier = if patterns.contains_key(key) {
        patterns[key]
    } else {
        Seq::empty()
    };
    let now = with_pattern(patterns, key, pattern)[key];
    assert(now =~= earlier.push(pattern));
    let globs = globs_of(now, false);
    assert(globs.drop_last() =~= globs_of(earlier, false));
    assert(globs.last().0 == pattern);
    assert(total_bytes(globs_of(Seq::<Seq<char>>::empty(), false)) == 0);
}

/// In different worktrees a pattern is added once to each.
proof fn added_once(
    patterns: Map<u64, Seq<Seq<char>>>,
    worktrees: Seq<WatchRoot>,
    pattern: Seq<char>,
    key: u64,
)
    requires
        are_distinct(worktrees),
    ensures
        ({
            let after = in_all_worktrees(patterns, worktrees, pattern);
            if exists|i: int| 0 <= i < worktrees.len() && (#[trigger] worktrees[i]).id == key {
                after.contains_key(key) && after[key] == with_pattern(patterns, key, pattern)[key]
            } else {
                after.contains_key(key) == patterns.contains_key(key) && (after.contains_key(key)
                    ==> after[key] == patterns[key])
            }
        }),
    decreases worktrees.len(),
{
    if worktrees.len() > 0 {
        let earlier = worktrees.drop_last();
        assert forall|i: int, j: int| 0 <= i < j < earlier.len() implies (
        #[trigger] earlier[i]).id != (#[trigger] earlier[j]).id by {
            assert(worktrees[i].id != worktrees[j].id);
        }
        added_once(patterns, earlier, pattern, key);
        let last = worktrees.len() - 1;
        if exists|i: int| 0 <= i < earlier.len() && (#[trigger] earlier[i]).id == key {
            let i = choose|i: int| 0 <= i < earlier.len() && (#[trigger] earlier[i]).id == key;
            assert(worktrees[i].id != worktrees[last].id);
            assert(worktrees[i].id == key);
        } else if worktrees[last].id != key {
            assert forall|i: int| 0 <= i < worktrees.len() implies (#[trigger] worktrees[i]).id
                != key by {
                if i < last {
                    assert(earlier[i].id != key);
                }
            }
        }
    }
}

/// Nowhere are more patterns watched than there are watchers.
proof fn watched_is_bounded(worktrees: Seq<WatchRoot>, watchers: Seq<FileSystemWatcher>)
    requires
        are_distinct(worktrees),
        forall|i: int|
            0 <= i < watchers.len() ==> (#[trigger] watchers[i]).well_formed()
                && watchers[i].is_parsable(),
    ensures
        are_bounded(
            watched(worktrees, watchers).worktree_patterns,
            watchers.len(),
            all_bytes(watchers),
        ),
        are_bounded(
            watched(worktrees, watchers).abs_patterns,
            watchers.len(),
            all_bytes(watchers),
        ),
    decreases watchers.len(),
{
    if watchers.len() > 0 {
        let earlier = watchers.drop_last();
        let watcher = watchers.last();
        assert(watcher == watchers[watchers.len() - 1]);
        assert forall|i: int| 0 <= i < earlier.len() implies (
        #[trigger] earlier[i]).well_formed() && earlier[i].is_parsable() by {
            assert(earlier[i] == watchers[i]);
        }
        watched_is_bounded(worktrees, earlier);
        let before = watched(worktrees, earlier);
        let after = watched(worktrees, watchers);
        let count = earlier.len();
        let bytes = all_bytes(earlier);
        if let Some(at) = first_worktree(worktrees, watcher, 0) {
            first_worktree_is_one(worktrees, watcher, 0);
            within_is_bounded(worktrees[at].abs_path@, watcher);
            one_more_is_bounded(
                before.worktree_patterns,
                worktrees[at].id,
                (within(worktrees[at].abs_path@, watcher)->0).1,
                count,
                bytes,
                watcher.bytes(),
            );
        } else if outside(watcher) is Some {
            let (path, pattern) = outside(watcher)->0;
            outside_is_bounded(watcher);
            one_more_is_bounded(
                before.abs_patterns,
                path,
                pattern,
                count,
                bytes,
                watcher.bytes(),
            );
            assert forall|key: u64| #[trigger]
                after.worktree_patterns.contains_key(key) implies is_bounded(
                after.worktree_patterns[key],
                watchers.len(),
                all_bytes(watchers),
            ) by {
                added_once(before.worktree_patterns, worktrees, pattern, key);
                one_more_is_bounded(
                    before.worktree_patterns,
                    key,
                    pattern,
                    count,
                    bytes,
                    watcher.bytes(),
                );
            }
        }
    }
}

/// The first worktree is one that the watcher looks into.
proof fn first_worktree_is_one(worktrees: Seq<WatchRoot>, watcher: FileSystemWatcher, from: int)
    requires
        0 <= from,
    ensures
        first_worktree(worktrees, watcher, from) matches Some(at) ==> 0 <= at < worktrees.len()
            && within(worktrees[at].abs_path@, watcher) is Some,
    decreases worktrees.len() - from,
{
    if from < worktrees.len() {
        first_worktree_is_one(worktrees, watcher, from + 1);
    }
}

/// A machine can build what is watched for the watchers.
proof fn watched_can_be_tried(worktrees: Seq<WatchRoot>, watchers: Seq<FileSystemWatcher>)
    requires
        are_distinct(worktrees),
        forall|i: int| 0 <= i < watchers.len() ==> (#[trigger] watchers[i]).well_formed(),
        can_be_watched(watchers),
    ensures
        can_all_be_tried(watched(worktrees, watchers).worktree_patterns),
        can_all_be_tried(watched(worktrees, watchers).abs_patterns),
{
    watched_is_bounded(worktrees, watchers);
    let watch = watched(worktrees, watchers);
    assert forall|key: u64| #[trigger] watch.worktree_patterns.contains_key(key) implies can_be_tried(
        watch.worktree_patterns[key],
        false,
    ) by {
        bounded_can_be_tried(watch.worktree_patterns[key], watchers);
    }
    assert forall|key: Seq<PartView>| #[trigger]
        watch.abs_patterns.contains_key(key) implies can_be_tried(
        watch.abs_patterns[key],
        false,
    ) by {
        bounded_can_be_tried(watch.abs_patterns[key], watchers);
    }
}

proof fn bounded_can_be_tried(patterns: Seq<Seq<char>>, watchers: Seq<FileSystemWatcher>)
    requires
        is_bounded(patterns, watchers.len(), all_bytes(watchers)),
        can_be_watched(watchers),
    ensures
        can_be_tried(patterns, false),
{
    let globs = globs_of(patterns, false);
    fewer_fit(
        globs.len() as int,
        total_bytes(globs) as int,
        watchers.len() as int,
        all_bytes(watchers) as int,
    );
}

fn starts_with(path: &Vec<PathPart>, base: &Vec<PathPart>) -> (result: bool)
    ensures
        result == begins_with(part_views(path@), part_views(base@)),
{
    if base.len() > path.len() {
        return false;
    }
    let ghost p = part_views(path@);
    let ghost b = part_views(base@);
    let mut i: usize = 0;
    while i < base.len()
        invariant
            i <= base@.len() <= path@.len(),
            p == part_views(path@),
            b == part_views(base@),
            p.take(i as int) == b.take(i as int),
        decreases base@.len() - i,
    {
        if path[i].kind != base[i].kind || !same_text(path[i].text.as_str(), base[i].text.as_str())
        {
            proof {
                assert(p[i as int] != b[i as int]);
                if begins_with(p, b) {
                    assert(p.take(b.len() as int)[i as int] == b[i as int]);
                }
            }
            return false;
        }
        assert(p.take(i + 1) =~= p.take(i as int).push(p[i as int]));
        assert(b.take(i + 1) =~= b.take(i as int).push(b[i as int]));
        i += 1;
    }
    assert(b.take(i as int) =~= b);
    true
}

/// How many components of a pattern, from `from` on, come before the first that does
/// not stand for itself.
fn count_literal(parts: &Vec<PathPart>, from: usize) -> (count: usize)
    requires
        from <= parts@.len(),
    ensures
        count == literal_len(part_views(parts@).skip(from as int)),
        from + count <= parts@.len(),
{
    let ghost views = part_views(parts@);
    let mut i: usize = from;
    while i < parts.len()
        invariant
            from <= i <= parts@.len(),
            views == part_views(parts@),
            literal_len(views.skip(from as int)) == (i - from) + literal_len(
                views.skip(i as int),
            ),
        decreases parts@.len() - i,
    {
        assert(views.skip(i as int)[0] == views[i as int]);
        assert(views.skip(i as int).skip(1) =~= views.skip(i + 1));
        if parts[i].kind == PartKind::Normal {
            let chars: Vec<char> = to_chars(parts[i].text.as_str());
            let mut j: usize = 0;
            while j < chars.len()
                invariant
                    j <= chars@.len(),
                    chars@ == views[i as int].text,
                    from <= i < parts@.len(),
                    views == part_views(parts@),
                    views[i as int].kind == PartKind::Normal,
                    views.skip(i as int)[0] == views[i as int],
                    literal_len(views.skip(from as int)) == (i - from) + literal_len(
                        views.skip(i as int),
                    ),
                    forall|k: int| 0 <= k < j ==> !is_wild(#[trigger] chars@[k]),
                decreases chars@.len() - j,
            {
                let c: char = chars[j];
                if c == '*' || c == '?' || c == '{' || c == '}' {
                    assert(is_wild(views[i as int].text[j as int]));
                    return i - from;
                }
                j += 1;
            }
            assert(is_literal(views[i as int]));
        }
        i += 1;
    }
    assert(views.skip(i as int).len() == 0);
    i - from
}

fn copy_parts(parts: &Vec<PathPart>, from: usize, to: usize) -> (copy: Vec<PathPart>)
    requires
        from <= to <= parts@.len(),
    ensures
        part_views(copy@) == part_views(parts@).subrange(from as int, to as int),
{
    let mut copy: Vec<PathPart> = Vec::new();
    let mut i: usize = from;
    while i < to
        invariant
            from <= i <= to <= parts@.len(),
            part_views(copy@) =~= part_views(parts@).subrange(from as int, i as int),
        decreases to - i,
    {
        let ghost before = part_views(copy@);
        copy.push(PathPart { kind: parts[i].kind, text: parts[i].text.clone() });
        proof {
            let views = part_views(parts@);
            assert(copy@.last()@ == views[i as int]);
            assert(part_views(copy@) =~= before.push(views[i as int]));
            assert(views.subrange(from as int, i + 1) =~= views.subrange(from as int, i as int).push(
                views[i as int],
            ));
        }
        i += 1;
    }
    copy
}

/// The part of a glob pattern before its first wildcard component.
pub fn glob_literal_prefix(glob: &Vec<PathPart>) -> (prefix: Vec<PathPart>)
    ensures
        part_views(prefix@) == literal_prefix(part_views(glob@)),
{
    let count: usize = count_literal(glob, 0);
    assert(part_views(glob@).skip(0) =~= part_views(glob@));
    let prefix = copy_parts(glob, 0, count);
    assert(part_views(prefix@) =~= literal_prefix(part_views(glob@)));
    prefix
}

fn join_parts(base: Vec<PathPart>, path: Vec<PathPart>) -> (result: Vec<PathPart>)
    ensures
        part_views(result@) == joined(part_views(base@), part_views(path@)),
{
    if path.len() > 0 && path[0].kind == PartKind::Root {
        return path;
    }
    let mut result: Vec<PathPart> = base;
    let mut rest: Vec<PathPart> = path;
    result.append(&mut rest);
    assert(part_views(result@) =~= part_views(base@) + part_views(path@));
    result
}

impl FileSystemWatcher {
    /// Where the watcher looks in a worktree: the literal prefix and the pattern.
    pub fn path_in_worktree(&self, worktree: &WatchRoot) -> (found: Option<
        (Vec<PathPart>, String),
    >)
        requires
            self.well_formed(),
        ensures
            found is Some <==> within(worktree.abs_path@, *self) is Some,
            found matches Some((prefix, pattern)) ==> (part_views(prefix@), pattern@) == within(
                worktree.abs_path@,
                *self,
            )->0,
    {
        let root: &Vec<PathPart> = &worktree.abs_path.parts;
        match &self.glob_pattern {
            GlobPattern::Text(pattern) => {
                if !starts_with(&pattern.parts, root) {
                    return None;
                }
                let count: usize = count_literal(&pattern.parts, root.len());
                let len: usize = pattern.parts.len();
                assert(root@.len() + count <= len);
                let prefix = copy_parts(&pattern.parts, root.len(), root.len() + count);
                proof {
                    let parts = part_views(pattern.parts@);
                    let k = root@.len() as int;
                    assert(parts.subrange(k, k + count) =~= literal_prefix(parts.skip(k)));
                }
                Some((prefix, pattern.rests[root.len()].clone()))
            },
            GlobPattern::Relative { base, pattern, pattern_text } => {
                let base: &PathParts = match base {
                    Some(base) => base,
                    None => return None,
                };
                if !starts_with(&base.parts, root) {
                    return None;
                }
                let below = copy_parts(&base.parts, root.len(), base.parts.len());
                assert(part_views(below@) =~= base@.skip(root@.len() as int));
                let prefix = join_parts(below, glob_literal_prefix(&pattern.parts));
                Some((prefix, pattern_text.clone()))
            },
        }
    }

    /// Where the watcher looks, if it looks into no worktree.
    fn path_outside(&self) -> (found: Option<(PathParts, String)>)
        requires
            self.well_formed(),
        ensures
            found is Some <==> outside(*self) is Some,
            found matches Some((path, pattern)) ==> (path@, pattern@) == outside(*self)->0,
    {
        match &self.glob_pattern {
            GlobPattern::Text(pattern) => {
                let count: usize = count_literal(&pattern.parts, 0);
                assert(part_views(pattern.parts@).skip(0) =~= part_views(pattern.parts@));
                let path = glob_literal_prefix(&pattern.parts);
                Some((PathParts { parts: path }, pattern.rests[count].clone()))
            },
            GlobPattern::Relative { base, pattern, .. } => {
                let base: &PathParts = match base {
                    Some(base) => base,
                    None => return None,
                };
                let count: usize = count_literal(&pattern.parts, 0);
                assert(part_views(pattern.parts@).skip(0) =~= part_views(pattern.parts@));
                let copy = copy_parts(&base.parts, 0, base.parts.len());
                assert(part_views(copy@) =~= base@);
                let path = join_parts(copy, glob_literal_prefix(&pattern.parts));
                Some((PathParts { parts: path }, pattern.rests[count].clone()))
            },
        }
    }

    /// The first worktree that the watcher looks into, the literal prefix to scan there,
    /// and the pattern relative to its root.
    pub fn worktree_and_path_for_file_watcher(&self, worktrees: &Vec<WatchRoot>) -> (found: Option<
        (usize, Vec<PathPart>, String),
    >)
        requires
            self.well_formed(),
        ensures
            match found {
                Some((at, prefix, pattern)) => first_worktree(worktrees@, *self, 0) == Some(
                    at as int,
                ) && at < worktrees@.len() && (part_views(prefix@), pattern@) == within(
                    worktrees@[at as int].abs_path@,
                    *self,
                )->0,
                None => first_worktree(worktrees@, *self, 0) is None,
            },
    {
        let mut i: usize = 0;
        while i < worktrees.len()
            invariant
                i <= worktrees@.len(),
                self.well_formed(),
                first_worktree(worktrees@, *self, 0) == first_worktree(
                    worktrees@,
                    *self,
                    i as int,
                ),
            decreases worktrees@.len() - i,
        {
            if let Some((prefix, pattern)) = self.path_in_worktree(&worktrees[i]) {
                if !set_has(&self.rejected_by, worktrees[i].id) {
                    return Some((i, prefix, pattern));
                }
            }
            i += 1;
        }
        None
    }
}

/// Patterns that are being collected for a server.
#[derive(Debug)]
pub struct WatchedPatterns {
    pub worktree_patterns: BTreeMap<u64, Vec<String>>,
    pub abs_patterns: ListMap<PathParts, Vec<String>>,
    /// What the worktrees have to scan.
    pub scans: Vec<(u64, Vec<PathPart>)>,
}

pub open spec fn pattern_views<K>(patterns: Map<K, Vec<String>>) -> Map<K, Seq<Seq<char>>> {
    Map::new(|key: K| patterns.contains_key(key), |key: K| texts(patterns[key]@))
}

impl View for WatchedPatterns {
    type V = WatchView;

    open spec fn view(&self) -> WatchView {
        WatchView {
            worktree_patterns: pattern_views(self.worktree_patterns@),
            abs_patterns: pattern_views(self.abs_patterns@),
            scans: self.scans@.map_values(|s: (u64, Vec<PathPart>)| (s.0, part_views(s.1@))),
        }
    }
}

fn with_text(patterns: Option<Vec<String>>, pattern: String) -> (result: Vec<String>)
    ensures
        texts(result@) == (match patterns {
            Some(patterns) => texts(patterns@).push(pattern@),
            None => seq![pattern@],
        }),
{
    match patterns {
        Some(patterns) => {
            let mut result: Vec<String> = patterns;
            result.push(pattern);
            assert(texts(result@) =~= texts(patterns@).push(pattern@));
            result
        },
        None => {
            let mut result: Vec<String> = Vec::new();
            result.push(pattern);
            assert(texts(result@) =~= seq![pattern@]);
            result
        },
    }
}

impl WatchedPatterns {
    fn add_to_worktree(&mut self, worktree: u64, pattern: String)
        ensures
            final(self)@ == (WatchView {
                worktree_patterns: with_pattern(
                    old(self)@.worktree_patterns,
                    worktree,
                    pattern@,
                ),
                ..old(self)@
            }),
            final(self).abs_patterns == old(self).abs_patterns,
    {
        let ghost before = self@;
        let known = map_take(&mut self.worktree_patterns, worktree);
        map_put(&mut self.worktree_patterns, worktree, with_text(known, pattern));
        assert(self@.worktree_patterns =~= with_pattern(
            before.worktree_patterns,
            worktree,
            pattern@,
        ));
    }

    fn add_to_path(&mut self, path: PathParts, pattern: String)
        ensures
            final(self)@ == (WatchView {
                abs_patterns: with_pattern(old(self)@.abs_patterns, path@, pattern@),
                ..old(self)@
            }),
            has_distinct_keys(old(self).abs_patterns.entries@) ==> has_distinct_keys(
                final(self).abs_patterns.entries@,
            ),
    {
        let ghost before = self@;
        let known = self.abs_patterns.remove(&path);
        self.abs_patterns.insert(path, with_text(known, pattern));
        assert(self@.abs_patterns =~= with_pattern(before.abs_patterns, path@, pattern@));
    }

    fn add_watcher(&mut self, worktrees: &Vec<WatchRoot>, watcher: &FileSystemWatcher)
        requires
            watcher.well_formed(),
            watcher.is_parsable(),
        ensures
            final(self)@ == with_watcher(old(self)@, worktrees@, *watcher),
            has_distinct_keys(old(self).abs_patterns.entries@) ==> has_distinct_keys(
                final(self).abs_patterns.entries@,
            ),
    {
        let ghost before = self@;
        match watcher.worktree_and_path_for_file_watcher(worktrees) {
            Some((at, prefix, pattern)) => {
                proof {
                    first_worktree_is_one(worktrees@, *watcher, 0);
                    within_is_bounded(worktrees@[at as int].abs_path@, *watcher);
                }
                if worktrees[at].is_local && is_valid_glob(pattern.as_str(), false) {
                    let id: u64 = worktrees[at].id;
                    self.add_to_worktree(id, pattern);
                    let ghost added = self@;
                    self.scans.push((id, prefix));
                    assert(self@.scans =~= added.scans.push((id, part_views(prefix@))));
                }
            },
            None => {
                if let Some((path, pattern)) = watcher.path_outside() {
                    proof {
                        outside_is_bounded(*watcher);
                    }
                    if is_valid_glob(pattern.as_str(), false) {
                        let mut rooted: bool = false;
                        let mut i: usize = 0;
                        while i < path.parts.len()
                            invariant
                                i <= path.parts@.len(),
                                rooted ==> is_rooted(path@),
                                !rooted ==> forall|j: int|
                                    0 <= j < i ==> (#[trigger] path@[j]).kind != PartKind::Normal,
                            decreases path.parts@.len() - i,
                        {
                            if path.parts[i].kind == PartKind::Normal {
                                assert(path@[i as int].kind == PartKind::Normal);
                                rooted = true;
                            }
                            i += 1;
                        }
                        if rooted {
                            self.add_to_path(path, pattern);
                        } else {
                            let mut k: usize = 0;
                            while k < worktrees.len()
                                invariant
                                    k <= worktrees@.len(),
                                    self.abs_patterns == old(self).abs_patterns,
                                    self@ == (WatchView {
                                        worktree_patterns: in_all_worktrees(
                                            before.worktree_patterns,
                                            worktrees@.take(k as int),
                                            pattern@,
                                        ),
                                        ..before
                                    }),
                                decreases worktrees@.len() - k,
                            {
                                assert(worktrees@.take(k + 1).drop_last() =~= worktrees@.take(
                                    k as int,
                                ));
                                assert(worktrees@.take(k + 1).last() == worktrees@[k as int]);
                                self.add_to_worktree(worktrees[k].id, pattern.clone());
                                k += 1;
                            }
                            assert(worktrees@.take(k as int) =~= worktrees@);
                        }
                    }
                }
            },
        }
    }
}

/// What a server is told about: sets of patterns for worktrees and for paths outside.
#[derive(Debug)]
pub struct LanguageServerWatchedPaths {
    pub worktree_paths: BTreeMap<u64, GlobSet>,
    pub abs_paths: ListMap<PathParts, GlobSet>,
}

/// Each list of patterns that can be matched together has become a set.
pub open spec fn is_built<K>(sets: Map<K, GlobSet>, patterns: Map<K, Seq<Seq<char>>>) -> bool {
    forall|key: K|
        (#[trigger] sets.contains_key(key) <==> patterns.contains_key(key) && can_be_set(
            patterns[key],
            false,
        )) && (sets.contains_key(key) ==> set_globs(sets[key]) == globs_of(patterns[key], false))
}

/// A machine can build each list of patterns.
pub open spec fn can_all_be_tried<K>(patterns: Map<K, Seq<Seq<char>>>) -> bool {
    forall|key: K| #[trigger]
        patterns.contains_key(key) ==> can_be_tried(patterns[key], false)
}

fn build_worktree_sets(patterns: &BTreeMap<u64, Vec<String>>) -> (sets: BTreeMap<u64, GlobSet>)
    requires
        can_all_be_tried(pattern_views(patterns@)),
    ensures
        is_built(sets@, pattern_views(patterns@)),
{
    let keys: Vec<u64> = map_keys(patterns);
    let mut sets: BTreeMap<u64, GlobSet> = BTreeMap::new();
    let mut i: usize = 0;
    let ghost views = pattern_views(patterns@);
    while i < keys.len()
        invariant
            i <= keys@.len(),
            crate::ids::ascending(keys@),
            views == pattern_views(patterns@),
            can_all_be_tried(views),
            forall|k: u64| #[trigger] keys@.contains(k) <==> patterns@.contains_key(k),
            forall|k: u64|
                (#[trigger] sets@.contains_key(k) <==> keys@.take(i as int).contains(k)
                    && can_be_set(views[k], false)) && (sets@.contains_key(k) ==> set_globs(
                    sets@[k],
                ) == globs_of(views[k], false)),
        decreases keys@.len() - i,
    {
        let key: u64 = keys[i];
        let ghost before = sets@;
        proof {
            assert(keys@.contains(keys@[i as int]));
            let seen = keys@.take(i as int);
            assert(keys@.take(i + 1) =~= seen.push(key));
            assert(!seen.contains(key)) by {
                if seen.contains(key) {
                    let j = choose|j: int| 0 <= j < seen.len() && seen[j] == key;
                    assert(keys@[j] < keys@[i as int]);
                }
            }
        }
        if let Some(list) = map_get(patterns, key) {
            assert(views.contains_key(key));
            if let Some(set) = build_glob_set(list, false) {
                map_put(&mut sets, key, set);
            }
        }
        proof {
            let seen = keys@.take(i as int);
            let next = keys@.take(i + 1);
            assert forall|k: u64|
                (#[trigger] sets@.contains_key(k) <==> next.contains(k) && can_be_set(
                    views[k],
                    false,
                )) && (sets@.contains_key(k) ==> set_globs(sets@[k]) == globs_of(
                    views[k],
                    false,
                )) by {
                crate::ids::contains_push(seen, key, k);
                assert(before.contains_key(k) <==> seen.contains(k) && can_be_set(
                    views[k],
                    false,
                ));
            }
        }
        i += 1;
    }
    proof {
        assert(keys@.take(i as int) =~= keys@);
        assert forall|k: u64|
            (#[trigger] sets@.contains_key(k) <==> views.contains_key(k) && can_be_set(
                views[k],
                false,
            )) && (sets@.contains_key(k) ==> set_globs(sets@[k]) == globs_of(
                views[k],
                false,
            )) by {
            assert(keys@.contains(k) <==> patterns@.contains_key(k));
        }
    }
    sets
}

/// The set under a path, if the list under it became one.
spec fn built_from(
    sets: Map<Seq<PartView>, GlobSet>,
    entries: Seq<(PathParts, Vec<String>)>,
    path: Seq<PartView>,
) -> bool {
    match lookup(entries, path) {
        None => !sets.contains_key(path),
        Some(list) => {
            &&& sets.contains_key(path) <==> can_be_set(texts(list@), false)
            &&& sets.contains_key(path) ==> set_globs(sets[path]) == globs_of(
                texts(list@),
                false,
            )
        },
    }
}

fn build_path_sets(patterns: ListMap<PathParts, Vec<String>>) -> (sets: ListMap<PathParts, GlobSet>)
    requires
        has_distinct_keys(patterns.entries@),
        can_all_be_tried(pattern_views(patterns@)),
    ensures
        is_built(sets@, pattern_views(patterns@)),
{
    let ghost views = pattern_views(patterns@);
    let mut rest: Vec<(PathParts, Vec<String>)> = patterns.entries;
    let ghost given = rest@;
    let mut sets: ListMap<PathParts, GlobSet> = ListMap::new();
    while rest.len() > 0
        invariant
            views == pattern_views(patterns@),
            given == patterns.entries@,
            has_distinct_keys(given),
            can_all_be_tried(views),
            rest@.len() <= given.len(),
            rest@ == given.skip(given.len() - rest@.len()),
            forall|path: Seq<PartView>| #[trigger]
                built_from(sets@, given.take(given.len() - rest@.len()), path),
        decreases rest@.len(),
    {
        let ghost done = given.len() - rest@.len();
        let ghost before = sets@;
        let (path, list) = rest.remove(0);
        proof {
            entry_is_found(given, done);
            assert(views.contains_key(path@));
        }
        assert(rest@ =~= given.skip(done + 1));
        assert(given.take(done + 1).drop_last() =~= given.take(done));
        assert(given.take(done + 1).last() == given[done]);
        let dropped = sets.remove(&path);
        if let Some(set) = build_glob_set(&list, false) {
            sets.insert(path, set);
        }
        proof {
            assert forall|other: Seq<PartView>| #[trigger]
                built_from(sets@, given.take(done + 1), other) by {
                assert(built_from(before, given.take(done), other));
            }
        }
    }
    assert(given.take(given.len() as int) =~= given);
    proof {
        assert forall|path: Seq<PartView>|
            (#[trigger] sets@.contains_key(path) <==> views.contains_key(path) && can_be_set(
                views[path],
                false,
            )) && (sets@.contains_key(path) ==> set_globs(sets@[path]) == globs_of(
                views[path],
                false,
            )) by {
            assert(built_from(sets@, given, path));
        }
    }
    sets
}

/// Watchers that a server registered while it runs, by the registration.
#[derive(Debug)]
pub struct DynamicRegistrations {
    pub did_change_watched_files: ListMap<String, Vec<FileSystemWatcher>>,
}

/// All watchers of all registrations.
pub open spec fn all_watchers(entries: Seq<(String, Vec<FileSystemWatcher>)>) -> Seq<
    FileSystemWatcher,
>
    decreases entries.len(),
{
    if entries.len() == 0 {
        Seq::empty()
    } else {
        all_watchers(entries.drop_last()) + entries.last().1@
    }
}

pub open spec fn are_well_formed(watchers: Seq<FileSystemWatcher>) -> bool {
    forall|i: int| 0 <= i < watchers.len() ==> (#[trigger] watchers[i]).well_formed()
}

proof fn all_are_well_formed(entries: Seq<(String, Vec<FileSystemWatcher>)>)
    requires
        forall|i: int| 0 <= i < entries.len() ==> are_well_formed((#[trigger] entries[i]).1@),
    ensures
        are_well_formed(all_watchers(entries)),
    decreases entries.len(),
{
    if entries.len() > 0 {
        let earlier = entries.drop_last();
        assert forall|i: int| 0 <= i < earlier.len() implies are_well_formed(
            (#[trigger] earlier[i]).1@,
        ) by {
            assert(earlier[i] == entries[i]);
        }
        all_are_well_formed(earlier);
        let last = entries[entries.len() - 1].1@;
        assert forall|i: int| 0 <= i < all_watchers(entries).len() implies (
        #[trigger] all_watchers(entries)[i]).well_formed() by {
            let before = all_watchers(earlier);
            if i < before.len() {
                assert(all_watchers(entries)[i] == before[i]);
            } else {
                assert(all_watchers(entries)[i] == last[i - before.len()]);
            }
        }
    }
}

/// Where a watcher of an entry stands among all watchers.
proof fn watcher_is_among_all(
    entries: Seq<(String, Vec<FileSystemWatcher>)>,
    i: int,
    j: int,
) -> (at: int)
    requires
        0 <= i < entries.len(),
        0 <= j < entries[i].1@.len(),
    ensures
        0 <= at < all_watchers(entries).len(),
        all_watchers(entries)[at] == entries[i].1@[j],
    decreases entries.len(),
{
    let earlier = entries.drop_last();
    if i < entries.len() - 1 {
        watcher_is_among_all(earlier, i, j)
    } else {
        all_watchers(earlier).len() + j
    }
}

impl DynamicRegistrations {
    pub fn new() -> (registrations: Self)
        ensures
            registrations.well_formed(),
            registrations.did_change_watched_files@ == Map::<
                Seq<char>,
                Vec<FileSystemWatcher>,
            >::empty(),
    {
        DynamicRegistrations { did_change_watched_files: ListMap::new() }
    }

    /// Nothing is registered twice under the same name, and every watcher is well-formed.
    pub open spec fn well_formed(&self) -> bool {
        &&& has_distinct_keys(self.did_change_watched_files.entries@)
        &&& forall|id: Seq<char>| #[trigger]
            self.did_change_watched_files@.contains_key(id) ==> are_well_formed(
                self.did_change_watched_files@[id]@,
            )
    }

    /// Enters the watchers of a registration, in place of what was registered under it.
    pub fn on_lsp_did_change_watched_files(
        &mut self,
        registration_id: String,
        watchers: Vec<FileSystemWatcher>,
    )
        requires
            old(self).well_formed(),
            are_well_formed(watchers@),
        ensures
            final(self).well_formed(),
            final(self).did_change_watched_files@ == old(self).did_change_watched_files@.insert(
                registration_id@,
                watchers,
            ),
    {
        self.did_change_watched_files.insert(registration_id, watchers);
    }

    /// Withdraws a registration. Says whether there was one.
    pub fn on_lsp_unregister_did_change_watched_files(&mut self, registration_id: &String) -> (
        removed: bool)
        requires
            old(self).well_formed(),
        ensures
            final(self).well_formed(),
            final(self).did_change_watched_files@ == old(self).did_change_watched_files@.remove(
                registration_id@,
            ),
            removed == old(self).did_change_watched_files@.contains_key(registration_id@),
    {
        self.did_change_watched_files.remove(registration_id).is_some()
    }

    proof fn lemma_watchers_are_well_formed(self)
        requires
            self.well_formed(),
        ensures
            are_well_formed(all_watchers(self.did_change_watched_files.entries@)),
    {
        let entries = self.did_change_watched_files.entries@;
        assert forall|i: int| 0 <= i < entries.len() implies are_well_formed(
            (#[trigger] entries[i]).1@,
        ) by {
            entry_is_found(entries, i);
            assert(self.did_change_watched_files@.contains_key(entries[i].0@));
        }
        all_are_well_formed(entries);
    }

    /// What has to be watched for all registrations of a server in worktrees, and what the
    /// worktrees have to scan for it.
    pub fn rebuild_watched_paths(&self, worktrees: &Vec<WatchRoot>) -> (result: (
        LanguageServerWatchedPaths,
        Vec<(u64, Vec<PathPart>)>,
    ))
        requires
            self.well_formed(),
            are_distinct(worktrees@),
            can_be_watched(all_watchers(self.did_change_watched_files.entries@)),
        ensures
            ({
                let watch = watched(
                    worktrees@,
                    all_watchers(self.did_change_watched_files.entries@),
                );
                &&& is_built(result.0.worktree_paths@, watch.worktree_patterns)
                &&& is_built(result.0.abs_paths@, watch.abs_patterns)
                &&& result.1@.map_values(|s: (u64, Vec<PathPart>)| (s.0, part_views(s.1@)))
                    == watch.scans
            }),
    {
        let mut patterns = WatchedPatterns {
            worktree_patterns: BTreeMap::new(),
            abs_patterns: ListMap::new(),
            scans: Vec::new(),
        };
        let entries: &Vec<(String, Vec<FileSystemWatcher>)> =
            &self.did_change_watched_files.entries;
        proof {
            let empty = watched(worktrees@, Seq::<FileSystemWatcher>::empty());
            assert(patterns@.worktree_patterns =~= empty.worktree_patterns);
            assert(patterns@.abs_patterns =~= empty.abs_patterns);
            assert(patterns@.scans =~= empty.scans);
            self.lemma_watchers_are_well_formed();
        }
        let ghost watchers = all_watchers(entries@);
        let mut i: usize = 0;
        while i < entries.len()
            invariant
                i <= entries@.len(),
                entries@ == self.did_change_watched_files.entries@,
                watchers == all_watchers(entries@),
                are_well_formed(watchers),
                can_be_watched(watchers),
                has_distinct_keys(patterns.abs_patterns.entries@),
                patterns@ == watched(worktrees@, all_watchers(entries@.take(i as int))),
            decreases entries@.len() - i,
        {
            let list: &Vec<FileSystemWatcher> = &entries[i].1;
            let ghost earlier = all_watchers(entries@.take(i as int));
            proof {
                assert(entries@.take(i + 1).drop_last() =~= entries@.take(i as int));
                assert(entries@.take(i + 1).last() == entries@[i as int]);
                assert(earlier + list@.take(0) =~= earlier);
            }
            let mut j: usize = 0;
            while j < list.len()
                invariant
                    j <= list@.len(),
                    i < entries@.len(),
                    entries@ == self.did_change_watched_files.entries@,
                    *list == entries@[i as int].1,
                    watchers == all_watchers(entries@),
                    are_well_formed(watchers),
                    can_be_watched(watchers),
                    has_distinct_keys(patterns.abs_patterns.entries@),
                    patterns@ == watched(worktrees@, earlier + list@.take(j as int)),
                decreases list@.len() - j,
            {
                proof {
                    let next = earlier + list@.take(j + 1);
                    assert(next.drop_last() =~= earlier + list@.take(j as int));
                    assert(next.last() == list@[j as int]);
                    let at = watcher_is_among_all(entries@, i as int, j as int);
                    assert(watchers[at] == list@[j as int]);
                }
                patterns.add_watcher(worktrees, &list[j]);
                j += 1;
            }
            assert(list@.take(j as int) =~= list@);
            i += 1;
        }
        assert(entries@.take(i as int) =~= entries@);
        proof {
            watched_can_be_tried(worktrees@, watchers);
        }
        let worktree_paths = build_worktree_sets(&patterns.worktree_patterns);
        let abs_paths = build_path_sets(patterns.abs_patterns);
        (LanguageServerWatchedPaths { worktree_paths, abs_paths }, patterns.scans)
    }
}

/// How an entry of a worktree changed.
#[derive(Clone, Copy, Debug, PartialEq, Eq, Structural)]
pub enum PathChange {
    Added,
    Removed,
    Updated,
    AddedOrUpdated,
    Loaded,
}

/// How a server is told that a file changed.
#[derive(Clone, Copy, Debug, PartialEq, Eq, Structural)]
pub enum FileChangeType {
    Created,
    Changed,
    Deleted,
}

/// What happened to a path outside the worktrees.
#[derive(Clone, Copy, Debug, PartialEq, Eq, Structural)]
pub enum PathEventKind {
    Created,
    Removed,
    Changed,
    Rescan,
}

pub open spec fn change_type(change: PathChange) -> Option<FileChangeType> {
    match change {
        PathChange::Loaded => None,
        PathChange::Added => Some(FileChangeType::Created),
        PathChange::Removed => Some(FileChangeType::Deleted),
        PathChange::Updated | PathChange::AddedOrUpdated => Some(FileChangeType::Changed),
    }
}

pub open spec fn event_type(kind: Option<PathEventKind>) -> Option<FileChangeType> {
    match kind {
        None => None,
        Some(PathEventKind::Created) => Some(FileChangeType::Created),
        Some(PathEventKind::Removed) => Some(FileChangeType::Deleted),
        Some(PathEventKind::Changed) | Some(PathEventKind::Rescan) => Some(
            FileChangeType::Changed,
        ),
    }
}

/// A change of an entry: its path in the worktree, and its URI where it has one.
#[derive(Debug)]
pub struct EntryChange {
    pub path: String,
    pub uri: Option<String>,
    pub change: PathChange,
}

/// An event on a path outside the worktrees.
#[derive(Debug)]
pub struct PathEvent {
    pub path: String,
    pub uri: Option<String>,
    pub kind: Option<PathEventKind>,
}

#[derive(Debug)]
pub struct FileEvent {
    pub uri: String,
    pub typ: FileChangeType,
}

/// The changes that a server is told about: those that its patterns match, of files with
/// a URI, which were not merely loaded.
pub open spec fn told(globs: Seq<(Seq<char>, bool)>, changes: Seq<EntryChange>) -> Seq<FileEvent>
    decreases changes.len(),
{
    if changes.len() == 0 {
        Seq::empty()
    } else {
        let earlier = told(globs, changes.drop_last());
        let change = changes.last();
        match (change_type(change.change), change.uri) {
            (Some(typ), Some(uri)) => if some_glob_matches(globs, change.path@) {
                earlier.push(FileEvent { uri, typ })
            } else {
                earlier
            },
            _ => earlier,
        }
    }
}

/// The same of events outside the worktrees.
pub open spec fn told_outside(globs: Seq<(Seq<char>, bool)>, events: Seq<PathEvent>) -> Seq<
    FileEvent,
>
    decreases events.len(),
{
    if events.len() == 0 {
        Seq::empty()
    } else {
        let earlier = told_outside(globs, events.drop_last());
        let event = events.last();
        match (event_type(event.kind), event.uri) {
            (Some(typ), Some(uri)) => if some_glob_matches(globs, event.path@) {
                earlier.push(FileEvent { uri, typ })
            } else {
                earlier
            },
            _ => earlier,
        }
    }
}

/// Collects what a server is told about changes in a worktree. Nothing is sent if there
/// is nothing.
pub fn watched_changes(watched_paths: &GlobSet, changes: &Vec<EntryChange>) -> (events: Vec<
    FileEvent,
>)
    ensures
        events@ == told(set_globs(*watched_paths), changes@),
{
    let mut events: Vec<FileEvent> = Vec::new();
    let mut i: usize = 0;
    while i < changes.len()
        invariant
            i <= changes@.len(),
            events@ == told(set_globs(*watched_paths), changes@.take(i as int)),
        decreases changes@.len() - i,
    {
        let change: &EntryChange = &changes[i];
        assert(changes@.take(i + 1).drop_last() =~= changes@.take(i as int));
        assert(changes@.take(i + 1).last() == changes@[i as int]);
        let typ: Option<FileChangeType> = match change.change {
            PathChange::Loaded => None,
            PathChange::Added => Some(FileChangeType::Created),
            PathChange::Removed => Some(FileChangeType::Deleted),
            PathChange::Updated | PathChange::AddedOrUpdated => Some(FileChangeType::Changed),
        };
        if is_match(watched_paths, change.path.as_str()) {
            if let Some(typ) = typ {
                if let Some(uri) = &change.uri {
                    events.push(FileEvent { uri: uri.clone(), typ });
                }
            }
        }
        i += 1;
    }
    assert(changes@.take(i as int) =~= changes@);
    events
}

/// Collects what a server is told about events outside the worktrees.
pub fn lsp_notify_abs_paths_changed(globs: &GlobSet, events: &Vec<PathEvent>) -> (result: Vec<
    FileEvent,
>)
    ensures
        result@ == told_outside(set_globs(*globs), events@),
{
    let mut result: Vec<FileEvent> = Vec::new();
    let mut i: usize = 0;
    while i < events.len()
        invariant
            i <= events@.len(),
            result@ == told_outside(set_globs(*globs), events@.take(i as int)),
        decreases events@.len() - i,
    {
        let event: &PathEvent = &events[i];
        assert(events@.take(i + 1).drop_last() =~= events@.take(i as int));
        assert(events@.take(i + 1).last() == events@[i as int]);
        let typ: Option<FileChangeType> = match event.kind {
            None => None,
            Some(PathEventKind::Created) => Some(FileChangeType::Created),
            Some(PathEventKind::Removed) => Some(FileChangeType::Deleted),
            Some(PathEventKind::Changed) | Some(PathEventKind::Rescan) => Some(
                FileChangeType::Changed,
            ),
        };
        if is_match(globs, event.path.as_str()) {
            if let Some(typ) = typ {
                if let Some(uri) = &event.uri {
                    result.push(FileEvent { uri: uri.clone(), typ });
                }
            }
        }
        i += 1;
    }
    assert(events@.take(i as int) =~= events@);
    result
}

/// What one server is told about changes in a worktree: nothing unless it runs and watches
/// files there.
pub open spec fn server_told(
    store: LocalView,
    watched: Map<u64, LanguageServerWatchedPaths>,
    worktree: u64,
    changes: Seq<EntryChange>,
    server: u64,
) -> Seq<FileEvent> {
    if store.servers.contains_key(server) && store.servers[server] == LanguageServerState::Running
        && watched.contains_key(server) && watched[server].worktree_paths@.contains_key(worktree) {
        told(set_globs(watched[server].worktree_paths@[worktree]), changes)
    } else {
        Seq::empty()
    }
}

/// The servers that are told something, each with what it is told.
pub open spec fn all_told(
    store: LocalView,
    watched: Map<u64, LanguageServerWatchedPaths>,
    worktree: u64,
    changes: Seq<EntryChange>,
    servers: Seq<u64>,
) -> Seq<(u64, Seq<FileEvent>)>
    decreases servers.len(),
{
    if servers.len() == 0 {
        Seq::empty()
    } else {
        let earlier = all_told(store, watched, worktree, changes, servers.drop_last());
        let events = server_told(store, watched, worktree, changes, servers.last());
        if events.len() == 0 {
            earlier
        } else {
            earlier.push((servers.last(), events))
        }
    }
}

pub open spec fn notice_views(notices: Seq<(u64, Vec<FileEvent>)>) -> Seq<(u64, Seq<FileEvent>)> {
    notices.map_values(|notice: (u64, Vec<FileEvent>)| (notice.0, notice.1@))
}

/// The servers of the worktree, in ascending order.
pub open spec fn are_servers_of(store: LocalView, worktree: u64, servers: Seq<u64>) -> bool {
    ascending(servers) && forall|server: u64| #[trigger]
        servers.contains(server) <==> serves_worktree(store.ids, worktree, server)
}

/// Entries of a worktree changed. Says which servers are told, and of what: the running ones of
/// the worktree whose patterns match some of the changes.
pub fn update_local_worktree_language_servers(
    store: &LocalLspStore,
    watched: &BTreeMap<u64, LanguageServerWatchedPaths>,
    worktree_id: u64,
    changes: &Vec<EntryChange>,
) -> (notices: Vec<(u64, Vec<FileEvent>)>)
    requires
        store.well_formed(),
    ensures
        exists|servers: Seq<u64>| #[trigger]
            are_servers_of(store@, worktree_id, servers) && notice_views(notices@) == all_told(
                store@,
                watched@,
                worktree_id,
                changes@,
                servers,
            ),
{
    let servers: Vec<u64> = store.language_server_ids_for_worktree(worktree_id);
    assert(are_servers_of(store@, worktree_id, servers@));
    let mut notices: Vec<(u64, Vec<FileEvent>)> = Vec::new();
    let mut i: usize = 0;
    assert(notice_views(notices@) =~= Seq::<(u64, Seq<FileEvent>)>::empty());
    while i < servers.len()
        invariant
            i <= servers@.len(),
            notice_views(notices@) == all_told(
                store@,
                watched@,
                worktree_id,
                changes@,
                servers@.take(i as int),
            ),
        decreases servers@.len() - i,
    {
        let server: u64 = servers[i];
        let ghost before = notice_views(notices@);
        assert(servers@.take(i + 1).drop_last() =~= servers@.take(i as int));
        assert(servers@.take(i + 1).last() == server);
        let mut events: Vec<FileEvent> = Vec::new();
        if store.running_language_server_for_id(server) {
            if let Some(paths) = map_get(watched, server) {
                if let Some(globs) = map_get(&paths.worktree_paths, worktree_id) {
                    events = watched_changes(globs, changes);
                }
            }
        }
        assert(events@ =~= server_told(store@, watched@, worktree_id, changes@, server));
        if events.len() > 0 {
            notices.push((server, events));
            assert(notice_views(notices@) =~= before.push((server, events@)));
        }
        i += 1;
    }
    assert(servers@.take(i as int) =~= servers@);
    notices
}
proof fn literal_components_come_first(parts: Seq<PartView>)
    ensures
        literal_len(parts) <= parts.len(),
        forall|i: int| 0 <= i < literal_len(parts) ==> is_literal(#[trigger] parts[i]),
        literal_len(parts) < parts.len() ==> !is_literal(parts[literal_len(parts) as int]),
    decreases parts.len(),
{
    if parts.len() > 0 && is_literal(parts[0]) {
        literal_components_come_first(parts.skip(1));
        assert forall|i: int| 0 <= i < literal_len(parts) implies is_literal(
            #[trigger] parts[i],
        ) by {
            if i > 0 {
                assert(parts.skip(1)[i - 1] == parts[i]);
            }
        }
        if literal_len(parts) < parts.len() {
            assert(parts.skip(1)[literal_len(parts) - 1] == parts[literal_len(parts) as int]);
        }
    }
}

/// The literal prefix of a pattern is its start up to the first name with a wildcard in it.
pub proof fn prefixes_end_at_the_first_wildcard(
    glob: Vec<PathPart>,
    prefix: Vec<PathPart>,
    i: int,
    k: int,
)
    requires
        call_ensures(glob_literal_prefix, (&glob,), prefix),
    ensures
        prefix@.len() <= glob@.len(),
        0 <= i < prefix@.len() ==> prefix@[i]@ == glob@[i]@,
        0 <= i < prefix@.len() && glob@[i].kind is Normal && 0 <= k < glob@[i].text@.len() ==> {
            let c = glob@[i].text@[k];
            c != '*' && c != '?' && c != '{' && c != '}'
        },
        prefix@.len() < glob@.len() ==> glob@[prefix@.len() as int].kind is Normal && exists|n: int|
            0 <= n < glob@[prefix@.len() as int].text@.len() && {
                let c = #[trigger] glob@[prefix@.len() as int].text@[n];
                c == '*' || c == '?' || c == '{' || c == '}'
            },
{
    let parts = part_views(glob@);
    let views = part_views(prefix@);
    literal_components_come_first(parts);
    assert(views.len() == prefix@.len() && parts.len() == glob@.len());
    if 0 <= i < prefix@.len() {
        assert(views[i] == prefix@[i]@ && parts[i] == glob@[i]@);
        assert(is_literal(parts[i]));
        if glob@[i].kind is Normal && 0 <= k < glob@[i].text@.len() {
            assert(!is_wild(parts[i].text[k]));
        }
    }
    if prefix@.len() < glob@.len() {
        let part = parts[prefix@.len() as int];
        assert(part == glob@[prefix@.len() as int]@);
        assert(!is_literal(part));
        let n = choose|n: int| 0 <= n < part.text.len() && is_wild(#[trigger] part.text[n]);
        assert(is_wild(glob@[prefix@.len() as int].text@[n]));
    }
}

/// A pattern looks into a worktree if it begins with the path of the worktree, and what is left
/// of it is looked for there.
pub proof fn patterns_look_below_their_start(
    watcher: FileSystemWatcher,
    pattern: PatternPath,
    worktree: WatchRoot,
    found: Option<(Vec<PathPart>, String)>,
    rest: Vec<PathPart>,
    prefix: Vec<PathPart>,
)
    requires
        watcher.glob_pattern == GlobPattern::Text(pattern),
        call_ensures(FileSystemWatcher::path_in_worktree, (&watcher, &worktree), found),
        rest@ == pattern.parts@.skip(worktree.abs_path.parts@.len() as int),
        call_ensures(glob_literal_prefix, (&rest,), prefix),
    ensures
        ({
            let root = worktree.abs_path.parts@;
            let below = root.len() <= pattern.parts@.len() && forall|i: int|
                0 <= i < root.len() ==> (#[trigger] pattern.parts@[i])@ == root[i]@;
            &&& found is Some <==> below
            &&& below ==> (found->0).1@ == pattern.rests@[root.len() as int]@
            &&& below ==> part_views((found->0).0@) == part_views(prefix@)
        }),
{
    let root = worktree.abs_path.parts@;
    let parts = part_views(pattern.parts@);
    let base = worktree.abs_path@;
    assert(base.len() == root.len() && parts.len() == pattern.parts@.len());
    let below = root.len() <= pattern.parts@.len() && forall|i: int|
        0 <= i < root.len() ==> (#[trigger] pattern.parts@[i])@ == root[i]@;
    if begins_with(parts, base) {
        assert forall|i: int| 0 <= i < root.len() implies (#[trigger] pattern.parts@[i])@
            == root[i]@ by {
            assert(parts.take(base.len() as int)[i] == parts[i]);
            assert(base[i] == root[i]@ && parts[i] == pattern.parts@[i]@);
        }
    }
    if below {
        assert(parts.take(base.len() as int) =~= base) by {
            assert forall|i: int| 0 <= i < base.len() implies #[trigger] parts.take(
                base.len() as int,
            )[i] == base[i] by {
                assert(parts[i] == pattern.parts@[i]@ && base[i] == root[i]@);
            }
        }
        assert(part_views(rest@) =~= parts.skip(base.len() as int));
    }
}

/// A pattern below a base looks into a worktree if the base lies in it, and is looked for as it
/// is written; without a base it looks nowhere.
pub proof fn patterns_look_below_their_base(
    watcher: FileSystemWatcher,
    base: Option<PathParts>,
    pattern: PatternPath,
    pattern_text: String,
    worktree: WatchRoot,
    found: Option<(Vec<PathPart>, String)>,
)
    requires
        watcher.glob_pattern == (GlobPattern::Relative { base, pattern, pattern_text }),
        call_ensures(FileSystemWatcher::path_in_worktree, (&watcher, &worktree), found),
    ensures
        base is None ==> found is None,
        found is Some ==> worktree.abs_path@.len() <= base->0@.len() && base->0@.take(
            worktree.abs_path@.len() as int,
        ) == worktree.abs_path@,
        base is Some && base->0@ == worktree.abs_path@ ==> found is Some,
        found is Some ==> (found->0).1@ == pattern_text@,
{
    if base is Some && base->0@ == worktree.abs_path@ {
        assert(base->0@.take(worktree.abs_path@.len() as int) =~= worktree.abs_path@);
    }
}

proof fn earlier_worktrees_do_not_hold_it(
    worktrees: Seq<WatchRoot>,
    watcher: FileSystemWatcher,
    from: int,
    i: int,
)
    requires
        0 <= from <= i < worktrees.len(),
    ensures
        ({
            let looks = within(worktrees[i].abs_path@, watcher) is Some
                && !watcher.rejected_by@.contains(worktrees[i].id);
            match first_worktree(worktrees, watcher, from) {
                Some(at) => (i < at ==> !looks) && (i == at ==> looks),
                None => !looks,
            }
        }),
    decreases worktrees.len() - from,
{
    first_worktree_comes_behind(worktrees, watcher, from + 1);
    if from < i {
        earlier_worktrees_do_not_hold_it(worktrees, watcher, from + 1, i);
    }
}

proof fn first_worktree_comes_behind(
    worktrees: Seq<WatchRoot>,
    watcher: FileSystemWatcher,
    from: int,
)
    requires
        0 <= from,
    ensures
        first_worktree(worktrees, watcher, from) matches Some(at) ==> from <= at < worktrees.len(),
    decreases worktrees.len() - from,
{
    if from < worktrees.len() {
        first_worktree_comes_behind(worktrees, watcher, from + 1);
    }
}

/// A watcher looks into the first worktree that holds what it looks for and does not reject it.
pub proof fn watchers_look_into_the_first_worktree(
    watcher: FileSystemWatcher,
    worktrees: Vec<WatchRoot>,
    found: Option<(usize, Vec<PathPart>, String)>,
    i: int,
    own: Option<(Vec<PathPart>, String)>,
)
    requires
        call_ensures(
            FileSystemWatcher::worktree_and_path_for_file_watcher,
            (&watcher, &worktrees),
            found,
        ),
        0 <= i < worktrees@.len(),
        call_ensures(FileSystemWatcher::path_in_worktree, (&watcher, &worktrees@[i]), own),
    ensures
        own is Some && !watcher.rejected_by@.contains(worktrees@[i].id) ==> found is Some
            && (found->0).0 <= i,
        found is Some && (found->0).0 == i ==> own is Some && !watcher.rejected_by@.contains(
            worktrees@[i].id,
        ) && (found->0).2@ == (own->0).1@ && part_views((found->0).1@) == part_views((own->0).0@),
        found is Some ==> (found->0).0 < worktrees@.len(),
{
    earlier_worktrees_do_not_hold_it(worktrees@, watcher, 0, i);
}

/// A server is told of a change in a worktree if its patterns match the path, the file has a
/// URI and the file was not merely loaded: an added file is created, a removed one deleted, and
/// any other changed.
pub proof fn matching_changes_are_told(
    set: GlobSet,
    changes: Vec<EntryChange>,
    events: Vec<FileEvent>,
    change: EntryChange,
    path: &str,
    matched: bool,
    more: Vec<EntryChange>,
    all: Vec<FileEvent>,
)
    requires
        call_ensures(watched_changes, (&set, &changes), events),
        call_ensures(watched_changes, (&set, &more), all),
        more@ == changes@.push(change),
        path@ == change.path@,
        call_ensures(is_match, (&set, path), matched),
    ensures
        changes@.len() == 0 ==> events@.len() == 0,
        !matched || change.uri is None || change.change is Loaded ==> all@ == events@,
        matched && change.uri is Some && !(change.change is Loaded) ==> {
            &&& all@.len() == events@.len() + 1
            &&& all@.drop_last() == events@
            &&& all@.last().uri == change.uri->0
            &&& all@.last().typ is Created <==> change.change is Added
            &&& all@.last().typ is Deleted <==> change.change is Removed
        },
{
    assert(more@.drop_last() =~= changes@);
    if matched && change.uri is Some && !(change.change is Loaded) {
        assert(all@.drop_last() =~= events@);
    }
}

/// A server is told of an event outside the worktrees in the same way.
pub proof fn matching_events_are_told(
    set: GlobSet,
    events: Vec<PathEvent>,
    result: Vec<FileEvent>,
    event: PathEvent,
    path: &str,
    matched: bool,
    more: Vec<PathEvent>,
    all: Vec<FileEvent>,
)
    requires
        call_ensures(lsp_notify_abs_paths_changed, (&set, &events), result),
        call_ensures(lsp_notify_abs_paths_changed, (&set, &more), all),
        more@ == events@.push(event),
        path@ == event.path@,
        call_ensures(is_match, (&set, path), matched),
    ensures
        events@.len() == 0 ==> result@.len() == 0,
        !matched || event.uri is None || event.kind is None ==> all@ == result@,
        matched && event.uri is Some && event.kind is Some ==> {
            &&& all@.len() == result@.len() + 1
            &&& all@.drop_last() == result@
            &&& all@.last().uri == event.uri->0
            &&& all@.last().typ is Created <==> event.kind->0 is Created
            &&& all@.last().typ is Deleted <==> event.kind->0 is Removed
        },
{
    assert(more@.drop_last() =~= events@);
    if matched && event.uri is Some && event.kind is Some {
        assert(all@.drop_last() =~= result@);
    }
}

/// Watchers are registered under their name until they are withdrawn; other registrations stay.
pub proof fn registrations_last_until_withdrawn(
    registrations: &mut DynamicRegistrations,
    id: String,
    watchers: Vec<FileSystemWatcher>,
    again: &mut DynamicRegistrations,
    removed: bool,
    other: Seq<char>,
)
    requires
        call_ensures(
            DynamicRegistrations::on_lsp_did_change_watched_files,
            (registrations, id, watchers),
            (),
        ),
        *old(again) == *final(registrations),
        call_ensures(
            DynamicRegistrations::on_lsp_unregister_did_change_watched_files,
            (again, &id),
            removed,
        ),
    ensures
        final(registrations).did_change_watched_files@.contains_key(id@),
        final(registrations).did_change_watched_files@[id@] == watchers,
        removed,
        !final(again).did_change_watched_files@.contains_key(id@),
        other != id@ ==> (final(again).did_change_watched_files@.contains_key(other) <==> old(registrations).did_change_watched_files@.contains_key(other)),
        other != id@ && old(registrations).did_change_watched_files@.contains_key(other) ==> final(again).did_change_watched_files@[other] == old(registrations).did_change_watched_files@[other],
{
}

proof fn told_servers_watch_the_worktree(
    store: LocalView,
    watched: Map<u64, LanguageServerWatchedPaths>,
    worktree: u64,
    changes: Seq<EntryChange>,
    servers: Seq<u64>,
    n: int,
)
    requires
        0 <= n < all_told(store, watched, worktree, changes, servers).len(),
    ensures
        ({
            let notice = all_told(store, watched, worktree, changes, servers)[n];
            &&& servers.contains(notice.0)
            &&& notice.1.len() > 0
            &&& notice.1 == server_told(store, watched, worktree, changes, notice.0)
        }),
    decreases servers.len(),
{
    let earlier = all_told(store, watched, worktree, changes, servers.drop_last());
    assert(servers[servers.len() - 1] == servers.last());
    if n < earlier.len() {
        told_servers_watch_the_worktree(
            store,
            watched,
            worktree,
            changes,
            servers.drop_last(),
            n,
        );
        let server = earlier[n].0;
        let k = choose|k: int|
            0 <= k < servers.drop_last().len() && servers.drop_last()[k] == server;
        assert(servers[k] == server);
    }
}

/// Only running servers of the worktree that watch files there are told of changes in it, and
/// never of none. Each is told what its own patterns match.
pub proof fn running_servers_are_told(
    store: LocalLspStore,
    watched: BTreeMap<u64, LanguageServerWatchedPaths>,
    worktree_id: u64,
    changes: Vec<EntryChange>,
    notices: Vec<(u64, Vec<FileEvent>)>,
    n: int,
    set: GlobSet,
    events: Vec<FileEvent>,
)
    requires
        call_ensures(
            update_local_worktree_language_servers,
            (&store, &watched, worktree_id, &changes),
            notices,
        ),
        0 <= n < notices@.len(),
        watched@.contains_key(notices@[n].0)
            && watched@[notices@[n].0].worktree_paths@.contains_key(worktree_id) ==> set
            == watched@[notices@[n].0].worktree_paths@[worktree_id],
        call_ensures(watched_changes, (&set, &changes), events),
    ensures
        serves_worktree(store@.ids, worktree_id, notices@[n].0),
        store@.servers.contains_key(notices@[n].0),
        store@.servers[notices@[n].0] is Running,
        watched@.contains_key(notices@[n].0),
        watched@[notices@[n].0].worktree_paths@.contains_key(worktree_id),
        notices@[n].1@.len() > 0,
        notices@[n].1@ == events@,
{
    let servers = choose|servers: Seq<u64>| #[trigger]
        are_servers_of(store@, worktree_id, servers) && notice_views(notices@) == all_told(
            store@,
            watched@,
            worktree_id,
            changes@,
            servers,
        );
    let views = notice_views(notices@);
    assert(views.len() == notices@.len());
    assert(views[n] == (notices@[n].0, notices@[n].1@));
    told_servers_watch_the_worktree(store@, watched@, worktree_id, changes@, servers, n);
    assert(servers.contains(notices@[n].0));
}

/// A single watcher is watched where it looks: in the first worktree that it looks into, which
/// then has to be here, or else outside.
pub proof fn watchers_are_watched_where_they_look(
    registrations: DynamicRegistrations,
    worktrees: Vec<WatchRoot>,
    result: (LanguageServerWatchedPaths, Vec<(u64, Vec<PathPart>)>),
    found: Option<(usize, Vec<PathPart>, String)>,
    id: u64,
)
    requires
        call_ensures(
            DynamicRegistrations::rebuild_watched_paths,
            (&registrations, &worktrees),
            result,
        ),
        registrations.did_change_watched_files.entries@.len() == 1,
        registrations.did_change_watched_files.entries@[0].1@.len() == 1,
        call_ensures(
            FileSystemWatcher::worktree_and_path_for_file_watcher,
            (&registrations.did_change_watched_files.entries@[0].1@[0], &worktrees),
            found,
        ),
    ensures
        found is Some ==> (result.0.worktree_paths@.contains_key(id) ==> id
            == worktrees@[(found->0).0 as int].id && worktrees@[(found->0).0 as int].is_local),
        found is Some && result.0.worktree_paths@.contains_key(id) ==> set_globs(
            result.0.worktree_paths@[id],
        ) == seq![((found->0).2@, false)],
        found is Some ==> result.1@.len() == (if worktrees@[(found->0).0 as int].is_local
            && glob_is_valid((found->0).2@, false) {
            1int
        } else {
            0
        }),
        found is Some && result.1@.len() == 1 ==> result.1@[0].0
            == worktrees@[(found->0).0 as int].id && part_views(result.1@[0].1@) == part_views(
            (found->0).1@,
        ),
        found is None ==> result.1@.len() == 0,
{
    let entries = registrations.did_change_watched_files.entries@;
    let watcher = entries[0].1@[0];
    reveal_with_fuel(all_watchers, 2);
    reveal_with_fuel(watched, 2);
    assert(entries.drop_last().len() == 0);
    assert(entries.last() == entries[0]);
    let watchers = all_watchers(entries);
    assert(watchers =~= seq![watcher]);
    assert(watchers.drop_last().len() == 0);
    assert(watchers.last() == watcher);
    let nothing = WatchView {
        worktree_patterns: Map::empty(),
        abs_patterns: Map::empty(),
        scans: Seq::empty(),
    };
    let watch = watched(worktrees@, watchers);
    assert(watch == with_watcher(nothing, worktrees@, watcher));
    let scans = result.1@.map_values(|s: (u64, Vec<PathPart>)| (s.0, part_views(s.1@)));
    assert(scans.len() == result.1@.len());
    if result.1@.len() == 1 {
        assert(scans[0] == (result.1@[0].0, part_views(result.1@[0].1@)));
    }
    assert(result.0.worktree_paths@.contains_key(id) ==> watch.worktree_patterns.contains_key(id));
    if found is Some && result.0.worktree_paths@.contains_key(id) {
        assert(watch.worktree_patterns[id] =~= seq![(found->0).2@]);
        assert(globs_of(watch.worktree_patterns[id], false) =~= seq![((found->0).2@, false)]);
    }
}

} // verus!
