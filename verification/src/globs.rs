//! Glob patterns, matched by the `globset` crate.
use globset::{Error, Glob, GlobBuilder, GlobMatcher, GlobSet, GlobSetBuilder};
use vstd::prelude::*;

use crate::text::to_chars;

verus! {

/// A parsed pattern of the `globset` crate.
#[verifier::external_type_specification]
#[verifier::external_body]
pub struct ExGlob(Glob);

/// Patterns of the `globset` crate that are being collected.
#[verifier::external_type_specification]
#[verifier::external_body]
pub struct ExGlobSetBuilder(GlobSetBuilder);

/// Patterns of the `globset` crate that are matched together.
#[verifier::external_type_specification]
#[verifier::external_body]
pub struct ExGlobSet(GlobSet);

/// A pattern of the `globset` crate that is matched on its own.
#[verifier::external_type_specification]
#[verifier::external_body]
pub struct ExGlobMatcher(GlobMatcher);

/// Why the `globset` crate refused something.
#[verifier::external_type_specification]
#[verifier::external_body]
pub struct ExGlobError(Error);

/// A pattern, and whether it ignores case.
pub type GlobView = (Seq<char>, bool);

/// `GlobBuilder::build` takes the pattern.
pub uninterp spec fn glob_is_valid(pattern: Seq<char>, ignores_case: bool) -> bool;

/// The pattern of a `Glob`.
pub uninterp spec fn glob_pattern(glob: Glob) -> Seq<char>;

/// Whether a `Glob` ignores case.
pub uninterp spec fn glob_ignores_case(glob: Glob) -> bool;

/// The patterns in a `GlobSetBuilder`, in the order in which they were added.
pub uninterp spec fn collected_globs(builder: GlobSetBuilder) -> Seq<(Seq<char>, bool)>;

/// The patterns in a `GlobSet`.
pub uninterp spec fn set_globs(set: GlobSet) -> Seq<(Seq<char>, bool)>;

/// `GlobSetBuilder::build` makes a set out of these patterns.
pub uninterp spec fn glob_set_builds(globs: Seq<(Seq<char>, bool)>) -> bool;

/// A pattern in a set matches a path, as `GlobSet::is_match` sees it.
pub uninterp spec fn glob_matches(pattern: Seq<char>, ignores_case: bool, path: Seq<char>) -> bool;

/// The pattern of a `GlobMatcher`.
pub uninterp spec fn matcher_pattern(matcher: GlobMatcher) -> Seq<char>;

/// Whether a `GlobMatcher` ignores case.
pub uninterp spec fn matcher_ignores_case(matcher: GlobMatcher) -> bool;

/// A pattern on its own matches a path, as `GlobMatcher::is_match` sees it. In a set some
/// patterns are held against the last name in the path alone, so that the two part on a path
/// that ends in `..`, which has none.
pub uninterp spec fn glob_matches_alone(pattern: Seq<char>, ignores_case: bool, path: Seq<char>) -> bool;

/// Parses a pattern with `GlobBuilder::build`, default options but for the case. What a
/// valid pattern is the crate decides; a `Glob` keeps the pattern that it was made from.
/// Where `\` separates paths it is no escape character, so that what is valid depends on
/// the platform that the library is built for. Groups of alternatives are followed by
/// recursion, which takes less than two kilobytes of the stack for each level: a thousand levels
/// fit into the two megabytes that a thread has.
#[verifier::external_body]
fn parse_glob(pattern: &str, ignores_case: bool) -> (parsed: Result<Glob, Error>)
    requires
        is_parsable(pattern@),
    ensures
        parsed is Ok <==> glob_is_valid(pattern@, ignores_case),
        parsed matches Ok(glob) ==> glob_pattern(glob) == pattern@ && glob_ignores_case(glob)
            == ignores_case,
{
    GlobBuilder::new(pattern).case_insensitive(ignores_case).build()
}

/// Makes a matcher with `Glob::compile_matcher`: it matches the pattern that it was made of.
/// The call panics on a pattern whose expression is nested deeper than 250 levels or whose
/// automaton takes more than ten megabytes. A group of alternatives makes at most three levels,
/// and a character takes less than a kilobyte.
#[verifier::external_body]
fn matcher_of(glob: &Glob) -> (matcher: GlobMatcher)
    requires
        is_compilable(glob_pattern(*glob)),
    ensures
        matcher_pattern(matcher) == glob_pattern(*glob),
        matcher_ignores_case(matcher) == glob_ignores_case(*glob),
{
    glob.compile_matcher()
}

/// Matches a path with `GlobMatcher::is_match`. What a pattern matches the crate decides,
/// depending on how the platform separates paths.
#[verifier::external_body]
fn matcher_is_match(matcher: &GlobMatcher, path: &str) -> (found: bool)
    ensures
        found == glob_matches_alone(
            matcher_pattern(*matcher),
            matcher_ignores_case(*matcher),
            path@,
        ),
{
    matcher.is_match(path)
}

/// Begins a collection with `GlobSetBuilder::new`; it holds nothing.
#[verifier::external_body]
fn new_collection() -> (builder: GlobSetBuilder)
    ensures
        collected_globs(builder) == Seq::<(Seq<char>, bool)>::empty(),
{
    GlobSetBuilder::new()
}

/// Adds a pattern with `GlobSetBuilder::add`, behind those that are there.
#[verifier::external_body]
fn collect_glob(builder: &mut GlobSetBuilder, glob: Glob)
    ensures
        collected_globs(*final(builder)) == collected_globs(*old(builder)).push(
            (glob_pattern(glob), glob_ignores_case(glob)),
        ),
{
    builder.add(glob);
}

/// Builds a set with `GlobSetBuilder::build`: it holds the patterns that were collected.
/// Patterns whose expressions are nested too deep, or whose automata grow too large, are
/// refused. The tables for literal prefixes and suffixes are built without such a check: the
/// call panics where their entries can no longer be counted. There is a state for every byte of
/// the patterns and four more, and in every state at most one entry for each pattern.
#[verifier::external_body]
fn build_collection(builder: &GlobSetBuilder) -> (built: Result<GlobSet, Error>)
    requires
        fits_tables(collected_globs(*builder)),
    ensures
        built is Ok <==> glob_set_builds(collected_globs(*builder)),
        built matches Ok(set) ==> set_globs(set) == collected_globs(*builder),
{
    builder.build()
}

/// Matches a path with `GlobSet::is_match`: some pattern of the set matches it. What one
/// pattern matches the crate decides, again depending on how the platform separates paths.
#[verifier::external_body]
fn set_is_match(set: &GlobSet, path: &str) -> (found: bool)
    ensures
        found == (exists|i: int|
            0 <= i < set_globs(*set).len() && glob_matches(
                (#[trigger] set_globs(*set)[i]).0,
                set_globs(*set)[i].1,
                path@,
            )),
{
    set.is_match(path)
}

/// How deep groups of alternatives may be nested in a pattern that is parsed.
pub const MAX_NESTING: usize = 1000;

/// How deep they may be nested in a pattern that is matched on its own.
pub const MAX_MATCHER_NESTING: usize = 80;

/// How many characters a pattern may have that is matched on its own.
pub const MAX_MATCHER_LENGTH: usize = 8192;

/// How many entries the tables for literal prefixes and suffixes can have.
pub const MAX_TABLE: usize = 0x7fff_fffe;

/// How many groups are open at the end of a pattern in which every brace counts.
pub open spec fn open_groups(pattern: Seq<char>) -> int
    decreases pattern.len(),
{
    if pattern.len() == 0 {
        0
    } else {
        let before = open_groups(pattern.drop_last());
        if pattern.last() == '{' {
            before + 1
        } else if pattern.last() == '}' && before > 0 {
            before - 1
        } else {
            before
        }
    }
}

/// How many groups are open at most in a pattern in which every brace counts.
pub open spec fn deepest_group(pattern: Seq<char>) -> int
    decreases pattern.len(),
{
    if pattern.len() == 0 {
        0
    } else {
        let before = deepest_group(pattern.drop_last());
        if open_groups(pattern) > before {
            open_groups(pattern)
        } else {
            before
        }
    }
}

/// How many groups a pattern opens.
pub open spec fn all_groups(pattern: Seq<char>) -> int
    decreases pattern.len(),
{
    if pattern.len() == 0 {
        0
    } else {
        all_groups(pattern.drop_last()) + if pattern.last() == '{' {
            1int
        } else {
            0
        }
    }
}

/// No brace of the pattern can be escaped or stand in a class of characters.
pub open spec fn braces_count(pattern: Seq<char>) -> bool {
    !pattern.contains('\\') && !pattern.contains('[')
}

/// Groups are nested at most so deep. Where a closing brace may stand for itself, it is not
/// relied on.
pub open spec fn depth_bound(pattern: Seq<char>) -> int {
    if braces_count(pattern) {
        deepest_group(pattern)
    } else {
        all_groups(pattern)
    }
}

/// The stack is large enough for the groups of the pattern.
pub open spec fn is_parsable(pattern: Seq<char>) -> bool {
    depth_bound(pattern) <= MAX_NESTING
}

/// The pattern is small enough to be matched on its own.
pub open spec fn is_compilable(pattern: Seq<char>) -> bool {
    depth_bound(pattern) <= MAX_MATCHER_NESTING && pattern.len() <= MAX_MATCHER_LENGTH
}

/// How many bytes a character takes in a text.
pub open spec fn char_bytes(c: char) -> nat {
    if (c as u32) < 0x80 {
        1
    } else if (c as u32) < 0x800 {
        2
    } else if (c as u32) < 0x10000 {
        3
    } else {
        4
    }
}

/// How many bytes a text takes.
pub open spec fn text_bytes(text: Seq<char>) -> nat
    decreases text.len(),
{
    if text.len() == 0 {
        0
    } else {
        text_bytes(text.drop_last()) + char_bytes(text.last())
    }
}

/// How many bytes the patterns take together.
pub open spec fn total_bytes(globs: Seq<(Seq<char>, bool)>) -> nat
    decreases globs.len(),
{
    if globs.len() == 0 {
        0
    } else {
        total_bytes(globs.drop_last()) + text_bytes(globs.last().0)
    }
}

/// The most entries that tables have for so many patterns with so many bytes.
pub open spec fn table_bound(count: int, bytes: int) -> int {
    count * (bytes + 4) + 1024
}

/// The tables for the patterns do not grow too large.
pub open spec fn fits_tables(globs: Seq<(Seq<char>, bool)>) -> bool {
    table_bound(globs.len() as int, total_bytes(globs) as int) <= MAX_TABLE
}

/// Some of the patterns matches the path.
pub open spec fn some_glob_matches(globs: Seq<(Seq<char>, bool)>, path: Seq<char>) -> bool {
    exists|i: int|
        0 <= i < globs.len() && glob_matches((#[trigger] globs[i]).0, globs[i].1, path)
}

/// Patterns that are matched with the same regard to case.
pub open spec fn globs_of(patterns: Seq<Seq<char>>, ignores_case: bool) -> Seq<(Seq<char>, bool)> {
    patterns.map_values(|pattern: Seq<char>| (pattern, ignores_case))
}

/// The patterns can be matched together.
pub open spec fn can_be_set(patterns: Seq<Seq<char>>, ignores_case: bool) -> bool {
    &&& forall|i: int|
        0 <= i < patterns.len() ==> glob_is_valid(#[trigger] patterns[i], ignores_case)
    &&& glob_set_builds(globs_of(patterns, ignores_case))
}

/// A machine can make a set out of the patterns, or find that it cannot be made.
pub open spec fn can_be_tried(patterns: Seq<Seq<char>>, ignores_case: bool) -> bool {
    &&& forall|i: int| 0 <= i < patterns.len() ==> is_parsable(#[trigger] patterns[i])
    &&& fits_tables(globs_of(patterns, ignores_case))
}

/// Whether some pattern of a set matches a path.
pub fn is_match(set: &GlobSet, path: &str) -> (found: bool)
    ensures
        found == some_glob_matches(set_globs(*set), path@),
{
    set_is_match(set, path)
}

/// Whether a pattern on its own matches a path.
pub fn matches_path(matcher: &GlobMatcher, path: &str) -> (found: bool)
    ensures
        found == glob_matches_alone(
            matcher_pattern(*matcher),
            matcher_ignores_case(*matcher),
            path@,
        ),
{
    matcher_is_match(matcher, path)
}

/// How deep groups of alternatives are nested in a pattern at most, by which a caller tells
/// whether it can be parsed or matched on its own.
pub fn group_depth(pattern: &str) -> (depth: usize)
    ensures
        depth == depth_bound(pattern@),
{
    let chars: Vec<char> = to_chars(pattern);
    let mut opened: usize = 0;
    let mut deepest: usize = 0;
    let mut all: usize = 0;
    let mut braces_count: bool = true;
    let mut i: usize = 0;
    while i < chars.len()
        invariant
            i <= chars@.len(),
            opened <= i,
            deepest <= i,
            all <= i,
            opened == open_groups(chars@.take(i as int)),
            deepest == deepest_group(chars@.take(i as int)),
            all == all_groups(chars@.take(i as int)),
            braces_count == (forall|j: int|
                0 <= j < i ==> (#[trigger] chars@[j]) != '\\' && chars@[j] != '['),
        decreases chars@.len() - i,
    {
        let c: char = chars[i];
        assert(chars@.take(i + 1).drop_last() =~= chars@.take(i as int));
        assert(chars@.take(i + 1).last() == c);
        if c == '{' {
            opened += 1;
            all += 1;
        } else if c == '}' && opened > 0 {
            opened -= 1;
        }
        if opened > deepest {
            deepest = opened;
        }
        if c == '\\' || c == '[' {
            braces_count = false;
        }
        i += 1;
    }
    assert(chars@.take(i as int) =~= chars@);
    if braces_count {
        deepest
    } else {
        all
    }
}

/// Whether a pattern is valid.
pub fn is_valid_glob(pattern: &str, ignores_case: bool) -> (valid: bool)
    requires
        is_parsable(pattern@),
    ensures
        valid == glob_is_valid(pattern@, ignores_case),
{
    parse_glob(pattern, ignores_case).is_ok()
}

/// Makes a matcher out of a pattern, if it is valid.
pub fn compile_matcher(pattern: &str, ignores_case: bool) -> (matcher: Option<GlobMatcher>)
    requires
        is_compilable(pattern@),
    ensures
        matcher is Some <==> glob_is_valid(pattern@, ignores_case),
        matcher matches Some(matcher) ==> matcher_pattern(matcher) == pattern@
            && matcher_ignores_case(matcher) == ignores_case,
{
    match parse_glob(pattern, ignores_case) {
        Ok(glob) => Some(matcher_of(&glob)),
        Err(_) => None,
    }
}

/// Makes a set out of patterns, if all of them are valid and they are not too much for
/// one set.
pub fn build_glob_set(patterns: &Vec<String>, ignores_case: bool) -> (built: Option<GlobSet>)
    requires
        can_be_tried(crate::rel_path::texts(patterns@), ignores_case),
    ensures
        built is Some <==> can_be_set(crate::rel_path::texts(patterns@), ignores_case),
        built matches Some(set) ==> set_globs(set) == globs_of(
            crate::rel_path::texts(patterns@),
            ignores_case,
        ),
{
    let ghost views = crate::rel_path::texts(patterns@);
    let ghost globs = globs_of(views, ignores_case);
    let mut builder = new_collection();
    let mut i: usize = 0;
    assert(globs.take(0) =~= Seq::<(Seq<char>, bool)>::empty());
    while i < patterns.len()
        invariant
            i <= patterns@.len(),
            views == crate::rel_path::texts(patterns@),
            globs == globs_of(views, ignores_case),
            can_be_tried(views, ignores_case),
            collected_globs(builder) == globs.take(i as int),
            forall|j: int| 0 <= j < i ==> glob_is_valid(#[trigger] views[j], ignores_case),
        decreases patterns@.len() - i,
    {
        assert(views[i as int] == patterns@[i as int]@);
        match parse_glob(patterns[i].as_str(), ignores_case) {
            Ok(glob) => {
                collect_glob(&mut builder, glob);
                assert(collected_globs(builder) =~= globs.take(i + 1));
            },
            Err(_) => {
                return None;
            },
        }
        i += 1;
    }
    assert(globs.take(i as int) =~= globs);
    match build_collection(&builder) {
        Ok(set) => Some(set),
        Err(_) => None,
    }
}

/// What is left of a text takes no more bytes than the whole.
pub proof fn rest_takes_no_more(text: Seq<char>, from: int)
    requires
        0 <= from <= text.len(),
    ensures
        text_bytes(text.skip(from)) <= text_bytes(text),
    decreases text.len(),
{
    if from < text.len() {
        let rest = text.skip(from);
        assert(rest.drop_last() =~= text.drop_last().skip(from));
        assert(rest.last() == text.last());
        rest_takes_no_more(text.drop_last(), from);
    } else {
        assert(text.skip(from) =~= Seq::<char>::empty());
    }
}

/// Fewer patterns with fewer bytes fit where more do.
pub proof fn fewer_fit(count: int, bytes: int, most: int, most_bytes: int)
    requires
        0 <= count <= most,
        0 <= bytes <= most_bytes,
    ensures
        table_bound(count, bytes) <= table_bound(most, most_bytes),
{
    assert(count * (bytes + 4) <= most * (most_bytes + 4)) by (nonlinear_arith)
        requires
            0 <= count <= most,
            0 <= bytes <= most_bytes,
    ;
}

} // verus!
