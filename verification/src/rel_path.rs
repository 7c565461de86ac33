//! Paths as sequences of components, with the order and the prefix relation that
//! the stores use to nest repositories, worktrees and changed files.
use vstd::prelude::*;

use crate::sorting::Ordered;
use crate::text::{
    compare_text, divergence, diverges_at, same_text, text_lt, text_lt_irreflexive, text_lt_total,
    text_lt_transitive, text_of, to_chars, Order,
};

verus! {

/// The texts of a sequence of strings.
pub open spec fn texts(strings: Seq<String>) -> Seq<Seq<char>> {
    strings.map_values(|s: String| s@)
}

/// Copies a list of strings.
pub fn clone_texts(strings: &Vec<String>) -> (copy: Vec<String>)
    ensures
        copy@ == strings@,
{
    let mut copy: Vec<String> = Vec::new();
    let mut i: usize = 0;
    while i < strings.len()
        invariant
            i <= strings@.len(),
            copy@ == strings@.take(i as int),
        decreases strings@.len() - i,
    {
        copy.push(strings[i].clone());
        i += 1;
        assert(copy@ =~= strings@.take(i as int));
    }
    assert(strings@.take(i as int) =~= strings@);
    copy
}

/// `path` lies at or below `base`.
pub open spec fn has_prefix(path: Seq<Seq<char>>, base: Seq<Seq<char>>) -> bool {
    base.len() <= path.len() && path.take(base.len() as int) == base
}

/// The path ends in a component that names an entry.
pub open spec fn has_file_name(path: Seq<Seq<char>>) -> bool {
    path.len() > 0 && path.last() != ".."@
}

/// Component-wise lexicographic order.
pub open spec fn path_lt(a: Seq<Seq<char>>, b: Seq<Seq<char>>) -> bool {
    exists|k: int| #[trigger]
        diverges_at(a, b, k) && k < b.len() && (k < a.len() ==> text_lt(a[k], b[k]))
}

pub open spec fn path_le(a: Seq<Seq<char>>, b: Seq<Seq<char>>) -> bool {
    a == b || path_lt(a, b)
}

pub proof fn path_lt_irreflexive(a: Seq<Seq<char>>)
    ensures
        !path_lt(a, a),
{
    if path_lt(a, a) {
        let k = choose|k: int| #[trigger]
            diverges_at(a, a, k) && k < a.len() && (k < a.len() ==> text_lt(a[k], a[k]));
        text_lt_irreflexive(a[k]);
    }
}

pub proof fn path_lt_transitive(a: Seq<Seq<char>>, b: Seq<Seq<char>>, c: Seq<Seq<char>>)
    requires
        path_lt(a, b),
        path_lt(b, c),
    ensures
        path_lt(a, c),
{
    let j = choose|k: int| #[trigger]
        diverges_at(a, b, k) && k < b.len() && (k < a.len() ==> text_lt(a[k], b[k]));
    let k = choose|k: int| #[trigger]
        diverges_at(b, c, k) && k < c.len() && (k < b.len() ==> text_lt(b[k], c[k]));
    let m = if j < k { j } else { k };
    assert(a.take(m) =~= c.take(m)) by {
        assert forall|i: int| 0 <= i < m implies a[i] == c[i] by {
            assert(a.take(j)[i] == b.take(j)[i]);
            assert(b.take(k)[i] == c.take(k)[i]);
        }
    }
    if j < k {
        assert(b.take(k)[j] == c.take(k)[j]);
    } else if k < j {
        assert(a.take(j)[k] == b.take(j)[k]);
    } else if j < a.len() {
        text_lt_transitive(a[j], b[j], c[j]);
    }
    if m < a.len() {
        text_lt_total(a[m], c[m]);
    }
    assert(diverges_at(a, c, m));
}

/// Exactly one of "less", "equal" and "greater" holds of two paths.
pub proof fn path_lt_total(a: Seq<Seq<char>>, b: Seq<Seq<char>>)
    ensures
        a == b || path_lt(a, b) || path_lt(b, a),
        !(path_lt(a, b) && path_lt(b, a)),
        path_lt(a, b) ==> a != b,
{
    let k = divergence(a, b);
    if k == a.len() && k == b.len() {
        assert(a =~= a.take(k));
        assert(b =~= b.take(k));
    } else {
        assert(diverges_at(b, a, k));
        if k < a.len() && k < b.len() {
            text_lt_total(a[k], b[k]);
        }
    }
    if path_lt(a, b) && path_lt(b, a) {
        path_lt_transitive(a, b, a);
        path_lt_irreflexive(a);
    }
    if path_lt(a, b) && a == b {
        path_lt_irreflexive(a);
    }
}

/// A path never sorts after what lies below it.
pub proof fn prefix_sorts_first(path: Seq<Seq<char>>, base: Seq<Seq<char>>)
    requires
        has_prefix(path, base),
    ensures
        path_le(base, path),
{
    if base.len() == path.len() {
        assert(path.take(base.len() as int) =~= path);
    } else {
        assert(base.take(base.len() as int) =~= base);
        assert(diverges_at(base, path, base.len() as int));
    }
}

/// All paths below a base form one contiguous run of the order: whatever sorts
/// between the base and a path below it lies below the base too.
pub proof fn below_is_contiguous(base: Seq<Seq<char>>, between: Seq<Seq<char>>, path: Seq<Seq<char>>)
    requires
        has_prefix(path, base),
        path_le(base, between),
        path_le(between, path),
    ensures
        has_prefix(between, base),
{
    if between != base && between != path {
        let k = choose|k: int| #[trigger]
            diverges_at(base, between, k) && k < between.len() && (k < base.len() ==> text_lt(
                base[k],
                between[k],
            ));
        if k < base.len() {
            let j = choose|j: int| #[trigger]
                diverges_at(between, path, j) && j < path.len() && (j < between.len() ==> text_lt(
                    between[j],
                    path[j],
                ));
            assert forall|i: int| 0 <= i < base.len() implies base[i] == path[i] by {
                assert(path.take(base.len() as int)[i] == path[i]);
            }
            assert forall|i: int| 0 <= i < k implies base[i] == between[i] by {
                assert(base.take(k)[i] == between.take(k)[i]);
            }
            if j < k {
                assert(between[j] == base[j]);
                text_lt_irreflexive(between[j]);
            } else if j == k {
                text_lt_total(base[k], between[k]);
            } else {
                assert(between.take(j)[k] == path.take(j)[k]);
                text_lt_irreflexive(base[k]);
            }
            assert(false);
        }
        assert(k == base.len());
        assert(base.take(k) =~= base);
        assert(between.take(k) == base);
    } else if between == base {
        assert(base.take(base.len() as int) =~= base);
    }
}

/// Lying below is transitive.
pub proof fn has_prefix_transitive(a: Seq<Seq<char>>, b: Seq<Seq<char>>, c: Seq<Seq<char>>)
    requires
        has_prefix(a, b),
        has_prefix(b, c),
    ensures
        has_prefix(a, c),
{
    assert(a.take(c.len() as int) =~= c) by {
        assert forall|i: int| 0 <= i < c.len() implies a[i] == c[i] by {
            assert(a.take(b.len() as int)[i] == b[i]);
            assert(b.take(c.len() as int)[i] == c[i]);
        }
    }
}

/// Of two bases of one path, one lies below the other.
pub proof fn prefixes_nest(path: Seq<Seq<char>>, a: Seq<Seq<char>>, b: Seq<Seq<char>>)
    requires
        has_prefix(path, a),
        has_prefix(path, b),
        a.len() <= b.len(),
    ensures
        has_prefix(b, a),
{
    assert(b.take(a.len() as int) =~= a) by {
        assert forall|i: int| 0 <= i < a.len() implies a[i] == b[i] by {
            assert(path.take(a.len() as int)[i] == path[i]);
            assert(path.take(b.len() as int)[i] == path[i]);
        }
    }
}

/// The components of a text that are separated by `/`, empty ones left out.
/// `current` is the component read so far.
pub open spec fn split_slashes(text: Seq<char>, current: Seq<char>) -> Seq<Seq<char>>
    decreases text.len(),
{
    if text.len() == 0 {
        if current.len() == 0 {
            Seq::empty()
        } else {
            seq![current]
        }
    } else if text[0] == '/' {
        if current.len() == 0 {
            split_slashes(text.drop_first(), Seq::empty())
        } else {
            seq![current] + split_slashes(text.drop_first(), Seq::empty())
        }
    } else {
        split_slashes(text.drop_first(), current.push(text[0]))
    }
}

/// The components joined by `/`.
pub open spec fn join_slashes(parts: Seq<Seq<char>>) -> Seq<char>
    decreases parts.len(),
{
    if parts.len() == 0 {
        Seq::empty()
    } else if parts.len() == 1 {
        parts[0]
    } else {
        join_slashes(parts.drop_last()).push('/') + parts.last()
    }
}

/// A path relative to some root, or an absolute path taken from its root.
#[derive(Debug)]
pub struct RelPath {
    pub parts: Vec<String>,
}

/// A path inside a repository, relative to its work directory.
pub type RepoPath = RelPath;

impl View for RelPath {
    type V = Seq<Seq<char>>;

    open spec fn view(&self) -> Seq<Seq<char>> {
        texts(self.parts@)
    }
}

impl Clone for RelPath {
    fn clone(&self) -> (copy: Self)
        ensures
            copy@ == self@,
    {
        RelPath { parts: clone_texts(&self.parts) }
    }
}

impl Ordered for RelPath {
    open spec fn le(self, other: Self) -> bool {
        path_le(self@, other@)
    }

    proof fn le_total(a: Self, b: Self) {
        path_lt_total(a@, b@);
    }

    proof fn le_transitive(a: Self, b: Self, c: Self) {
        if a@ != b@ && b@ != c@ {
            path_lt_transitive(a@, b@, c@);
        }
    }

    fn is_le(&self, other: &Self) -> (result: bool) {
        self.compare(other) != Order::Greater
    }
}

impl RelPath {
    /// The empty path.
    pub fn empty() -> (path: Self)
        ensures
            path@ == Seq::<Seq<char>>::empty(),
    {
        let path = RelPath { parts: Vec::new() };
        assert(path@ =~= Seq::<Seq<char>>::empty());
        path
    }

    /// Reads a path whose components are separated by `/`.
    pub fn from_unix_str(text: &str) -> (path: Self)
        ensures
            path@ == split_slashes(text@, Seq::empty()),
    {
        let chars: Vec<char> = to_chars(text);
        let mut parts: Vec<String> = Vec::new();
        let mut start: usize = 0;
        let mut i: usize = 0;
        assert(text@.skip(0) =~= text@);
        assert(texts(parts@) =~= Seq::<Seq<char>>::empty());
        assert(text@.subrange(0, 0) =~= Seq::<char>::empty());
        assert(texts(parts@) + split_slashes(text@, Seq::empty()) =~= split_slashes(
            text@,
            Seq::empty(),
        ));
        while i < chars.len()
            invariant
                chars@ == text@,
                start <= i <= chars@.len(),
                texts(parts@) + split_slashes(
                    text@.skip(i as int),
                    text@.subrange(start as int, i as int),
                ) == split_slashes(text@, Seq::empty()),
            decreases chars@.len() - i,
        {
            let ghost before = texts(parts@);
            assert(text@.skip(i as int).drop_first() =~= text@.skip(i + 1));
            assert(text@.skip(i as int)[0] == text@[i as int]);
            if chars[i] == '/' {
                if start < i {
                    let part = text_of(&chars, start, i);
                    parts.push(part);
                    assert(texts(parts@) =~= before.push(part@));
                    assert(texts(parts@) + split_slashes(text@.skip(i + 1), Seq::empty()) =~= before
                        + (seq![part@] + split_slashes(text@.skip(i + 1), Seq::empty())));
                }
                assert(text@.subrange(i + 1, i + 1) =~= Seq::<char>::empty());
                start = i + 1;
            } else {
                assert(text@.subrange(start as int, i + 1) =~= text@.subrange(
                    start as int,
                    i as int,
                ).push(text@[i as int]));
            }
            i += 1;
        }
        let ghost before = texts(parts@);
        if start < i {
            let part = text_of(&chars, start, i);
            parts.push(part);
            assert(texts(parts@) =~= before + seq![part@]);
        } else {
            assert(texts(parts@) =~= before + Seq::<Seq<char>>::empty());
        }
        RelPath { parts }
    }

    /// The path with its components joined by `/`.
    pub fn as_unix_str(&self) -> (text: String)
        ensures
            text@ == join_slashes(self@),
    {
        let mut text: String = String::new();
        let mut i: usize = 0;
        assert(self@.take(0) =~= Seq::<Seq<char>>::empty());
        while i < self.parts.len()
            invariant
                i <= self.parts@.len(),
                text@ == join_slashes(self@.take(i as int)),
            decreases self.parts@.len() - i,
        {
            let ghost before = text@;
            assert(self@.take(i + 1).drop_last() =~= self@.take(i as int));
            assert(self@.take(i + 1).last() == self.parts@[i as int]@);
            if i > 0 {
                text.push('/');
            }
            text.append(self.parts[i].as_str());
            assert(i == 0 ==> text@ =~= self.parts@[0]@);
            i += 1;
        }
        assert(self@.take(i as int) =~= self@);
        text
    }

    /// Compares component by component.
    pub fn compare(&self, other: &Self) -> (order: Order)
        ensures
            order == Order::Less <==> path_lt(self@, other@),
            order == Order::Equal <==> self@ == other@,
            order == Order::Greater <==> path_lt(other@, self@),
    {
        let ghost a = self@;
        let ghost b = other@;
        let mut i: usize = 0;
        proof {
            path_lt_total(a, b);
        }
        while i < self.parts.len() && i < other.parts.len()
            invariant
                a == self@,
                b == other@,
                i <= a.len(),
                i <= b.len(),
                a.take(i as int) == b.take(i as int),
                a == b || path_lt(a, b) || path_lt(b, a),
                !(path_lt(a, b) && path_lt(b, a)),
                path_lt(a, b) ==> a != b,
                path_lt(b, a) ==> a != b,
            decreases a.len() - i,
        {
            let order = compare_text(self.parts[i].as_str(), other.parts[i].as_str());
            proof {
                text_lt_total(a[i as int], b[i as int]);
            }
            if order != Order::Equal {
                assert(diverges_at(a, b, i as int));
                assert(diverges_at(b, a, i as int));
                return order;
            }
            assert(a.take(i + 1) =~= b.take(i + 1)) by {
                assert forall|j: int| 0 <= j < i + 1 implies a[j] == b[j] by {
                    if j < i {
                        assert(a.take(i as int)[j] == b.take(i as int)[j]);
                    }
                }
            }
            i += 1;
        }
        assert(diverges_at(a, b, i as int));
        assert(diverges_at(b, a, i as int));
        if i < other.parts.len() {
            Order::Less
        } else if i < self.parts.len() {
            Order::Greater
        } else {
            assert(a =~= a.take(i as int));
            assert(b =~= b.take(i as int));
            Order::Equal
        }
    }

    /// Whether two paths are the same.
    pub fn same_as(&self, other: &Self) -> (same: bool)
        ensures
            same == (self@ == other@),
    {
        self.compare(other) == Order::Equal
    }

    /// Whether the path lies at or below `base`.
    pub fn starts_with(&self, base: &Self) -> (result: bool)
        ensures
            result == has_prefix(self@, base@),
    {
        if base.parts.len() > self.parts.len() {
            return false;
        }
        let mut i: usize = 0;
        while i < base.parts.len()
            invariant
                i <= base@.len() <= self@.len(),
                base@.len() == base.parts@.len(),
                self@.len() == self.parts@.len(),
                forall|j: int| 0 <= j < i ==> self@[j] == base@[j],
            decreases base@.len() - i,
        {
            if !same_text(self.parts[i].as_str(), base.parts[i].as_str()) {
                assert(self@.take(base@.len() as int)[i as int] != base@[i as int]);
                return false;
            }
            i += 1;
        }
        assert(self@.take(base@.len() as int) =~= base@);
        true
    }

    /// The path relative to `base`, where it lies at or below it.
    pub fn strip_prefix(&self, base: &Self) -> (rest: Option<Self>)
        ensures
            rest is Some <==> has_prefix(self@, base@),
            rest matches Some(rest) ==> rest@ == self@.skip(base@.len() as int),
    {
        if !self.starts_with(base) {
            return None;
        }
        let mut parts: Vec<String> = Vec::new();
        let mut i: usize = base.parts.len();
        while i < self.parts.len()
            invariant
                base@.len() <= i <= self@.len(),
                self@.len() == self.parts@.len(),
                parts@ == self.parts@.subrange(base@.len() as int, i as int),
            decreases self@.len() - i,
        {
            parts.push(self.parts[i].clone());
            i += 1;
            assert(parts@ =~= self.parts@.subrange(base@.len() as int, i as int));
        }
        let rest = RelPath { parts };
        assert(rest@ =~= self@.skip(base@.len() as int));
        Some(rest)
    }

    /// The path followed by `other`.
    pub fn join(&self, other: &Self) -> (joined: Self)
        ensures
            joined@ == self@ + other@,
    {
        let mut parts: Vec<String> = clone_texts(&self.parts);
        let mut rest: Vec<String> = clone_texts(&other.parts);
        parts.append(&mut rest);
        let joined = RelPath { parts };
        assert(joined@ =~= self@ + other@);
        joined
    }

    /// The path followed by one more component.
    pub fn child(&self, name: &str) -> (joined: Self)
        ensures
            joined@ == self@.push(name@),
    {
        let mut parts: Vec<String> = clone_texts(&self.parts);
        parts.push(name.to_owned());
        let joined = RelPath { parts };
        assert(joined@ =~= self@.push(name@));
        joined
    }

    /// The path without its last component, unless it has none.
    pub fn parent(&self) -> (parent: Option<Self>)
        ensures
            parent is Some <==> self@.len() > 0,
            parent matches Some(parent) ==> parent@ == self@.drop_last(),
    {
        let mut parts: Vec<String> = clone_texts(&self.parts);
        if parts.pop().is_none() {
            return None;
        }
        let parent = RelPath { parts };
        assert(parent@ =~= self@.drop_last());
        Some(parent)
    }

    /// The last component, unless the path has none or ends in `..`.
    pub fn file_name(&self) -> (name: Option<String>)
        ensures
            name is Some <==> has_file_name(self@),
            name matches Some(name) ==> name@ == self@.last(),
    {
        if self.parts.len() == 0 {
            return None;
        }
        let last = self.parts[self.parts.len() - 1].clone();
        if same_text(last.as_str(), "..") {
            None
        } else {
            Some(last)
        }
    }
}
proof fn plain_text_is_one_component(text: Seq<char>, current: Seq<char>)
    requires
        !text.contains('/'),
        text.len() + current.len() > 0,
    ensures
        split_slashes(text, current) == seq![current + text],
    decreases text.len(),
{
    if text.len() == 0 {
        assert(current + text =~= current);
    } else {
        assert(text.contains(text[0]));
        assert forall|c: char| text.drop_first().contains(c) implies text.contains(c) by {
            let k = text.drop_first().index_of(c);
            assert(text[k + 1] == c);
        }
        plain_text_is_one_component(text.drop_first(), current.push(text[0]));
        assert(current.push(text[0]) + text.drop_first() =~= current + text);
    }
}

proof fn first_component_ends_at_the_slash(part: Seq<char>, rest: Seq<char>, current: Seq<char>)
    requires
        !part.contains('/'),
        part.len() + current.len() > 0,
    ensures
        split_slashes(part.push('/') + rest, current) == seq![current + part] + split_slashes(
            rest,
            Seq::empty(),
        ),
    decreases part.len(),
{
    let text = part.push('/') + rest;
    if part.len() == 0 {
        assert(text.drop_first() =~= rest);
        assert(current + part =~= current);
    } else {
        assert(part.contains(part[0]));
        assert forall|c: char| part.drop_first().contains(c) implies part.contains(c) by {
            let k = part.drop_first().index_of(c);
            assert(part[k + 1] == c);
        }
        first_component_ends_at_the_slash(part.drop_first(), rest, current.push(part[0]));
        assert(text.drop_first() =~= part.drop_first().push('/') + rest);
        assert(current.push(part[0]) + part.drop_first() =~= current + part);
    }
}

/// A path that is read begins with what is before the first slash, and goes on with what is
/// behind it. A slash at the start does not count, and no slash makes one component.
pub proof fn paths_are_read_at_slashes(
    part: Seq<char>,
    rest: &str,
    text: &str,
    rooted: &str,
    of_rest: RelPath,
    path: RelPath,
    of_rooted: RelPath,
)
    requires
        !part.contains('/'),
        part.len() > 0,
        text@ == part.push('/') + rest@,
        rooted@ == seq!['/'] + rest@,
        call_ensures(RelPath::from_unix_str, (rest,), of_rest),
        call_ensures(RelPath::from_unix_str, (text,), path),
        call_ensures(RelPath::from_unix_str, (rooted,), of_rooted),
    ensures
        path@ == seq![part] + of_rest@,
        of_rooted@ == of_rest@,
        rest@.len() == 0 ==> of_rest@.len() == 0,
        rest@.len() > 0 && !rest@.contains('/') ==> of_rest@ == seq![rest@],
{
    first_component_ends_at_the_slash(part, rest@, Seq::empty());
    assert(Seq::<char>::empty() + part =~= part);
    assert(rooted@.drop_first() =~= rest@);
    if rest@.len() > 0 && !rest@.contains('/') {
        plain_text_is_one_component(rest@, Seq::empty());
        assert(Seq::<char>::empty() + rest@ =~= rest@);
    }
}

/// A path is written with a slash between each two components.
pub proof fn paths_are_written_with_slashes(
    path: RelPath,
    name: &str,
    longer: RelPath,
    text: String,
    more: String,
)
    requires
        call_ensures(RelPath::child, (&path, name), longer),
        call_ensures(RelPath::as_unix_str, (&path,), text),
        call_ensures(RelPath::as_unix_str, (&longer,), more),
    ensures
        path@.len() == 0 ==> text@.len() == 0 && more@ == name@,
        path@.len() > 0 ==> more@ == text@.push('/') + name@,
{
    assert(longer@.drop_last() =~= path@);
}

/// A path joined to a base lies below it, and is what is left without the base.
pub proof fn joined_paths_lie_below(
    base: RelPath,
    path: RelPath,
    joined: RelPath,
    below: bool,
    rest: Option<RelPath>,
)
    requires
        call_ensures(RelPath::join, (&base, &path), joined),
        call_ensures(RelPath::starts_with, (&joined, &base), below),
        call_ensures(RelPath::strip_prefix, (&joined, &base), rest),
    ensures
        below,
        rest is Some && rest->0@ == path@,
        joined@.len() == base@.len() + path@.len(),
{
    assert(joined@.take(base@.len() as int) =~= base@);
    assert(joined@.skip(base@.len() as int) =~= path@);
}

/// A path lies below another just if it begins with all of its components.
pub proof fn paths_lie_below_their_prefixes(path: RelPath, base: RelPath, below: bool, i: int)
    requires
        call_ensures(RelPath::starts_with, (&path, &base), below),
    ensures
        below ==> base@.len() <= path@.len(),
        below && 0 <= i < base@.len() ==> path@[i] == base@[i],
        base@.len() <= path@.len() && (forall|k: int|
            0 <= k < base@.len() ==> #[trigger] path@[k] == base@[k]) ==> below,
{
    if below && 0 <= i < base@.len() {
        assert(path@.take(base@.len() as int)[i] == path@[i]);
    }
    if base@.len() <= path@.len() && (forall|k: int|
        0 <= k < base@.len() ==> #[trigger] path@[k] == base@[k]) {
        assert(path@.take(base@.len() as int) =~= base@);
    }
}

/// The parent of a child is the path, and its name is the last component; `..` names nothing.
pub proof fn children_have_their_path_as_parent(
    path: RelPath,
    name: &str,
    longer: RelPath,
    parent: Option<RelPath>,
    file_name: Option<String>,
)
    requires
        call_ensures(RelPath::child, (&path, name), longer),
        call_ensures(RelPath::parent, (&longer,), parent),
        call_ensures(RelPath::file_name, (&longer,), file_name),
    ensures
        parent is Some && parent->0@ == path@,
        file_name is Some <==> name@ != ".."@,
        file_name is Some ==> file_name->0@ == name@,
{
    assert(longer@.drop_last() =~= path@);
}

} // verus!
