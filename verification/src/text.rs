//! Helpers on text: ordering, splitting into characters, building strings.
use vstd::prelude::*;

verus! {

/// `String::push` appends one character.
pub assume_specification[ std::string::String::push ](text: &mut std::string::String, c: char)
    ensures
        final(text)@ == old(text)@.push(c),
;

/// The characters of a text that may be missing.
pub open spec fn text_view(text: Option<String>) -> Option<Seq<char>> {
    match text {
        Some(text) => Some(text@),
        None => None,
    }
}

/// The outcome of comparing two values.
#[derive(Clone, Copy, Debug, PartialEq, Eq, Structural)]
pub enum Order {
    Less,
    Equal,
    Greater,
}

/// `a` and `b` agree before position `k` and stop agreeing there, because one of
/// them ends or because they hold different elements.
pub open spec fn diverges_at<T>(a: Seq<T>, b: Seq<T>, k: int) -> bool {
    &&& 0 <= k <= a.len()
    &&& k <= b.len()
    &&& a.take(k) == b.take(k)
    &&& (k < a.len() && k < b.len() ==> a[k] != b[k])
}

/// Any two sequences stop agreeing somewhere.
pub proof fn divergence<T>(a: Seq<T>, b: Seq<T>) -> (k: int)
    ensures
        diverges_at(a, b, k),
    decreases a.len(),
{
    if a.len() == 0 || b.len() == 0 || a[0] != b[0] {
        assert(a.take(0) =~= b.take(0));
        0
    } else {
        let k = divergence(a.drop_first(), b.drop_first());
        assert(a.take(k + 1) =~= b.take(k + 1)) by {
            assert forall|i: int| 0 <= i < k + 1 implies a[i] == b[i] by {
                if i > 0 {
                    assert(a.drop_first().take(k)[i - 1] == b.drop_first().take(k)[i - 1]);
                }
            }
        }
        k + 1
    }
}

/// Lexicographic order on text by Unicode scalar value.
pub open spec fn text_lt(a: Seq<char>, b: Seq<char>) -> bool {
    exists|k: int| #[trigger]
        diverges_at(a, b, k) && k < b.len() && (k < a.len() ==> (a[k] as int) < (b[k] as int))
}

/// Two sequences diverge at one position only, unless they are equal.
pub proof fn divergence_unique<T>(a: Seq<T>, b: Seq<T>, j: int, k: int)
    requires
        diverges_at(a, b, j),
        diverges_at(a, b, k),
        a != b,
    ensures
        j == k,
{
    if j < k {
        assert(a.take(k)[j] == b.take(k)[j]);
    }
    if k < j {
        assert(a.take(j)[k] == b.take(j)[k]);
    }
}

pub proof fn text_lt_irreflexive(a: Seq<char>)
    ensures
        !text_lt(a, a),
{
    if text_lt(a, a) {
        let k = choose|k: int| #[trigger]
            diverges_at(a, a, k) && k < a.len() && (k < a.len() ==> (a[k] as int) < (a[k] as int));
    }
}

pub proof fn text_lt_transitive(a: Seq<char>, b: Seq<char>, c: Seq<char>)
    requires
        text_lt(a, b),
        text_lt(b, c),
    ensures
        text_lt(a, c),
{
    let j = choose|k: int| #[trigger]
        diverges_at(a, b, k) && k < b.len() && (k < a.len() ==> (a[k] as int) < (b[k] as int));
    let k = choose|k: int| #[trigger]
        diverges_at(b, c, k) && k < c.len() && (k < b.len() ==> (b[k] as int) < (c[k] as int));
    let m = if j < k { j } else { k };
    assert(a.take(m) =~= c.take(m)) by {
        assert forall|i: int| 0 <= i < m implies a[i] == c[i] by {
            assert(a.take(j)[i] == b.take(j)[i]);
            assert(b.take(k)[i] == c.take(k)[i]);
        }
    }
    if j < k {
        assert(b.take(k)[j] == c.take(k)[j]);
    } else if k < j {
        assert(a.take(j)[k] == b.take(j)[k]);
    }
    assert(diverges_at(a, c, m));
}

/// Exactly one of "less", "equal" and "greater" holds of two texts.
pub proof fn text_lt_total(a: Seq<char>, b: Seq<char>)
    ensures
        a == b || text_lt(a, b) || text_lt(b, a),
        !(text_lt(a, b) && text_lt(b, a)),
        text_lt(a, b) ==> a != b,
{
    let k = divergence(a, b);
    if k == a.len() && k == b.len() {
        assert(a =~= a.take(k));
        assert(b =~= b.take(k));
    } else {
        assert(diverges_at(b, a, k));
        if k < a.len() && k < b.len() {
            assert((a[k] as int) < (b[k] as int) || (b[k] as int) < (a[k] as int));
        }
    }
    if text_lt(a, b) && text_lt(b, a) {
        text_lt_transitive(a, b, a);
        text_lt_irreflexive(a);
    }
    if text_lt(a, b) && a == b {
        text_lt_irreflexive(a);
    }
}

/// The characters of a text.
pub fn to_chars(text: &str) -> (chars: Vec<char>)
    ensures
        chars@ == text@,
{
    let mut chars: Vec<char> = Vec::new();
    for c in it: text.chars()
        invariant
            chars@ == text@.take(it.index()),
            it.seq() == text@,
    {
        chars.push(c);
        assert(text@.take(it.index() + 1) =~= text@.take(it.index()).push(c));
    }
    assert(text@.take(text@.len() as int) =~= text@);
    chars
}

/// The text made of `chars[from..to]`.
pub fn text_of(chars: &Vec<char>, from: usize, to: usize) -> (text: String)
    requires
        from <= to <= chars@.len(),
    ensures
        text@ == chars@.subrange(from as int, to as int),
{
    let mut text: String = String::new();
    let mut i: usize = from;
    while i < to
        invariant
            from <= i <= to <= chars@.len(),
            text@ == chars@.subrange(from as int, i as int),
        decreases to - i,
    {
        text.push(chars[i]);
        assert(chars@.subrange(from as int, i + 1) =~= chars@.subrange(from as int, i as int).push(
            chars@[i as int],
        ));
        i += 1;
    }
    text
}

/// Compares two texts by Unicode scalar value.
pub fn compare_text(a: &str, b: &str) -> (order: Order)
    ensures
        order == Order::Less <==> text_lt(a@, b@),
        order == Order::Equal <==> a@ == b@,
        order == Order::Greater <==> text_lt(b@, a@),
{
    let x: Vec<char> = to_chars(a);
    let y: Vec<char> = to_chars(b);
    let mut i: usize = 0;
    proof {
        text_lt_total(a@, b@);
    }
    while i < x.len() && i < y.len()
        invariant
            x@ == a@,
            y@ == b@,
            i <= x@.len(),
            i <= y@.len(),
            a@.take(i as int) == b@.take(i as int),
            a@ == b@ || text_lt(a@, b@) || text_lt(b@, a@),
            !(text_lt(a@, b@) && text_lt(b@, a@)),
            text_lt(a@, b@) ==> a@ != b@,
            text_lt(b@, a@) ==> a@ != b@,
        decreases x@.len() - i,
    {
        if x[i] != y[i] {
            assert(diverges_at(a@, b@, i as int));
            assert(diverges_at(b@, a@, i as int));
            if x[i] < y[i] {
                return Order::Less;
            }
            return Order::Greater;
        }
        assert(a@.take(i + 1) =~= b@.take(i + 1)) by {
            assert forall|j: int| 0 <= j < i + 1 implies a@[j] == b@[j] by {
                if j < i {
                    assert(a@.take(i as int)[j] == b@.take(i as int)[j]);
                }
            }
        }
        i += 1;
    }
    assert(diverges_at(a@, b@, i as int));
    assert(diverges_at(b@, a@, i as int));
    if i < y.len() {
        Order::Less
    } else if i < x.len() {
        Order::Greater
    } else {
        assert(a@ =~= a@.take(i as int));
        assert(b@ =~= b@.take(i as int));
        Order::Equal
    }
}

/// Whether two texts are the same.
pub fn same_text(a: &str, b: &str) -> (same: bool)
    ensures
        same == (a@ == b@),
{
    compare_text(a, b) == Order::Equal
}

/// The texts one after the other, with a separator between them.
pub open spec fn joined(parts: Seq<Seq<char>>, separator: Seq<char>) -> Seq<char>
    decreases parts.len(),
{
    if parts.len() == 0 {
        Seq::empty()
    } else if parts.len() == 1 {
        parts[0]
    } else {
        joined(parts.drop_last(), separator) + separator + parts.last()
    }
}

/// Joins texts with a separator between them.
pub fn join_texts(parts: &Vec<String>, separator: &str) -> (text: String)
    ensures
        text@ == joined(parts@.map_values(|s: String| s@), separator@),
{
    let ghost views = parts@.map_values(|s: String| s@);
    let mut text: String = String::new();
    let mut i: usize = 0;
    assert(views.take(0) =~= Seq::<Seq<char>>::empty());
    while i < parts.len()
        invariant
            i <= parts@.len(),
            views == parts@.map_values(|s: String| s@),
            text@ == joined(views.take(i as int), separator@),
        decreases parts@.len() - i,
    {
        assert(views.take(i + 1).drop_last() =~= views.take(i as int));
        assert(views.take(i + 1).last() == parts@[i as int]@);
        if i > 0 {
            text.append(separator);
        }
        text.append(parts[i].as_str());
        assert(i == 0 ==> text@ =~= parts@[0]@);
        i += 1;
    }
    assert(views.take(i as int) =~= views);
    text
}

/// Copies a text with others before and after it.
pub fn wrap_text(before: &str, text: &str, after: &str) -> (wrapped: String)
    ensures
        wrapped@ == before@ + text@ + after@,
{
    let mut wrapped: String = before.to_owned();
    wrapped.append(text);
    wrapped.append(after);
    wrapped
}
/// Joined texts stand one after the other, with a separator between each two of them.
pub proof fn texts_are_joined_one_by_one(
    parts: Vec<String>,
    separator: &str,
    text: String,
    part: String,
    more: Vec<String>,
    all: String,
)
    requires
        call_ensures(join_texts, (&parts, separator), text),
        call_ensures(join_texts, (&more, separator), all),
        more@ == parts@.push(part),
    ensures
        parts@.len() == 0 ==> text@.len() == 0 && all@ == part@,
        parts@.len() > 0 ==> all@ == text@ + separator@ + part@,
{
    let before = parts@.map_values(|s: String| s@);
    let after = more@.map_values(|s: String| s@);
    assert(before.len() == parts@.len() && after.len() == more@.len());
    assert(after.drop_last() =~= before);
    assert(after.last() == part@);
}

/// A wrapped text stands between the others.
pub proof fn texts_are_wrapped(before: &str, text: &str, after: &str, wrapped: String)
    requires
        call_ensures(wrap_text, (before, text, after), wrapped),
    ensures
        wrapped@ == before@ + (text@ + after@),
{
    assert(before@ + text@ + after@ =~= before@ + (text@ + after@));
}

} // verus!
