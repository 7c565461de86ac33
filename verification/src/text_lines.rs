//! Lines and blanks of texts.
use vstd::prelude::*;

use crate::text::{text_of, to_chars};

verus! {

/// The character has the `White_Space` property of Unicode.
pub open spec fn is_blank_char(c: char) -> bool {
    '\u{9}' <= c <= '\u{d}' || c == '\u{20}' || c == '\u{85}' || c == '\u{a0}' || c == '\u{1680}'
        || '\u{2000}' <= c <= '\u{200a}' || c == '\u{2028}' || c == '\u{2029}' || c == '\u{202f}'
        || c == '\u{205f}' || c == '\u{3000}'
}

fn char_is_blank(c: char) -> (blank: bool)
    ensures
        blank == is_blank_char(c),
{
    ('\u{9}' <= c && c <= '\u{d}') || c == '\u{20}' || c == '\u{85}' || c == '\u{a0}'
        || c == '\u{1680}' || ('\u{2000}' <= c && c <= '\u{200a}') || c == '\u{2028}'
        || c == '\u{2029}' || c == '\u{202f}' || c == '\u{205f}' || c == '\u{3000}'
}

/// Without the white space at the start.
pub open spec fn trim_start(text: Seq<char>) -> Seq<char>
    decreases text.len(),
{
    if text.len() > 0 && is_blank_char(text[0]) {
        trim_start(text.skip(1))
    } else {
        text
    }
}

/// Without the white space at the end.
pub open spec fn trim_end(text: Seq<char>) -> Seq<char>
    decreases text.len(),
{
    if text.len() > 0 && is_blank_char(text.last()) {
        trim_end(text.drop_last())
    } else {
        text
    }
}

pub open spec fn trimmed(text: Seq<char>) -> Seq<char> {
    trim_end(trim_start(text))
}

/// A text stays as it is when white space around it goes just if it neither begins nor ends with
/// any.
pub proof fn nothing_to_trim(text: Seq<char>)
    ensures
        trimmed(text) == text <==> (text.len() > 0 ==> !is_blank_char(text[0]) && !is_blank_char(
            text.last(),
        )),
{
    lemma_trim_shortens(text);
    lemma_trim_shortens(trim_start(text));
    if text.len() > 0 && is_blank_char(text[0]) {
        lemma_trim_shortens(text.skip(1));
    }
    if text.len() > 0 && is_blank_char(text.last()) {
        lemma_trim_shortens(text.drop_last());
    }
}

proof fn lemma_trim_shortens(text: Seq<char>)
    ensures
        trim_start(text).len() <= text.len(),
        trim_end(text).len() <= text.len(),
        trim_start(text).len() == text.len() ==> trim_start(text) == text,
    decreases text.len(),
{
    if text.len() > 0 {
        lemma_trim_shortens(text.skip(1));
        lemma_trim_shortens(text.drop_last());
    }
}

/// The text without the white space around it.
pub fn trim(text: &str) -> (result: String)
    ensures
        result@ == trimmed(text@),
{
    let chars: Vec<char> = to_chars(text);
    let mut from: usize = 0;
    assert(chars@.skip(0) =~= chars@);
    while from < chars.len() && char_is_blank(chars[from])
        invariant
            from <= chars@.len(),
            trim_start(chars@) == trim_start(chars@.skip(from as int)),
        ensures
            from <= chars@.len(),
            trim_start(chars@) == trim_start(chars@.skip(from as int)),
            from < chars@.len() ==> !is_blank_char(chars@[from as int]),
        decreases chars@.len() - from,
    {
        assert(chars@.skip(from as int).skip(1) =~= chars@.skip(from + 1));
        from += 1;
    }
    let ghost rest = chars@.skip(from as int);
    assert(trim_start(chars@) == rest);
    let mut to: usize = chars.len();
    assert(chars@.subrange(from as int, to as int) =~= rest);
    while to > from && char_is_blank(chars[to - 1])
        invariant
            from <= to <= chars@.len(),
            trim_end(rest) == trim_end(chars@.subrange(from as int, to as int)),
        ensures
            from <= to <= chars@.len(),
            trim_end(rest) == trim_end(chars@.subrange(from as int, to as int)),
            to > from ==> !is_blank_char(chars@[to - 1]),
        decreases to,
    {
        assert(chars@.subrange(from as int, to as int).drop_last() =~= chars@.subrange(
            from as int,
            to - 1,
        ));
        to -= 1;
    }
    text_of(&chars, from, to)
}

/// The line without a carriage return at its end.
pub open spec fn without_return(line: Seq<char>) -> Seq<char> {
    if line.len() > 0 && line.last() == '\r' {
        line.drop_last()
    } else {
        line
    }
}

/// The lines of a text behind what was read of the current one. A line ends with a
/// newline, or a carriage return and a newline; the last one need not.
pub open spec fn lines_from(current: Seq<char>, text: Seq<char>) -> Seq<Seq<char>>
    decreases text.len(),
{
    if text.len() == 0 {
        if current.len() == 0 {
            Seq::empty()
        } else {
            seq![current]
        }
    } else if text[0] == '\n' {
        seq![without_return(current)] + lines_from(Seq::empty(), text.skip(1))
    } else {
        lines_from(current.push(text[0]), text.skip(1))
    }
}

pub open spec fn lines_of(text: Seq<char>) -> Seq<Seq<char>> {
    lines_from(Seq::empty(), text)
}

/// Splits a text into its lines.
pub fn lines(text: &str) -> (result: Vec<String>)
    ensures
        crate::rel_path::texts(result@) == lines_of(text@),
{
    let chars: Vec<char> = to_chars(text);
    let mut result: Vec<String> = Vec::new();
    let mut start: usize = 0;
    let mut i: usize = 0;
    proof {
        assert(chars@.skip(0) =~= chars@);
        assert(chars@.subrange(0, 0) =~= Seq::<char>::empty());
        assert(crate::rel_path::texts(result@) =~= Seq::<Seq<char>>::empty());
        assert(Seq::<Seq<char>>::empty() + lines_of(chars@) =~= lines_of(chars@));
    }
    while i < chars.len()
        invariant
            start <= i <= chars@.len(),
            lines_of(chars@) == crate::rel_path::texts(result@) + lines_from(
                chars@.subrange(start as int, i as int),
                chars@.skip(i as int),
            ),
        decreases chars@.len() - i,
    {
        let ghost current = chars@.subrange(start as int, i as int);
        let ghost before = crate::rel_path::texts(result@);
        assert(chars@.skip(i as int)[0] == chars@[i as int]);
        assert(chars@.skip(i as int).skip(1) =~= chars@.skip(i + 1));
        if chars[i] == '\n' {
            let end: usize = if i > start && chars[i - 1] == '\r' {
                i - 1
            } else {
                i
            };
            let line: String = text_of(&chars, start, end);
            result.push(line);
            proof {
                assert(line@ =~= without_return(current));
                assert(crate::rel_path::texts(result@) =~= before.push(without_return(current)));
                let rest = lines_from(Seq::<char>::empty(), chars@.skip(i + 1));
                assert(before + (seq![without_return(current)] + rest) =~= before.push(
                    without_return(current),
                ) + rest);
                assert(chars@.subrange(i + 1, i + 1) =~= Seq::<char>::empty());
            }
            start = i + 1;
        } else {
            assert(chars@.subrange(start as int, i + 1) =~= current.push(chars@[i as int]));
        }
        i += 1;
    }
    let ghost before = crate::rel_path::texts(result@);
    assert(chars@.skip(i as int).len() == 0);
    if start < chars.len() {
        let line: String = text_of(&chars, start, chars.len());
        result.push(line);
        assert(crate::rel_path::texts(result@) =~= before + seq![line@]);
    } else {
        assert(before + Seq::<Seq<char>>::empty() =~= before);
    }
    result
}

/// The lines without the white space around them, as far as anything is left of them.
pub open spec fn filled_lines(lines: Seq<Seq<char>>) -> Seq<Seq<char>>
    decreases lines.len(),
{
    if lines.len() == 0 {
        Seq::empty()
    } else {
        let line = trimmed(lines.last());
        if line.len() == 0 {
            filled_lines(lines.drop_last())
        } else {
            filled_lines(lines.drop_last()).push(line)
        }
    }
}

/// Joins the lines of a text, without the white space around them and without empty ones.
pub fn collapse_newlines(text: &str, separator: &str) -> (result: String)
    ensures
        result@ == crate::text::joined(filled_lines(lines_of(text@)), separator@),
{
    let all: Vec<String> = lines(text);
    let ghost views = crate::rel_path::texts(all@);
    let mut kept: Vec<String> = Vec::new();
    let mut i: usize = 0;
    assert(crate::rel_path::texts(kept@) =~= Seq::<Seq<char>>::empty());
    while i < all.len()
        invariant
            i <= all@.len(),
            views == crate::rel_path::texts(all@),
            crate::rel_path::texts(kept@) == filled_lines(views.take(i as int)),
        decreases all@.len() - i,
    {
        let line: String = trim(all[i].as_str());
        let ghost before = crate::rel_path::texts(kept@);
        assert(views.take(i + 1).drop_last() =~= views.take(i as int));
        assert(views.take(i + 1).last() == all@[i as int]@);
        if !line.as_str().is_empty() {
            kept.push(line);
            assert(crate::rel_path::texts(kept@) =~= before.push(line@));
        }
        i += 1;
    }
    assert(views.take(i as int) =~= views);
    assert(crate::rel_path::texts(kept@) =~= kept@.map_values(|s: String| s@));
    crate::text::join_texts(&kept, separator)
}

/// The text with all line ends written as newlines: carriage returns are replaced, together
/// with a newline that follows.
pub open spec fn with_newlines(text: Seq<char>) -> Seq<char>
    decreases text.len(),
{
    if text.len() == 0 {
        Seq::empty()
    } else if text[0] == '\r' {
        if text.len() > 1 && text[1] == '\n' {
            seq!['\n'] + with_newlines(text.skip(2))
        } else {
            seq!['\n'] + with_newlines(text.skip(1))
        }
    } else {
        seq![text[0]] + with_newlines(text.skip(1))
    }
}

/// A text whose line ends are newlines is left as it is.
pub proof fn newlines_stay(text: Seq<char>)
    requires
        !text.contains('\r'),
    ensures
        with_newlines(text) == text,
    decreases text.len(),
{
    if text.len() > 0 {
        assert(text.contains(text[0]));
        assert forall|c: char| text.skip(1).contains(c) implies text.contains(c) by {
            let k = text.skip(1).index_of(c);
            assert(text[k + 1] == c);
        }
        newlines_stay(text.skip(1));
        assert(seq![text[0]] + text.skip(1) =~= text);
    }
}

/// No carriage return is left.
pub proof fn no_return_is_left(text: Seq<char>)
    ensures
        !with_newlines(text).contains('\r'),
    decreases text.len(),
{
    if text.len() > 0 {
        let rest = if text[0] == '\r' && text.len() > 1 && text[1] == '\n' {
            text.skip(2)
        } else {
            text.skip(1)
        };
        no_return_is_left(rest);
        let all = with_newlines(text);
        if all.contains('\r') {
            let k = all.index_of('\r');
            assert(k > 0);
            assert(with_newlines(rest)[k - 1] == '\r');
        }
    }
}

/// Writes all line ends of a text as newlines.
pub fn normalize_line_endings(text: &str) -> (result: String)
    ensures
        result@ == with_newlines(text@),
{
    let chars: Vec<char> = to_chars(text);
    let mut result: String = String::new();
    let mut i: usize = 0;
    assert(chars@.skip(0) =~= chars@);
    assert(result@ + with_newlines(chars@) =~= with_newlines(chars@));
    while i < chars.len()
        invariant
            i <= chars@.len(),
            result@ + with_newlines(chars@.skip(i as int)) == with_newlines(chars@),
        decreases chars@.len() - i,
    {
        let ghost rest = chars@.skip(i as int);
        let ghost before = result@;
        assert(rest[0] == chars@[i as int]);
        assert(rest.skip(1) =~= chars@.skip(i + 1));
        if chars[i] == '\r' {
            result.push('\n');
            if i + 1 < chars.len() && chars[i + 1] == '\n' {
                assert(rest[1] == chars@[i + 1]);
                assert(rest.skip(2) =~= chars@.skip(i + 2));
                assert(before + (seq!['\n'] + with_newlines(rest.skip(2))) =~= result@
                    + with_newlines(rest.skip(2)));
                i += 2;
            } else {
                assert(rest.len() > 1 ==> rest[1] == chars@[i + 1]);
                assert(before + (seq!['\n'] + with_newlines(rest.skip(1))) =~= result@
                    + with_newlines(rest.skip(1)));
                i += 1;
            }
        } else {
            result.push(chars[i]);
            assert(before + (seq![rest[0]] + with_newlines(rest.skip(1))) =~= result@
                + with_newlines(rest.skip(1)));
            i += 1;
        }
    }
    assert(result@ + with_newlines(chars@.skip(i as int)) =~= result@);
    result
}
/// A text without line ends is one line.
pub proof fn one_line_is_one(current: Seq<char>, text: Seq<char>)
    requires
        !text.contains('\n'),
    ensures
        current.len() + text.len() > 0 ==> lines_from(current, text) == seq![current + text],
        current.len() + text.len() == 0 ==> lines_from(current, text).len() == 0,
    decreases text.len(),
{
    if text.len() == 0 {
        assert(current + text =~= current);
    } else {
        assert(text.contains(text[0]));
        assert forall|c: char| text.skip(1).contains(c) implies text.contains(c) by {
            let k = text.skip(1).index_of(c);
            assert(text[k + 1] == c);
        }
        one_line_is_one(current.push(text[0]), text.skip(1));
        assert(current.push(text[0]) + text.skip(1) =~= current + text);
    }
}

proof fn first_line_ends_at_the_first_newline(
    current: Seq<char>,
    line: Seq<char>,
    rest: Seq<char>,
)
    requires
        !line.contains('\n'),
    ensures
        lines_from(current, line.push('\n') + rest) == seq![without_return(current + line)]
            + lines_of(rest),
    decreases line.len(),
{
    let text = line.push('\n') + rest;
    if line.len() == 0 {
        assert(text.skip(1) =~= rest);
        assert(current + line =~= current);
    } else {
        assert(line.contains(line[0]));
        assert forall|c: char| line.skip(1).contains(c) implies line.contains(c) by {
            let k = line.skip(1).index_of(c);
            assert(line[k + 1] == c);
        }
        first_line_ends_at_the_first_newline(current.push(line[0]), line.skip(1), rest);
        assert(text.skip(1) =~= line.skip(1).push('\n') + rest);
        assert(current.push(line[0]) + line.skip(1) =~= current + line);
    }
}

/// The first line ends at the first newline, without a carriage return before it, and the other
/// lines are those of what is behind. What has no newline is one line, or none if it is empty.
pub proof fn lines_end_at_newlines(
    line: Seq<char>,
    rest: &str,
    text: &str,
    plain: &str,
    of_rest: Vec<String>,
    all: Vec<String>,
    of_plain: Vec<String>,
)
    requires
        !line.contains('\n'),
        text@ == line.push('\n') + rest@,
        !plain@.contains('\n'),
        call_ensures(lines, (rest,), of_rest),
        call_ensures(lines, (text,), all),
        call_ensures(lines, (plain,), of_plain),
    ensures
        all@.len() == of_rest@.len() + 1,
        line.len() > 0 && line.last() == '\r' ==> all@[0]@ == line.drop_last(),
        line.len() == 0 || line.last() != '\r' ==> all@[0]@ == line,
        crate::rel_path::texts(all@).skip(1) == crate::rel_path::texts(of_rest@),
        plain@.len() == 0 ==> of_plain@.len() == 0,
        plain@.len() > 0 ==> of_plain@.len() == 1 && of_plain@[0]@ == plain@,
{
    first_line_ends_at_the_first_newline(Seq::empty(), line, rest@);
    assert(Seq::<char>::empty() + line =~= line);
    one_line_is_one(Seq::empty(), plain@);
    assert(Seq::<char>::empty() + plain@ =~= plain@);
    let views = crate::rel_path::texts(all@);
    let others = crate::rel_path::texts(of_rest@);
    let of_one = crate::rel_path::texts(of_plain@);
    assert(views.len() == all@.len() && others.len() == of_rest@.len());
    assert(of_one.len() == of_plain@.len());
    assert(views[0] == all@[0]@);
    assert(views.skip(1) =~= others);
    if plain@.len() > 0 {
        assert(of_one[0] == of_plain@[0]@);
    }
}

proof fn trimming_cuts_blanks(text: Seq<char>)
    ensures
        exists|from: int, to: int|
            0 <= from <= to <= text.len() && trimmed(text) == #[trigger] text.subrange(from, to) && (
            forall|i: int| 0 <= i < from ==> is_blank_char(#[trigger] text[i])) && (forall|i: int|
                to <= i < text.len() ==> is_blank_char(#[trigger] text[i])),
        trimmed(text).len() > 0 ==> !is_blank_char(trimmed(text)[0]) && !is_blank_char(
            trimmed(text).last(),
        ),
{
    let from = trimming_the_start_cuts_blanks(text);
    let rest = text.skip(from);
    let to = trimming_the_end_cuts_blanks(rest);
    assert(text.subrange(from, from + to) =~= rest.take(to));
    assert forall|i: int| from + to <= i < text.len() implies is_blank_char(#[trigger] text[i]) by {
        assert(rest[i - from] == text[i]);
    }
    if to > 0 {
        assert(rest.take(to)[0] == rest[0]);
    }
}

proof fn trimming_the_start_cuts_blanks(text: Seq<char>) -> (from: int)
    ensures
        0 <= from <= text.len(),
        trim_start(text) == text.skip(from),
        forall|i: int| 0 <= i < from ==> is_blank_char(#[trigger] text[i]),
        from < text.len() ==> !is_blank_char(text[from]),
    decreases text.len(),
{
    if text.len() > 0 && is_blank_char(text[0]) {
        let from = trimming_the_start_cuts_blanks(text.skip(1));
        assert(text.skip(1).skip(from) =~= text.skip(from + 1));
        assert forall|i: int| 0 <= i < from + 1 implies is_blank_char(#[trigger] text[i]) by {
            if i > 0 {
                assert(text.skip(1)[i - 1] == text[i]);
            }
        }
        if from + 1 < text.len() {
            assert(text.skip(1)[from] == text[from + 1]);
        }
        from + 1
    } else {
        assert(text.skip(0) =~= text);
        0
    }
}

proof fn trimming_the_end_cuts_blanks(text: Seq<char>) -> (to: int)
    ensures
        0 <= to <= text.len(),
        trim_end(text) == text.take(to),
        forall|i: int| to <= i < text.len() ==> is_blank_char(#[trigger] text[i]),
        to > 0 ==> !is_blank_char(text[to - 1]),
    decreases text.len(),
{
    if text.len() > 0 && is_blank_char(text.last()) {
        let to = trimming_the_end_cuts_blanks(text.drop_last());
        assert(text.drop_last().take(to) =~= text.take(to));
        assert forall|i: int| to <= i < text.len() implies is_blank_char(#[trigger] text[i]) by {
            if i < text.len() - 1 {
                assert(text.drop_last()[i] == text[i]);
            }
        }
        to
    } else {
        assert(text.take(text.len() as int) =~= text);
        text.len() as int
    }
}

/// Only white space is cut from a text, at its start and at its end, and all of it there.
pub proof fn white_space_around_texts_is_cut(text: &str, result: String)
    requires
        call_ensures(trim, (text,), result),
    ensures
        result@.len() > 0 ==> !is_blank_char(result@[0]) && !is_blank_char(result@.last()),
        exists|from: int, to: int|
            0 <= from <= to <= text@.len() && result@ == #[trigger] text@.subrange(from, to) && (
            forall|i: int| 0 <= i < from ==> is_blank_char(#[trigger] text@[i])) && (forall|i: int|
                to <= i < text@.len() ==> is_blank_char(#[trigger] text@[i])),
{
    trimming_cuts_blanks(text@);
}

/// The characters that count as white space: the control characters from tab to carriage
/// return, spaces, and the separators of lines and paragraphs.
pub proof fn white_space_is_what_separates(c: char)
    ensures
        c == ' ' || c == '\t' || c == '\n' || c == '\r' ==> is_blank_char(c),
        '!' <= c <= '~' ==> !is_blank_char(c),
        is_blank_char(c) && (c as int) < 0x80 ==> c == ' ' || 0x9 <= c as int <= 0xd,
{
}

/// A line end is written as a newline wherever it stands, whether it was a carriage return with
/// or without a newline or a newline already; all else stays.
pub proof fn line_ends_become_newlines(
    text: &str,
    result: String,
    with_return: &str,
    of_return: String,
    with_both: &str,
    of_both: String,
    other: &str,
    of_other: String,
    c: char,
)
    requires
        call_ensures(normalize_line_endings, (text,), result),
        call_ensures(normalize_line_endings, (with_return,), of_return),
        call_ensures(normalize_line_endings, (with_both,), of_both),
        call_ensures(normalize_line_endings, (other,), of_other),
        with_return@ == seq!['\r'] + text@,
        with_both@ == seq!['\r', '\n'] + text@,
        other@ == seq![c] + text@,
        c != '\r',
    ensures
        of_both@ == seq!['\n'] + result@,
        text@.len() == 0 || text@[0] != '\n' ==> of_return@ == seq!['\n'] + result@,
        of_other@ == seq![c] + result@,
        text@.len() == 0 ==> result@.len() == 0,
{
    assert(with_return@.skip(1) =~= text@);
    assert(with_both@.skip(2) =~= text@);
    assert(other@.skip(1) =~= text@);
    assert(with_return@.len() > 1 ==> with_return@[1] == text@[0]);
}

/// A text of one line is joined as it is, without the white space around it; a line with
/// nothing in it but white space leaves nothing.
pub proof fn joined_lines_are_trimmed(text: &str, separator: &str, result: String, cut: String)
    requires
        !text@.contains('\n'),
        call_ensures(collapse_newlines, (text, separator), result),
        call_ensures(trim, (text,), cut),
    ensures
        result@ == cut@,
{
    one_line_is_one(Seq::empty(), text@);
    assert(Seq::<char>::empty() + text@ =~= text@);
    let all = lines_of(text@);
    reveal_with_fuel(filled_lines, 2);
    reveal_with_fuel(crate::text::joined, 2);
    if text@.len() == 0 {
        assert(trimmed(text@) =~= Seq::<char>::empty());
        assert(filled_lines(all).len() == 0);
    } else {
        assert(all.drop_last().len() == 0);
        assert(all.last() == text@);
        assert(filled_lines(all.drop_last()) =~= Seq::<Seq<char>>::empty());
        if trimmed(text@).len() == 0 {
            assert(filled_lines(all).len() == 0);
            assert(result@ =~= cut@);
        } else {
            assert(filled_lines(all) =~= seq![trimmed(text@)]);
        }
    }
}

} // verus!
