//! Texts of completions, brought into a form that fits into one line.
use vstd::prelude::*;

use crate::text::to_chars;
use crate::text_lines::{lines, lines_of, trim, trimmed};

verus! {

/// How many bytes a character takes in UTF-8.
pub open spec fn utf8_len(c: char) -> nat {
    if (c as int) < 0x80 {
        1
    } else if (c as int) < 0x800 {
        2
    } else if (c as int) < 0x10000 {
        3
    } else {
        4
    }
}

pub open spec fn byte_len(text: Seq<char>) -> nat
    decreases text.len(),
{
    if text.len() == 0 {
        0
    } else {
        byte_len(text.drop_last()) + utf8_len(text.last())
    }
}

/// A space, a tab or a newline.
pub open spec fn is_gap(c: char) -> bool {
    c == ' ' || c == '\t' || c == '\n'
}

/// The text with a single space in place of each run of spaces, tabs and newlines.
pub open spec fn collapsed(text: Seq<char>) -> Seq<char>
    decreases text.len(),
{
    if text.len() == 0 {
        Seq::empty()
    } else {
        let before = collapsed(text.drop_last());
        if !is_gap(text.last()) {
            before.push(text.last())
        } else if before.len() > 0 && before.last() == ' ' {
            before
        } else {
            before.push(' ')
        }
    }
}

/// Where a byte of the text comes to lie in the collapsed text. The place behind the last
/// byte is one too; a byte within a character comes to the front, and a place behind
/// the text has none.
pub open spec fn new_offset(text: Seq<char>, offset: int) -> Option<int>
    decreases text.len(),
{
    if offset == byte_len(text) {
        Some(byte_len(collapsed(text)) as int)
    } else if offset < 0 || offset > byte_len(text) || text.len() == 0 {
        None
    } else if offset > byte_len(text.drop_last()) {
        Some(0)
    } else {
        new_offset(text.drop_last(), offset)
    }
}

/// A stretch of the text that is shown in some way.
#[derive(Clone, Copy, Debug, PartialEq, Eq, Structural)]
pub struct LabelRun {
    pub start: usize,
    pub end: usize,
    pub highlight: u64,
}

/// The text of a completion, how it is shown, and what of it is filtered by.
#[derive(Debug)]
pub struct CodeLabel {
    pub text: String,
    pub runs: Vec<LabelRun>,
    pub filter_start: usize,
    pub filter_end: usize,
}

/// The stretches of the collapsed text. One that begins behind the text is dropped, one
/// that ends there ends with the text.
pub open spec fn new_runs(text: Seq<char>, runs: Seq<LabelRun>) -> Seq<LabelRun>
    decreases runs.len(),
{
    if runs.len() == 0 {
        Seq::empty()
    } else {
        let earlier = new_runs(text, runs.drop_last());
        let run = runs.last();
        match new_offset(text, run.start as int) {
            None => earlier,
            Some(start) => earlier.push(
                LabelRun {
                    start: start as usize,
                    end: end_in(text, run.end as int) as usize,
                    highlight: run.highlight,
                },
            ),
        }
    }
}

/// Where a place comes to lie, or the end of the collapsed text for one behind it.
pub open spec fn end_in(text: Seq<char>, offset: int) -> int {
    match new_offset(text, offset) {
        Some(offset) => offset,
        None => byte_len(collapsed(text)) as int,
    }
}

fn char_bytes(c: char) -> (len: usize)
    ensures
        len == utf8_len(c),
{
    let code: u32 = c as u32;
    if code < 0x80 {
        1
    } else if code < 0x800 {
        2
    } else if code < 0x10000 {
        3
    } else {
        4
    }
}

proof fn lemma_byte_len_push(text: Seq<char>, c: char)
    ensures
        byte_len(text.push(c)) == byte_len(text) + utf8_len(c),
{
    assert(text.push(c).drop_last() =~= text);
}

/// Sanitises a label: if there are newlines in it, every run of spaces, tabs and newlines
/// becomes one space, and what refers to places in the text follows. A label without
/// newlines stays as it is.
pub fn ensure_uniform_list_compatible_label(label: &mut CodeLabel)
    ensures
        if !old(label).text@.contains('\n') {
            *final(label) == *old(label)
        } else {
            let text = old(label).text@;
            let whole = old(label).filter_start == 0 && old(label).filter_end == byte_len(text);
            &&& final(label).text@ == collapsed(text)
            &&& final(label).runs@ == new_runs(text, old(label).runs@)
            &&& final(label).filter_start == (if whole {
                0
            } else {
                end_in(text, old(label).filter_start as int)
            })
            &&& final(label).filter_end == (if whole {
                byte_len(collapsed(text)) as int
            } else {
                end_in(text, old(label).filter_end as int)
            })
        },
{
    let chars: Vec<char> = to_chars(label.text.as_str());
    let ghost text = label.text@;
    let mut new_text: String = String::new();
    let mut offset_map: Vec<usize> = Vec::new();
    offset_map.push(0);
    let mut new_idx: usize = 0;
    let mut last_char_was_space: bool = false;
    let mut newlines_removed: bool = false;
    let mut i: usize = 0;
    assert(text.take(0) =~= Seq::<char>::empty());
    while i < chars.len()
        invariant
            i <= chars@.len(),
            chars@ == text,
            new_text@ == collapsed(text.take(i as int)),
            new_idx == byte_len(new_text@),
            new_idx <= byte_len(text.take(i as int)),
            last_char_was_space == (new_text@.len() > 0 && new_text@.last() == ' '),
            newlines_removed == text.take(i as int).contains('\n'),
            offset_map@.len() == byte_len(text.take(i as int)) + 1,
            forall|o: int|
                0 <= o < offset_map@.len() ==> Some(#[trigger] offset_map@[o] as int)
                    == new_offset(text.take(i as int), o),
        decreases chars@.len() - i,
    {
        let c: char = chars[i];
        let len: usize = char_bytes(c);
        let ghost before = text.take(i as int);
        let ghost after = text.take(i + 1);
        let ghost map_before = offset_map@;
        let ghost text_before = new_text@;
        proof {
            assert(after.drop_last() =~= before);
            assert(after.last() == c);
            assert(after =~= before.push(c));
            crate::ids::contains_push(before, c, '\n');
            lemma_byte_len_push(text_before, c);
            lemma_byte_len_push(text_before, ' ');
        }
        let mut pushed: usize = 1;
        while pushed < len
            invariant
                1 <= pushed <= len,
                offset_map@.len() == map_before.len() + (pushed - 1),
                forall|o: int| 0 <= o < map_before.len() ==> offset_map@[o] == map_before[o],
                forall|o: int|
                    map_before.len() <= o < offset_map@.len() ==> #[trigger] offset_map@[o] == 0,
            decreases len - pushed,
        {
            offset_map.push(0);
            pushed += 1;
        }
        let bytes: usize = offset_map.len();
        if c == '\n' {
            newlines_removed = true;
        }
        if c == '\n' || c == '\t' || c == ' ' {
            if !last_char_was_space {
                assert(new_idx + 1 <= bytes);
                new_text.push(' ');
                new_idx += 1;
                last_char_was_space = true;
            }
        } else {
            assert(new_idx + len <= bytes);
            new_text.push(c);
            new_idx += len;
            last_char_was_space = false;
        }
        offset_map.push(new_idx);
        proof {
            assert(new_text@ == collapsed(after));
            assert forall|o: int| 0 <= o < offset_map@.len() implies Some(
                #[trigger] offset_map@[o] as int,
            ) == new_offset(after, o) by {
                if o < map_before.len() {
                    assert(Some(map_before[o] as int) == new_offset(before, o));
                }
            }
        }
        i += 1;
    }
    assert(text.take(i as int) =~= text);
    if !newlines_removed {
        return;
    }
    let last_index: usize = new_idx;
    let mut runs: Vec<LabelRun> = Vec::new();
    let ghost given = label.runs@;
    let mut k: usize = 0;
    while k < label.runs.len()
        invariant
            k <= label.runs@.len(),
            given == label.runs@,
            runs@ == new_runs(text, given.take(k as int)),
            last_index == byte_len(collapsed(text)),
            offset_map@.len() == byte_len(text) + 1,
            forall|o: int|
                0 <= o < offset_map@.len() ==> Some(#[trigger] offset_map@[o] as int)
                    == new_offset(text, o),
        decreases label.runs@.len() - k,
    {
        let run: LabelRun = label.runs[k];
        assert(given.take(k + 1).drop_last() =~= given.take(k as int));
        assert(given.take(k + 1).last() == given[k as int]);
        if run.start < offset_map.len() {
            let end: usize = if run.end < offset_map.len() {
                offset_map[run.end]
            } else {
                last_index
            };
            runs.push(LabelRun { start: offset_map[run.start], end, highlight: run.highlight });
        }
        k += 1;
    }
    assert(given.take(k as int) =~= given);
    label.runs = runs;
    if label.filter_start == 0 && label.filter_end == offset_map.len() - 1 {
        label.filter_end = last_index;
    } else {
        label.filter_start =
        if label.filter_start < offset_map.len() {
            offset_map[label.filter_start]
        } else {
            last_index
        };
        label.filter_end =
        if label.filter_end < offset_map.len() {
            offset_map[label.filter_end]
        } else {
            last_index
        };
    }
    label.text = new_text;
}

/// A collapsed text has no newlines and no tabs, and no two spaces follow each other.
pub proof fn collapsed_fits_one_line(text: Seq<char>)
    ensures
        !collapsed(text).contains('\n'),
        !collapsed(text).contains('\t'),
        forall|i: int|
            0 <= i < collapsed(text).len() - 1 && collapsed(text)[i] == ' ' ==> #[trigger] collapsed(
                text,
            )[i + 1] != ' ',
    decreases text.len(),
{
    if text.len() > 0 {
        let before = collapsed(text.drop_last());
        let after = collapsed(text);
        collapsed_fits_one_line(text.drop_last());
        assert forall|i: int| 0 <= i < after.len() implies after[i] != '\n' && after[i]
            != '\t' by {
            if i < before.len() {
                assert(before.contains(before[i]));
            }
        }
        assert forall|i: int| 0 <= i < after.len() - 1 && after[i] == ' ' implies #[trigger] after[i
            + 1] != ' ' by {
            if i + 1 < before.len() {
                assert(before[i + 1] != ' ');
            }
        }
    }
}

/// Collapsing twice is collapsing once.
pub proof fn collapsing_is_idempotent(text: Seq<char>)
    ensures
        collapsed(collapsed(text)) == collapsed(text),
    decreases text.len(),
{
    if text.len() > 0 {
        let before = collapsed(text.drop_last());
        let after = collapsed(text);
        collapsing_is_idempotent(text.drop_last());
        if after != before {
            assert(after.drop_last() =~= before);
        }
    }
}

/// What a server says about a completion.
#[derive(Debug)]
pub enum Documentation {
    Text(String),
    PlainText(String),
    Markdown(String),
}

#[derive(Debug)]
pub enum CompletionDocumentation {
    /// There is no documentation for this completion.
    Undocumented,
    /// A single line of documentation.
    SingleLine(String),
    /// Multiple lines of plain text documentation.
    MultiLinePlainText(String),
    /// Markdown documentation.
    MultiLineMarkdown(String),
    /// Both single line and multiple lines of plain text documentation.
    SingleLineAndMultiLinePlainText { single_line: String, plain_text: Option<String> },
}

/// The text fits into one line.
pub open spec fn is_single_line(text: Seq<char>) -> bool {
    lines_of(text).len() <= 1
}

/// The form in which documentation is shown. Plain text of one line is shown as such;
/// a bare text loses the white space around it then.
pub open spec fn is_shown_as(docs: Documentation, shown: CompletionDocumentation) -> bool {
    match docs {
        Documentation::Text(text) => if is_single_line(text@) {
            shown matches CompletionDocumentation::SingleLine(line) && line@ == trimmed(text@)
        } else {
            shown == CompletionDocumentation::MultiLinePlainText(text)
        },
        Documentation::PlainText(text) => if is_single_line(text@) {
            shown == CompletionDocumentation::SingleLine(text)
        } else {
            shown == CompletionDocumentation::MultiLinePlainText(text)
        },
        Documentation::Markdown(text) => shown == CompletionDocumentation::MultiLineMarkdown(text),
    }
}

impl CompletionDocumentation {
    /// Decides how documentation is shown.
    pub fn from_documentation(docs: Documentation) -> (shown: CompletionDocumentation)
        ensures
            is_shown_as(docs, shown),
    {
        match docs {
            Documentation::Text(text) => {
                let all: Vec<String> = lines(text.as_str());
                assert(crate::rel_path::texts(all@).len() == all@.len());
                if all.len() <= 1 {
                    CompletionDocumentation::SingleLine(trim(text.as_str()))
                } else {
                    CompletionDocumentation::MultiLinePlainText(text)
                }
            },
            Documentation::PlainText(text) => {
                let all: Vec<String> = lines(text.as_str());
                assert(crate::rel_path::texts(all@).len() == all@.len());
                if all.len() <= 1 {
                    CompletionDocumentation::SingleLine(text)
                } else {
                    CompletionDocumentation::MultiLinePlainText(text)
                }
            },
            Documentation::Markdown(text) => CompletionDocumentation::MultiLineMarkdown(text),
        }
    }

    /// The text of the documentation, in short.
    pub fn text(&self) -> (text: String)
        ensures
            text@ == (match *self {
                CompletionDocumentation::Undocumented => ""@,
                CompletionDocumentation::SingleLine(text) => text@,
                CompletionDocumentation::MultiLinePlainText(text) => text@,
                CompletionDocumentation::MultiLineMarkdown(text) => text@,
                CompletionDocumentation::SingleLineAndMultiLinePlainText {
                    single_line,
                    ..
                } => single_line@,
            }),
    {
        match self {
            CompletionDocumentation::Undocumented => "".to_owned(),
            CompletionDocumentation::SingleLine(text) => text.clone(),
            CompletionDocumentation::MultiLinePlainText(text) => text.clone(),
            CompletionDocumentation::MultiLineMarkdown(text) => text.clone(),
            CompletionDocumentation::SingleLineAndMultiLinePlainText { single_line, .. } => {
                single_line.clone()
            },
        }
    }
}

/// The text ends in another one.
pub open spec fn ends_with(text: Seq<char>, end: Seq<char>) -> bool {
    end.len() <= text.len() && text.skip(text.len() - end.len()) == end
}

/// Whether a text ends in another one.
pub fn text_ends_with(text: &str, end: &str) -> (result: bool)
    ensures
        result == ends_with(text@, end@),
{
    let chars: Vec<char> = to_chars(text);
    let wanted: Vec<char> = to_chars(end);
    if wanted.len() > chars.len() {
        return false;
    }
    let len: usize = chars.len();
    let from: usize = len - wanted.len();
    let mut i: usize = 0;
    while i < wanted.len()
        invariant
            i <= wanted@.len(),
            len == chars@.len(),
            from + wanted@.len() == chars@.len(),
            chars@ == text@,
            wanted@ == end@,
            forall|j: int| 0 <= j < i ==> chars@[from + j] == wanted@[j],
        decreases wanted@.len() - i,
    {
        if chars[from + i] != wanted[i] {
            assert(text@.skip(from as int)[i as int] != end@[i as int]);
            return false;
        }
        i += 1;
    }
    assert(text@.skip(from as int) =~= end@);
    true
}

/// The failure of a request is one of those that come up in the course of things.
pub open spec fn is_common_failure(message: Seq<char>) -> bool {
    ends_with(message, "content modified"@) || ends_with(message, "server cancelled the request"@)
}

/// Whether the failure of a request is one of those that come up in the course of things.
pub fn should_log_lsp_request_failure(message: &str) -> (result: bool)
    ensures
        result == is_common_failure(message@),
{
    text_ends_with(message, "content modified") || text_ends_with(
        message,
        "server cancelled the request",
    )
}
/// The characters that are neither spaces nor tabs nor newlines.
pub open spec fn inked(text: Seq<char>) -> Seq<char>
    decreases text.len(),
{
    if text.len() == 0 {
        Seq::empty()
    } else if text.last() == ' ' || text.last() == '\t' || text.last() == '\n' {
        inked(text.drop_last())
    } else {
        inked(text.drop_last()).push(text.last())
    }
}

proof fn collapsing_keeps_the_ink(text: Seq<char>)
    ensures
        inked(collapsed(text)) == inked(text),
        text.len() > 0 ==> collapsed(text).len() > 0,
        text.len() > 0 ==> collapsed(text)[0] == (if is_gap(text[0]) {
            ' '
        } else {
            text[0]
        }),
        text.len() > 0 ==> collapsed(text).last() == (if is_gap(text.last()) {
            ' '
        } else {
            text.last()
        }),
    decreases text.len(),
{
    if text.len() > 0 {
        let before = collapsed(text.drop_last());
        collapsing_keeps_the_ink(text.drop_last());
        let all = collapsed(text);
        if !is_gap(text.last()) {
            assert(all.drop_last() =~= before);
        } else if !(before.len() > 0 && before.last() == ' ') {
            assert(all.drop_last() =~= before);
        }
        if text.len() > 1 {
            assert(text.drop_last()[0] == text[0]);
        }
    }
}

/// A label with newlines keeps all that is neither a space nor a tab nor a newline, in its
/// order, and begins and ends with a space just where it began and ended with one of those. No
/// two spaces follow each other, and no tab or newline is left.
pub proof fn labels_fit_one_line(label: &mut CodeLabel, i: int)
    requires
        call_ensures(ensure_uniform_list_compatible_label, (label,), ()),
        old(label).text@.contains('\n'),
    ensures
        inked(final(label).text@) == inked(old(label).text@),
        !final(label).text@.contains('\n') && !final(label).text@.contains('\t'),
        0 <= i < final(label).text@.len() - 1 && final(label).text@[i] == ' ' ==> final(label).text@[i + 1] != ' ',
        final(label).text@.len() > 0,
        final(label).text@[0] == ' ' <==> (old(label).text@[0] == ' ' || old(label).text@[0] == '\t'
            || old(label).text@[0] == '\n'),
        final(label).text@.last() == ' ' <==> (old(label).text@.last() == ' ' || old(label).text@.last() == '\t' || old(label).text@.last() == '\n'),
{
    let text = old(label).text@;
    assert(text.len() > 0);
    collapsing_keeps_the_ink(text);
    collapsed_fits_one_line(text);
}

/// A label grows with its text: a further character is kept, and a further gap is one space
/// unless there is one already.
pub proof fn labels_grow_with_their_text(label: &mut CodeLabel, longer: &mut CodeLabel, c: char)
    requires
        call_ensures(ensure_uniform_list_compatible_label, (label,), ()),
        call_ensures(ensure_uniform_list_compatible_label, (longer,), ()),
        old(label).text@.contains('\n'),
        old(longer).text@ == old(label).text@.push(c),
    ensures
        c != ' ' && c != '\t' && c != '\n' ==> final(longer).text@ == final(label).text@.push(c),
        c == ' ' || c == '\t' || c == '\n' ==> final(longer).text@ == (if final(label).text@.last() == ' ' {
            final(label).text@
        } else {
            final(label).text@.push(' ')
        }),
{
    let text = old(label).text@;
    let more = old(longer).text@;
    assert(more.drop_last() =~= text);
    let k = text.index_of('\n');
    assert(more[k] == '\n');
    assert(more.contains('\n'));
    assert(text.len() > 0);
    collapsing_keeps_the_ink(text);
}

/// A label without newlines stays as it is.
pub proof fn labels_of_one_line_stay(label: &mut CodeLabel)
    requires
        call_ensures(ensure_uniform_list_compatible_label, (label,), ()),
        !old(label).text@.contains('\n'),
    ensures
        *final(label) == *old(label),
{
}

proof fn places_follow_what_is_before_them(text: Seq<char>, k: int)
    requires
        0 <= k <= text.len(),
    ensures
        new_offset(text, byte_len(text.take(k)) as int) == Some(
            byte_len(collapsed(text.take(k))) as int,
        ),
        byte_len(text.take(k)) <= byte_len(text),
        k < text.len() ==> byte_len(text.take(k)) < byte_len(text),
    decreases text.len(),
{
    if k == text.len() {
        assert(text.take(k) =~= text);
    } else {
        let shorter = text.drop_last();
        assert(shorter.take(k) =~= text.take(k));
        places_follow_what_is_before_them(shorter, k);
    }
}

/// A stretch between two characters of a label with newlines comes to lie behind what becomes
/// of the text before it, and ends behind what becomes of the text before its end.
pub proof fn stretches_follow_the_text(label: &mut CodeLabel, from: int, to: int)
    requires
        call_ensures(ensure_uniform_list_compatible_label, (label,), ()),
        old(label).text@.contains('\n'),
        0 <= from <= to <= old(label).text@.len(),
        old(label).runs@.len() == 1,
        old(label).runs@[0].start == byte_len(old(label).text@.take(from)),
        old(label).runs@[0].end == byte_len(old(label).text@.take(to)),
        byte_len(collapsed(old(label).text@)) <= usize::MAX,
        byte_len(collapsed(old(label).text@.take(from))) <= usize::MAX,
        byte_len(collapsed(old(label).text@.take(to))) <= usize::MAX,
    ensures
        final(label).runs@.len() == 1,
        final(label).runs@[0].start == byte_len(collapsed(old(label).text@.take(from))),
        final(label).runs@[0].end == byte_len(collapsed(old(label).text@.take(to))),
        final(label).runs@[0].highlight == old(label).runs@[0].highlight,
{
    let text = old(label).text@;
    places_follow_what_is_before_them(text, from);
    places_follow_what_is_before_them(text, to);
    reveal_with_fuel(new_runs, 2);
    let runs = old(label).runs@;
    assert(runs.drop_last().len() == 0);
    assert(runs.last() == runs[0]);
}

/// A label that is filtered as a whole stays so, and one of which a part is filtered by keeps
/// that part.
pub proof fn filters_follow_the_text(label: &mut CodeLabel, from: int, to: int)
    requires
        call_ensures(ensure_uniform_list_compatible_label, (label,), ()),
        old(label).text@.contains('\n'),
        0 <= from <= to <= old(label).text@.len(),
        old(label).filter_start == byte_len(old(label).text@.take(from)),
        old(label).filter_end == byte_len(old(label).text@.take(to)),
    ensures
        final(label).filter_start == byte_len(collapsed(old(label).text@.take(from))),
        final(label).filter_end == byte_len(collapsed(old(label).text@.take(to))),
{
    let text = old(label).text@;
    places_follow_what_is_before_them(text, from);
    places_follow_what_is_before_them(text, to);
    if from > 0 {
        assert(text.take(from).drop_last() =~= text.take(from - 1));
    } else {
        assert(text.take(from) =~= Seq::<char>::empty());
        assert(collapsed(text.take(from)) =~= Seq::<char>::empty());
    }
    if to == text.len() {
        assert(text.take(to) =~= text);
    }
}

/// Markdown is shown as Markdown. Plain text is shown in a line if it has no line ends, and in
/// several if something comes behind one; a bare text loses the white space around it then.
pub proof fn documentation_is_shown_by_its_lines(
    text: String,
    markdown: CompletionDocumentation,
    plain: CompletionDocumentation,
    bare: CompletionDocumentation,
)
    requires
        call_ensures(
            CompletionDocumentation::from_documentation,
            (Documentation::Markdown(text),),
            markdown,
        ),
        call_ensures(
            CompletionDocumentation::from_documentation,
            (Documentation::PlainText(text),),
            plain,
        ),
        call_ensures(
            CompletionDocumentation::from_documentation,
            (Documentation::Text(text),),
            bare,
        ),
    ensures
        markdown == CompletionDocumentation::MultiLineMarkdown(text),
        !text@.contains('\n') ==> plain == CompletionDocumentation::SingleLine(text),
        !text@.contains('\n') ==> bare is SingleLine && bare->SingleLine_0@ == trimmed(text@),
        plain is SingleLine || plain == CompletionDocumentation::MultiLinePlainText(text),
        plain is MultiLinePlainText <==> bare is MultiLinePlainText,
        bare is MultiLinePlainText ==> bare == CompletionDocumentation::MultiLinePlainText(text),
{
    if !text@.contains('\n') {
        crate::text_lines::one_line_is_one(Seq::empty(), text@);
    }
}

/// The text of documentation is the text that it was made of.
pub proof fn documentation_has_its_text(shown: CompletionDocumentation, text: String)
    requires
        call_ensures(CompletionDocumentation::text, (&shown,), text),
    ensures
        shown is Undocumented ==> text@.len() == 0,
        shown matches CompletionDocumentation::SingleLine(own) ==> text@ == own@,
        shown matches CompletionDocumentation::MultiLinePlainText(own) ==> text@ == own@,
        shown matches CompletionDocumentation::MultiLineMarkdown(own) ==> text@ == own@,
        shown matches CompletionDocumentation::SingleLineAndMultiLinePlainText { single_line, .. }
            ==> text@ == single_line@,
{
    reveal_strlit("");
}

/// A failure is common just if its message is some text with one of two endings.
pub proof fn common_failures_end_alike(message: &str, start: Seq<char>, result: bool)
    requires
        call_ensures(should_log_lsp_request_failure, (message,), result),
    ensures
        message@ == start + "content modified"@ ==> result,
        message@ == start + "server cancelled the request"@ ==> result,
        result ==> exists|before: Seq<char>| #[trigger]
            (before + "content modified"@) == message@ || (before
                + "server cancelled the request"@) == message@,
{
    let first = "content modified"@;
    let second = "server cancelled the request"@;
    if message@ == start + first {
        assert(message@.skip(message@.len() - first.len()) =~= first);
    }
    if message@ == start + second {
        assert(message@.skip(message@.len() - second.len()) =~= second);
    }
    if result {
        if ends_with(message@, first) {
            let before = message@.take(message@.len() - first.len());
            assert(before + first =~= message@);
        } else {
            let before = message@.take(message@.len() - second.len());
            assert(before + second =~= message@);
            assert((before + first).len() >= first.len());
        }
    }
}

} // verus!
