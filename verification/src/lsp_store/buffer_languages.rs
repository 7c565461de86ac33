//! The languages of buffers: where they are looked for, and what follows when one changes.
use vstd::prelude::*;

use crate::lsp_store::open_buffers::{of_turn, visible_first, OpenBuffer};
use crate::rel_path::texts;
use crate::text::{text_of, to_chars};

verus! {

/// How far into a file a mode line is looked for, from its start and from its end.
pub const MAX_MODELINE_BYTES: usize = 1024;

/// How many lines are searched where no setting says so.
pub const DEFAULT_MODELINE_LINES: usize = 5;

/// How many bytes a character takes.
pub open spec fn width(c: char) -> int {
    if (c as int) < 0x80 {
        1
    } else if (c as int) < 0x800 {
        2
    } else if (c as int) < 0x10000 {
        3
    } else {
        4
    }
}

fn char_width(c: char) -> (bytes: usize)
    ensures
        bytes == width(c),
{
    let code: u32 = c as u32;
    if code < 0x80 {
        1
    } else if code < 0x800 {
        2
    } else if code < 0x10000 {
        3
    } else {
        4
    }
}

/// How many characters fit into some bytes at the start.
pub open spec fn fitting(text: Seq<char>, bytes: int) -> int
    decreases text.len(),
{
    if text.len() == 0 || width(text[0]) > bytes {
        0
    } else {
        1 + fitting(text.skip(1), bytes - width(text[0]))
    }
}

/// How many characters it takes to fill some bytes from the end.
pub open spec fn filling(text: Seq<char>, bytes: int) -> int
    decreases text.len(),
{
    if text.len() == 0 || bytes <= 0 {
        0
    } else {
        1 + filling(text.drop_last(), bytes - width(text.last()))
    }
}

/// The pieces of a text between its line ends, behind what was read of the current one.
pub open spec fn pieces_from(current: Seq<char>, text: Seq<char>) -> Seq<Seq<char>>
    decreases text.len(),
{
    if text.len() == 0 {
        seq![current]
    } else if text[0] == '\n' {
        seq![current] + pieces_from(Seq::empty(), text.skip(1))
    } else {
        pieces_from(current.push(text[0]), text.skip(1))
    }
}

pub open spec fn pieces(text: Seq<char>) -> Seq<Seq<char>> {
    pieces_from(Seq::empty(), text)
}

/// Splits a text at its line ends.
fn split_lines(chars: &Vec<char>, from: usize, to: usize) -> (result: Vec<String>)
    requires
        from <= to <= chars@.len(),
    ensures
        texts(result@) == pieces(chars@.subrange(from as int, to as int)),
{
    let ghost text = chars@.subrange(from as int, to as int);
    let mut result: Vec<String> = Vec::new();
    let mut start: usize = from;
    let mut i: usize = from;
    proof {
        assert(text.skip(0) =~= text);
        assert(chars@.subrange(from as int, from as int) =~= Seq::<char>::empty());
        assert(texts(result@) =~= Seq::<Seq<char>>::empty());
        assert(Seq::<Seq<char>>::empty() + pieces(text) =~= pieces(text));
    }
    while i < to
        invariant
            from <= start <= i <= to <= chars@.len(),
            text == chars@.subrange(from as int, to as int),
            pieces(text) == texts(result@) + pieces_from(
                chars@.subrange(start as int, i as int),
                text.skip(i - from),
            ),
        decreases to - i,
    {
        let ghost current = chars@.subrange(start as int, i as int);
        let ghost before = texts(result@);
        assert(text.skip(i - from)[0] == chars@[i as int]);
        assert(text.skip(i - from).skip(1) =~= text.skip(i + 1 - from));
        if chars[i] == '\n' {
            let piece: String = text_of(chars, start, i);
            result.push(piece);
            proof {
                let rest = pieces_from(Seq::empty(), text.skip(i + 1 - from));
                assert(texts(result@) =~= before.push(current));
                assert(before + (seq![current] + rest) =~= before.push(current) + rest);
                assert(chars@.subrange(i + 1, i + 1) =~= Seq::<char>::empty());
            }
            start = i + 1;
        } else {
            assert(chars@.subrange(start as int, i + 1) =~= current.push(chars@[i as int]));
        }
        i += 1;
    }
    let ghost before = texts(result@);
    assert(text.skip(i - from).len() == 0);
    let piece: String = text_of(chars, start, to);
    result.push(piece);
    assert(texts(result@) =~= before + seq![piece@]);
    result
}

/// The lines in which a mode line is looked for.
#[derive(Debug)]
pub struct ModelineCandidates {
    pub first_lines: Vec<String>,
    pub last_lines: Vec<String>,
}

/// At most so many at the start.
pub open spec fn first_of(lines: Seq<Seq<char>>, count: int) -> Seq<Seq<char>> {
    if count < lines.len() {
        lines.take(count)
    } else {
        lines
    }
}

/// At most so many at the end.
pub open spec fn last_of(lines: Seq<Seq<char>>, count: int) -> Seq<Seq<char>> {
    if count < lines.len() {
        lines.skip(lines.len() - count)
    } else {
        lines
    }
}

/// The setting of the user, else the default one, else a fixed number.
pub open spec fn modeline_count(user: Option<usize>, default: Option<usize>) -> usize {
    match (user, default) {
        (Some(count), _) => count,
        (None, Some(count)) => count,
        (None, None) => DEFAULT_MODELINE_LINES,
    }
}

fn copy_lines(lines: &Vec<String>, from: usize, to: usize) -> (copy: Vec<String>)
    requires
        from <= to <= lines@.len(),
    ensures
        texts(copy@) == texts(lines@).subrange(from as int, to as int),
{
    let mut copy: Vec<String> = Vec::new();
    let mut i: usize = from;
    while i < to
        invariant
            from <= i <= to <= lines@.len(),
            copy@ == lines@.subrange(from as int, i as int),
        decreases to - i,
    {
        copy.push(lines[i].clone());
        assert(lines@.subrange(from as int, i + 1) =~= lines@.subrange(from as int, i as int).push(
            lines@[i as int],
        ));
        i += 1;
    }
    assert(texts(copy@) =~= texts(lines@).subrange(from as int, to as int));
    copy
}

/// Picks the lines at the start and at the end of a file in which a mode line is looked for.
pub fn modeline_candidates(content: &str, user: Option<usize>, default: Option<usize>) -> (
candidates: ModelineCandidates)
    ensures
        texts(candidates.first_lines@) == first_of(
            pieces(content@.take(fitting(content@, MAX_MODELINE_BYTES as int))),
            modeline_count(user, default) as int,
        ),
        texts(candidates.last_lines@) == last_of(
            pieces(content@.skip(content@.len() - filling(content@, MAX_MODELINE_BYTES as int))),
            modeline_count(user, default) as int,
        ),
{
    let count: usize = match user {
        Some(count) => count,
        None => match default {
            Some(count) => count,
            None => DEFAULT_MODELINE_LINES,
        },
    };
    let chars: Vec<char> = to_chars(content);
    let mut end: usize = 0;
    let mut room: usize = MAX_MODELINE_BYTES;
    assert(chars@.skip(0) =~= chars@);
    while end < chars.len() && char_width(chars[end]) <= room
        invariant
            end <= chars@.len(),
            room <= MAX_MODELINE_BYTES,
            fitting(chars@, MAX_MODELINE_BYTES as int) == end + fitting(
                chars@.skip(end as int),
                room as int,
            ),
        ensures
            end <= chars@.len(),
            fitting(chars@, MAX_MODELINE_BYTES as int) == end,
        decreases chars@.len() - end,
    {
        assert(chars@.skip(end as int)[0] == chars@[end as int]);
        assert(chars@.skip(end as int).skip(1) =~= chars@.skip(end + 1));
        room -= char_width(chars[end]);
        end += 1;
    }
    let mut start: usize = chars.len();
    let mut missing: usize = MAX_MODELINE_BYTES;
    assert(chars@.take(start as int) =~= chars@);
    while start > 0 && missing > 0
        invariant
            start <= chars@.len(),
            missing <= MAX_MODELINE_BYTES,
            filling(chars@, MAX_MODELINE_BYTES as int) == chars@.len() - start + filling(
                chars@.take(start as int),
                missing as int,
            ),
        decreases start,
    {
        let bytes: usize = char_width(chars[start - 1]);
        assert(chars@.take(start as int).last() == chars@[start - 1]);
        assert(chars@.take(start as int).drop_last() =~= chars@.take(start - 1));
        if bytes < missing {
            missing -= bytes;
        } else {
            assert(missing - bytes <= 0);
            assert(filling(chars@.take(start - 1), missing - bytes) == 0);
            assert(filling(chars@.take(start - 1), 0) == 0);
            missing = 0;
        }
        start -= 1;
    }
    assert(filling(chars@.take(start as int), missing as int) == 0);
    let first: Vec<String> = split_lines(&chars, 0, end);
    let last: Vec<String> = split_lines(&chars, start, chars.len());
    proof {
        assert(chars@.subrange(0, end as int) =~= content@.take(end as int));
        assert(chars@.subrange(start as int, chars@.len() as int) =~= content@.skip(start as int));
    }
    let first_end: usize = if count < first.len() {
        count
    } else {
        first.len()
    };
    let last_start: usize = if count < last.len() {
        last.len() - count
    } else {
        0
    };
    let first_lines: Vec<String> = copy_lines(&first, 0, first_end);
    let last_lines: Vec<String> = copy_lines(&last, last_start, last.len());
    proof {
        let all = texts(first@);
        assert(all.subrange(0, first_end as int) =~= first_of(all, count as int));
        let rest = texts(last@);
        assert(rest.subrange(last_start as int, rest.len() as int) =~= last_of(
            rest,
            count as int,
        ));
    }
    ModelineCandidates { first_lines, last_lines }
}

/// Where the language of a buffer is looked up.
#[derive(Debug)]
pub enum LanguageQuery {
    /// The buffer has no file.
    NoFile,
    /// A mode line names it.
    ModelineName(String),
    /// By the path and content of the file.
    File,
}

/// Says where the language of a buffer is looked up. A mode line that names a mode decides.
pub fn language_query(has_file: bool, mode: Option<String>) -> (query: LanguageQuery)
    ensures
        query == if !has_file {
            LanguageQuery::NoFile
        } else {
            match mode {
                Some(name) => LanguageQuery::ModelineName(name),
                None => LanguageQuery::File,
            }
        },
{
    if !has_file {
        return LanguageQuery::NoFile;
    }
    match mode {
        Some(name) => LanguageQuery::ModelineName(name),
        None => LanguageQuery::File,
    }
}

/// What follows from a lookup.
#[derive(Clone, Copy, Debug, PartialEq, Eq, Structural)]
pub enum Detection {
    /// The language is there: the buffer gets it.
    SetLanguage,
    /// The language is not loaded yet.
    Wait,
    /// There is none, which is announced.
    AnnounceNone,
}

pub fn detect_language_for_buffer(is_available: bool, is_loaded: bool) -> (detection: Detection)
    ensures
        detection == if !is_available {
            Detection::AnnounceNone
        } else if is_loaded {
            Detection::SetLanguage
        } else {
            Detection::Wait
        },
{
    if !is_available {
        Detection::AnnounceNone
    } else if is_loaded {
        Detection::SetLanguage
    } else {
        Detection::Wait
    }
}

/// What giving a buffer a language comes down to. That it was detected is announced anyway.
#[derive(Clone, Copy, Debug, PartialEq, Eq, Structural)]
pub struct LanguageChange {
    /// The buffer is closed in the servers of its old language.
    pub unregister: bool,
    /// The buffer has another language so far, or none.
    pub assign: bool,
}

/// Gives a buffer a language.
pub fn set_language_for_buffer(
    is_registered: bool,
    has_uri: bool,
    old_language: Option<u64>,
    new_language: u64,
) -> (change: LanguageChange)
    ensures
        change == (LanguageChange {
            unregister: is_registered && has_uri,
            assign: old_language != Some(new_language),
        }),
{
    let assign: bool = match old_language {
        Some(old_language) => old_language != new_language,
        None => true,
    };
    LanguageChange { unregister: is_registered && has_uri, assign }
}

/// The default settings for tabs, once they are known.
#[derive(Clone, Copy, Debug, PartialEq, Eq, Structural)]
pub struct DefaultTabSettings {
    pub tab_size: u32,
    pub hard_tabs: bool,
}

/// Takes over the default settings for tabs. When they become known, the tabs of all open
/// buffers are looked at again; later they are not.
pub fn on_update_default_tab_settings(
    known: &mut Option<DefaultTabSettings>,
    settings: DefaultTabSettings,
) -> (redetect: bool)
    ensures
        redetect == (*old(known) is None),
        *final(known) == Some(settings),
{
    let redetect: bool = known.is_none();
    *known = Some(settings);
    redetect
}

/// A step that follows when the file of a buffer changes its path.
#[derive(Clone, Copy, Debug, PartialEq, Eq, Structural)]
pub enum BufferStep {
    /// The buffer loses the completion triggers of the servers for its old path.
    ResetTriggers,
    /// It is closed in those servers.
    UnregisterOld,
    DetectLanguage,
    /// It gets the triggers of the servers for its new path.
    InitializeTriggers,
    /// It is opened in those servers.
    Register,
}

pub open spec fn steps_of_path_change(has_old_file: bool, is_registered: bool) -> Seq<BufferStep> {
    let start = if has_old_file && is_registered {
        seq![BufferStep::ResetTriggers, BufferStep::UnregisterOld]
    } else if has_old_file {
        seq![BufferStep::ResetTriggers]
    } else {
        Seq::empty()
    };
    let middle = start.push(BufferStep::DetectLanguage).push(BufferStep::InitializeTriggers);
    if is_registered {
        middle.push(BufferStep::Register)
    } else {
        middle
    }
}

/// What follows when the file of a buffer changes its path.
pub fn buffer_changed_file_path(has_old_file: bool, is_registered: bool) -> (steps: Vec<BufferStep>)
    ensures
        steps@ == steps_of_path_change(has_old_file, is_registered),
{
    let mut steps: Vec<BufferStep> = Vec::new();
    if has_old_file {
        steps.push(BufferStep::ResetTriggers);
        if is_registered {
            steps.push(BufferStep::UnregisterOld);
        }
    }
    assert(steps@ =~= (if has_old_file && is_registered {
        seq![BufferStep::ResetTriggers, BufferStep::UnregisterOld]
    } else if has_old_file {
        seq![BufferStep::ResetTriggers]
    } else {
        Seq::empty()
    }));
    steps.push(BufferStep::DetectLanguage);
    steps.push(BufferStep::InitializeTriggers);
    if is_registered {
        steps.push(BufferStep::Register);
    }
    steps
}

/// A buffer closed in the servers for its old path is opened in those for its new one.
pub proof fn path_change_reregisters(has_old_file: bool, is_registered: bool)
    ensures
        steps_of_path_change(has_old_file, is_registered).contains(BufferStep::UnregisterOld)
            ==> steps_of_path_change(has_old_file, is_registered).last() == BufferStep::Register,
{
}

/// A buffer when languages become available.
#[derive(Debug)]
pub struct LanguageState {
    pub buffer: OpenBuffer,
    /// It has no language but plain text.
    pub is_plain_text: bool,
    /// Parts of it are in languages that were not known.
    pub has_unknown_injections: bool,
}

/// What is done with buffers when languages become available.
#[derive(Debug)]
pub struct MaintainPlan {
    /// They lose their languages, and the completion triggers of their servers.
    pub unassign: Vec<u64>,
    /// They are closed in their servers.
    pub unregister: Vec<u64>,
    /// Their languages are looked for, in this order. The steps are those for a file that has
    /// a new path and had none before.
    pub detect: Vec<u64>,
    /// They are opened in servers that have become available.
    pub register: Vec<u64>,
    /// They are parsed again.
    pub reparse: Vec<u64>,
}

/// The buffers in plain text.
pub open spec fn plain_buffers(states: Seq<LanguageState>) -> Seq<OpenBuffer>
    decreases states.len(),
{
    if states.len() == 0 {
        Seq::empty()
    } else if states.last().is_plain_text {
        plain_buffers(states.drop_last()).push(states.last().buffer)
    } else {
        plain_buffers(states.drop_last())
    }
}

/// The buffers with a language that are open somewhere.
pub open spec fn buffers_to_register(states: Seq<LanguageState>) -> Seq<u64>
    decreases states.len(),
{
    if states.len() == 0 {
        Seq::empty()
    } else if !states.last().is_plain_text && states.last().buffer.is_registered {
        buffers_to_register(states.drop_last()).push(states.last().buffer.id)
    } else {
        buffers_to_register(states.drop_last())
    }
}

/// The buffers with a language that hold parts in unknown ones.
pub open spec fn buffers_to_reparse(states: Seq<LanguageState>) -> Seq<u64>
    decreases states.len(),
{
    if states.len() == 0 {
        Seq::empty()
    } else if !states.last().is_plain_text && states.last().has_unknown_injections {
        buffers_to_reparse(states.drop_last()).push(states.last().buffer.id)
    } else {
        buffers_to_reparse(states.drop_last())
    }
}

/// The buffers that lose their languages when all languages are loaded anew: those with a file.
pub open spec fn unassigned(states: Seq<LanguageState>) -> Seq<u64>
    decreases states.len(),
{
    if states.len() == 0 {
        Seq::empty()
    } else if states.last().buffer.worktree is Some {
        unassigned(states.drop_last()).push(states.last().buffer.id)
    } else {
        unassigned(states.drop_last())
    }
}

/// Those of them that are closed in their servers.
pub open spec fn unregistered(states: Seq<LanguageState>) -> Seq<u64>
    decreases states.len(),
{
    if states.len() == 0 {
        Seq::empty()
    } else {
        let state = states.last();
        let earlier = unregistered(states.drop_last());
        if state.buffer.worktree is Some && state.buffer.is_registered && state.buffer.has_uri {
            earlier.push(state.buffer.id)
        } else {
            earlier
        }
    }
}

/// The buffers after they lost their languages.
pub open spec fn without_languages(states: Seq<LanguageState>) -> Seq<LanguageState> {
    states.map_values(
        |state: LanguageState|
            LanguageState {
                is_plain_text: state.is_plain_text || state.buffer.worktree is Some,
                ..state
            },
    )
}

/// Takes the languages from the buffers with a file.
fn take_languages(states: Vec<LanguageState>) -> (taken: (
    Vec<LanguageState>,
    Vec<u64>,
    Vec<u64>,
))
    ensures
        taken.0@ == without_languages(states@),
        taken.1@ == unassigned(states@),
        taken.2@ == unregistered(states@),
{
    let ghost given = states@;
    let mut rest: Vec<LanguageState> = states;
    let mut plain: Vec<LanguageState> = Vec::new();
    let mut unassign: Vec<u64> = Vec::new();
    let mut unregister: Vec<u64> = Vec::new();
    assert(without_languages(given.take(0)) =~= plain@);
    while rest.len() > 0
        invariant
            rest@.len() <= given.len(),
            rest@ == given.skip(given.len() - rest@.len()),
            plain@ == without_languages(given.take(given.len() - rest@.len())),
            unassign@ == unassigned(given.take(given.len() - rest@.len())),
            unregister@ == unregistered(given.take(given.len() - rest@.len())),
        decreases rest@.len(),
    {
        let ghost done = given.len() - rest@.len();
        let state: LanguageState = rest.remove(0);
        proof {
            assert(rest@ =~= given.skip(done + 1));
            assert(given.take(done + 1).drop_last() =~= given.take(done));
            assert(given.take(done + 1).last() == given[done]);
        }
        let mut state: LanguageState = state;
        if state.buffer.worktree.is_some() {
            unassign.push(state.buffer.id);
            if state.buffer.is_registered && state.buffer.has_uri {
                unregister.push(state.buffer.id);
            }
            state.is_plain_text = true;
        }
        plain.push(state);
        assert(plain@ =~= without_languages(given.take(done + 1)));
    }
    assert(given.take(given.len() as int) =~= given);
    (plain, unassign, unregister)
}

/// Decides what is done with buffers when languages become available. When all languages were
/// loaded anew, buffers with a file lose theirs first. Buffers of visible worktrees come
/// first, so that their servers can be reused for the others.
pub fn maintain_buffer_languages(
    prev_reload_count: &mut u64,
    reload_count: u64,
    states: Vec<LanguageState>,
) -> (plan: MaintainPlan)
    ensures
        ({
            let reloaded = reload_count > *old(prev_reload_count);
            let now = if reloaded {
                without_languages(states@)
            } else {
                states@
            };
            &&& plan.unassign@ == (if reloaded {
                unassigned(states@)
            } else {
                Seq::empty()
            })
            &&& plan.unregister@ == (if reloaded {
                unregistered(states@)
            } else {
                Seq::empty()
            })
            &&& plan.detect@ == of_turn(plain_buffers(now), 0) + of_turn(plain_buffers(now), 1)
                + of_turn(plain_buffers(now), 2)
            &&& plan.register@ == buffers_to_register(now)
            &&& plan.reparse@ == buffers_to_reparse(now)
        }),
        *final(prev_reload_count) == (if reload_count > *old(prev_reload_count) {
            reload_count
        } else {
            *old(prev_reload_count)
        }),
{
    let (states, unassign, unregister): (Vec<LanguageState>, Vec<u64>, Vec<u64>) = if reload_count
        > *prev_reload_count {
        *prev_reload_count = reload_count;
        take_languages(states)
    } else {
        (states, Vec::new(), Vec::new())
    };
    let ghost given = states@;
    let mut rest: Vec<LanguageState> = states;
    let mut plain: Vec<OpenBuffer> = Vec::new();
    let mut register: Vec<u64> = Vec::new();
    let mut reparse: Vec<u64> = Vec::new();
    while rest.len() > 0
        invariant
            rest@.len() <= given.len(),
            rest@ == given.skip(given.len() - rest@.len()),
            plain@ == plain_buffers(given.take(given.len() - rest@.len())),
            register@ == buffers_to_register(given.take(given.len() - rest@.len())),
            reparse@ == buffers_to_reparse(given.take(given.len() - rest@.len())),
        decreases rest@.len(),
    {
        let ghost done = given.len() - rest@.len();
        let state: LanguageState = rest.remove(0);
        assert(rest@ =~= given.skip(done + 1));
        assert(given.take(done + 1).drop_last() =~= given.take(done));
        assert(given.take(done + 1).last() == given[done]);
        if state.is_plain_text {
            plain.push(state.buffer);
        } else {
            if state.has_unknown_injections {
                reparse.push(state.buffer.id);
            }
            if state.buffer.is_registered {
                register.push(state.buffer.id);
            }
        }
    }
    assert(given.take(given.len() as int) =~= given);
    MaintainPlan { unassign, unregister, detect: visible_first(&plain), register, reparse }
}
proof fn plain_line_is_one_piece(current: Seq<char>, line: Seq<char>)
    requires
        !line.contains('\n'),
    ensures
        pieces_from(current, line) == seq![current + line],
    decreases line.len(),
{
    if line.len() == 0 {
        assert(current + line =~= current);
    } else {
        assert(line.contains(line[0]));
        assert forall|c: char| line.skip(1).contains(c) implies line.contains(c) by {
            let k = line.skip(1).index_of(c);
            assert(line[k + 1] == c);
        }
        plain_line_is_one_piece(current.push(line[0]), line.skip(1));
        assert(current.push(line[0]) + line.skip(1) =~= current + line);
    }
}

proof fn first_line_is_the_first_piece(current: Seq<char>, line: Seq<char>, rest: Seq<char>)
    requires
        !line.contains('\n'),
    ensures
        pieces_from(current, line.push('\n') + rest) == seq![current + line] + pieces(rest),
    decreases line.len(),
{
    let text = line.push('\n') + rest;
    if line.len() == 0 {
        assert(text.skip(1) =~= rest);
        assert(current + line =~= current);
    } else {
        assert(line.contains(line[0]));
        assert forall|c: char| line.skip(1).contains(c) implies line.contains(c) by {
            let k = line.skip(1).index_of(c);
            assert(line[k + 1] == c);
        }
        first_line_is_the_first_piece(current.push(line[0]), line.skip(1), rest);
        assert(text.skip(1) =~= line.skip(1).push('\n') + rest);
        assert(current.push(line[0]) + line.skip(1) =~= current + line);
    }
}

proof fn last_line_is_the_last_piece(current: Seq<char>, before: Seq<char>, line: Seq<char>)
    requires
        !line.contains('\n'),
    ensures
        pieces_from(current, before.push('\n') + line) == pieces_from(current, before).push(line),
    decreases before.len(),
{
    let text = before.push('\n') + line;
    if before.len() == 0 {
        assert(text.skip(1) =~= line);
        plain_line_is_one_piece(Seq::empty(), line);
        assert(Seq::<char>::empty() + line =~= line);
        assert(seq![current] + seq![line] =~= seq![current].push(line));
    } else {
        assert(text.skip(1) =~= before.skip(1).push('\n') + line);
        if before[0] == '\n' {
            last_line_is_the_last_piece(Seq::empty(), before.skip(1), line);
            assert(seq![current] + pieces(before.skip(1)).push(line) =~= (seq![current] + pieces(
                before.skip(1),
            )).push(line));
        } else {
            last_line_is_the_last_piece(current.push(before[0]), before.skip(1), line);
        }
    }
}

/// The text is ASCII.
pub open spec fn is_plain_ascii(text: Seq<char>) -> bool {
    forall|i: int| 0 <= i < text.len() ==> (#[trigger] text[i] as int) < 0x80
}

proof fn ascii_fills_its_length(text: Seq<char>, bytes: int)
    requires
        is_plain_ascii(text),
        bytes >= 0,
    ensures
        fitting(text, bytes) == (if text.len() < bytes {
            text.len() as int
        } else {
            bytes
        }),
        filling(text, bytes) == (if text.len() < bytes {
            text.len() as int
        } else {
            bytes
        }),
    decreases text.len(),
{
    if text.len() > 0 && bytes > 0 {
        assert forall|i: int| 0 <= i < text.skip(1).len() implies (#[trigger] text.skip(1)[i] as int)
            < 0x80 by {
            assert(text.skip(1)[i] == text[i + 1]);
        }
        assert forall|i: int|
            0 <= i < text.drop_last().len() implies (#[trigger] text.drop_last()[i] as int)
            < 0x80 by {
            assert(text.drop_last()[i] == text[i]);
        }
        ascii_fills_its_length(text.skip(1), bytes - 1);
        ascii_fills_its_length(text.drop_last(), bytes - 1);
        assert(width(text[0]) == 1 && width(text.last()) == 1);
    }
}

/// The first line of a short file is looked at first, and those behind it as in the file
/// without it; at most as many lines are looked at as the settings say.
pub proof fn first_lines_are_looked_at(
    line: Seq<char>,
    rest: &str,
    content: &str,
    count: usize,
    default: Option<usize>,
    candidates: ModelineCandidates,
    of_rest: ModelineCandidates,
)
    requires
        !line.contains('\n'),
        content@ == line.push('\n') + rest@,
        is_plain_ascii(content@),
        content@.len() <= 1024,
        count > 0,
        call_ensures(modeline_candidates, (content, Some(count), default), candidates),
        call_ensures(modeline_candidates, (rest, Some((count - 1) as usize), default), of_rest),
    ensures
        texts(candidates.first_lines@) == seq![line] + texts(of_rest.first_lines@),
        candidates.first_lines@.len() <= count,
{
    assert forall|i: int| 0 <= i < rest@.len() implies (#[trigger] rest@[i] as int) < 0x80 by {
        assert(rest@[i] == content@[line.len() + 1 + i]);
    }
    ascii_fills_its_length(content@, 1024);
    ascii_fills_its_length(rest@, 1024);
    assert(content@.take(content@.len() as int) =~= content@);
    assert(rest@.take(rest@.len() as int) =~= rest@);
    first_line_is_the_first_piece(Seq::empty(), line, rest@);
    assert(Seq::<char>::empty() + line =~= line);
    let lines = pieces(rest@);
    let all = seq![line] + lines;
    assert(pieces(content@) == all);
    assert(texts(candidates.first_lines@) =~= seq![line] + texts(of_rest.first_lines@));
    assert(texts(candidates.first_lines@).len() == candidates.first_lines@.len());
}

/// The last line of a short file is looked at last, and those before it as in the file without
/// it; at most as many lines are looked at as the settings say.
pub proof fn last_lines_are_looked_at(
    before: &str,
    line: Seq<char>,
    content: &str,
    count: usize,
    default: Option<usize>,
    candidates: ModelineCandidates,
    of_before: ModelineCandidates,
)
    requires
        !line.contains('\n'),
        content@ == before@.push('\n') + line,
        is_plain_ascii(content@),
        content@.len() <= 1024,
        count > 0,
        call_ensures(modeline_candidates, (content, Some(count), default), candidates),
        call_ensures(modeline_candidates, (before, Some((count - 1) as usize), default), of_before),
    ensures
        texts(candidates.last_lines@) == texts(of_before.last_lines@).push(line),
        candidates.last_lines@.len() <= count,
{
    assert forall|i: int| 0 <= i < before@.len() implies (#[trigger] before@[i] as int) < 0x80 by {
        assert(before@[i] == content@[i]);
    }
    ascii_fills_its_length(content@, 1024);
    ascii_fills_its_length(before@, 1024);
    assert(content@.skip(0) =~= content@);
    assert(before@.skip(0) =~= before@);
    last_line_is_the_last_piece(Seq::empty(), before@, line);
    assert(pieces(content@) == pieces(before@).push(line));
    assert(texts(candidates.last_lines@) =~= texts(of_before.last_lines@).push(line));
    assert(texts(candidates.last_lines@).len() == candidates.last_lines@.len());
}

/// A file of one line is that line, at its start and at its end. The setting of the user counts
/// before the default one, and without either five lines are looked at.
pub proof fn settings_say_how_many_lines_are_looked_at(
    content: &str,
    user: Option<usize>,
    default: Option<usize>,
    candidates: ModelineCandidates,
    count: Option<usize>,
    of_count: ModelineCandidates,
)
    requires
        call_ensures(modeline_candidates, (content, user, default), candidates),
        call_ensures(modeline_candidates, (content, count, None), of_count),
        count == (if user is Some {
            user
        } else if default is Some {
            default
        } else {
            Some(5)
        }),
    ensures
        texts(candidates.first_lines@) == texts(of_count.first_lines@),
        texts(candidates.last_lines@) == texts(of_count.last_lines@),
        candidates.first_lines@.len() <= count->0,
        candidates.last_lines@.len() <= count->0,
        is_plain_ascii(content@) && content@.len() <= 1024 && !content@.contains('\n') && count->0
            > 0 ==> texts(candidates.first_lines@) == seq![content@] && texts(
            candidates.last_lines@,
        ) == seq![content@],
{
    assert(texts(candidates.first_lines@).len() == candidates.first_lines@.len());
    assert(texts(candidates.last_lines@).len() == candidates.last_lines@.len());
    if is_plain_ascii(content@) && content@.len() <= 1024 && !content@.contains('\n') {
        ascii_fills_its_length(content@, 1024);
        assert(content@.take(content@.len() as int) =~= content@);
        assert(content@.skip(0) =~= content@);
        plain_line_is_one_piece(Seq::empty(), content@);
        assert(Seq::<char>::empty() + content@ =~= content@);
    }
}

/// Of a long file only the first and the last kilobyte are looked at.
pub proof fn long_files_are_looked_at_near_their_ends(
    content: &str,
    start: &str,
    end: &str,
    user: Option<usize>,
    default: Option<usize>,
    candidates: ModelineCandidates,
    of_start: ModelineCandidates,
    of_end: ModelineCandidates,
)
    requires
        is_plain_ascii(content@),
        content@.len() > 1024,
        start@ == content@.take(1024),
        end@ == content@.skip(content@.len() - 1024),
        call_ensures(modeline_candidates, (content, user, default), candidates),
        call_ensures(modeline_candidates, (start, user, default), of_start),
        call_ensures(modeline_candidates, (end, user, default), of_end),
    ensures
        texts(candidates.first_lines@) == texts(of_start.first_lines@),
        texts(candidates.last_lines@) == texts(of_end.last_lines@),
{
    assert forall|i: int| 0 <= i < start@.len() implies (#[trigger] start@[i] as int) < 0x80 by {
        assert(start@[i] == content@[i]);
    }
    assert forall|i: int| 0 <= i < end@.len() implies (#[trigger] end@[i] as int) < 0x80 by {
        assert(end@[i] == content@[content@.len() - 1024 + i]);
    }
    ascii_fills_its_length(content@, 1024);
    ascii_fills_its_length(start@, 1024);
    ascii_fills_its_length(end@, 1024);
    assert(start@.take(1024) =~= start@);
    assert(end@.skip(0) =~= end@);
}

/// A buffer without a file has no language to look up. A mode line is asked by its name, and
/// the file only where there is none.
pub proof fn mode_lines_decide(has_file: bool, mode: Option<String>, query: LanguageQuery)
    requires
        call_ensures(language_query, (has_file, mode), query),
    ensures
        query is NoFile <==> !has_file,
        query is ModelineName <==> has_file && mode is Some,
        query is File <==> has_file && mode is None,
        query is ModelineName ==> Some(query->ModelineName_0) == mode,
{
}

/// A language that is there is given to the buffer once it is loaded; that there is none is
/// announced.
pub proof fn loaded_languages_are_given(is_available: bool, is_loaded: bool, detection: Detection)
    requires
        call_ensures(detect_language_for_buffer, (is_available, is_loaded), detection),
    ensures
        detection is SetLanguage <==> is_available && is_loaded,
        detection is AnnounceNone <==> !is_available,
        detection is Wait <==> is_available && !is_loaded,
{
}

/// A buffer that servers know is closed in them before its language changes, and a language is
/// only assigned if it is another one.
pub proof fn languages_are_assigned_when_they_change(
    is_registered: bool,
    has_uri: bool,
    old_language: Option<u64>,
    new_language: u64,
    change: LanguageChange,
)
    requires
        call_ensures(
            set_language_for_buffer,
            (is_registered, has_uri, old_language, new_language),
            change,
        ),
    ensures
        change.unregister <==> is_registered && has_uri,
        old_language is None ==> change.assign,
        old_language is Some ==> (change.assign <==> old_language->0 != new_language),
{
}

/// Tabs are looked at again the first time that the defaults become known, and not after that.
pub proof fn tabs_are_looked_at_once(
    known: &mut Option<DefaultTabSettings>,
    settings: DefaultTabSettings,
    redetect: bool,
)
    requires
        call_ensures(on_update_default_tab_settings, (known, settings), redetect),
    ensures
        redetect <==> *old(known) is None,
        *final(known) == Some(settings),
{
}

/// A buffer with a new path has its language looked up and gets new triggers, in this order.
/// Only one that had a file loses old triggers, first of all, and only one that is open in
/// servers is closed before and opened after.
pub proof fn path_changes_go_step_by_step(
    has_old_file: bool,
    is_registered: bool,
    steps: Vec<BufferStep>,
)
    requires
        call_ensures(buffer_changed_file_path, (has_old_file, is_registered), steps),
    ensures
        !has_old_file && !is_registered ==> steps@ == seq![
            BufferStep::DetectLanguage,
            BufferStep::InitializeTriggers,
        ],
        !has_old_file && is_registered ==> steps@ == seq![
            BufferStep::DetectLanguage,
            BufferStep::InitializeTriggers,
            BufferStep::Register,
        ],
        has_old_file && !is_registered ==> steps@ == seq![
            BufferStep::ResetTriggers,
            BufferStep::DetectLanguage,
            BufferStep::InitializeTriggers,
        ],
        has_old_file && is_registered ==> steps@ == seq![
            BufferStep::ResetTriggers,
            BufferStep::UnregisterOld,
            BufferStep::DetectLanguage,
            BufferStep::InitializeTriggers,
            BufferStep::Register,
        ],
{
}

/// What is done with a buffer when languages become available: one in plain text has its
/// language looked for; another is opened in new servers and parsed again where it needs it.
/// When all languages were loaded anew, a buffer with a file is in plain text.
pub proof fn buffers_are_maintained_by_their_state(
    prev: &mut u64,
    reload_count: u64,
    states: Vec<LanguageState>,
    plan: MaintainPlan,
)
    requires
        call_ensures(maintain_buffer_languages, (prev, reload_count, states), plan),
        states@.len() == 1,
    ensures
        ({
            let state = states@[0];
            let reloaded = reload_count > *old(prev);
            let own = seq![state.buffer.id];
            let taken = reloaded && state.buffer.worktree is Some;
            let plain = state.is_plain_text || taken;
            &&& plan.unassign@ == if taken { own } else { Seq::empty() }
            &&& plan.unregister@ == if taken && state.buffer.is_registered && state.buffer.has_uri {
                own
            } else {
                Seq::empty()
            }
            &&& plan.detect@ == if plain { own } else { Seq::empty() }
            &&& plan.register@ == if !plain && state.buffer.is_registered {
                own
            } else {
                Seq::empty()
            }
            &&& plan.reparse@ == if !plain && state.has_unknown_injections {
                own
            } else {
                Seq::empty()
            }
            &&& *final(prev) >= *old(prev)
            &&& *final(prev) >= reload_count
            &&& *final(prev) == *old(prev) || *final(prev) == reload_count
        }),
{
    let now = without_languages(states@);
    assert(now.len() == 1 && now.drop_last().len() == 0 && states@.drop_last().len() == 0);
    assert(now.last() == now[0] && states@.last() == states@[0]);
    reveal_with_fuel(plain_buffers, 2);
    reveal_with_fuel(buffers_to_register, 2);
    reveal_with_fuel(buffers_to_reparse, 2);
    reveal_with_fuel(unassigned, 2);
    reveal_with_fuel(unregistered, 2);
    reveal_with_fuel(of_turn, 2);
    let of_now = plain_buffers(now);
    let of_states = plain_buffers(states@);
    assert(of_now.len() > 0 ==> of_now.len() == 1 && of_now.drop_last().len() == 0
        && of_now.last() == states@[0].buffer);
    assert(of_states.len() > 0 ==> of_states.len() == 1 && of_states.drop_last().len() == 0
        && of_states.last() == states@[0].buffer);
}

/// A further buffer adds to what is done with the others behind them.
pub proof fn further_buffers_are_maintained_too(
    prev: &mut u64,
    reload_count: u64,
    states: Vec<LanguageState>,
    plan: MaintainPlan,
    state: LanguageState,
    more: Vec<LanguageState>,
    again: &mut u64,
    all: MaintainPlan,
)
    requires
        call_ensures(maintain_buffer_languages, (prev, reload_count, states), plan),
        call_ensures(maintain_buffer_languages, (again, reload_count, more), all),
        *old(again) == *old(prev),
        more@ == states@.push(state),
    ensures
        plan.unassign@.is_prefix_of(all.unassign@),
        plan.unregister@.is_prefix_of(all.unregister@),
        plan.register@.is_prefix_of(all.register@),
        plan.reparse@.is_prefix_of(all.reparse@),
        all.detect@.len() + all.register@.len() + all.reparse@.len() <= plan.detect@.len()
            + plan.register@.len() + plan.reparse@.len() + 2,
{
    assert(more@.drop_last() =~= states@);
    let before = without_languages(states@);
    let after = without_languages(more@);
    assert(after.drop_last() =~= before);
    assert(plain_buffers(more@).len() > plain_buffers(states@).len() ==> plain_buffers(
        more@,
    ).drop_last() =~= plain_buffers(states@));
    assert(plain_buffers(after).len() > plain_buffers(before).len() ==> plain_buffers(
        after,
    ).drop_last() =~= plain_buffers(before));
}

} // verus!
