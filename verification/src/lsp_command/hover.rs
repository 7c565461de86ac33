//! What is shown about the symbol under the pointer.
use vstd::prelude::*;

use crate::text_lines::{trim, trimmed};

verus! {

#[derive(Debug)]
pub enum HoverBlockKind {
    PlainText,
    Markdown,
    Code { language: String },
}

#[derive(Debug)]
pub struct HoverBlock {
    pub text: String,
    pub kind: HoverBlockKind,
}

/// A piece of text of a server, or of code.
#[derive(Debug)]
pub enum MarkedString {
    Text(String),
    Code { language: String, value: String },
}

#[derive(Debug)]
pub enum HoverContents {
    Scalar(MarkedString),
    Array(Vec<MarkedString>),
    Markup { is_markdown: bool, value: String },
}

/// The text that is shown and the range that it is about, where there is one.
#[derive(Debug)]
pub struct Hover {
    pub contents: Vec<HoverBlock>,
    pub range: Option<(u64, u64)>,
}

/// The block for a piece of text.
pub open spec fn block_of(marked: MarkedString) -> HoverBlock {
    match marked {
        MarkedString::Text(text) => HoverBlock { text, kind: HoverBlockKind::Markdown },
        MarkedString::Code { language, value } => HoverBlock {
            text: value,
            kind: HoverBlockKind::Code { language },
        },
    }
}

/// The blocks for pieces of text that are not empty.
pub open spec fn blocks_of(marked: Seq<MarkedString>) -> Seq<HoverBlock>
    decreases marked.len(),
{
    if marked.len() == 0 {
        Seq::empty()
    } else {
        let earlier = blocks_of(marked.drop_last());
        let block = block_of(marked.last());
        if block.text@.len() == 0 {
            earlier
        } else {
            earlier.push(block)
        }
    }
}

/// What is shown of an answer. Markup is shown even if it is empty.
pub open spec fn shown(contents: HoverContents) -> Seq<HoverBlock> {
    match contents {
        HoverContents::Scalar(marked) => blocks_of(seq![marked]),
        HoverContents::Array(marked) => blocks_of(marked@),
        HoverContents::Markup { is_markdown, value } => seq![
            HoverBlock {
                text: value,
                kind: if is_markdown {
                    HoverBlockKind::Markdown
                } else {
                    HoverBlockKind::PlainText
                },
            },
        ],
    }
}

fn hover_block_from_marked_string(marked: MarkedString) -> (block: Option<HoverBlock>)
    ensures
        block == (if block_of(marked).text@.len() == 0 {
            None
        } else {
            Some(block_of(marked))
        }),
{
    let block: HoverBlock = match marked {
        MarkedString::Text(text) => HoverBlock { text, kind: HoverBlockKind::Markdown },
        MarkedString::Code { language, value } => HoverBlock {
            text: value,
            kind: HoverBlockKind::Code { language },
        },
    };
    if block.text.as_str().is_empty() {
        None
    } else {
        Some(block)
    }
}

/// What an answer means. No answer is shown as nothing, an empty one as an empty hover.
pub fn hover_from_lsp(message: Option<(HoverContents, Option<(u64, u64)>)>) -> (hover: Option<Hover>)
    ensures
        hover is Some <==> message is Some,
        message matches Some((contents, range)) ==> hover->0.contents@ == shown(contents)
            && hover->0.range == range,
{
    let (contents, range) = match message {
        Some((contents, range)) => (contents, range),
        None => return None,
    };
    let mut blocks: Vec<HoverBlock> = Vec::new();
    match contents {
        HoverContents::Scalar(marked) => {
            proof {
                assert(seq![marked].drop_last() =~= Seq::<MarkedString>::empty());
                reveal_with_fuel(blocks_of, 2);
            }
            if let Some(block) = hover_block_from_marked_string(marked) {
                blocks.push(block);
            }
            assert(blocks@ =~= blocks_of(seq![marked]));
        },
        HoverContents::Array(marked) => {
            let ghost given = marked@;
            let mut rest: Vec<MarkedString> = marked;
            assert(given.take(0) =~= Seq::<MarkedString>::empty());
            while rest.len() > 0
                invariant
                    rest@.len() <= given.len(),
                    rest@ == given.skip(given.len() - rest@.len()),
                    blocks@ == blocks_of(given.take(given.len() - rest@.len())),
                decreases rest@.len(),
            {
                let ghost done = given.len() - rest@.len();
                let next: MarkedString = rest.remove(0);
                assert(rest@ =~= given.skip(done + 1));
                assert(given.take(done + 1).drop_last() =~= given.take(done));
                assert(given.take(done + 1).last() == next);
                if let Some(block) = hover_block_from_marked_string(next) {
                    blocks.push(block);
                }
            }
            assert(given.take(given.len() as int) =~= given);
        },
        HoverContents::Markup { is_markdown, value } => {
            let kind: HoverBlockKind = if is_markdown {
                HoverBlockKind::Markdown
            } else {
                HoverBlockKind::PlainText
            };
            blocks.push(HoverBlock { text: value, kind });
            assert(blocks@ =~= shown(contents));
        },
    }
    Some(Hover { contents: blocks, range })
}

/// The blocks that are more than white space.
pub open spec fn filled(blocks: Seq<HoverBlock>) -> Seq<HoverBlock>
    decreases blocks.len(),
{
    if blocks.len() == 0 {
        Seq::empty()
    } else if trimmed(blocks.last().text@).len() == 0 {
        filled(blocks.drop_last())
    } else {
        filled(blocks.drop_last()).push(blocks.last())
    }
}

/// Leaves out blocks of white space, and a hover of which nothing is left then.
pub fn remove_empty_hover_blocks(hover: Hover) -> (result: Option<Hover>)
    ensures
        result is Some <==> filled(hover.contents@).len() > 0,
        result matches Some(result) ==> result.contents@ == filled(hover.contents@)
            && result.range == hover.range,
{
    let ghost given = hover.contents@;
    let mut rest: Vec<HoverBlock> = hover.contents;
    let mut kept: Vec<HoverBlock> = Vec::new();
    assert(given.take(0) =~= Seq::<HoverBlock>::empty());
    while rest.len() > 0
        invariant
            rest@.len() <= given.len(),
            rest@ == given.skip(given.len() - rest@.len()),
            kept@ == filled(given.take(given.len() - rest@.len())),
        decreases rest@.len(),
    {
        let ghost done = given.len() - rest@.len();
        let block: HoverBlock = rest.remove(0);
        assert(rest@ =~= given.skip(done + 1));
        assert(given.take(done + 1).drop_last() =~= given.take(done));
        assert(given.take(done + 1).last() == block);
        if !trim(block.text.as_str()).as_str().is_empty() {
            kept.push(block);
        }
    }
    assert(given.take(given.len() as int) =~= given);
    if kept.len() == 0 {
        None
    } else {
        Some(Hover { contents: kept, range: hover.range })
    }
}

/// The hovers of the servers of which something is left.
pub open spec fn kept_hovers(hovers: Seq<Option<Hover>>, kept: Seq<Hover>) -> bool
    decreases hovers.len(),
{
    if hovers.len() == 0 {
        kept.len() == 0
    } else {
        match hovers.last() {
            Some(hover) if filled(hover.contents@).len() > 0 => {
                &&& kept.len() > 0
                &&& kept.last().contents@ == filled(hover.contents@)
                &&& kept.last().range == hover.range
                &&& kept_hovers(hovers.drop_last(), kept.drop_last())
            },
            _ => kept_hovers(hovers.drop_last(), kept),
        }
    }
}

/// Puts the hovers of several servers together, in the order in which they came, without
/// blocks of white space.
pub fn collect_hovers(hovers: Vec<Option<Hover>>) -> (kept: Vec<Hover>)
    ensures
        kept_hovers(hovers@, kept@),
{
    let ghost given = hovers@;
    let mut rest: Vec<Option<Hover>> = hovers;
    let mut kept: Vec<Hover> = Vec::new();
    while rest.len() > 0
        invariant
            rest@.len() <= given.len(),
            rest@ == given.skip(given.len() - rest@.len()),
            kept_hovers(given.take(given.len() - rest@.len()), kept@),
        decreases rest@.len(),
    {
        let ghost done = given.len() - rest@.len();
        let ghost before = kept@;
        let hover: Option<Hover> = rest.remove(0);
        assert(rest@ =~= given.skip(done + 1));
        assert(given.take(done + 1).drop_last() =~= given.take(done));
        assert(given.take(done + 1).last() == hover);
        if let Some(hover) = hover {
            if let Some(hover) = remove_empty_hover_blocks(hover) {
                kept.push(hover);
                assert(kept@.drop_last() =~= before);
            }
        }
    }
    assert(given.take(given.len() as int) =~= given);
    kept
}

/// The wire form of a block.
#[derive(Debug)]
pub struct ProtoHoverBlock {
    pub text: String,
    pub is_markdown: bool,
    pub language: Option<String>,
}

/// The wire form of an answer. The ends of the range may be missing, or be unreadable.
#[derive(Debug)]
pub struct ProtoHover {
    pub start: Option<u64>,
    pub end: Option<u64>,
    pub contents: Vec<ProtoHoverBlock>,
}

pub open spec fn wire_block(block: HoverBlock) -> ProtoHoverBlock {
    ProtoHoverBlock {
        text: block.text,
        is_markdown: block.kind is Markdown,
        language: match block.kind {
            HoverBlockKind::Code { language } => Some(language),
            _ => None,
        },
    }
}

pub open spec fn unwire_block(block: ProtoHoverBlock) -> HoverBlock {
    HoverBlock {
        text: block.text,
        kind: match block.language {
            Some(language) => HoverBlockKind::Code { language },
            None => if block.is_markdown {
                HoverBlockKind::Markdown
            } else {
                HoverBlockKind::PlainText
            },
        },
    }
}

pub open spec fn wire_blocks(blocks: Seq<HoverBlock>) -> Seq<ProtoHoverBlock> {
    blocks.map_values(|b: HoverBlock| wire_block(b))
}

pub open spec fn unwire_blocks(blocks: Seq<ProtoHoverBlock>) -> Seq<HoverBlock> {
    blocks.map_values(|b: ProtoHoverBlock| unwire_block(b))
}

/// The message is the wire form of an answer; no answer is one without contents.
pub open spec fn is_wire(message: ProtoHover, response: Option<Hover>) -> bool {
    match response {
        Some(hover) => {
            &&& message.contents@ == wire_blocks(hover.contents@)
            &&& match hover.range {
                Some((start, end)) => message.start == Some(start) && message.end == Some(end),
                None => message.start is None && message.end is None,
            }
        },
        None => message.contents@.len() == 0 && message.start is None && message.end is None,
    }
}

/// The answer is what a wire form means: nothing, if it has no contents. A range of
/// which an end is missing is none.
pub open spec fn is_meant(response: Option<Hover>, message: ProtoHover) -> bool {
    &&& response is Some <==> message.contents@.len() > 0
    &&& response matches Some(hover) ==> {
        &&& hover.contents@ == unwire_blocks(message.contents@)
        &&& hover.range == (match (message.start, message.end) {
            (Some(start), Some(end)) => Some((start, end)),
            _ => None,
        })
    }
}

/// Writes an answer for the wire.
pub fn hover_to_proto(response: Option<Hover>) -> (message: ProtoHover)
    ensures
        is_wire(message, response),
{
    let mut contents: Vec<ProtoHoverBlock> = Vec::new();
    match response {
        None => ProtoHover { start: None, end: None, contents },
        Some(hover) => {
            let ghost given = hover.contents@;
            let mut rest: Vec<HoverBlock> = hover.contents;
            assert(contents@ =~= wire_blocks(given.take(0)));
            while rest.len() > 0
                invariant
                    rest@.len() <= given.len(),
                    rest@ == given.skip(given.len() - rest@.len()),
                    contents@ == wire_blocks(given.take(given.len() - rest@.len())),
                decreases rest@.len(),
            {
                let ghost done = given.len() - rest@.len();
                let block: HoverBlock = rest.remove(0);
                assert(rest@ =~= given.skip(done + 1));
                assert(given.take(done + 1) =~= given.take(done).push(block));
                let (is_markdown, language) = match block.kind {
                    HoverBlockKind::PlainText => (false, None),
                    HoverBlockKind::Markdown => (true, None),
                    HoverBlockKind::Code { language } => (false, Some(language)),
                };
                contents.push(ProtoHoverBlock { text: block.text, is_markdown, language });
                assert(contents@ =~= wire_blocks(given.take(done + 1)));
            }
            assert(given.take(given.len() as int) =~= given);
            let (start, end) = match hover.range {
                Some((start, end)) => (Some(start), Some(end)),
                None => (None, None),
            };
            ProtoHover { start, end, contents }
        },
    }
}

/// Reads an answer from the wire.
pub fn hover_from_proto(message: ProtoHover) -> (response: Option<Hover>)
    ensures
        is_meant(response, message),
{
    let ghost given = message.contents@;
    let mut rest: Vec<ProtoHoverBlock> = message.contents;
    let mut contents: Vec<HoverBlock> = Vec::new();
    assert(contents@ =~= unwire_blocks(given.take(0)));
    while rest.len() > 0
        invariant
            rest@.len() <= given.len(),
            rest@ == given.skip(given.len() - rest@.len()),
            contents@ == unwire_blocks(given.take(given.len() - rest@.len())),
        decreases rest@.len(),
    {
        let ghost done = given.len() - rest@.len();
        let block: ProtoHoverBlock = rest.remove(0);
        assert(rest@ =~= given.skip(done + 1));
        assert(given.take(done + 1) =~= given.take(done).push(block));
        let kind: HoverBlockKind = match block.language {
            Some(language) => HoverBlockKind::Code { language },
            None => if block.is_markdown {
                HoverBlockKind::Markdown
            } else {
                HoverBlockKind::PlainText
            },
        };
        contents.push(HoverBlock { text: block.text, kind });
        assert(contents@ =~= unwire_blocks(given.take(done + 1)));
    }
    assert(given.take(given.len() as int) =~= given);
    if contents.len() == 0 {
        return None;
    }
    let range: Option<(u64, u64)> = match (message.start, message.end) {
        (Some(start), Some(end)) => Some((start, end)),
        _ => None,
    };
    Some(Hover { contents, range })
}

/// An answer comes over the wire as it was sent, but for one without contents, which
/// arrives as none.
pub proof fn hover_round_trip(sent: Option<Hover>, message: ProtoHover, received: Option<Hover>)
    requires
        is_wire(message, sent),
        is_meant(received, message),
    ensures
        match sent {
            Some(hover) => if hover.contents@.len() > 0 {
                received is Some && received->0.contents@ == hover.contents@ && received->0.range
                    == hover.range
            } else {
                received is None
            },
            None => received is None,
        },
{
    if let Some(hover) = sent {
        assert(unwire_blocks(wire_blocks(hover.contents@)) =~= hover.contents@);
    }
}
/// A piece of text is shown as Markdown, code as code of its language, and a piece that is empty
/// not at all.
pub proof fn pieces_are_shown_as_what_they_are(
    marked: MarkedString,
    range: Option<(u64, u64)>,
    hover: Option<Hover>,
)
    requires
        call_ensures(hover_from_lsp, (Some((HoverContents::Scalar(marked), range)),), hover),
    ensures
        hover is Some && hover->0.range == range,
        marked matches MarkedString::Text(text) ==> if text@.len() == 0 {
            hover->0.contents@.len() == 0
        } else {
            hover->0.contents@ == seq![HoverBlock { text, kind: HoverBlockKind::Markdown }]
        },
        marked matches MarkedString::Code { language, value } ==> if value@.len() == 0 {
            hover->0.contents@.len() == 0
        } else {
            hover->0.contents@ == seq![
                HoverBlock { text: value, kind: HoverBlockKind::Code { language } },
            ]
        },
{
    reveal_with_fuel(blocks_of, 2);
    let all = seq![marked];
    assert(all.drop_last().len() == 0);
    assert(all.last() == marked);
    assert(Seq::<HoverBlock>::empty().push(block_of(marked)) =~= seq![block_of(marked)]);
}

/// The pieces of a list are shown one after the other, each as if it stood alone.
pub proof fn pieces_are_shown_in_their_order(
    marked: Vec<MarkedString>,
    range: Option<(u64, u64)>,
    hover: Option<Hover>,
    piece: MarkedString,
    more: Vec<MarkedString>,
    all: Option<Hover>,
    alone: Option<Hover>,
)
    requires
        call_ensures(hover_from_lsp, (Some((HoverContents::Array(marked), range)),), hover),
        call_ensures(hover_from_lsp, (Some((HoverContents::Array(more), range)),), all),
        call_ensures(hover_from_lsp, (Some((HoverContents::Scalar(piece), range)),), alone),
        more@ == marked@.push(piece),
    ensures
        hover is Some && all is Some && alone is Some,
        all->0.contents@ == hover->0.contents@ + alone->0.contents@,
        marked@.len() == 0 ==> hover->0.contents@.len() == 0,
{
    reveal_with_fuel(blocks_of, 2);
    assert(more@.drop_last() =~= marked@);
    let one = seq![piece];
    assert(one.drop_last().len() == 0);
    assert(one.last() == piece);
    assert(all->0.contents@ =~= hover->0.contents@ + alone->0.contents@);
}

/// Markup is shown as it is, even if it is empty, and no answer is shown as nothing.
pub proof fn markup_is_shown_as_it_is(
    is_markdown: bool,
    value: String,
    range: Option<(u64, u64)>,
    hover: Option<Hover>,
    none: Option<Hover>,
)
    requires
        call_ensures(
            hover_from_lsp,
            (Some((HoverContents::Markup { is_markdown, value }, range)),),
            hover,
        ),
        call_ensures(hover_from_lsp, (None,), none),
    ensures
        none is None,
        hover is Some && hover->0.range == range,
        hover->0.contents@.len() == 1,
        hover->0.contents@[0].text == value,
        is_markdown ==> hover->0.contents@[0].kind is Markdown,
        !is_markdown ==> hover->0.contents@[0].kind is PlainText,
{
}

/// A block of white space is left out; any other stays, behind the ones before it.
pub proof fn blocks_of_white_space_are_left_out(
    hover: Hover,
    result: Option<Hover>,
    block: HoverBlock,
    more: Hover,
    all: Option<Hover>,
)
    requires
        call_ensures(remove_empty_hover_blocks, (hover,), result),
        call_ensures(remove_empty_hover_blocks, (more,), all),
        more.contents@ == hover.contents@.push(block),
        more.range == hover.range,
    ensures
        hover.contents@.len() == 0 ==> result is None,
        result is Some ==> result->0.range == hover.range,
        trimmed(block.text@).len() == 0 ==> (all is Some <==> result is Some),
        trimmed(block.text@).len() == 0 && result is Some ==> all->0.contents@
            == result->0.contents@,
        trimmed(block.text@).len() > 0 ==> all is Some && all->0.contents@ == (match result {
            Some(result) => result.contents@,
            None => Seq::empty(),
        }).push(block),
{
    assert(more.contents@.drop_last() =~= hover.contents@);
    if result is None {
        assert(filled(hover.contents@) =~= Seq::<HoverBlock>::empty());
    }
}

/// A hover of which something is left is kept with what is left of it, behind those before it.
pub proof fn hovers_with_something_left_are_kept(
    hover: Option<Hover>,
    hovers: Vec<Option<Hover>>,
    kept: Vec<Hover>,
    result: Option<Hover>,
)
    requires
        call_ensures(collect_hovers, (hovers,), kept),
        hovers@.len() == 1,
        hovers@[0] == hover,
        hover is Some ==> call_ensures(remove_empty_hover_blocks, (hover->0,), result),
    ensures
        hover is None ==> kept@.len() == 0,
        hover is Some && result is None ==> kept@.len() == 0,
        hover is Some && result is Some ==> kept@.len() == 1 && kept@[0].contents@
            == result->0.contents@ && kept@[0].range == hover->0.range,
{
    reveal_with_fuel(kept_hovers, 2);
    assert(hovers@.last() == hovers@[0]);
    assert(hovers@.drop_last().len() == 0);
}

/// A hover arrives as it was sent, but for one without contents, which arrives as none.
pub proof fn hovers_arrive_as_sent(
    sent: Option<Hover>,
    message: ProtoHover,
    received: Option<Hover>,
)
    requires
        call_ensures(hover_to_proto, (sent,), message),
        call_ensures(hover_from_proto, (message,), received),
    ensures
        received is Some <==> sent is Some && sent->0.contents@.len() > 0,
        received is Some ==> received->0.contents@ == sent->0.contents@ && received->0.range
            == sent->0.range,
{
    hover_round_trip(sent, message, received);
}

/// A block on the wire is code if it names a language, else Markdown if it says so.
pub proof fn blocks_are_read_as_what_they_are(message: ProtoHover, response: Option<Hover>, i: int)
    requires
        call_ensures(hover_from_proto, (message,), response),
        0 <= i < message.contents@.len(),
    ensures
        response is Some,
        response->0.contents@.len() == message.contents@.len(),
        response->0.contents@[i].text == message.contents@[i].text,
        response->0.contents@[i].kind is Code <==> message.contents@[i].language is Some,
        response->0.contents@[i].kind is Markdown <==> message.contents@[i].language is None
            && message.contents@[i].is_markdown,
        response->0.range is Some <==> message.start is Some && message.end is Some,
        response->0.range is Some ==> response->0.range->0 == (message.start->0, message.end->0),
{
    assert(response->0.contents@[i] == unwire_block(message.contents@[i]));
}

} // verus!
