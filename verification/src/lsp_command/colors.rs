//! Colors that occur in a document.
use vstd::prelude::*;

use crate::lsp_store::text_edits::PointUtf16;

verus! {

/// A color. A channel is the bit pattern of its value, which nothing here looks into.
#[derive(Clone, Copy, Debug, PartialEq, Eq, Structural)]
pub struct Color {
    pub red: u32,
    pub green: u32,
    pub blue: u32,
    pub alpha: u32,
}

/// How a color can be written.
#[derive(Debug)]
pub struct ColorPresentation {
    pub label: String,
}

#[derive(Debug)]
pub struct DocumentColor {
    pub start: PointUtf16,
    pub end: PointUtf16,
    pub color: Color,
    /// The ways to write it are known.
    pub resolved: bool,
    pub color_presentations: Vec<ColorPresentation>,
}

/// A color as a server states it.
#[derive(Clone, Copy, Debug, PartialEq, Eq, Structural)]
pub struct ColorInformation {
    pub start: PointUtf16,
    pub end: PointUtf16,
    pub color: Color,
}

/// The color is the stated one, of which no way to write it is known yet.
pub open spec fn is_unresolved(color: DocumentColor, stated: ColorInformation) -> bool {
    &&& color.start == stated.start
    &&& color.end == stated.end
    &&& color.color == stated.color
    &&& !color.resolved
    &&& color.color_presentations@.len() == 0
}

pub open spec fn are_unresolved(colors: Seq<DocumentColor>, stated: Seq<ColorInformation>) -> bool {
    &&& colors.len() == stated.len()
    &&& forall|i: int| 0 <= i < stated.len() ==> is_unresolved(#[trigger] colors[i], stated[i])
}

fn unresolved(stated: ColorInformation) -> (color: DocumentColor)
    ensures
        is_unresolved(color, stated),
{
    DocumentColor {
        start: stated.start,
        end: stated.end,
        color: stated.color,
        resolved: false,
        color_presentations: Vec::new(),
    }
}

/// What an answer means.
pub fn document_colors_from_lsp(message: &Vec<ColorInformation>) -> (colors: Vec<DocumentColor>)
    ensures
        are_unresolved(colors@, message@),
{
    let mut colors: Vec<DocumentColor> = Vec::new();
    let mut i: usize = 0;
    while i < message.len()
        invariant
            i <= message@.len(),
            colors@.len() == i,
            forall|j: int| 0 <= j < i ==> is_unresolved(#[trigger] colors@[j], message@[j]),
        decreases message@.len() - i,
    {
        colors.push(unresolved(message[i]));
        i += 1;
    }
    colors
}

/// The wire form of a color, of which places may be missing.
#[derive(Clone, Copy, Debug, PartialEq, Eq, Structural)]
pub struct ProtoColor {
    pub color: Color,
    pub start: Option<PointUtf16>,
    pub end: Option<PointUtf16>,
}

pub open spec fn wire(color: DocumentColor) -> ProtoColor {
    ProtoColor { color: color.color, start: Some(color.start), end: Some(color.end) }
}

pub open spec fn wires(colors: Seq<DocumentColor>) -> Seq<ProtoColor> {
    colors.map_values(|c: DocumentColor| wire(c))
}

/// The colors on the wire that have both places.
pub open spec fn placed(messages: Seq<ProtoColor>) -> Seq<ColorInformation>
    decreases messages.len(),
{
    if messages.len() == 0 {
        Seq::empty()
    } else {
        let earlier = placed(messages.drop_last());
        match (messages.last().start, messages.last().end) {
            (Some(start), Some(end)) => earlier.push(
                ColorInformation { start, end, color: messages.last().color },
            ),
            _ => earlier,
        }
    }
}

pub fn document_colors_to_proto(colors: &Vec<DocumentColor>) -> (messages: Vec<ProtoColor>)
    ensures
        messages@ == wires(colors@),
{
    let mut messages: Vec<ProtoColor> = Vec::new();
    let mut i: usize = 0;
    while i < colors.len()
        invariant
            i <= colors@.len(),
            messages@ =~= wires(colors@.take(i as int)),
        decreases colors@.len() - i,
    {
        messages.push(
            ProtoColor {
                color: colors[i].color,
                start: Some(colors[i].start),
                end: Some(colors[i].end),
            },
        );
        i += 1;
    }
    assert(colors@.take(i as int) =~= colors@);
    messages
}

/// What a wire form means. Colors without a place are left out.
pub fn document_colors_from_proto(messages: &Vec<ProtoColor>) -> (colors: Vec<DocumentColor>)
    ensures
        are_unresolved(colors@, placed(messages@)),
{
    let mut colors: Vec<DocumentColor> = Vec::new();
    let mut i: usize = 0;
    while i < messages.len()
        invariant
            i <= messages@.len(),
            are_unresolved(colors@, placed(messages@.take(i as int))),
        decreases messages@.len() - i,
    {
        assert(messages@.take(i + 1).drop_last() =~= messages@.take(i as int));
        assert(messages@.take(i + 1).last() == messages@[i as int]);
        if let Some(start) = messages[i].start {
            if let Some(end) = messages[i].end {
                colors.push(unresolved(ColorInformation { start, end, color: messages[i].color }));
            }
        }
        i += 1;
    }
    assert(messages@.take(i as int) =~= messages@);
    colors
}

/// Where colors are and which they are comes over the wire as it was sent.
pub proof fn document_colors_round_trip(colors: Seq<DocumentColor>)
    ensures
        placed(wires(colors)).len() == colors.len(),
        forall|i: int|
            0 <= i < colors.len() ==> #[trigger] placed(wires(colors))[i] == (ColorInformation {
                start: colors[i].start,
                end: colors[i].end,
                color: colors[i].color,
            }),
    decreases colors.len(),
{
    let messages = wires(colors);
    if colors.len() > 0 {
        document_colors_round_trip(colors.drop_last());
        assert(messages.drop_last() =~= wires(colors.drop_last()));
        assert(messages.last() == wire(colors.last()));
    }
}

/// What asking how a color can be written leads to.
#[derive(Clone, Copy, Debug, PartialEq, Eq, Structural)]
pub enum ResolvePlan {
    /// It is known, or nobody can tell.
    Keep,
    MissingPath,
    Ask,
}

/// Decides how the ways to write a color are found.
pub fn resolve_color_presentation(color: &DocumentColor, has_path: bool, has_server: bool) -> (plan:
    ResolvePlan)
    ensures
        plan == (if color.resolved {
            ResolvePlan::Keep
        } else if !has_path {
            ResolvePlan::MissingPath
        } else if !has_server {
            ResolvePlan::Keep
        } else {
            ResolvePlan::Ask
        }),
{
    if color.resolved {
        ResolvePlan::Keep
    } else if !has_path {
        ResolvePlan::MissingPath
    } else if !has_server {
        ResolvePlan::Keep
    } else {
        ResolvePlan::Ask
    }
}

/// The color with the ways to write it that a server answered.
pub fn color_resolved(color: DocumentColor, presentations: Vec<ColorPresentation>) -> (resolved:
    DocumentColor)
    ensures
        resolved == (DocumentColor {
            resolved: true,
            color_presentations: presentations,
            ..color
        }),
{
    DocumentColor {
        start: color.start,
        end: color.end,
        color: color.color,
        resolved: true,
        color_presentations: presentations,
    }
}
/// Colors are taken over as the server states them, without ways to write them.
pub proof fn stated_colors_are_taken_over(
    message: Vec<ColorInformation>,
    colors: Vec<DocumentColor>,
    i: int,
)
    requires
        call_ensures(document_colors_from_lsp, (&message,), colors),
        0 <= i < message@.len(),
    ensures
        colors@.len() == message@.len(),
        colors@[i].start == message@[i].start,
        colors@[i].end == message@[i].end,
        colors@[i].color == message@[i].color,
        !colors@[i].resolved,
        colors@[i].color_presentations@.len() == 0,
{
    assert(is_unresolved(colors@[i], message@[i]));
}

/// Colors arrive where they were sent from, and as the colors that they are.
pub proof fn colors_arrive_as_sent(
    colors: Vec<DocumentColor>,
    messages: Vec<ProtoColor>,
    received: Vec<DocumentColor>,
    i: int,
)
    requires
        call_ensures(document_colors_to_proto, (&colors,), messages),
        call_ensures(document_colors_from_proto, (&messages,), received),
        0 <= i < colors@.len(),
    ensures
        messages@.len() == colors@.len(),
        messages@[i].color == colors@[i].color,
        messages@[i].start == Some(colors@[i].start),
        messages@[i].end == Some(colors@[i].end),
        received@.len() == colors@.len(),
        received@[i].start == colors@[i].start,
        received@[i].end == colors@[i].end,
        received@[i].color == colors@[i].color,
        !received@[i].resolved,
{
    document_colors_round_trip(colors@);
    assert(is_unresolved(received@[i], placed(messages@)[i]));
    assert(messages@[i] == wire(colors@[i]));
}

/// A color without a place is left out, and the others are kept in their order.
pub proof fn colors_without_a_place_are_left_out(
    messages: Vec<ProtoColor>,
    colors: Vec<DocumentColor>,
    message: ProtoColor,
    more: Vec<ProtoColor>,
    all: Vec<DocumentColor>,
    i: int,
)
    requires
        call_ensures(document_colors_from_proto, (&messages,), colors),
        call_ensures(document_colors_from_proto, (&more,), all),
        more@ == messages@.push(message),
        0 <= i < colors@.len(),
    ensures
        all@.len() == colors@.len() + (if message.start is Some && message.end is Some {
            1int
        } else {
            0
        }),
        all@[i].start == colors@[i].start && all@[i].end == colors@[i].end && all@[i].color
            == colors@[i].color,
        message.start is Some && message.end is Some ==> all@.last().start == message.start->0
            && all@.last().end == message.end->0 && all@.last().color == message.color,
{
    assert(more@.drop_last() =~= messages@);
    assert(is_unresolved(colors@[i], placed(messages@)[i]));
    assert(is_unresolved(all@[i], placed(more@)[i]));
    if message.start is Some && message.end is Some {
        assert(is_unresolved(all@[all@.len() - 1], placed(more@)[all@.len() - 1]));
    }
}

/// A server is asked how a color can be written just if that is not known, and there are both a
/// path and a server.
pub proof fn unknown_presentations_are_asked_for(
    color: DocumentColor,
    has_path: bool,
    has_server: bool,
    plan: ResolvePlan,
)
    requires
        call_ensures(resolve_color_presentation, (&color, has_path, has_server), plan),
    ensures
        plan is Ask <==> !color.resolved && has_path && has_server,
        plan is MissingPath <==> !color.resolved && !has_path,
{
}

/// A color that was resolved stays the color that it is, where it is.
pub proof fn resolved_colors_stay_in_place(
    color: DocumentColor,
    presentations: Vec<ColorPresentation>,
    resolved: DocumentColor,
)
    requires
        call_ensures(color_resolved, (color, presentations), resolved),
    ensures
        resolved.resolved,
        resolved.color_presentations == presentations,
        resolved.start == color.start && resolved.end == color.end,
        resolved.color == color.color,
{
}

} // verus!
