//! Links from one place to another.
use vstd::prelude::*;

use crate::lsp_store::text_edits::PointUtf16;

verus! {

/// A range in a document, as a server states it.
#[derive(Clone, Copy, Debug, PartialEq, Eq, Structural)]
pub struct LspSpan {
    pub start: PointUtf16,
    pub end: PointUtf16,
}

#[derive(Debug)]
pub struct LspLocation {
    pub uri: String,
    pub range: LspSpan,
}

/// A link as a server states it.
#[derive(Debug)]
pub struct LspLocationLink {
    pub origin_selection_range: Option<LspSpan>,
    pub target_uri: String,
    pub target_selection_range: LspSpan,
}

#[derive(Debug)]
pub enum GotoDefinitionResponse {
    Scalar(LspLocation),
    Array(Vec<LspLocation>),
    Link(Vec<LspLocationLink>),
}

pub open spec fn plain_link(location: LspLocation) -> LspLocationLink {
    LspLocationLink {
        origin_selection_range: None,
        target_uri: location.uri,
        target_selection_range: location.range,
    }
}

/// The links of an answer; a mere location is a link from nowhere.
pub open spec fn links_in(message: Option<GotoDefinitionResponse>) -> Seq<LspLocationLink> {
    match message {
        None => Seq::empty(),
        Some(GotoDefinitionResponse::Scalar(location)) => seq![plain_link(location)],
        Some(GotoDefinitionResponse::Array(locations)) => locations@.map_values(
            |l: LspLocation| plain_link(l),
        ),
        Some(GotoDefinitionResponse::Link(links)) => links@,
    }
}

/// Collects the links of an answer.
pub fn unresolved_links(message: Option<GotoDefinitionResponse>) -> (links: Vec<LspLocationLink>)
    ensures
        links@ == links_in(message),
{
    let mut links: Vec<LspLocationLink> = Vec::new();
    match message {
        None => links,
        Some(GotoDefinitionResponse::Scalar(location)) => {
            links.push(
                LspLocationLink {
                    origin_selection_range: None,
                    target_uri: location.uri,
                    target_selection_range: location.range,
                },
            );
            assert(links@ =~= links_in(message));
            links
        },
        Some(GotoDefinitionResponse::Array(locations)) => {
            let ghost given = locations@;
            let mut rest: Vec<LspLocation> = locations;
            while rest.len() > 0
                invariant
                    rest@.len() + links@.len() == given.len(),
                    rest@ == given.skip(links@.len() as int),
                    forall|i: int|
                        0 <= i < links@.len() ==> #[trigger] links@[i] == plain_link(given[i]),
                decreases rest@.len(),
            {
                let ghost done = links@.len() as int;
                let location: LspLocation = rest.remove(0);
                assert(rest@ =~= given.skip(done + 1));
                links.push(
                    LspLocationLink {
                        origin_selection_range: None,
                        target_uri: location.uri,
                        target_selection_range: location.range,
                    },
                );
            }
            assert(links@ =~= links_in(message));
            links
        },
        Some(GotoDefinitionResponse::Link(given)) => given,
    }
}

/// What is known of the place that a link leads to.
#[derive(Clone, Copy, Debug, PartialEq, Eq, Structural)]
pub struct LinkTarget {
    pub has_path: bool,
    pub in_worktree: bool,
    pub worktree_is_visible: bool,
    pub worktree_is_single_file: bool,
}

/// Whether a link is followed. Where only the workspace is of interest, links that lead
/// elsewhere are left out: those to no file, to no worktree, or to one that is not shown
/// or is just a file.
pub fn is_followed(target: &LinkTarget, workspace_only: bool) -> (followed: bool)
    ensures
        followed == is_of_interest(*target, workspace_only),
{
    !workspace_only || (target.has_path && target.in_worktree && target.worktree_is_visible
        && !target.worktree_is_single_file)
}

/// The server that answered does not serve the buffer any more.
#[derive(Clone, Copy, Debug, PartialEq, Eq, Structural)]
pub struct NoLanguageServer;

impl NoLanguageServer {
    pub fn message(&self) -> (message: &'static str)
        ensures
            message@ == "no language server found for buffer"@,
    {
        "no language server found for buffer"
    }
}

pub open spec fn is_of_interest(target: LinkTarget, workspace_only: bool) -> bool {
    !workspace_only || (target.has_path && target.in_worktree && target.worktree_is_visible
        && !target.worktree_is_single_file)
}

/// The links that are followed, in the order in which the server states them.
pub open spec fn followed_links(
    links: Seq<LspLocationLink>,
    targets: Seq<LinkTarget>,
    workspace_only: bool,
) -> Seq<LspLocationLink>
    decreases links.len(),
{
    if links.len() == 0 {
        Seq::empty()
    } else {
        let earlier = followed_links(links.drop_last(), targets, workspace_only);
        if is_of_interest(targets[links.len() - 1], workspace_only) {
            earlier.push(links.last())
        } else {
            earlier
        }
    }
}

/// The links of an answer whose targets are opened. `targets` says where each of them leads.
/// An answer without links needs no server; the links of any other are opened through the
/// server that gave it.
pub fn location_links_from_lsp(
    message: Option<GotoDefinitionResponse>,
    targets: &Vec<LinkTarget>,
    workspace_only: bool,
    has_server: bool,
) -> (result: Result<Vec<LspLocationLink>, NoLanguageServer>)
    requires
        targets@.len() == links_in(message).len(),
    ensures
        match result {
            Ok(links) => {
                &&& message is None || has_server
                &&& links@ == followed_links(links_in(message), targets@, workspace_only)
            },
            Err(_) => message is Some && !has_server,
        },
{
    if message.is_none() {
        return Ok(Vec::new());
    }
    let ghost given = links_in(message);
    let mut rest: Vec<LspLocationLink> = unresolved_links(message);
    if !has_server {
        return Err(NoLanguageServer);
    }
    let mut links: Vec<LspLocationLink> = Vec::new();
    let mut i: usize = 0;
    while i < targets.len()
        invariant
            i <= targets@.len(),
            targets@.len() == given.len(),
            rest@ == given.skip(i as int),
            links@ == followed_links(given.take(i as int), targets@, workspace_only),
        decreases targets@.len() - i,
    {
        let link: LspLocationLink = rest.remove(0);
        assert(rest@ =~= given.skip(i + 1));
        assert(given.take(i + 1).drop_last() =~= given.take(i as int));
        assert(given.take(i + 1).last() == link);
        if is_followed(&targets[i], workspace_only) {
            links.push(link);
        }
        i += 1;
    }
    assert(given.take(i as int) =~= given);
    Ok(links)
}

/// A range of a buffer, between anchors.
#[derive(Clone, Copy, Debug, PartialEq, Eq, Structural)]
pub struct Location {
    pub buffer: u64,
    pub start: u64,
    pub end: u64,
}

#[derive(Clone, Copy, Debug, PartialEq, Eq, Structural)]
pub struct LocationLink {
    pub origin: Option<Location>,
    pub target: Location,
}

/// The link between places that were found: from a range of the buffer that was asked about,
/// where the server states one, to a range of the buffer that was opened for the target. Each
/// range is given by its anchors.
pub fn location_link_from_lsp(
    link: &LspLocationLink,
    has_server: bool,
    buffer: u64,
    origin_anchors: (u64, u64),
    target_buffer: u64,
    target_anchors: (u64, u64),
) -> (result: Result<LocationLink, NoLanguageServer>)
    ensures
        result == (if has_server {
            Ok(
                LocationLink {
                    origin: match link.origin_selection_range {
                        Some(_) => Some(
                            Location { buffer, start: origin_anchors.0, end: origin_anchors.1 },
                        ),
                        None => None,
                    },
                    target: Location {
                        buffer: target_buffer,
                        start: target_anchors.0,
                        end: target_anchors.1,
                    },
                },
            )
        } else {
            Err(NoLanguageServer)
        }),
{
    if !has_server {
        return Err(NoLanguageServer);
    }
    let origin: Option<Location> = match link.origin_selection_range {
        Some(_) => Some(Location { buffer, start: origin_anchors.0, end: origin_anchors.1 }),
        None => None,
    };
    let target: Location = Location {
        buffer: target_buffer,
        start: target_anchors.0,
        end: target_anchors.1,
    };
    Ok(LocationLink { origin, target })
}

/// The wire form of a location. What cannot be read is missing.
#[derive(Clone, Copy, Debug, PartialEq, Eq, Structural)]
pub struct ProtoLocation {
    pub buffer_id: Option<u64>,
    pub start: Option<u64>,
    pub end: Option<u64>,
}

#[derive(Clone, Copy, Debug, PartialEq, Eq, Structural)]
pub struct ProtoLocationLink {
    pub origin: Option<ProtoLocation>,
    pub target: Option<ProtoLocation>,
}

#[derive(Clone, Copy, Debug, PartialEq, Eq, Structural)]
pub enum LinkError {
    InvalidBuffer,
    MissingOriginStart,
    MissingOriginEnd,
    MissingTarget,
    MissingTargetStart,
    MissingTargetEnd,
}

impl LinkError {
    /// What is reported; that a buffer number is invalid is reported elsewhere.
    pub fn message(&self) -> (message: &'static str)
        ensures
            message@ == (match *self {
                LinkError::InvalidBuffer => ""@,
                LinkError::MissingOriginStart => "missing origin start"@,
                LinkError::MissingOriginEnd => "missing origin end"@,
                LinkError::MissingTarget => "missing target"@,
                LinkError::MissingTargetStart => "missing target start"@,
                LinkError::MissingTargetEnd => "missing target end"@,
            }),
    {
        match self {
            LinkError::InvalidBuffer => "",
            LinkError::MissingOriginStart => "missing origin start",
            LinkError::MissingOriginEnd => "missing origin end",
            LinkError::MissingTarget => "missing target",
            LinkError::MissingTargetStart => "missing target start",
            LinkError::MissingTargetEnd => "missing target end",
        }
    }
}

pub open spec fn wire_location(location: Location) -> ProtoLocation {
    ProtoLocation {
        buffer_id: Some(location.buffer),
        start: Some(location.start),
        end: Some(location.end),
    }
}

pub open spec fn wire(link: LocationLink) -> ProtoLocationLink {
    ProtoLocationLink {
        origin: match link.origin {
            Some(origin) => Some(wire_location(origin)),
            None => None,
        },
        target: Some(wire_location(link.target)),
    }
}

/// What the wire form of a location means, with the errors for a missing start or end.
pub open spec fn location_meant(
    message: ProtoLocation,
    no_start: LinkError,
    no_end: LinkError,
) -> Result<Location, LinkError> {
    match (message.buffer_id, message.start, message.end) {
        (None, _, _) => Err(LinkError::InvalidBuffer),
        (Some(_), None, _) => Err(no_start),
        (Some(_), Some(_), None) => Err(no_end),
        (Some(buffer), Some(start), Some(end)) => Ok(Location { buffer, start, end }),
    }
}

pub open spec fn meant(message: ProtoLocationLink) -> Result<LocationLink, LinkError> {
    let origin = match message.origin {
        Some(origin) => match location_meant(
            origin,
            LinkError::MissingOriginStart,
            LinkError::MissingOriginEnd,
        ) {
            Ok(origin) => Ok(Some(origin)),
            Err(error) => Err(error),
        },
        None => Ok(None),
    };
    match origin {
        Err(error) => Err(error),
        Ok(origin) => match message.target {
            None => Err(LinkError::MissingTarget),
            Some(target) => match location_meant(
                target,
                LinkError::MissingTargetStart,
                LinkError::MissingTargetEnd,
            ) {
                Ok(target) => Ok(LocationLink { origin, target }),
                Err(error) => Err(error),
            },
        },
    }
}

fn location_to_proto(location: Location) -> (message: ProtoLocation)
    ensures
        message == wire_location(location),
{
    ProtoLocation {
        buffer_id: Some(location.buffer),
        start: Some(location.start),
        end: Some(location.end),
    }
}

fn location_from_proto(message: ProtoLocation, no_start: LinkError, no_end: LinkError) -> (location:
    Result<Location, LinkError>)
    ensures
        location == location_meant(message, no_start, no_end),
{
    match (message.buffer_id, message.start, message.end) {
        (None, _, _) => Err(LinkError::InvalidBuffer),
        (Some(_), None, _) => Err(no_start),
        (Some(_), Some(_), None) => Err(no_end),
        (Some(buffer), Some(start), Some(end)) => Ok(Location { buffer, start, end }),
    }
}

pub fn location_link_to_proto(link: LocationLink) -> (message: ProtoLocationLink)
    ensures
        message == wire(link),
{
    let origin: Option<ProtoLocation> = match link.origin {
        Some(origin) => Some(location_to_proto(origin)),
        None => None,
    };
    ProtoLocationLink { origin, target: Some(location_to_proto(link.target)) }
}

/// What the wire form of a link means. The origin is read before the target.
pub fn location_link_from_proto(message: ProtoLocationLink) -> (link: Result<
    LocationLink,
    LinkError,
>)
    ensures
        link == meant(message),
{
    let origin: Option<Location> = match message.origin {
        Some(origin) => match location_from_proto(
            origin,
            LinkError::MissingOriginStart,
            LinkError::MissingOriginEnd,
        ) {
            Ok(origin) => Some(origin),
            Err(error) => return Err(error),
        },
        None => None,
    };
    match message.target {
        None => Err(LinkError::MissingTarget),
        Some(target) => match location_from_proto(
            target,
            LinkError::MissingTargetStart,
            LinkError::MissingTargetEnd,
        ) {
            Ok(target) => Ok(LocationLink { origin, target }),
            Err(error) => Err(error),
        },
    }
}

pub fn location_links_to_proto(links: &Vec<LocationLink>) -> (messages: Vec<ProtoLocationLink>)
    ensures
        messages@ == links@.map_values(|l: LocationLink| wire(l)),
{
    let mut messages: Vec<ProtoLocationLink> = Vec::new();
    let mut i: usize = 0;
    while i < links.len()
        invariant
            i <= links@.len(),
            messages@ =~= links@.take(i as int).map_values(|l: LocationLink| wire(l)),
        decreases links@.len() - i,
    {
        messages.push(location_link_to_proto(links[i]));
        i += 1;
    }
    assert(links@.take(i as int) =~= links@);
    messages
}

/// What the messages mean, up to the first that cannot be read.
pub open spec fn all_meant(messages: Seq<ProtoLocationLink>) -> Result<
    Seq<LocationLink>,
    LinkError,
>
    decreases messages.len(),
{
    if messages.len() == 0 {
        Ok(Seq::empty())
    } else {
        match all_meant(messages.drop_last()) {
            Err(error) => Err(error),
            Ok(earlier) => match meant(messages.last()) {
                Err(error) => Err(error),
                Ok(link) => Ok(earlier.push(link)),
            },
        }
    }
}

pub fn location_links_from_proto(messages: &Vec<ProtoLocationLink>) -> (links: Result<
    Vec<LocationLink>,
    LinkError,
>)
    ensures
        match links {
            Ok(links) => all_meant(messages@) == Ok::<Seq<LocationLink>, LinkError>(links@),
            Err(error) => all_meant(messages@) == Err::<Seq<LocationLink>, LinkError>(error),
        },
{
    let mut links: Vec<LocationLink> = Vec::new();
    let mut failed: Option<LinkError> = None;
    let mut i: usize = 0;
    while i < messages.len()
        invariant
            i <= messages@.len(),
            match failed {
                None => all_meant(messages@.take(i as int)) == Ok::<Seq<LocationLink>, LinkError>(
                    links@,
                ),
                Some(error) => all_meant(messages@.take(i as int)) == Err::<
                    Seq<LocationLink>,
                    LinkError,
                >(error),
            },
        decreases messages@.len() - i,
    {
        assert(messages@.take(i + 1).drop_last() =~= messages@.take(i as int));
        assert(messages@.take(i + 1).last() == messages@[i as int]);
        if failed.is_none() {
            match location_link_from_proto(messages[i]) {
                Ok(link) => {
                    links.push(link);
                },
                Err(error) => {
                    failed = Some(error);
                },
            }
        }
        i += 1;
    }
    assert(messages@.take(i as int) =~= messages@);
    match failed {
        Some(error) => Err(error),
        None => Ok(links),
    }
}

/// Links come over the wire as they were sent.
pub proof fn location_links_round_trip(links: Seq<LocationLink>)
    ensures
        all_meant(links.map_values(|l: LocationLink| wire(l))) == Ok::<
            Seq<LocationLink>,
            LinkError,
        >(links),
    decreases links.len(),
{
    let messages = links.map_values(|l: LocationLink| wire(l));
    if links.len() > 0 {
        location_links_round_trip(links.drop_last());
        assert(messages.drop_last() =~= links.drop_last().map_values(|l: LocationLink| wire(l)));
        assert(links.drop_last().push(links.last()) =~= links);
    } else {
        assert(links =~= Seq::<LocationLink>::empty());
    }
}

/// Every link is followed unless only the workspace is of interest.
pub proof fn all_links_are_followed(links: Seq<LspLocationLink>, targets: Seq<LinkTarget>)
    ensures
        followed_links(links, targets, false) == links,
    decreases links.len(),
{
    if links.len() > 0 {
        all_links_are_followed(links.drop_last(), targets);
        assert(links.drop_last().push(links.last()) =~= links);
    } else {
        assert(links =~= Seq::<LspLocationLink>::empty());
    }
}
/// A mere location is a link from nowhere, and stated links are taken as they are.
pub proof fn locations_are_links_from_nowhere(
    message: Option<GotoDefinitionResponse>,
    links: Vec<LspLocationLink>,
    i: int,
)
    requires
        call_ensures(unresolved_links, (message,), links),
    ensures
        message is None ==> links@.len() == 0,
        message matches Some(GotoDefinitionResponse::Scalar(location)) ==> {
            &&& links@.len() == 1
            &&& links@[0].origin_selection_range is None
            &&& links@[0].target_uri == location.uri
            &&& links@[0].target_selection_range == location.range
        },
        message matches Some(GotoDefinitionResponse::Array(locations)) ==> {
            &&& links@.len() == locations@.len()
            &&& 0 <= i < locations@.len() ==> {
                &&& links@[i].origin_selection_range is None
                &&& links@[i].target_uri == locations@[i].uri
                &&& links@[i].target_selection_range == locations@[i].range
            }
        },
        message matches Some(GotoDefinitionResponse::Link(stated)) ==> links@ == stated@,
{
}

/// All links are followed, unless only the workspace is of interest: then a link has to lead to
/// a file in a worktree that is shown and is more than just that file.
pub proof fn links_are_followed_into_the_workspace(
    target: LinkTarget,
    workspace_only: bool,
    followed: bool,
)
    requires
        call_ensures(is_followed, (&target, workspace_only), followed),
    ensures
        !workspace_only ==> followed,
        workspace_only ==> (followed <==> target.has_path && target.in_worktree
            && target.worktree_is_visible && !target.worktree_is_single_file),
{
}

/// A further link is opened behind the others if it is followed, and changes nothing if not.
pub proof fn followed_links_are_opened_in_order(
    links: Vec<LspLocationLink>,
    targets: Vec<LinkTarget>,
    workspace_only: bool,
    opened: Result<Vec<LspLocationLink>, NoLanguageServer>,
    link: LspLocationLink,
    target: LinkTarget,
    more: Vec<LspLocationLink>,
    more_targets: Vec<LinkTarget>,
    all: Result<Vec<LspLocationLink>, NoLanguageServer>,
    followed: bool,
)
    requires
        call_ensures(
            location_links_from_lsp,
            (Some(GotoDefinitionResponse::Link(links)), &targets, workspace_only, true),
            opened,
        ),
        call_ensures(
            location_links_from_lsp,
            (Some(GotoDefinitionResponse::Link(more)), &more_targets, workspace_only, true),
            all,
        ),
        call_ensures(is_followed, (&target, workspace_only), followed),
        links@.len() == targets@.len(),
        more@ == links@.push(link),
        more_targets@ == targets@.push(target),
    ensures
        opened is Ok && all is Ok,
        links@.len() == 0 ==> opened->Ok_0@.len() == 0,
        followed ==> all->Ok_0@ == opened->Ok_0@.push(link),
        !followed ==> all->Ok_0@ == opened->Ok_0@,
{
    assert(more@.drop_last() =~= links@);
    followed_links_ignore_further_targets(links@, targets@, target, workspace_only);
}

proof fn followed_links_ignore_further_targets(
    links: Seq<LspLocationLink>,
    targets: Seq<LinkTarget>,
    target: LinkTarget,
    workspace_only: bool,
)
    requires
        links.len() <= targets.len(),
    ensures
        followed_links(links, targets.push(target), workspace_only) == followed_links(
            links,
            targets,
            workspace_only,
        ),
    decreases links.len(),
{
    if links.len() > 0 {
        followed_links_ignore_further_targets(links.drop_last(), targets, target, workspace_only);
    }
}

/// An answer needs the server that gave it; no answer needs none.
pub proof fn links_are_opened_through_their_server(
    message: Option<GotoDefinitionResponse>,
    targets: Vec<LinkTarget>,
    workspace_only: bool,
    has_server: bool,
    result: Result<Vec<LspLocationLink>, NoLanguageServer>,
)
    requires
        call_ensures(
            location_links_from_lsp,
            (message, &targets, workspace_only, has_server),
            result,
        ),
    ensures
        result is Err <==> message is Some && !has_server,
        message is None ==> result is Ok && result->Ok_0@.len() == 0,
{
}

/// A link leads from where the server states to the place that was opened.
pub proof fn links_lead_to_what_was_opened(
    link: LspLocationLink,
    has_server: bool,
    buffer: u64,
    origin_anchors: (u64, u64),
    target_buffer: u64,
    target_anchors: (u64, u64),
    result: Result<LocationLink, NoLanguageServer>,
)
    requires
        call_ensures(
            location_link_from_lsp,
            (&link, has_server, buffer, origin_anchors, target_buffer, target_anchors),
            result,
        ),
    ensures
        result is Ok <==> has_server,
        has_server ==> {
            &&& result->Ok_0.target.buffer == target_buffer
            &&& result->Ok_0.target.start == target_anchors.0
            &&& result->Ok_0.target.end == target_anchors.1
            &&& result->Ok_0.origin is Some <==> link.origin_selection_range is Some
            &&& result->Ok_0.origin matches Some(origin) ==> origin.buffer == buffer
                && origin.start == origin_anchors.0 && origin.end == origin_anchors.1
        },
{
}

/// Links arrive as they were sent.
pub proof fn links_arrive_as_sent(
    links: Vec<LocationLink>,
    messages: Vec<ProtoLocationLink>,
    received: Result<Vec<LocationLink>, LinkError>,
    i: int,
)
    requires
        call_ensures(location_links_to_proto, (&links,), messages),
        call_ensures(location_links_from_proto, (&messages,), received),
        0 <= i < links@.len(),
    ensures
        received is Ok,
        received->Ok_0@ == links@,
        messages@.len() == links@.len(),
        messages@[i].target is Some && messages@[i].target->0.buffer_id == Some(
            links@[i].target.buffer,
        ) && messages@[i].target->0.start == Some(links@[i].target.start)
            && messages@[i].target->0.end == Some(links@[i].target.end),
        messages@[i].origin is Some <==> links@[i].origin is Some,
{
    location_links_round_trip(links@);
    assert(messages@[i] == wire(links@[i]));
}

/// A link on the wire is read in order: the buffer, the start and the end of its origin, then
/// those of its target. The first that is missing is reported.
pub proof fn links_are_read_in_order(
    message: ProtoLocationLink,
    link: Result<LocationLink, LinkError>,
)
    requires
        call_ensures(location_link_from_proto, (message,), link),
    ensures
        message.origin matches Some(origin) ==> {
            &&& origin.buffer_id is None ==> link is Err && link->Err_0 is InvalidBuffer
            &&& origin.buffer_id is Some && origin.start is None ==> link is Err && link->Err_0
                is MissingOriginStart
            &&& origin.buffer_id is Some && origin.start is Some && origin.end is None ==> link
                is Err && link->Err_0 is MissingOriginEnd
        },
        message.origin is None && message.target is None ==> link is Err && link->Err_0
            is MissingTarget,
        message.origin is None ==> (message.target matches Some(target) ==> {
            &&& target.buffer_id is None ==> link is Err && link->Err_0 is InvalidBuffer
            &&& target.buffer_id is Some && target.start is None ==> link is Err && link->Err_0
                is MissingTargetStart
            &&& target.buffer_id is Some && target.start is Some && target.end is None ==> link
                is Err && link->Err_0 is MissingTargetEnd
            &&& target.buffer_id is Some && target.start is Some && target.end is Some ==> link
                is Ok && link->Ok_0.origin is None && link->Ok_0.target.buffer
                == target.buffer_id->0 && link->Ok_0.target.start == target.start->0
                && link->Ok_0.target.end == target.end->0
        }),
{
}
/// Each error is called by what is missing.
pub proof fn link_errors_say_what_is_missing(error: LinkError, message: &'static str)
    requires
        call_ensures(LinkError::message, (&error,), message),
    ensures
        error is MissingOriginStart ==> message@ == "missing origin start"@,
        error is MissingOriginEnd ==> message@ == "missing origin end"@,
        error is MissingTarget ==> message@ == "missing target"@,
        error is MissingTargetStart ==> message@ == "missing target start"@,
        error is MissingTargetEnd ==> message@ == "missing target end"@,
{
}

/// A single link is written in the same way as one of many.
pub proof fn single_links_are_written_alike(
    link: LocationLink,
    message: ProtoLocationLink,
    links: Vec<LocationLink>,
    messages: Vec<ProtoLocationLink>,
    i: int,
)
    requires
        call_ensures(location_link_to_proto, (link,), message),
        call_ensures(location_links_to_proto, (&links,), messages),
        0 <= i < links@.len(),
        links@[i] == link,
    ensures
        messages@[i] == message,
        message.target is Some && message.target->0.buffer_id == Some(link.target.buffer),
        link.origin matches Some(origin) ==> message.origin is Some && message.origin->0.buffer_id
            == Some(origin.buffer) && message.origin->0.start == Some(origin.start)
            && message.origin->0.end == Some(origin.end),
{
}

} // verus!
