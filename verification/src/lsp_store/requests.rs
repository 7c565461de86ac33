//! Which servers a request goes to, and where what they name is opened.
use std::collections::{BTreeMap, BTreeSet};
use vstd::prelude::*;

use crate::ids::{map_get, set_has};
use crate::lsp_command::commands::{LspCommand, RequestCapabilities};
use crate::lsp_command::{error_text, LspParamsOrResponse, RequestError};
use crate::lsp_store::labels::{
    ends_with, is_common_failure, should_log_lsp_request_failure, text_ends_with,
};
use crate::lsp_store::progress::{
    with_work, without_work, LanguageServerProgress, ProgressToken, TokenView,
};
use crate::lsp_store::servers::{
    listed_with, listing_is_complete, serves, serves_picked, LanguageServerState, LocalLspStore,
    SeedView, UnifiedView,
};
use crate::lsp_store::store::LspStore;
use crate::rel_path::RelPath;
use crate::text::{same_text, wrap_text};

verus! {

#[derive(Clone, Copy, Debug, PartialEq, Eq, Structural)]
pub enum LanguageServerToQuery {
    /// Query language servers in order of users preference, up until one capable of
    /// handling the request is found.
    FirstCapable,
    /// Query a specific language server.
    Other(u64),
}

/// What is known of a server that may be asked.
#[derive(Debug)]
pub struct AskedServer {
    pub name: String,
    pub capabilities: RequestCapabilities,
}

/// How a request about a buffer goes on.
#[derive(Debug)]
pub enum RequestPlan<P, R> {
    /// It is answered without asking.
    Respond(R),
    /// It cannot be made.
    Fail(RequestFailure),
    /// It is sent to a server. While it is under way, the status is shown, if there is one.
    Send { server_id: u64, params: P, status: Option<String> },
}

/// A request that failed: what is said of it, and whether that is logged.
#[derive(Debug)]
pub struct RequestFailure {
    pub message: String,
    pub is_logged: bool,
}

/// The server can handle the request.
pub open spec fn can_handle<C: LspCommand>(servers: Map<u64, AskedServer>, id: u64) -> bool {
    servers.contains_key(id) && C::is_supported(servers[id].capabilities)
}

/// The first of some servers that can handle the request.
pub open spec fn first_capable<C: LspCommand>(
    servers: Map<u64, AskedServer>,
    ids: Seq<u64>,
) -> Option<u64>
    decreases ids.len(),
{
    if ids.len() == 0 {
        None
    } else if can_handle::<C>(servers, ids[0]) {
        Some(ids[0])
    } else {
        first_capable::<C>(servers, ids.skip(1))
    }
}

/// The server that a request goes to: the first of the running ones that can handle it, or
/// the one that is asked for if it runs and can.
pub open spec fn server_to_query<C: LspCommand>(
    servers: Map<u64, AskedServer>,
    running: Seq<u64>,
    query: LanguageServerToQuery,
) -> Option<u64> {
    match query {
        LanguageServerToQuery::FirstCapable => first_capable::<C>(servers, running),
        LanguageServerToQuery::Other(id) => if running.contains(id) && can_handle::<C>(
            servers,
            id,
        ) {
            Some(id)
        } else {
            None
        },
    }
}

/// What is said of a request that failed: "request via server failed: error".
pub open spec fn failure_text(request: Seq<char>, server: Seq<char>, error: Seq<char>) -> Seq<
    char,
> {
    request + " via "@ + (server + " failed: "@ + error)
}

pub open spec fn is_failure(failure: RequestFailure, text: Seq<char>) -> bool {
    failure.message@ == text && failure.is_logged == is_common_failure(text)
}

/// The request goes on as what it makes of the server says.
pub open spec fn is_plan_for<C: LspCommand>(
    plan: RequestPlan<C::Params, C::Response>,
    request: C,
    server_id: u64,
    server: AskedServer,
    made: Result<LspParamsOrResponse<C::Params, C::Response>, RequestError>,
) -> bool {
    match made {
        Ok(LspParamsOrResponse::Response(response)) => plan == RequestPlan::<
            C::Params,
            C::Response,
        >::Respond(response),
        Ok(LspParamsOrResponse::Params(params)) => {
            plan matches RequestPlan::Send { server_id: to, params: sent, status } && to
                == server_id && sent == params && call_ensures(C::status, (&request,), status)
        },
        Err(error) => {
            plan matches RequestPlan::Fail(failure) && is_failure(
                failure,
                failure_text(C::title(), server.name@, error_text(error)),
            )
        },
    }
}

impl LocalLspStore {
    /// Decides how a request about a buffer goes on. `ids` are the servers of the buffer in
    /// the order of preference, and `file` is the buffer's local file, by its URI if it has
    /// one. Without a server that can handle the request, or without a local file, it is
    /// answered as if a server had nothing to say.
    pub fn request_lsp<C: LspCommand>(
        &self,
        request: &C,
        servers: &BTreeMap<u64, AskedServer>,
        ids: &Vec<u64>,
        query: LanguageServerToQuery,
        file: Option<Option<String>>,
    ) -> (plan: RequestPlan<C::Params, C::Response>)
        ensures
            match (server_to_query::<C>(servers@, running_of(self@.servers, ids@), query), file) {
                (Some(id), Some(uri)) => exists|
                    made: Result<LspParamsOrResponse<C::Params, C::Response>, RequestError>,
                | #[trigger]
                    call_ensures(
                        C::to_lsp_params_or_response,
                        (request, uri, &servers@[id].capabilities),
                        made,
                    ) && is_plan_for(plan, *request, id, servers@[id], made),
                _ => plan matches RequestPlan::Respond(response) && C::says_nothing(response),
            },
    {
        let running: Vec<u64> = self.language_servers_for_buffer(ids);
        let mut found: Option<u64> = None;
        let mut i: usize = 0;
        assert(running@.skip(0) =~= running@);
        while i < running.len() && found.is_none()
            invariant
                i <= running@.len(),
                match found {
                    Some(id) => can_handle::<C>(servers@, id) && server_to_query::<C>(
                        servers@,
                        running@,
                        query,
                    ) == Some(id),
                    None => match query {
                        LanguageServerToQuery::FirstCapable => first_capable::<C>(
                            servers@,
                            running@,
                        ) == first_capable::<C>(servers@, running@.skip(i as int)),
                        LanguageServerToQuery::Other(id) => can_handle::<C>(servers@, id)
                            ==> forall|k: int| 0 <= k < i ==> running@[k] != id,
                    },
                },
            decreases running@.len() - i,
        {
            let id: u64 = running[i];
            assert(running@.skip(i as int)[0] == id);
            assert(running@.skip(i as int).skip(1) =~= running@.skip(i + 1));
            assert(running@.contains(running@[i as int]));
            let is_capable: bool = match map_get(servers, id) {
                Some(server) => request.check_capabilities(&server.capabilities),
                None => false,
            };
            let is_wanted: bool = match query {
                LanguageServerToQuery::FirstCapable => true,
                LanguageServerToQuery::Other(other) => other == id,
            };
            if is_capable && is_wanted {
                found = Some(id);
            }
            i += 1;
        }
        assert(found == server_to_query::<C>(servers@, running@, query)) by {
            if found is None {
                assert(running@.skip(i as int).len() == 0);
            }
        }
        match (found, file) {
            (Some(id), Some(uri)) => match map_get(servers, id) {
                Some(server) => {
                    let made = request.to_lsp_params_or_response(uri, &server.capabilities);
                    assert(call_ensures(
                        C::to_lsp_params_or_response,
                        (request, uri, &servers@[id].capabilities),
                        made,
                    ));
                    match made {
                        Ok(LspParamsOrResponse::Params(params)) => {
                            let status: Option<String> = request.status();
                            RequestPlan::Send { server_id: id, params, status }
                        },
                        Ok(LspParamsOrResponse::Response(response)) => {
                            RequestPlan::Respond(response)
                        },
                        Err(error) => RequestPlan::Fail(
                            request_failure(
                                request.display_name(),
                                server.name.as_str(),
                                error.message(),
                            ),
                        ),
                    }
                },
                None => RequestPlan::Respond(C::empty_response()),
            },
            _ => RequestPlan::Respond(C::empty_response()),
        }
    }
}

/// What is shown of a request while it runs.
pub open spec fn request_progress(status: String, now: u64) -> LanguageServerProgress {
    LanguageServerProgress {
        is_cancellable: false,
        title: None,
        message: Some(status),
        percentage: None,
        last_update_at: now,
    }
}

impl LspStore {
    /// A request was sent under a number. One that has a status is shown as work of the
    /// server. Says whether it is.
    pub fn request_sent(&mut self, server_id: u64, id: i32, status: Option<String>, now: u64) -> (
    shown: bool)
        ensures
            shown == status is Some,
            final(self).language_server_statuses.views() == (match status {
                Some(status) => with_work(
                    old(self).language_server_statuses.views(),
                    server_id,
                    TokenView::Number(id),
                    request_progress(status, now),
                ),
                None => old(self).language_server_statuses.views(),
            }),
            *final(self) == (LspStore {
                language_server_statuses: final(self).language_server_statuses,
                ..*old(self)
            }),
    {
        if status.is_some() {
            self.language_server_statuses.on_lsp_work_start(
                server_id,
                ProgressToken::Number(id),
                LanguageServerProgress {
                    is_cancellable: false,
                    title: None,
                    message: status,
                    percentage: None,
                    last_update_at: now,
                },
            );
            true
        } else {
            false
        }
    }

    /// A request that was shown has been answered, or given up.
    pub fn request_ended(&mut self, server_id: u64, id: i32)
        ensures
            final(self).language_server_statuses.views() == without_work(
                old(self).language_server_statuses.views(),
                server_id,
                TokenView::Number(id),
            ),
            *final(self) == (LspStore {
                language_server_statuses: final(self).language_server_statuses,
                ..*old(self)
            }),
    {
        self.language_server_statuses.on_lsp_work_end(server_id, &ProgressToken::Number(id));
    }
}

/// What a server made of a request to several of them.
#[derive(Debug)]
pub enum ServerAnswer {
    /// The answer, by its number.
    Answered(u64),
    Failed(String),
}

/// The answers that came, in the order in which they came. Servers that failed are left out.
pub open spec fn answers(results: Seq<(u64, ServerAnswer)>) -> Seq<(u64, u64)>
    decreases results.len(),
{
    if results.len() == 0 {
        Seq::empty()
    } else {
        let earlier = answers(results.drop_last());
        match results.last() {
            (server, ServerAnswer::Answered(answer)) => earlier.push((server, answer)),
            _ => earlier,
        }
    }
}

/// Collects the answers of several servers. Also says which failures are worth a report: those
/// that do not come up while a server is still loading.
pub fn request_multiple_lsp_locally(results: &Vec<(u64, ServerAnswer)>) -> (collected: (
    Vec<(u64, u64)>,
    Vec<u64>,
))
    ensures
        collected.0@ == answers(results@),
        collected.1@ == reported_failures(results@),
{
    let mut answered: Vec<(u64, u64)> = Vec::new();
    let mut failed: Vec<u64> = Vec::new();
    let mut i: usize = 0;
    while i < results.len()
        invariant
            i <= results@.len(),
            answered@ == answers(results@.take(i as int)),
            failed@ == reported_failures(results@.take(i as int)),
        decreases results@.len() - i,
    {
        assert(results@.take(i + 1).drop_last() =~= results@.take(i as int));
        assert(results@.take(i + 1).last() == results@[i as int]);
        let server: u64 = results[i].0;
        match &results[i].1 {
            ServerAnswer::Answered(answer) => {
                answered.push((server, *answer));
            },
            ServerAnswer::Failed(error) => {
                if !text_ends_with(error.as_str(), "content modified") {
                    failed.push(server);
                }
            },
        }
        i += 1;
    }
    assert(results@.take(i as int) =~= results@);
    (answered, failed)
}

/// The servers whose failures are reported.
pub open spec fn reported_failures(results: Seq<(u64, ServerAnswer)>) -> Seq<u64>
    decreases results.len(),
{
    if results.len() == 0 {
        Seq::empty()
    } else {
        let earlier = reported_failures(results.drop_last());
        match results.last() {
            (server, ServerAnswer::Failed(error)) => if ends_with(error@, "content modified"@) {
                earlier
            } else {
                earlier.push(server)
            },
            _ => earlier,
        }
    }
}

/// What is reported when a request fails.
pub fn request_failure(request: &str, server: &str, error: &str) -> (failure: RequestFailure)
    ensures
        is_failure(failure, failure_text(request@, server@, error@)),
{
    let rest: String = wrap_text(server, " failed: ", error);
    let message: String = wrap_text(request, " via ", rest.as_str());
    let is_logged: bool = should_log_lsp_request_failure(message.as_str());
    RequestFailure { message, is_logged }
}

/// The running ones of some servers, in their order.
pub open spec fn running_of(servers: Map<u64, LanguageServerState>, ids: Seq<u64>) -> Seq<u64>
    decreases ids.len(),
{
    if ids.len() == 0 {
        Seq::empty()
    } else {
        let earlier = running_of(servers, ids.drop_last());
        let id = ids.last();
        if servers.contains_key(id) && servers[id] == LanguageServerState::Running {
            earlier.push(id)
        } else {
            earlier
        }
    }
}

/// The servers among the candidates that are allowed and in which the buffer is open.
pub open spec fn open_and_allowed(
    open: Set<u64>,
    candidates: Seq<(u64, bool)>,
) -> Seq<u64>
    decreases candidates.len(),
{
    if candidates.len() == 0 {
        Seq::empty()
    } else {
        let earlier = open_and_allowed(open, candidates.drop_last());
        let (id, allowed) = candidates.last();
        if allowed && open.contains(id) {
            earlier.push(id)
        } else {
            earlier
        }
    }
}

/// Those of some servers in which a buffer is open, in their order.
pub open spec fn open_in(open: Set<u64>, ids: Seq<u64>) -> Seq<u64>
    decreases ids.len(),
{
    if ids.len() == 0 {
        Seq::empty()
    } else {
        let earlier = open_in(open, ids.drop_last());
        if open.contains(ids.last()) {
            earlier.push(ids.last())
        } else {
            earlier
        }
    }
}

/// The servers in which a buffer is open.
pub open spec fn servers_with(opened: Map<u64, Set<u64>>, buffer: u64) -> Set<u64> {
    if opened.contains_key(buffer) {
        opened[buffer]
    } else {
        Set::empty()
    }
}

/// The seed is one for the server that a symbol came from.
pub open spec fn symbol_seed(seed: SeedView, worktree: u64, name: Seq<char>) -> bool {
    seed.worktree_id == worktree && seed.name == name
}

/// Some seed for the worktree and the name stands for the server.
pub open spec fn is_source(
    ids: Map<SeedView, UnifiedView>,
    worktree: u64,
    server: u64,
    name: Seq<char>,
) -> bool {
    exists|seed: SeedView| #[trigger]
        serves(ids, seed, server) && symbol_seed(seed, worktree, name)
}

impl LocalLspStore {
    /// Whether there is a server under a number: one that runs, or a supplementary one.
    pub fn language_server_for_id(&self, id: u64, supplementary: &BTreeSet<u64>) -> (found: bool)
        ensures
            found == (self@.servers.contains_key(id) && self@.servers[id]
                == LanguageServerState::Running || supplementary@.contains(id)),
    {
        self.running_language_server_for_id(id) || set_has(supplementary, id)
    }

    /// The running ones of the servers of a buffer.
    pub fn language_servers_for_buffer(&self, ids: &Vec<u64>) -> (running: Vec<u64>)
        ensures
            running@ == running_of(self@.servers, ids@),
    {
        let mut running: Vec<u64> = Vec::new();
        let mut i: usize = 0;
        while i < ids.len()
            invariant
                i <= ids@.len(),
                running@ == running_of(self@.servers, ids@.take(i as int)),
            decreases ids@.len() - i,
        {
            assert(ids@.take(i + 1).drop_last() =~= ids@.take(i as int));
            assert(ids@.take(i + 1).last() == ids@[i as int]);
            if self.running_language_server_for_id(ids[i]) {
                running.push(ids[i]);
            }
            i += 1;
        }
        assert(ids@.take(i as int) =~= ids@);
        running
    }

    /// Whether a server is one of the running ones of a buffer.
    pub fn language_server_for_local_buffer(&self, ids: &Vec<u64>, server_id: u64) -> (found: bool)
        ensures
            found == running_of(self@.servers, ids@).contains(server_id),
    {
        let running: Vec<u64> = self.language_servers_for_buffer(ids);
        let mut i: usize = 0;
        while i < running.len()
            invariant
                i <= running@.len(),
                running@ == running_of(self@.servers, ids@),
                forall|k: int| 0 <= k < i ==> running@[k] != server_id,
            decreases running@.len() - i,
        {
            if running[i] == server_id {
                return true;
            }
            i += 1;
        }
        false
    }

    /// The running ones of the servers of a buffer in which it is open.
    pub fn local_lsp_servers_for_buffer(&self, buffer: u64, ids: &Vec<u64>) -> (servers: Vec<u64>)
        ensures
            servers@ == open_in(
                servers_with(self@.opened, buffer),
                running_of(self@.servers, ids@),
            ),
    {
        let running: Vec<u64> = self.language_servers_for_buffer(ids);
        let ghost open = servers_with(self@.opened, buffer);
        let mut servers: Vec<u64> = Vec::new();
        let mut i: usize = 0;
        while i < running.len()
            invariant
                i <= running@.len(),
                open == servers_with(self@.opened, buffer),
                servers@ == open_in(open, running@.take(i as int)),
            decreases running@.len() - i,
        {
            assert(running@.take(i + 1).drop_last() =~= running@.take(i as int));
            assert(running@.take(i + 1).last() == running@[i as int]);
            let is_open: bool = match map_get(&self.buffers_opened_in_servers, buffer) {
                Some(servers) => set_has(servers, running[i]),
                None => false,
            };
            if is_open {
                servers.push(running[i]);
            }
            i += 1;
        }
        assert(running@.take(i as int) =~= running@);
        servers
    }

    /// The servers that are asked about a buffer: those in which it is open, as far as
    /// they are allowed at the place that is asked about.
    pub fn servers_to_ask(&self, buffer: u64, candidates: &Vec<(u64, bool)>) -> (servers: Vec<u64>)
        ensures
            servers@ == open_and_allowed(servers_with(self@.opened, buffer), candidates@),
    {
        let ghost open = servers_with(self@.opened, buffer);
        let mut servers: Vec<u64> = Vec::new();
        let mut i: usize = 0;
        while i < candidates.len()
            invariant
                i <= candidates@.len(),
                open == servers_with(self@.opened, buffer),
                servers@ == open_and_allowed(open, candidates@.take(i as int)),
            decreases candidates@.len() - i,
        {
            let (id, allowed) = candidates[i];
            assert(candidates@.take(i + 1).drop_last() =~= candidates@.take(i as int));
            assert(candidates@.take(i + 1).last() == candidates@[i as int]);
            let is_open: bool = match map_get(&self.buffers_opened_in_servers, buffer) {
                Some(open_in) => set_has(open_in, id),
                None => false,
            };
            if allowed && is_open {
                servers.push(id);
            }
            i += 1;
        }
        assert(candidates@.take(i as int) =~= candidates@);
        servers
    }

    /// Whether the server that a symbol came from is still the one for its worktree.
    pub fn is_valid_symbol_source(&self, worktree: u64, server: u64, name: &str) -> (valid: bool)
        requires
            self.well_formed(),
        ensures
            valid == is_source(self@.ids, worktree, server, name@),
    {
        let mut valid: bool = false;
        let mut k: usize = 0;
        let ghost entries = self.language_server_ids.entries@;
        let ghost picks = |seed: SeedView| symbol_seed(seed, worktree, name@);
        while k < self.language_server_ids.entries.len()
            invariant
                k <= self.language_server_ids.entries@.len(),
                entries == self.language_server_ids.entries@,
                picks == (|seed: SeedView| symbol_seed(seed, worktree, name@)),
                valid == listed_with(entries.take(k as int), picks, server),
            decreases self.language_server_ids.entries@.len() - k,
        {
            let seed = &self.language_server_ids.entries[k].0;
            let id: u64 = self.language_server_ids.entries[k].1.id;
            assert(entries.take(k + 1).drop_last() =~= entries.take(k as int));
            assert(entries.take(k + 1).last() == entries[k as int]);
            if seed.worktree_id == worktree && id == server && same_text(seed.name.as_str(), name) {
                valid = true;
            }
            k += 1;
        }
        proof {
            assert(entries.take(k as int) =~= entries);
            listing_is_complete(self.language_server_ids, picks);
            assert(listed_with(entries, picks, server) <==> serves_picked(
                self@.ids,
                picks,
                server,
            ));
            assert(serves_picked(self@.ids, picks, server) <==> exists|seed: SeedView| #[trigger]
                serves(self@.ids, seed, server) && symbol_seed(seed, worktree, name@));
        }
        valid
    }
}

/// A file of a manifest is among the paths: the configuration of the servers is looked
/// up again.
pub open spec fn touches_manifest(paths: Seq<RelPath>, manifests: Seq<String>) -> bool {
    exists|i: int, j: int|
        0 <= i < paths.len() && 0 <= j < manifests.len() && crate::rel_path::has_file_name(
            (#[trigger] paths[i])@,
        ) && paths[i]@.last() == (#[trigger] manifests[j])@
}

/// Whether some changed path makes it necessary to look up the configuration of the
/// servers again.
pub fn needs_configuration_refresh(paths: &Vec<RelPath>, manifests: &Vec<String>) -> (needed: bool)
    ensures
        needed == touches_manifest(paths@, manifests@),
{
    let mut i: usize = 0;
    while i < paths.len()
        invariant
            i <= paths@.len(),
            forall|k: int, j: int|
                0 <= k < i && 0 <= j < manifests@.len() ==> !(crate::rel_path::has_file_name(
                    (#[trigger] paths@[k])@,
                ) && paths@[k]@.last() == (#[trigger] manifests@[j])@),
        decreases paths@.len() - i,
    {
        if let Some(name) = paths[i].file_name() {
            let mut j: usize = 0;
            while j < manifests.len()
                invariant
                    j <= manifests@.len(),
                    i < paths@.len(),
                    crate::rel_path::has_file_name(paths@[i as int]@),
                    name@ == paths@[i as int]@.last(),
                    forall|l: int| 0 <= l < j ==> name@ != (#[trigger] manifests@[l])@,
                decreases manifests@.len() - j,
            {
                if same_text(name.as_str(), manifests[j].as_str()) {
                    assert(paths@[i as int]@.last() == manifests@[j as int]@);
                    return true;
                }
                j += 1;
            }
        }
        i += 1;
    }
    false
}

proof fn lemma_running(servers: Map<u64, LanguageServerState>, ids: Seq<u64>, id: u64)
    ensures
        running_of(servers, ids).contains(id) <==> ids.contains(id) && servers.contains_key(id)
            && servers[id] is Running,
    decreases ids.len(),
{
    if ids.len() > 0 {
        let earlier = ids.drop_last();
        lemma_running(servers, earlier, id);
        crate::ids::contains_push(running_of(servers, earlier), ids.last(), id);
        crate::ids::contains_push(earlier, ids.last(), id);
        assert(earlier.push(ids.last()) =~= ids);
    }
}

proof fn lemma_open_in(open: Set<u64>, ids: Seq<u64>, id: u64)
    ensures
        open_in(open, ids).contains(id) <==> ids.contains(id) && open.contains(id),
    decreases ids.len(),
{
    if ids.len() > 0 {
        let earlier = ids.drop_last();
        lemma_open_in(open, earlier, id);
        crate::ids::contains_push(open_in(open, earlier), ids.last(), id);
        crate::ids::contains_push(earlier, ids.last(), id);
        assert(earlier.push(ids.last()) =~= ids);
    }
}

proof fn lemma_allowed(open: Set<u64>, candidates: Seq<(u64, bool)>, id: u64)
    ensures
        open_and_allowed(open, candidates).contains(id) <==> candidates.contains((id, true))
            && open.contains(id),
    decreases candidates.len(),
{
    if candidates.len() > 0 {
        let earlier = candidates.drop_last();
        lemma_allowed(open, earlier, id);
        crate::ids::contains_push(open_and_allowed(open, earlier), candidates.last().0, id);
        crate::ids::contains_push(earlier, candidates.last(), (id, true));
        assert(earlier.push(candidates.last()) =~= candidates);
    }
}

/// The servers of a buffer that count are those that run; those that are asked about it have it
/// open, and are allowed where they are asked.
pub proof fn buffers_have_running_servers(
    store: LocalLspStore,
    buffer: u64,
    ids: Vec<u64>,
    candidates: Vec<(u64, bool)>,
    running: Vec<u64>,
    open: Vec<u64>,
    asked: Vec<u64>,
    supplementary: BTreeSet<u64>,
    is_one: bool,
    found: bool,
    id: u64,
)
    requires
        call_ensures(LocalLspStore::language_servers_for_buffer, (&store, &ids), running),
        call_ensures(LocalLspStore::local_lsp_servers_for_buffer, (&store, buffer, &ids), open),
        call_ensures(LocalLspStore::servers_to_ask, (&store, buffer, &candidates), asked),
        call_ensures(LocalLspStore::language_server_for_local_buffer, (&store, &ids, id), is_one),
        call_ensures(LocalLspStore::language_server_for_id, (&store, id, &supplementary), found),
    ensures
        ({
            let runs = store.language_servers@.contains_key(id) && store.language_servers@[id]
                is Running;
            let has_it = store.buffers_opened_in_servers@.contains_key(buffer)
                && store.buffers_opened_in_servers@[buffer]@.contains(id);
            &&& running@.contains(id) <==> ids@.contains(id) && runs
            &&& is_one <==> ids@.contains(id) && runs
            &&& open@.contains(id) <==> ids@.contains(id) && runs && has_it
            &&& asked@.contains(id) <==> candidates@.contains((id, true)) && has_it
            &&& found <==> runs || supplementary@.contains(id)
        }),
{
    let opened = store@.opened;
    assert(opened.contains_key(buffer) <==> store.buffers_opened_in_servers@.contains_key(buffer));
    if opened.contains_key(buffer) {
        assert(opened[buffer] == store.buffers_opened_in_servers@[buffer]@);
    }
    lemma_running(store@.servers, ids@, id);
    lemma_open_in(servers_with(opened, buffer), running_of(store@.servers, ids@), id);
    lemma_allowed(servers_with(opened, buffer), candidates@, id);
}

proof fn lemma_first_capable<C: LspCommand>(servers: Map<u64, AskedServer>, ids: Seq<u64>)
    ensures
        match first_capable::<C>(servers, ids) {
            Some(id) => exists|i: int|
                0 <= i < ids.len() && #[trigger] ids[i] == id && can_handle::<C>(servers, id)
                    && forall|j: int| 0 <= j < i ==> !can_handle::<C>(servers, #[trigger] ids[j]),
            None => forall|j: int|
                0 <= j < ids.len() ==> !can_handle::<C>(servers, #[trigger] ids[j]),
        },
    decreases ids.len(),
{
    if ids.len() > 0 {
        if can_handle::<C>(servers, ids[0]) {
            assert(ids[0] == ids[0]);
        } else {
            let rest = ids.skip(1);
            lemma_first_capable::<C>(servers, rest);
            match first_capable::<C>(servers, rest) {
                Some(id) => {
                    let i = choose|i: int|
                        0 <= i < rest.len() && #[trigger] rest[i] == id && can_handle::<C>(
                            servers,
                            id,
                        ) && forall|j: int|
                            0 <= j < i ==> !can_handle::<C>(servers, #[trigger] rest[j]);
                    assert(ids[i + 1] == id);
                    assert forall|j: int| 0 <= j < i + 1 implies !can_handle::<C>(
                        servers,
                        #[trigger] ids[j],
                    ) by {
                        if j > 0 {
                            assert(rest[j - 1] == ids[j]);
                        }
                    }
                },
                None => {
                    assert forall|j: int| 0 <= j < ids.len() implies !can_handle::<C>(
                        servers,
                        #[trigger] ids[j],
                    ) by {
                        if j > 0 {
                            assert(rest[j - 1] == ids[j]);
                        }
                    }
                },
            }
        }
    }
}

/// A request goes to a running server of the buffer that can handle it: to the one that was asked
/// for, or to the first of them. Where there is none, or no local file, it is answered as if a
/// server had nothing to say.
pub proof fn requests_go_to_capable_servers<C: LspCommand>(
    store: LocalLspStore,
    request: C,
    servers: BTreeMap<u64, AskedServer>,
    ids: Vec<u64>,
    query: LanguageServerToQuery,
    file: Option<Option<String>>,
    plan: RequestPlan<C::Params, C::Response>,
)
    requires
        call_ensures(
            LocalLspStore::request_lsp::<C>,
            (&store, &request, &servers, &ids, query, file),
            plan,
        ),
    ensures
        plan matches RequestPlan::Send { server_id, .. } ==> {
            &&& file is Some
            &&& ids@.contains(server_id)
            &&& store.language_servers@.contains_key(server_id)
            &&& store.language_servers@[server_id] is Running
            &&& servers@.contains_key(server_id)
            &&& C::is_supported(servers@[server_id].capabilities)
            &&& query matches LanguageServerToQuery::Other(asked) ==> server_id == asked
        },
        file is None ==> (plan matches RequestPlan::Respond(response) && C::says_nothing(response)),
        (forall|i: int|
            0 <= i < ids@.len() ==> !(servers@.contains_key(#[trigger] ids@[i]) && C::is_supported(
                servers@[ids@[i]].capabilities,
            ))) ==> (plan matches RequestPlan::Respond(response) && C::says_nothing(response)),
{
    let running = running_of(store@.servers, ids@);
    lemma_first_capable::<C>(servers@, running);
    let to = server_to_query::<C>(servers@, running, query);
    if let Some(id) = to {
        assert(running.contains(id));
        lemma_running(store@.servers, ids@, id);
        let i = choose|i: int| 0 <= i < ids@.len() && ids@[i] == id;
        assert(ids@[i] == id);
    }
}

/// Of the running servers of a buffer that can handle a request the first is preferred.
pub proof fn first_capable_servers_are_preferred<C: LspCommand>(
    servers: Map<u64, AskedServer>,
    running: Seq<u64>,
    i: int,
)
    requires
        0 <= i < running.len(),
        servers.contains_key(running[i]) && C::is_supported(servers[running[i]].capabilities),
        forall|j: int|
            0 <= j < i ==> !(servers.contains_key(#[trigger] running[j]) && C::is_supported(
                servers[running[j]].capabilities,
            )),
    ensures
        server_to_query::<C>(servers, running, LanguageServerToQuery::FirstCapable) == Some(
            running[i],
        ),
        server_to_query::<C>(servers, running, LanguageServerToQuery::Other(running[i])) == Some(
            running[i],
        ),
{
    lemma_first_capable::<C>(servers, running);
    assert(running.contains(running[i]));
    assert(can_handle::<C>(servers, running[i]));
    match first_capable::<C>(servers, running) {
        Some(id) => {
            let k = choose|k: int|
                0 <= k < running.len() && #[trigger] running[k] == id && can_handle::<C>(
                    servers,
                    id,
                ) && forall|j: int|
                    0 <= j < k ==> !can_handle::<C>(servers, #[trigger] running[j]);
            if k < i {
                assert(!can_handle::<C>(servers, running[k]));
            }
            if i < k {
                assert(!can_handle::<C>(servers, running[i]));
            }
        },
        None => {},
    }
}

proof fn lemma_answers(results: Seq<(u64, ServerAnswer)>, i: int)
    requires
        0 <= i < results.len(),
    ensures
        results[i].1 matches ServerAnswer::Answered(answer) ==> answers(results).contains(
            (results[i].0, answer),
        ),
        results[i].1 matches ServerAnswer::Failed(error) ==> !ends_with(
            error@,
            "content modified"@,
        ) ==> reported_failures(results).contains(results[i].0),
    decreases results.len(),
{
    let earlier = results.drop_last();
    let last = results.last();
    if i < results.len() - 1 {
        assert(earlier[i] == results[i]);
        lemma_answers(earlier, i);
        if let ServerAnswer::Answered(answer) = results[i].1 {
            if let ServerAnswer::Answered(other) = last.1 {
                crate::ids::contains_push(
                    answers(earlier),
                    (last.0, other),
                    (results[i].0, answer),
                );
            }
        }
        crate::ids::contains_push(reported_failures(earlier), last.0, results[i].0);
    } else {
        if let ServerAnswer::Answered(answer) = last.1 {
            crate::ids::contains_push(answers(earlier), (last.0, answer), (last.0, answer));
        }
        crate::ids::contains_push(reported_failures(earlier), last.0, last.0);
    }
}

proof fn lemma_answers_from(results: Seq<(u64, ServerAnswer)>, k: int)
    requires
        0 <= k < answers(results).len(),
    ensures
        exists|i: int|
            0 <= i < results.len() && (#[trigger] results[i]).0 == answers(results)[k].0
                && results[i].1 == ServerAnswer::Answered(answers(results)[k].1),
    decreases results.len(),
{
    let earlier = results.drop_last();
    if k < answers(earlier).len() {
        lemma_answers_from(earlier, k);
        let i = choose|i: int|
            0 <= i < earlier.len() && (#[trigger] earlier[i]).0 == answers(earlier)[k].0
                && earlier[i].1 == ServerAnswer::Answered(answers(earlier)[k].1);
        assert(results[i] == earlier[i]);
    } else {
        assert(results[results.len() - 1] == results.last());
    }
}

/// Every answer is collected under its server, and nothing else is. A failure is reported, unless
/// it says that the content was modified.
pub proof fn answers_are_collected(
    results: Vec<(u64, ServerAnswer)>,
    collected: (Vec<(u64, u64)>, Vec<u64>),
    i: int,
    k: int,
)
    requires
        call_ensures(request_multiple_lsp_locally, (&results,), collected),
    ensures
        0 <= i < results@.len() ==> (results@[i].1 matches ServerAnswer::Answered(answer)
            ==> collected.0@.contains((results@[i].0, answer))),
        0 <= i < results@.len() ==> (results@[i].1 matches ServerAnswer::Failed(error)
            ==> !ends_with(error@, "content modified"@) ==> collected.1@.contains(results@[i].0)),
        0 <= k < collected.0@.len() ==> exists|at: int|
            0 <= at < results@.len() && (#[trigger] results@[at]).0 == collected.0@[k].0
                && results@[at].1 == ServerAnswer::Answered(collected.0@[k].1),
{
    if 0 <= i < results@.len() {
        lemma_answers(results@, i);
    }
    if 0 <= k < collected.0@.len() {
        lemma_answers_from(results@, k);
    }
}

/// What is said of a failed request names the request, then the server, then the error.
pub proof fn failures_name_request_server_and_error(
    request: &str,
    server: &str,
    error: &str,
    failure: RequestFailure,
)
    requires
        call_ensures(request_failure, (request, server, error), failure),
    ensures
        failure.message@ == request@ + " via "@ + (server@ + " failed: "@ + error@),
        failure.is_logged == is_common_failure(failure.message@),
{
}

/// A symbol comes from a server that a seed stands for, in its worktree and under its name.
pub proof fn symbols_come_from_their_server(
    store: LocalLspStore,
    worktree: u64,
    server: u64,
    name: &str,
    valid: bool,
    seed: SeedView,
)
    requires
        call_ensures(
            LocalLspStore::is_valid_symbol_source,
            (&store, worktree, server, name),
            valid,
        ),
    ensures
        store.language_server_ids@.contains_key(seed) && store.language_server_ids@[seed].id
            == server && seed.worktree_id == worktree && seed.name == name@ ==> valid,
        valid ==> exists|s: SeedView| #[trigger]
            store.language_server_ids@.contains_key(s) && store.language_server_ids@[s].id
                == server && s.worktree_id == worktree && s.name == name@,
{
    let ids = store@.ids;
    if store.language_server_ids@.contains_key(seed) && store.language_server_ids@[seed].id == server
        && seed.worktree_id == worktree && seed.name == name@ {
        assert(serves(ids, seed, server) && symbol_seed(seed, worktree, name@));
    }
    if valid {
        let s = choose|s: SeedView| #[trigger]
            serves(ids, s, server) && symbol_seed(s, worktree, name@);
        assert(store.language_server_ids@.contains_key(s));
    }
}

/// The configuration of servers is looked up again just if a changed path has the name of a
/// manifest.
pub proof fn manifests_bring_a_new_configuration(
    paths: Vec<RelPath>,
    manifests: Vec<String>,
    needed: bool,
    i: int,
    j: int,
)
    requires
        call_ensures(needs_configuration_refresh, (&paths, &manifests), needed),
    ensures
        0 <= i < paths@.len() && 0 <= j < manifests@.len() && paths@[i]@.len() > 0 && paths@[i]@.last()
            != seq!['.', '.'] && paths@[i]@.last() == manifests@[j]@ ==> needed,
        needed ==> exists|a: int, b: int|
            0 <= a < paths@.len() && 0 <= b < manifests@.len() && (
            #[trigger] paths@[a])@.len() > 0 && paths@[a]@.last() == (
            #[trigger] manifests@[b])@,
{
    reveal_strlit("..");
    assert(".."@ =~= seq!['.', '.']);
    if 0 <= i < paths@.len() && 0 <= j < manifests@.len() && paths@[i]@.len() > 0
        && paths@[i]@.last() != seq!['.', '.'] && paths@[i]@.last() == manifests@[j]@ {
        assert(crate::rel_path::has_file_name(paths@[i]@));
    }
}
/// A request with a status is shown as work of its server that cannot be cancelled, under the
/// number of the request, until it ends; one without a status is not shown.
pub proof fn requests_are_shown_until_they_end(
    store: &mut LspStore,
    server_id: u64,
    id: i32,
    status: Option<String>,
    now: u64,
    shown: bool,
    later: &mut LspStore,
)
    requires
        call_ensures(LspStore::request_sent, (store, server_id, id, status, now), shown),
        old(store).language_server_statuses.views().contains_key(server_id),
        *old(later) == *final(store),
        call_ensures(LspStore::request_ended, (later, server_id, id), ()),
    ensures
        shown <==> status is Some,
        status is None ==> final(store).language_server_statuses.views() == old(store).language_server_statuses.views(),
        status is Some ==> ({
            let work = final(store).language_server_statuses.views()[server_id].work;
            &&& work.contains_key(TokenView::Number(id))
            &&& work[TokenView::Number(id)].message == status
            &&& work[TokenView::Number(id)].title is None
            &&& work[TokenView::Number(id)].percentage is None
            &&& !work[TokenView::Number(id)].is_cancellable
            &&& work[TokenView::Number(id)].last_update_at == now
        }),
        !final(later).language_server_statuses.views()[server_id].work.contains_key(
            TokenView::Number(id),
        ),
        final(store).local == old(store).local,
        final(later).local == old(store).local,
{
}

} // verus!
