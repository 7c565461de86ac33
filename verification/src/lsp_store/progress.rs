//! Work that language servers report on while they do it.
use std::collections::{BTreeMap, BTreeSet};
use vstd::prelude::*;

use crate::ids::{map_get, map_put, map_take, set_has, set_items, set_put};
use crate::list_map::{Key, ListMap};
use crate::lsp_store::binary::LanguageServerBinary;
use crate::text::same_text;

verus! {

/// By what a server refers to a piece of work.
#[derive(Debug)]
pub enum ProgressToken {
    Number(i32),
    String(String),
}

pub ghost enum TokenView {
    Number(i32),
    String(Seq<char>),
}

impl View for ProgressToken {
    type V = TokenView;

    open spec fn view(&self) -> TokenView {
        match *self {
            ProgressToken::Number(number) => TokenView::Number(number),
            ProgressToken::String(text) => TokenView::String(text@),
        }
    }
}

impl Key for ProgressToken {
    type Id = TokenView;

    open spec fn id(self) -> TokenView {
        self@
    }

    fn same(&self, other: &Self) -> (same: bool) {
        match (self, other) {
            (ProgressToken::Number(a), ProgressToken::Number(b)) => *a == *b,
            (ProgressToken::String(a), ProgressToken::String(b)) => same_text(
                a.as_str(),
                b.as_str(),
            ),
            _ => false,
        }
    }
}

/// A number in decimal digits.
pub open spec fn digits(n: nat) -> Seq<char>
    decreases n,
{
    if n < 10 {
        seq![(48 + n) as char]
    } else {
        digits(n / 10).push((48 + n % 10) as char)
    }
}

/// How a token is shown.
pub open spec fn token_text(token: TokenView) -> Seq<char> {
    match token {
        TokenView::Number(number) => if number < 0 {
            seq!['-'] + digits((-number) as nat)
        } else {
            digits(number as nat)
        },
        TokenView::String(text) => text,
    }
}

/// The character of a digit.
fn digit_char(digit: u32) -> (c: char)
    requires
        digit < 10,
    ensures
        c == (48 + digit) as char,
{
    match digit {
        0 => '0',
        1 => '1',
        2 => '2',
        3 => '3',
        4 => '4',
        5 => '5',
        6 => '6',
        7 => '7',
        8 => '8',
        _ => '9',
    }
}

/// Appends the decimal digits of a number.
fn push_digits(text: &mut std::string::String, n: u32)
    ensures
        final(text)@ == old(text)@ + digits(n as nat),
    decreases n,
{
    if n >= 10 {
        push_digits(text, n / 10);
        text.push(digit_char(n % 10));
        assert(text@ =~= old(text)@ + digits(n as nat));
    } else {
        text.push(digit_char(n));
        assert(text@ =~= old(text)@ + digits(n as nat));
    }
}

impl ProgressToken {
    /// The token as it is shown: a number in decimal, a text as it is.
    pub fn text(&self) -> (text: std::string::String)
        ensures
            text@ == token_text(self@),
    {
        match self {
            ProgressToken::Number(number) => {
                let mut text: std::string::String = std::string::String::new();
                if *number < 0 {
                    text.push('-');
                    let magnitude: u32 = (0 - (*number as i64)) as u32;
                    push_digits(&mut text, magnitude);
                    assert(text@ =~= seq!['-'] + digits(magnitude as nat));
                } else {
                    push_digits(&mut text, *number as u32);
                    assert(text@ =~= digits(*number as nat));
                }
                text
            },
            ProgressToken::String(text) => text.clone(),
        }
    }

    pub fn copy(&self) -> (copy: ProgressToken)
        ensures
            copy == *self,
    {
        match self {
            ProgressToken::Number(number) => ProgressToken::Number(*number),
            ProgressToken::String(text) => ProgressToken::String(text.clone()),
        }
    }
}

/// How far a piece of work has come. Times are in nanoseconds.
#[derive(Debug)]
pub struct LanguageServerProgress {
    pub is_cancellable: bool,
    pub title: Option<String>,
    pub message: Option<String>,
    pub percentage: Option<usize>,
    pub last_update_at: u64,
}

/// Reports on the same work that come closer together are dropped.
pub const SERVER_PROGRESS_THROTTLE_TIMEOUT: u64 = 100_000_000;

/// A report of a server on its work.
#[derive(Debug)]
pub enum WorkDoneProgress {
    Begin {
        title: String,
        cancellable: Option<bool>,
        message: Option<String>,
        percentage: Option<u32>,
    },
    Report { cancellable: Option<bool>, message: Option<String>, percentage: Option<u32> },
    End,
}

/// What a server said of itself when it started. Configurations and folders are written out.
#[derive(Debug)]
pub struct ServerAbout {
    pub name: String,
    pub language_name: Option<String>,
    pub server_version: Option<String>,
    pub server_readable_version: Option<String>,
    pub worktree: Option<u64>,
    pub binary: Option<LanguageServerBinary>,
    pub configuration: Option<String>,
    pub workspace_folders: Vec<String>,
    pub process_id: Option<u32>,
}

/// One server: what it said of itself, the tokens that it announced, and the work in progress.
#[derive(Debug)]
pub struct LanguageServerStatus {
    pub about: ServerAbout,
    pub progress_tokens: ListMap<ProgressToken, ()>,
    pub pending_work: ListMap<ProgressToken, LanguageServerProgress>,
}

pub ghost struct StatusView {
    pub about: ServerAbout,
    pub tokens: Set<TokenView>,
    pub work: Map<TokenView, LanguageServerProgress>,
}

impl View for LanguageServerStatus {
    type V = StatusView;

    open spec fn view(&self) -> StatusView {
        StatusView {
            about: self.about,
            tokens: self.progress_tokens@.dom(),
            work: self.pending_work@,
        }
    }
}

pub open spec fn percentage(given: Option<u32>) -> Option<usize> {
    match given {
        Some(given) => Some(given as usize),
        None => None,
    }
}

/// What a report on work that is known makes of what was known: nothing, if it comes
/// too early; else what it states replaces what was stated before.
pub open spec fn updated(
    known: LanguageServerProgress,
    cancellable: bool,
    message: Option<String>,
    percentage: Option<usize>,
    now: u64,
) -> LanguageServerProgress {
    if now - known.last_update_at >= SERVER_PROGRESS_THROTTLE_TIMEOUT {
        LanguageServerProgress {
            is_cancellable: cancellable,
            title: known.title,
            message: if message is Some {
                message
            } else {
                known.message
            },
            percentage: if percentage is Some {
                percentage
            } else {
                known.percentage
            },
            last_update_at: now,
        }
    } else {
        known
    }
}

/// The work of a server after a report, and whether that is announced. Reports under
/// a token that was not announced count for nothing.
pub open spec fn after_report(
    status: StatusView,
    token: TokenView,
    progress: WorkDoneProgress,
    now: u64,
) -> (StatusView, bool) {
    if !status.tokens.contains(token) {
        (status, false)
    } else {
        match progress {
            WorkDoneProgress::Begin { title, cancellable, message, percentage: given } => (
                StatusView {
                    work: status.work.insert(
                        token,
                        LanguageServerProgress {
                            is_cancellable: cancellable == Some(true),
                            title: Some(title),
                            message,
                            percentage: percentage(given),
                            last_update_at: now,
                        },
                    ),
                    ..status
                },
                true,
            ),
            WorkDoneProgress::Report { cancellable, message, percentage: given } => {
                if status.work.contains_key(token) {
                    (
                        StatusView {
                            work: status.work.insert(
                                token,
                                updated(
                                    status.work[token],
                                    cancellable == Some(true),
                                    message,
                                    percentage(given),
                                    now,
                                ),
                            ),
                            ..status
                        },
                        now - status.work[token].last_update_at
                            >= SERVER_PROGRESS_THROTTLE_TIMEOUT,
                    )
                } else {
                    (
                        StatusView {
                            work: status.work.insert(
                                token,
                                LanguageServerProgress {
                                    is_cancellable: cancellable == Some(true),
                                    title: None,
                                    message,
                                    percentage: percentage(given),
                                    last_update_at: now,
                                },
                            ),
                            ..status
                        },
                        true,
                    )
                }
            },
            WorkDoneProgress::End => (
                StatusView {
                    tokens: status.tokens.remove(token),
                    work: status.work.remove(token),
                    ..status
                },
                true,
            ),
        }
    }
}

fn or_false(option: Option<bool>) -> (set: bool)
    ensures
        set == (option == Some(true)),
{
    match option {
        Some(set) => set,
        None => false,
    }
}

fn to_usize(given: Option<u32>) -> (converted: Option<usize>)
    ensures
        converted == percentage(given),
{
    match given {
        Some(given) => Some(given as usize),
        None => None,
    }
}

pub open spec fn token_view(token: Option<ProgressToken>) -> Option<TokenView> {
    match token {
        Some(token) => Some(token@),
        None => None,
    }
}

/// The work under a token can be cancelled, and is asked to be where only some work is.
pub open spec fn is_to_cancel(status: StatusView, only: Option<TokenView>, token: TokenView) -> bool {
    status.work.contains_key(token) && status.work[token].is_cancellable && (only is Some ==> only
        == Some(token))
}

pub open spec fn token_views(tokens: Seq<ProgressToken>) -> Seq<TokenView> {
    tokens.map_values(|token: ProgressToken| token@)
}

/// The tokens are those of the work to cancel, each once.
pub open spec fn are_to_cancel(
    tokens: Seq<TokenView>,
    status: StatusView,
    only: Option<TokenView>,
) -> bool {
    &&& tokens.no_duplicates()
    &&& forall|token: TokenView| #[trigger]
        tokens.contains(token) <==> is_to_cancel(status, only, token)
}

/// Whether a token is in a list.
fn lists_token(tokens: &Vec<ProgressToken>, token: &ProgressToken) -> (found: bool)
    ensures
        found == token_views(tokens@).contains(token@),
{
    let mut i: usize = 0;
    while i < tokens.len()
        invariant
            i <= tokens@.len(),
            forall|j: int| 0 <= j < i ==> (#[trigger] tokens@[j])@ != token@,
        decreases tokens@.len() - i,
    {
        if tokens[i].same(token) {
            assert(token_views(tokens@)[i as int] == token@);
            return true;
        }
        i += 1;
    }
    proof {
        if token_views(tokens@).contains(token@) {
            let at = token_views(tokens@).index_of(token@);
            assert(tokens@[at]@ == token@);
        }
    }
    false
}

impl LanguageServerStatus {
    pub fn new(about: ServerAbout) -> (status: Self)
        ensures
            status@ == (StatusView { about, tokens: Set::empty(), work: Map::empty() }),
    {
        let status = LanguageServerStatus {
            about,
            progress_tokens: ListMap::new(),
            pending_work: ListMap::new(),
        };
        assert(status@.tokens =~= Set::<TokenView>::empty());
        status
    }

    /// The server announces a token, under which it will report.
    pub fn create_progress(&mut self, token: ProgressToken)
        ensures
            final(self)@ == (StatusView {
                tokens: old(self)@.tokens.insert(token@),
                ..old(self)@
            }),
    {
        let ghost before = self@;
        self.progress_tokens.insert(token, ());
        assert(self@.tokens =~= before.tokens.insert(token@));
    }

    /// Takes a report on work. Says whether the change is announced.
    pub fn handle_work_done_progress(
        &mut self,
        progress: WorkDoneProgress,
        token: ProgressToken,
        now: u64,
    ) -> (announce: bool)
        ensures
            (final(self)@, announce) == after_report(old(self)@, token@, progress, now),
    {
        let ghost before = self@;
        if !self.progress_tokens.contains_key(&token) {
            return false;
        }
        match progress {
            WorkDoneProgress::Begin { title, cancellable, message, percentage } => {
                self.pending_work.insert(
                    token,
                    LanguageServerProgress {
                        is_cancellable: or_false(cancellable),
                        title: Some(title),
                        message,
                        percentage: to_usize(percentage),
                        last_update_at: now,
                    },
                );
                true
            },
            WorkDoneProgress::Report { cancellable, message, percentage } => {
                let is_cancellable: bool = or_false(cancellable);
                let percentage: Option<usize> = to_usize(percentage);
                match self.pending_work.remove(&token) {
                    None => {
                        self.pending_work.insert(
                            token,
                            LanguageServerProgress {
                                is_cancellable,
                                title: None,
                                message,
                                percentage,
                                last_update_at: now,
                            },
                        );
                        assert(self@.work =~= after_report(before, token@, progress, now).0.work);
                        true
                    },
                    Some(known) => {
                        let mut entry: LanguageServerProgress = known;
                        let due: bool = now >= entry.last_update_at && now - entry.last_update_at
                            >= SERVER_PROGRESS_THROTTLE_TIMEOUT;
                        if due {
                            entry.last_update_at = now;
                            if message.is_some() {
                                entry.message = message;
                            }
                            if percentage.is_some() {
                                entry.percentage = percentage;
                            }
                            entry.is_cancellable = is_cancellable;
                        }
                        self.pending_work.insert(token, entry);
                        assert(self@.work =~= after_report(before, token@, progress, now).0.work);
                        due
                    },
                }
            },
            WorkDoneProgress::End => {
                let had = self.progress_tokens.remove(&token);
                let dropped = self.pending_work.remove(&token);
                assert(self@.tokens =~= before.tokens.remove(token@));
                true
            },
        }
    }

    /// The work to cancel: all that can be cancelled, or only what is asked for.
    pub fn work_to_cancel(&self, token_to_cancel: &Option<ProgressToken>) -> (tokens: Vec<
        ProgressToken,
    >)
        ensures
            are_to_cancel(token_views(tokens@), self@, token_view(*token_to_cancel)),
    {
        let ghost only = token_view(*token_to_cancel);
        let ghost status = self@;
        let mut tokens: Vec<ProgressToken> = Vec::new();
        let work: &Vec<(ProgressToken, LanguageServerProgress)> = &self.pending_work.entries;
        let mut i: usize = 0;
        while i < work.len()
            invariant
                i <= work@.len(),
                only == token_view(*token_to_cancel),
                status == self@,
                work@ == self.pending_work.entries@,
                token_views(tokens@).no_duplicates(),
                forall|k: int|
                    0 <= k < tokens@.len() ==> is_to_cancel(status, only, (#[trigger] tokens@[k])@),
                forall|k: int|
                    0 <= k < i && is_to_cancel(status, only, (#[trigger] work@[k]).0@)
                        ==> token_views(tokens@).contains(work@[k].0@),
            decreases work@.len() - i,
        {
            let token: &ProgressToken = &work[i].0;
            let mut wanted: bool = match token_to_cancel {
                Some(only) => token.same(only),
                None => true,
            };
            match self.pending_work.get(token) {
                Some(progress) => {
                    wanted = wanted && progress.is_cancellable;
                },
                None => {
                    wanted = false;
                },
            }
            assert(wanted == is_to_cancel(status, only, token@));
            if wanted && !lists_token(&tokens, token) {
                let ghost before = token_views(tokens@);
                tokens.push(token.copy());
                proof {
                    let after = token_views(tokens@);
                    assert(after =~= before.push(token@));
                    assert forall|k: int|
                        0 <= k < i + 1 && is_to_cancel(
                            status,
                            only,
                            (#[trigger] work@[k]).0@,
                        ) implies after.contains(work@[k].0@) by {
                        crate::ids::contains_push(before, token@, work@[k].0@);
                    }
                }
            }
            i += 1;
        }
        proof {
            let views = token_views(tokens@);
            assert forall|token: TokenView| #[trigger]
                views.contains(token) <==> is_to_cancel(status, only, token) by {
                if is_to_cancel(status, only, token) {
                    let at = crate::list_map::lookup_finds_entry(work@, token);
                    assert(work@[at].0@ == token);
                }
                if views.contains(token) {
                    let at = views.index_of(token);
                    assert(tokens@[at]@ == token);
                }
            }
        }
        tokens
    }
}

/// The work of all servers.
#[derive(Debug)]
pub struct LanguageServerStatuses {
    pub statuses: BTreeMap<u64, LanguageServerStatus>,
}

pub open spec fn status_views(statuses: Map<u64, LanguageServerStatus>) -> Map<u64, StatusView> {
    Map::new(|id: u64| statuses.contains_key(id), |id: u64| statuses[id]@)
}

/// The work of all servers after one announced a token. A server that is not known has none.
pub open spec fn with_token(
    statuses: Map<u64, StatusView>,
    server: u64,
    token: TokenView,
) -> Map<u64, StatusView> {
    if statuses.contains_key(server) {
        statuses.insert(
            server,
            StatusView {
                tokens: statuses[server].tokens.insert(token),
                ..statuses[server]
            },
        )
    } else {
        statuses
    }
}

/// The work of all servers after one reported on its work, and whether that is announced.
pub open spec fn with_report(
    statuses: Map<u64, StatusView>,
    server: u64,
    token: TokenView,
    progress: WorkDoneProgress,
    now: u64,
) -> (Map<u64, StatusView>, bool) {
    if statuses.contains_key(server) {
        let (status, announced) = after_report(statuses[server], token, progress, now);
        (statuses.insert(server, status), announced)
    } else {
        (statuses, false)
    }
}

impl LanguageServerStatuses {
    pub open spec fn views(&self) -> Map<u64, StatusView> {
        status_views(self.statuses@)
    }

    pub fn new() -> (statuses: Self)
        ensures
            statuses.views() == Map::<u64, StatusView>::empty(),
    {
        let statuses = LanguageServerStatuses { statuses: BTreeMap::new() };
        assert(statuses.views() =~= Map::<u64, StatusView>::empty());
        statuses
    }

    /// A server has started: it has no work yet.
    pub fn add_server(&mut self, server: u64, about: ServerAbout)
        ensures
            final(self).views() == old(self).views().insert(
                server,
                StatusView { about, tokens: Set::empty(), work: Map::empty() },
            ),
    {
        let ghost before = self.views();
        map_put(&mut self.statuses, server, LanguageServerStatus::new(about));
        assert(self.views() =~= before.insert(
            server,
            StatusView { about, tokens: Set::empty(), work: Map::empty() },
        ));
    }

    /// A server was stopped. Says whether its status was known.
    pub fn remove_server(&mut self, server: u64) -> (known: bool)
        ensures
            final(self).views() == old(self).views().remove(server),
            known == old(self).views().contains_key(server),
    {
        let ghost before = self.views();
        let known: bool = map_take(&mut self.statuses, server).is_some();
        assert(self.views() =~= before.remove(server));
        known
    }

    /// A server announces a token. One that is not known is answered, but not entered.
    pub fn create_progress(&mut self, server: u64, token: ProgressToken)
        ensures
            final(self).views() == with_token(old(self).views(), server, token@),
    {
        let ghost before = self.views();
        if let Some(status) = map_take(&mut self.statuses, server) {
            let mut status: LanguageServerStatus = status;
            status.create_progress(token);
            map_put(&mut self.statuses, server, status);
            assert(self.views() =~= before.insert(
                server,
                StatusView { tokens: before[server].tokens.insert(token@), ..before[server] },
            ));
        } else {
            assert(self.views() =~= before);
        }
    }

    /// Takes a report of a server on its work. Says whether the change is announced.
    pub fn on_lsp_progress(
        &mut self,
        server: u64,
        progress: WorkDoneProgress,
        token: ProgressToken,
        now: u64,
    ) -> (announce: bool)
        ensures
            (final(self).views(), announce) == with_report(
                old(self).views(),
                server,
                token@,
                progress,
                now,
            ),
    {
        let ghost before = self.views();
        if let Some(status) = map_take(&mut self.statuses, server) {
            let mut status: LanguageServerStatus = status;
            let announce: bool = status.handle_work_done_progress(progress, token, now);
            map_put(&mut self.statuses, server, status);
            assert(self.views() =~= before.insert(
                server,
                after_report(before[server], token@, progress, now).0,
            ));
            announce
        } else {
            assert(self.views() =~= before);
            false
        }
    }

    /// A piece of work started, under whatever token.
    pub fn on_lsp_work_start(
        &mut self,
        server: u64,
        token: ProgressToken,
        progress: LanguageServerProgress,
    )
        ensures
            final(self).views() == with_work(old(self).views(), server, token@, progress),
    {
        let ghost before = self.views();
        if let Some(status) = map_take(&mut self.statuses, server) {
            let mut status: LanguageServerStatus = status;
            status.pending_work.insert(token, progress);
            map_put(&mut self.statuses, server, status);
        }
        assert(self.views() =~= with_work(before, server, token@, progress));
    }

    /// A piece of work ended.
    pub fn on_lsp_work_end(&mut self, server: u64, token: &ProgressToken)
        ensures
            final(self).views() == without_work(old(self).views(), server, token@),
    {
        let ghost before = self.views();
        if let Some(status) = map_take(&mut self.statuses, server) {
            let mut status: LanguageServerStatus = status;
            let _ = status.pending_work.remove(token);
            map_put(&mut self.statuses, server, status);
        }
        assert(self.views() =~= without_work(before, server, token@));
    }

    /// The work of a server to cancel. Only a server that runs, and whose work is known, is
    /// told to cancel any.
    pub fn cancel_language_server_work(
        &self,
        server: u64,
        is_running: bool,
        token_to_cancel: &Option<ProgressToken>,
    ) -> (tokens: Vec<ProgressToken>)
        ensures
            is_cancelled_in(
                tokens@,
                self.views(),
                server,
                is_running,
                token_view(*token_to_cancel),
            ),
    {
        if is_running {
            if let Some(status) = map_get(&self.statuses, server) {
                return status.work_to_cancel(token_to_cancel);
            }
        }
        Vec::new()
    }

    /// The work to cancel in the servers of some buffers: all that can be cancelled. Each
    /// server is asked once, however many of the buffers it serves.
    pub fn cancel_language_server_work_for_buffers(
        &self,
        servers_of_buffers: &Vec<Vec<u64>>,
        running: &BTreeSet<u64>,
    ) -> (work: Vec<(u64, Vec<ProgressToken>)>)
        ensures
            servers_in(work@).no_duplicates(),
            are_those_serving(servers_in(work@), servers_of_buffers@),
            forall|i: int|
                0 <= i < work@.len() ==> is_cancelled_in(
                    (#[trigger] work@[i]).1@,
                    self.views(),
                    work@[i].0,
                    running@.contains(work@[i].0),
                    None,
                ),
    {
        let mut servers: BTreeSet<u64> = BTreeSet::new();
        let mut i: usize = 0;
        while i < servers_of_buffers.len()
            invariant
                i <= servers_of_buffers@.len(),
                forall|server: u64| #[trigger]
                    servers@.contains(server) <==> serves_some(
                        servers_of_buffers@.take(i as int),
                        server,
                    ),
            decreases servers_of_buffers@.len() - i,
        {
            let own: &Vec<u64> = &servers_of_buffers[i];
            let ghost before = servers@;
            let mut k: usize = 0;
            while k < own.len()
                invariant
                    k <= own@.len(),
                    forall|server: u64| #[trigger]
                        servers@.contains(server) <==> before.contains(server) || own@.take(
                            k as int,
                        ).contains(server),
                decreases own@.len() - k,
            {
                let ghost seen = own@.take(k as int);
                let ghost known = servers@;
                let _ = set_put(&mut servers, own[k]);
                proof {
                    assert(own@.take(k + 1) =~= seen.push(own@[k as int]));
                    assert forall|server: u64| #[trigger]
                        servers@.contains(server) <==> before.contains(server) || own@.take(
                            k + 1,
                        ).contains(server) by {
                        assert(known.contains(server) <==> before.contains(server)
                            || seen.contains(server));
                        crate::ids::contains_push(seen, own@[k as int], server);
                    }
                }
                k += 1;
            }
            proof {
                assert(own@.take(k as int) =~= own@);
                let earlier = servers_of_buffers@.take(i as int);
                let all = servers_of_buffers@.take(i + 1);
                assert forall|server: u64| #[trigger]
                    servers@.contains(server) <==> serves_some(all, server) by {
                    assert(before.contains(server) <==> serves_some(earlier, server));
                    if serves_some(earlier, server) {
                        let at = choose|at: int|
                            0 <= at < earlier.len() && (#[trigger] earlier[at])@.contains(server);
                        assert(all[at]@.contains(server));
                    }
                    if serves_some(all, server) {
                        let at = choose|at: int|
                            0 <= at < all.len() && (#[trigger] all[at])@.contains(server);
                        if at < i {
                            assert(earlier[at]@.contains(server));
                        }
                    }
                    assert(all[i as int] == *own);
                }
            }
            i += 1;
        }
        assert(servers_of_buffers@.take(i as int) =~= servers_of_buffers@);
        let ids: Vec<u64> = set_items(&servers);
        let mut work: Vec<(u64, Vec<ProgressToken>)> = Vec::new();
        let mut n: usize = 0;
        while n < ids.len()
            invariant
                n <= ids@.len(),
                servers_in(work@) == ids@.take(n as int),
                forall|i: int|
                    0 <= i < work@.len() ==> is_cancelled_in(
                        (#[trigger] work@[i]).1@,
                        self.views(),
                        work@[i].0,
                        running@.contains(work@[i].0),
                        None,
                    ),
            decreases ids@.len() - n,
        {
            let server: u64 = ids[n];
            let ghost before = servers_in(work@);
            let tokens: Vec<ProgressToken> = self.cancel_language_server_work(
                server,
                set_has(running, server),
                &None,
            );
            work.push((server, tokens));
            assert(servers_in(work@) =~= before.push(server));
            assert(ids@.take(n + 1) =~= ids@.take(n as int).push(server));
            n += 1;
        }
        assert(ids@.take(n as int) =~= ids@);
        proof {
            assert forall|server: u64|
                servers_in(work@).contains(server) <==> #[trigger] serves_some(
                    servers_of_buffers@,
                    server,
                ) by {
                assert(ids@.contains(server) <==> servers@.contains(server));
            }
        }
        work
    }
}

/// The statuses with a piece of work in progress; that of an unknown server is not kept.
pub open spec fn with_work(
    statuses: Map<u64, StatusView>,
    server: u64,
    token: TokenView,
    progress: LanguageServerProgress,
) -> Map<u64, StatusView> {
    if statuses.contains_key(server) {
        statuses.insert(
            server,
            StatusView { work: statuses[server].work.insert(token, progress), ..statuses[server] },
        )
    } else {
        statuses
    }
}

pub open spec fn without_work(
    statuses: Map<u64, StatusView>,
    server: u64,
    token: TokenView,
) -> Map<u64, StatusView> {
    if statuses.contains_key(server) {
        statuses.insert(
            server,
            StatusView { work: statuses[server].work.remove(token), ..statuses[server] },
        )
    } else {
        statuses
    }
}

/// Work that ended leaves nothing behind.
pub proof fn ended_work_leaves_nothing(
    statuses: Map<u64, StatusView>,
    server: u64,
    token: TokenView,
    progress: LanguageServerProgress,
)
    requires
        statuses.contains_key(server) ==> !statuses[server].work.contains_key(token),
    ensures
        without_work(with_work(statuses, server, token, progress), server, token) == statuses,
{
    if statuses.contains_key(server) {
        assert(statuses[server].work.insert(token, progress).remove(token)
            =~= statuses[server].work);
    }
    assert(without_work(with_work(statuses, server, token, progress), server, token) =~= statuses);
}

/// The tokens are those of the work to cancel in a server.
pub open spec fn is_cancelled_in(
    tokens: Seq<ProgressToken>,
    statuses: Map<u64, StatusView>,
    server: u64,
    is_running: bool,
    only: Option<TokenView>,
) -> bool {
    if is_running && statuses.contains_key(server) {
        are_to_cancel(token_views(tokens), statuses[server], only)
    } else {
        tokens.len() == 0
    }
}

/// The servers, each with the work to cancel in it.
pub open spec fn servers_in(work: Seq<(u64, Vec<ProgressToken>)>) -> Seq<u64> {
    work.map_values(|of: (u64, Vec<ProgressToken>)| of.0)
}

/// The server serves one of the buffers.
pub open spec fn serves_some(servers_of_buffers: Seq<Vec<u64>>, server: u64) -> bool {
    exists|i: int|
        0 <= i < servers_of_buffers.len() && (#[trigger] servers_of_buffers[i])@.contains(server)
}

/// These are the servers that serve one of the buffers.
pub open spec fn are_those_serving(servers: Seq<u64>, servers_of_buffers: Seq<Vec<u64>>) -> bool {
    forall|server: u64|
        servers.contains(server) <==> #[trigger] serves_some(servers_of_buffers, server)
}

/// Work is in progress only under tokens that were announced.
pub open spec fn is_announced(status: StatusView) -> bool {
    forall|token: TokenView| #[trigger]
        status.work.contains_key(token) ==> status.tokens.contains(token)
}

/// Reports keep it so that work is in progress only under announced tokens, and the end
/// of a piece of work leaves nothing of it.
pub proof fn reports_stay_announced(
    status: StatusView,
    token: TokenView,
    progress: WorkDoneProgress,
    now: u64,
)
    requires
        is_announced(status),
    ensures
        is_announced(after_report(status, token, progress, now).0),
        progress is End ==> !after_report(status, token, progress, now).0.work.contains_key(
            token,
        ),
{
}

/// A token is shown as its text, or as its number in decimal, with a minus before a negative one.
pub proof fn tokens_are_shown(
    number: i32,
    text: String,
    of_number: std::string::String,
    of_text: std::string::String,
    n: nat,
    d: nat,
)
    requires
        call_ensures(ProgressToken::text, (&ProgressToken::Number(number),), of_number),
        call_ensures(ProgressToken::text, (&ProgressToken::String(text),), of_text),
        d < 10,
        n > 0,
    ensures
        of_text@ == text@,
        number >= 0 ==> of_number@ == digits(number as nat),
        number < 0 ==> of_number@.len() > 0 && of_number@[0] == '-' && of_number@.skip(1) == digits(
            (-number) as nat,
        ),
        digits(d).len() == 1,
        digits(d)[0] as u32 == 48 + d,
        digits(10 * n + d) == digits(n) + digits(d),
{
    assert(ProgressToken::Number(number)@ == TokenView::Number(number));
    assert(ProgressToken::String(text)@ == TokenView::String(text@));
    if number < 0 {
        let shown = digits((-number) as nat);
        assert((seq!['-'] + shown).skip(1) =~= shown);
    }
    assert((10 * n + d) / 10 == n && (10 * n + d) % 10 == d) by (nonlinear_arith)
        requires
            d < 10,
    ;
    assert(digits(n).push((48 + d) as char) =~= digits(n) + seq![(48 + d) as char]);
}

/// Work is shown under a token that the server announced, from its beginning: with the title, the
/// message and the percentage that it states, and as one that can be cancelled just if it says so.
pub proof fn announced_work_is_shown(
    status: &mut LanguageServerStatus,
    title: String,
    cancellable: Option<bool>,
    message: Option<String>,
    given: Option<u32>,
    token: ProgressToken,
    now: u64,
    announce: bool,
    other: TokenView,
)
    requires
        call_ensures(
            LanguageServerStatus::handle_work_done_progress,
            (
                status,
                WorkDoneProgress::Begin { title, cancellable, message, percentage: given },
                token,
                now,
            ),
            announce,
        ),
        other != token@,
    ensures
        old(status).progress_tokens@.contains_key(token@) ==> {
            &&& announce
            &&& final(status).pending_work@.contains_key(token@)
            &&& ({
                let work = final(status).pending_work@[token@];
                &&& work.title == Some(title)
                &&& work.message == message
                &&& (work.percentage is Some <==> given is Some)
                &&& (given is Some ==> work.percentage->0 == given->0)
                &&& work.is_cancellable == (cancellable == Some(true))
                &&& work.last_update_at == now
            })
        },
        !old(status).progress_tokens@.contains_key(token@) ==> !announce && final(status)@ == old(status)@,
        final(status).pending_work@.contains_key(other) <==> old(status).pending_work@.contains_key(other),
        final(status).about == old(status).about,
{
    assert(old(status)@.tokens.contains(token@) <==> old(status).progress_tokens@.contains_key(
        token@,
    ));
    assert(final(status)@.work == final(status).pending_work@);
    assert(old(status)@.work == old(status).pending_work@);
}

/// A report on work that is shown replaces what it states and leaves the rest, unless it comes too
/// soon after the last one; then it is dropped. A report on work that has not begun begins it.
pub proof fn reports_replace_what_they_state(
    status: &mut LanguageServerStatus,
    cancellable: Option<bool>,
    message: Option<String>,
    given: Option<u32>,
    token: ProgressToken,
    now: u64,
    announce: bool,
)
    requires
        call_ensures(
            LanguageServerStatus::handle_work_done_progress,
            (
                status,
                WorkDoneProgress::Report { cancellable, message, percentage: given },
                token,
                now,
            ),
            announce,
        ),
        old(status).progress_tokens@.contains_key(token@),
    ensures
        final(status).pending_work@.contains_key(token@),
        old(status).pending_work@.contains_key(token@) && now
            < old(status).pending_work@[token@].last_update_at + 100_000_000 ==> !announce && final(status).pending_work@[token@] == old(status).pending_work@[token@],
        old(status).pending_work@.contains_key(token@) && now
            >= old(status).pending_work@[token@].last_update_at + 100_000_000 ==> ({
            let before = old(status).pending_work@[token@];
            let after = final(status).pending_work@[token@];
            &&& announce
            &&& after.title == before.title
            &&& after.is_cancellable == (cancellable == Some(true))
            &&& after.last_update_at == now
            &&& (message is Some ==> after.message == message)
            &&& (message is None ==> after.message == before.message)
            &&& (given is Some ==> after.percentage is Some && after.percentage->0 == given->0)
            &&& (given is None ==> after.percentage == before.percentage)
        }),
        !old(status).pending_work@.contains_key(token@) ==> ({
            let after = final(status).pending_work@[token@];
            announce && after.title is None && after.message == message && after.last_update_at
                == now
        }),
{
    assert(old(status)@.tokens.contains(token@));
    assert(final(status)@.work == final(status).pending_work@);
    assert(old(status)@.work == old(status).pending_work@);
}

/// The end of work is announced, and leaves neither the work nor its token. A token is known from
/// when it is announced.
pub proof fn ended_work_is_gone(
    status: &mut LanguageServerStatus,
    token: ProgressToken,
    now: u64,
    announce: bool,
    creating: &mut LanguageServerStatus,
    made: LanguageServerStatus,
    about: ServerAbout,
    other: TokenView,
)
    requires
        call_ensures(
            LanguageServerStatus::handle_work_done_progress,
            (status, WorkDoneProgress::End, token, now),
            announce,
        ),
        call_ensures(LanguageServerStatus::create_progress, (creating, token), ()),
        call_ensures(LanguageServerStatus::new, (about,), made),
        other != token@,
    ensures
        announce <==> old(status).progress_tokens@.contains_key(token@),
        announce ==> !final(status).pending_work@.contains_key(token@) && !final(status).progress_tokens@.contains_key(token@),
        final(status).pending_work@.contains_key(other) <==> old(status).pending_work@.contains_key(other),
        final(creating).progress_tokens@.contains_key(token@),
        final(creating).pending_work@ == old(creating).pending_work@,
        made.about == about,
        !made.progress_tokens@.contains_key(other),
        !made.pending_work@.contains_key(other),
{
    assert(old(status)@.tokens.contains(token@) <==> old(status).progress_tokens@.contains_key(
        token@,
    ));
    assert(final(status)@.tokens.contains(token@) <==> final(status).progress_tokens@.contains_key(token@));
    assert(final(status)@.work == final(status).pending_work@);
    assert(old(status)@.work == old(status).pending_work@);
    assert(final(creating)@.tokens.contains(token@));
    assert(final(creating)@.work == final(creating).pending_work@);
    assert(made@.tokens.contains(other) <==> made.progress_tokens@.contains_key(other));
    assert(made@.work == made.pending_work@);
}

/// Work that can be cancelled is cancelled, each piece once: all of it, or just the piece that is
/// named.
pub proof fn cancellable_work_is_cancelled(
    status: LanguageServerStatus,
    only: Option<ProgressToken>,
    tokens: Vec<ProgressToken>,
    token: TokenView,
    i: int,
)
    requires
        call_ensures(LanguageServerStatus::work_to_cancel, (&status, &only), tokens),
    ensures
        (exists|k: int| 0 <= k < tokens@.len() && (#[trigger] tokens@[k])@ == token)
            <==> status.pending_work@.contains_key(token)
            && status.pending_work@[token].is_cancellable && (only matches Some(named) ==> named@
            == token),
{
    let seen = token_views(tokens@);
    assert(seen.len() == tokens@.len());
    if exists|k: int| 0 <= k < tokens@.len() && (#[trigger] tokens@[k])@ == token {
        let k = choose|k: int| 0 <= k < tokens@.len() && (#[trigger] tokens@[k])@ == token;
        assert(seen[k] == token);
        assert(seen.contains(token));
    }
    if is_to_cancel(status@, token_view(only), token) {
        assert(seen.contains(token));
        let k = choose|k: int| 0 <= k < seen.len() && seen[k] == token;
        assert(tokens@[k]@ == token);
    }
}

/// What one server announces, starts or ends is entered for that server alone, and for none that
/// is not known.
pub proof fn servers_have_their_own_work(
    announcing: &mut LanguageServerStatuses,
    starting: &mut LanguageServerStatuses,
    ending: &mut LanguageServerStatuses,
    removing: &mut LanguageServerStatuses,
    adding: &mut LanguageServerStatuses,
    server: u64,
    other: u64,
    token: ProgressToken,
    progress: LanguageServerProgress,
    about: ServerAbout,
    known: bool,
)
    requires
        call_ensures(LanguageServerStatuses::create_progress, (announcing, server, token), ()),
        call_ensures(
            LanguageServerStatuses::on_lsp_work_start,
            (starting, server, token, progress),
            (),
        ),
        call_ensures(LanguageServerStatuses::on_lsp_work_end, (ending, server, &token), ()),
        call_ensures(LanguageServerStatuses::remove_server, (removing, server), known),
        call_ensures(LanguageServerStatuses::add_server, (adding, server, about), ()),
        other != server,
    ensures
        old(announcing).statuses@.contains_key(server) ==> final(announcing).statuses@.contains_key(server) && final(announcing).statuses@[server].progress_tokens@.contains_key(token@),
        !old(announcing).statuses@.contains_key(server) ==> !final(announcing).statuses@.contains_key(server),
        old(starting).statuses@.contains_key(server) ==> final(starting).statuses@[server].pending_work@.contains_key(token@) && final(starting).statuses@[server].pending_work@[token@] == progress,
        old(ending).statuses@.contains_key(server) ==> !final(ending).statuses@[server].pending_work@.contains_key(token@),
        known == old(removing).statuses@.contains_key(server),
        !final(removing).statuses@.contains_key(server),
        final(adding).statuses@.contains_key(server) && final(adding).statuses@[server].about
            == about,
        final(starting).statuses@.contains_key(other) <==> old(starting).statuses@.contains_key(
            other,
        ),
        final(removing).statuses@.contains_key(other) <==> old(removing).statuses@.contains_key(
            other,
        ),
{
    let announced = final(announcing).views();
    assert(announced.contains_key(server) <==> final(announcing).statuses@.contains_key(server));
    assert(old(announcing).views().contains_key(server) <==> old(announcing).statuses@.contains_key(server));
    if announced.contains_key(server) && old(announcing).views().contains_key(server) {
        assert(announced[server].tokens.contains(token@));
        assert(announced[server] == final(announcing).statuses@[server]@);
    }
    let started = final(starting).views();
    assert(old(starting).views().contains_key(server) <==> old(starting).statuses@.contains_key(
        server,
    ));
    if old(starting).views().contains_key(server) {
        assert(started.contains_key(server));
        assert(started[server] == final(starting).statuses@[server]@);
    }
    let ended = final(ending).views();
    assert(old(ending).views().contains_key(server) <==> old(ending).statuses@.contains_key(server));
    if old(ending).views().contains_key(server) {
        assert(ended.contains_key(server));
        assert(ended[server] == final(ending).statuses@[server]@);
        assert(!ended[server].work.contains_key(token@));
    }
    assert(final(removing).views().contains_key(server) <==> final(removing).statuses@.contains_key(server));
    assert(old(removing).views().contains_key(server) <==> old(removing).statuses@.contains_key(
        server,
    ));
    assert(final(adding).views().contains_key(server));
    assert(final(adding).views()[server] == final(adding).statuses@[server]@);
    assert(started.contains_key(other) <==> final(starting).statuses@.contains_key(other));
    assert(old(starting).views().contains_key(other) <==> old(starting).statuses@.contains_key(
        other,
    ));
    assert(final(removing).views().contains_key(other) <==> final(removing).statuses@.contains_key(other));
    assert(old(removing).views().contains_key(other) <==> old(removing).statuses@.contains_key(
        other,
    ));
}

/// Only a server that runs, and whose work is known, is told to cancel any. Each server of some
/// buffers is asked once.
pub proof fn running_servers_cancel_their_work(
    statuses: LanguageServerStatuses,
    server: u64,
    is_running: bool,
    only: Option<ProgressToken>,
    tokens: Vec<ProgressToken>,
    servers_of_buffers: Vec<Vec<u64>>,
    running: BTreeSet<u64>,
    work: Vec<(u64, Vec<ProgressToken>)>,
    i: int,
    k: int,
    j: int,
)
    requires
        call_ensures(
            LanguageServerStatuses::cancel_language_server_work,
            (&statuses, server, is_running, &only),
            tokens,
        ),
        call_ensures(
            LanguageServerStatuses::cancel_language_server_work_for_buffers,
            (&statuses, &servers_of_buffers, &running),
            work,
        ),
    ensures
        !is_running || !statuses.statuses@.contains_key(server) ==> tokens@.len() == 0,
        0 <= k < tokens@.len() ==> statuses.statuses@[server].pending_work@.contains_key(
            tokens@[k]@,
        ) && statuses.statuses@[server].pending_work@[tokens@[k]@].is_cancellable,
        0 <= i < servers_of_buffers@.len() && servers_of_buffers@[i]@.contains(server)
            ==> exists|at: int| 0 <= at < work@.len() && (#[trigger] work@[at]).0 == server,
        0 <= j < k < work@.len() ==> work@[j].0 != work@[k].0,
        0 <= k < work@.len() && !running@.contains(work@[k].0) ==> work@[k].1@.len() == 0,
{
    let views = statuses.views();
    assert(views.contains_key(server) <==> statuses.statuses@.contains_key(server));
    if 0 <= k < tokens@.len() {
        assert(views[server] == statuses.statuses@[server]@);
        let seen = token_views(tokens@);
        assert(seen[k] == tokens@[k]@);
        assert(seen.contains(tokens@[k]@));
    }
    let servers = servers_in(work@);
    assert(servers.len() == work@.len());
    if 0 <= i < servers_of_buffers@.len() && servers_of_buffers@[i]@.contains(server) {
        assert(are_those_serving(servers, servers_of_buffers@));
        assert(servers_of_buffers@[i]@.contains(server));
        assert(serves_some(servers_of_buffers@, server));
        assert(servers.contains(server));
        let at = choose|at: int| 0 <= at < servers.len() && servers[at] == server;
        assert(servers[at] == work@[at].0);
    }
    if 0 <= j < k < work@.len() {
        assert(servers[j] == work@[j].0 && servers[k] == work@[k].0);
    }
    if 0 <= k < work@.len() {
        assert(is_cancelled_in(
            work@[k].1@,
            views,
            work@[k].0,
            running@.contains(work@[k].0),
            None,
        ));
    }
}

} // verus!
