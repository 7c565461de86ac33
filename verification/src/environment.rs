//! Environment variables: of the command line that opened the project, and of the
//! directories in it.
use vstd::prelude::*;

use crate::list_map::{lookup, Key, ListMap};
use crate::rel_path::RelPath;
use crate::text::same_text;

verus! {

/// Environment variables.
#[derive(Debug)]
pub struct EnvVars {
    pub vars: ListMap<String, String>,
}

pub type EnvView = Map<Seq<char>, Seq<char>>;

impl View for EnvVars {
    type V = EnvView;

    open spec fn view(&self) -> EnvView {
        Map::new(
            |name: Seq<char>| self.vars@.contains_key(name),
            |name: Seq<char>| self.vars@[name]@,
        )
    }
}

/// The entries, with later ones in place of earlier ones of the same name.
pub open spec fn entries_view(entries: Seq<(String, String)>) -> EnvView
    decreases entries.len(),
{
    if entries.len() == 0 {
        Map::empty()
    } else {
        entries_view(entries.drop_last()).insert(entries.last().0@, entries.last().1@)
    }
}

proof fn lemma_entries(entries: Seq<(String, String)>, name: Seq<char>)
    ensures
        entries_view(entries).contains_key(name) <==> lookup(entries, name) is Some,
        lookup(entries, name) matches Some(value) ==> entries_view(entries)[name] == value@,
    decreases entries.len(),
{
    if entries.len() > 0 {
        lemma_entries(entries.drop_last(), name);
    }
}

impl EnvVars {
    /// No variables.
    pub fn new() -> (env: EnvVars)
        ensures
            env@ == Map::<Seq<char>, Seq<char>>::empty(),
    {
        let env = EnvVars { vars: ListMap::new() };
        assert(env@ =~= Map::<Seq<char>, Seq<char>>::empty());
        env
    }

    /// Sets a variable.
    pub fn set(&mut self, name: String, value: String)
        ensures
            final(self)@ == old(self)@.insert(name@, value@),
    {
        let ghost before = self@;
        self.vars.insert(name, value);
        assert(self@ =~= before.insert(name@, value@));
    }

    /// The value of a variable.
    pub fn get(&self, name: &String) -> (value: Option<&String>)
        ensures
            value is Some <==> self@.contains_key(name@),
            value matches Some(value) ==> value@ == self@[name@],
    {
        self.vars.get(name)
    }

    /// Sets all variables of another environment, which take precedence.
    pub fn extend(&mut self, other: &EnvVars)
        ensures
            final(self)@ == old(self)@.union_prefer_right(other@),
    {
        let ghost before = self@;
        let entries: &Vec<(String, String)> = &other.vars.entries;
        let mut i: usize = 0;
        assert(before.union_prefer_right(entries_view(entries@.take(0))) =~= before);
        while i < entries.len()
            invariant
                i <= entries@.len(),
                self@ == before.union_prefer_right(entries_view(entries@.take(i as int))),
            decreases entries@.len() - i,
        {
            assert(entries@.take(i + 1).drop_last() =~= entries@.take(i as int));
            assert(entries@.take(i + 1).last() == entries@[i as int]);
            self.set(entries[i].0.clone(), entries[i].1.clone());
            assert(self@ =~= before.union_prefer_right(entries_view(entries@.take(i + 1))));
            i += 1;
        }
        proof {
            assert(entries@.take(i as int) =~= entries@);
            assert(entries_view(entries@) =~= other@) by {
                assert forall|name: Seq<char>|
                    #![trigger entries_view(entries@).contains_key(name)]
                    (entries_view(entries@).contains_key(name) <==> other@.contains_key(name)) && (
                    other@.contains_key(name) ==> entries_view(entries@)[name] == other@[name]) by {
                    lemma_entries(entries@, name);
                }
            }
        }
    }

    pub fn copy(&self) -> (copy: EnvVars)
        ensures
            copy@ == self@,
    {
        let mut copy = EnvVars::new();
        copy.extend(self);
        assert(copy@ =~= self@);
        copy
    }
}

/// The shell whose environment is asked for.
#[derive(Debug)]
pub enum Shell {
    System,
    Program(String),
}

/// A shell in a directory.
#[derive(Debug)]
pub struct ShellDirectory {
    pub shell: Shell,
    pub path: RelPath,
}

pub ghost struct ShellDirectoryView {
    pub shell: Option<Seq<char>>,
    pub path: Seq<Seq<char>>,
}

pub open spec fn shell_view(shell: Shell) -> Option<Seq<char>> {
    match shell {
        Shell::System => None,
        Shell::Program(program) => Some(program@),
    }
}

impl View for ShellDirectory {
    type V = ShellDirectoryView;

    open spec fn view(&self) -> ShellDirectoryView {
        ShellDirectoryView { shell: shell_view(self.shell), path: self.path@ }
    }
}

impl Key for ShellDirectory {
    type Id = ShellDirectoryView;

    open spec fn id(self) -> ShellDirectoryView {
        self@
    }

    fn same(&self, other: &Self) -> (same: bool) {
        let same_shell: bool = match (&self.shell, &other.shell) {
            (Shell::System, Shell::System) => true,
            (Shell::Program(a), Shell::Program(b)) => same_text(a.as_str(), b.as_str()),
            _ => false,
        };
        same_shell && self.path.same_as(&other.path)
    }
}

#[derive(Clone, Copy, Debug, PartialEq, Eq, Structural)]
pub enum ProjectEnvironmentEvent {
    ErrorsUpdated,
}

/// Where an environment comes from.
#[derive(Debug)]
pub enum EnvironmentAnswer {
    /// It is known, or known to be missing.
    Ready(Option<EnvVars>),
    /// A shell in the directory knows it. Only for the first to ask a shell is spawned; the
    /// others share what it reports.
    Local { directory: ShellDirectory, spawn: bool },
    /// The remote server knows it. Only the first to ask sends a request; the others
    /// share its answer.
    Remote { directory: ShellDirectory, send_request: bool },
}

/// What is known of the environment of a directory that was asked for.
#[derive(Debug)]
pub enum Cached {
    /// A report is awaited.
    Waiting,
    /// What was reported, which may be that there is none.
    Known(Option<EnvVars>),
}

pub ghost enum CachedView {
    Waiting,
    Known(Option<EnvView>),
}

impl View for Cached {
    type V = CachedView;

    open spec fn view(&self) -> CachedView {
        match *self {
            Cached::Waiting => CachedView::Waiting,
            Cached::Known(env) => CachedView::Known(env_view(env)),
        }
    }
}

pub type CacheView = Map<ShellDirectoryView, CachedView>;

pub open spec fn cache_view(cache: Map<ShellDirectoryView, Cached>) -> CacheView {
    Map::new(
        |dir: ShellDirectoryView| cache.contains_key(dir),
        |dir: ShellDirectoryView| cache[dir]@,
    )
}

/// What there is of a remote server.
#[derive(Debug)]
pub enum RemoteClient {
    Missing,
    /// It is connected, and its shell is known or not.
    Connected { shell: Option<String> },
}

pub struct ProjectEnvironment {
    pub cli_environment: Option<EnvVars>,
    pub local_environments: ListMap<ShellDirectory, Cached>,
    pub remote_environments: ListMap<ShellDirectory, Cached>,
    pub environment_error_messages: Vec<String>,
}

/// The environment of the command line, marked as such.
pub open spec fn cli_view(cli: Option<EnvVars>) -> Option<EnvView> {
    match cli {
        Some(env) => Some(env@.insert("ZED_ENVIRONMENT"@, "cli"@)),
        None => None,
    }
}

pub open spec fn env_view(env: Option<EnvVars>) -> Option<EnvView> {
    match env {
        Some(env) => Some(env@),
        None => None,
    }
}

/// What is cached once a directory was asked for.
pub open spec fn asked(cache: CacheView, directory: ShellDirectoryView) -> CacheView {
    if cache.contains_key(directory) {
        cache
    } else {
        cache.insert(directory, CachedView::Waiting)
    }
}

/// A report that came is handed out; else a shell is asked, if nobody asked before.
pub open spec fn asks_shell(
    answer: EnvironmentAnswer,
    cache: CacheView,
    directory: ShellDirectoryView,
) -> bool {
    if cache.contains_key(directory) && cache[directory] is Known {
        is_ready(answer, cache[directory]->0)
    } else {
        answer matches EnvironmentAnswer::Local { directory: of, spawn } && of@ == directory
            && spawn == !cache.contains_key(directory)
    }
}

/// A report that came is handed out; else the remote server is asked, if nobody asked before.
pub open spec fn asks_remote(
    answer: EnvironmentAnswer,
    cache: CacheView,
    directory: ShellDirectoryView,
) -> bool {
    if cache.contains_key(directory) && cache[directory] is Known {
        is_ready(answer, cache[directory]->0)
    } else {
        answer matches EnvironmentAnswer::Remote { directory: of, send_request } && of@
            == directory && send_request == !cache.contains_key(directory)
    }
}

/// The answer is known.
pub open spec fn is_ready(answer: EnvironmentAnswer, env: Option<EnvView>) -> bool {
    answer matches EnvironmentAnswer::Ready(ready) && env_view(ready) == env
}

/// A local directory is asked for: the environment of the command line takes precedence.
pub open spec fn is_local_step(
    before: ProjectEnvironment,
    after: ProjectEnvironment,
    directory: ShellDirectoryView,
    answer: EnvironmentAnswer,
) -> bool {
    &&& after.same_but_caches(before)
    &&& after.remotes() == before.remotes()
    &&& if before.cli_environment is Some {
        is_ready(answer, cli_view(before.cli_environment)) && after.locals() == before.locals()
    } else {
        asks_shell(answer, before.locals(), directory) && after.locals() == asked(
            before.locals(),
            directory,
        )
    }
}

/// A remote directory is asked for.
pub open spec fn is_remote_step(
    before: ProjectEnvironment,
    after: ProjectEnvironment,
    directory: ShellDirectoryView,
    answer: EnvironmentAnswer,
) -> bool {
    &&& after.same_but_caches(before)
    &&& after.locals() == before.locals()
    &&& asks_remote(answer, before.remotes(), directory)
    &&& after.remotes() == asked(before.remotes(), directory)
}

/// Nothing is asked, and there is no environment.
pub open spec fn is_no_step(
    before: ProjectEnvironment,
    after: ProjectEnvironment,
    answer: EnvironmentAnswer,
) -> bool {
    is_ready(answer, None) && after == before
}

/// A directory is asked for where it lies: on the remote server if one is connected.
pub open spec fn is_directory_step(
    before: ProjectEnvironment,
    after: ProjectEnvironment,
    path: Seq<Seq<char>>,
    remote: RemoteClient,
    local_allowed: bool,
    answer: EnvironmentAnswer,
) -> bool {
    match remote {
        RemoteClient::Connected { shell: Some(shell) } => is_remote_step(
            before,
            after,
            ShellDirectoryView { shell: Some(shell@), path },
            answer,
        ),
        RemoteClient::Connected { shell: None } => is_no_step(before, after, answer),
        RemoteClient::Missing => if local_allowed {
            is_local_step(before, after, ShellDirectoryView { shell: None, path }, answer)
        } else {
            is_no_step(before, after, answer)
        },
    }
}

/// A worktree is asked for: the environment of the command line takes precedence, and a
/// worktree of a single file stands for the directory around it.
pub open spec fn is_worktree_step(
    before: ProjectEnvironment,
    after: ProjectEnvironment,
    abs_path: Seq<Seq<char>>,
    is_single_file: bool,
    remote: RemoteClient,
    answer: EnvironmentAnswer,
) -> bool {
    if before.cli_environment is Some {
        is_ready(answer, cli_view(before.cli_environment)) && after == before
    } else if is_single_file && abs_path.len() == 0 {
        is_no_step(before, after, answer)
    } else {
        is_directory_step(
            before,
            after,
            if is_single_file {
                abs_path.drop_last()
            } else {
                abs_path
            },
            remote,
            true,
            answer,
        )
    }
}

/// The environment under a directory, if it was reported.
fn reported(cache: &ListMap<ShellDirectory, Cached>, directory: &ShellDirectory) -> (env: Option<
    Option<EnvVars>,
>)
    ensures
        env is Some <==> cache@.contains_key(directory@) && cache@[directory@]@ is Known,
        env matches Some(env) ==> cache@[directory@]@ == CachedView::Known(env_view(env)),
{
    match cache.get(directory) {
        Some(Cached::Known(Some(env))) => Some(Some(env.copy())),
        Some(Cached::Known(None)) => Some(None),
        _ => None,
    }
}

/// Notes that a directory is asked for. Says whether nobody asked before.
fn ask(cache: &mut ListMap<ShellDirectory, Cached>, directory: ShellDirectory) -> (first: bool)
    ensures
        first == !old(cache)@.contains_key(directory@),
        cache_view(final(cache)@) == asked(cache_view(old(cache)@), directory@),
{
    let ghost before = cache_view(cache@);
    if cache.contains_key(&directory) {
        false
    } else {
        cache.insert(directory, Cached::Waiting);
        assert(cache_view(cache@) =~= before.insert(directory@, CachedView::Waiting));
        true
    }
}

/// Takes over a report about a directory.
fn report(
    cache: &mut ListMap<ShellDirectory, Cached>,
    directory: ShellDirectory,
    env: Option<EnvVars>,
)
    ensures
        cache_view(final(cache)@) == cache_view(old(cache)@).insert(
            directory@,
            CachedView::Known(env_view(env)),
        ),
{
    let ghost before = cache_view(cache@);
    cache.insert(directory, Cached::Known(env));
    assert(cache_view(cache@) =~= before.insert(
        directory@,
        CachedView::Known(env_view(env)),
    ));
}

impl ShellDirectory {
    pub fn copy(&self) -> (copy: ShellDirectory)
        ensures
            copy@ == self@,
    {
        ShellDirectory {
            shell: match &self.shell {
                Shell::System => Shell::System,
                Shell::Program(program) => Shell::Program(program.clone()),
            },
            path: self.path.clone(),
        }
    }
}

impl ProjectEnvironment {
    /// The two agree but for what they have cached.
    pub open spec fn same_but_caches(self, other: ProjectEnvironment) -> bool {
        self.cli_environment == other.cli_environment && self.environment_error_messages
            == other.environment_error_messages
    }

    /// The local directories that were asked for.
    pub open spec fn locals(self) -> CacheView {
        cache_view(self.local_environments@)
    }

    /// The remote directories that were asked for.
    pub open spec fn remotes(self) -> CacheView {
        cache_view(self.remote_environments@)
    }

    pub fn new(cli_environment: Option<EnvVars>) -> (environment: ProjectEnvironment)
        ensures
            environment.cli_environment == cli_environment,
            environment.locals() == Map::<ShellDirectoryView, CachedView>::empty(),
            environment.remotes() == Map::<ShellDirectoryView, CachedView>::empty(),
            environment.environment_error_messages@.len() == 0,
    {
        let environment = ProjectEnvironment {
            cli_environment,
            local_environments: ListMap::new(),
            remote_environments: ListMap::new(),
            environment_error_messages: Vec::new(),
        };
        assert(environment.locals() =~= Map::<ShellDirectoryView, CachedView>::empty());
        assert(environment.remotes() =~= Map::<ShellDirectoryView, CachedView>::empty());
        environment
    }

    /// The environment of the command line, if the project was opened from it. A
    /// variable tells where it comes from.
    pub fn get_cli_environment(&self) -> (env: Option<EnvVars>)
        ensures
            env_view(env) == cli_view(self.cli_environment),
    {
        match &self.cli_environment {
            Some(env) => {
                let mut env: EnvVars = env.copy();
                env.set("ZED_ENVIRONMENT".to_owned(), "cli".to_owned());
                Some(env)
            },
            None => None,
        }
    }

    /// The environment of a local directory: that of the command line, if there is one.
    /// Otherwise a shell is spawned in the directory, to get the variables as if the user had
    /// gone there.
    pub fn local_directory_environment(&mut self, directory: ShellDirectory) -> (answer:
        EnvironmentAnswer)
        ensures
            is_local_step(*old(self), *final(self), directory@, answer),
    {
        if let Some(cli) = self.get_cli_environment() {
            return EnvironmentAnswer::Ready(Some(cli));
        }
        match reported(&self.local_environments, &directory) {
            Some(env) => EnvironmentAnswer::Ready(env),
            None => {
                let key: ShellDirectory = directory.copy();
                let spawn: bool = ask(&mut self.local_environments, key);
                EnvironmentAnswer::Local { directory, spawn }
            },
        }
    }

    /// A shell that was spawned in a local directory reported its variables, or failed.
    pub fn local_environment_reported(&mut self, directory: ShellDirectory, env: Option<EnvVars>)
        ensures
            final(self).same_but_caches(*old(self)),
            final(self).remotes() == old(self).remotes(),
            final(self).locals() == old(self).locals().insert(
                directory@,
                CachedView::Known(env_view(env)),
            ),
    {
        report(&mut self.local_environments, directory, env);
    }

    /// The environment of a remote directory, for which the remote server is asked.
    pub fn remote_directory_environment(&mut self, directory: ShellDirectory) -> (answer:
        EnvironmentAnswer)
        ensures
            is_remote_step(*old(self), *final(self), directory@, answer),
    {
        match reported(&self.remote_environments, &directory) {
            Some(env) => EnvironmentAnswer::Ready(env),
            None => {
                let key: ShellDirectory = directory.copy();
                let send_request: bool = ask(&mut self.remote_environments, key);
                EnvironmentAnswer::Remote { directory, send_request }
            },
        }
    }

    /// The remote server reported the variables of a directory, or failed.
    pub fn remote_environment_reported(&mut self, directory: ShellDirectory, env: Option<EnvVars>)
        ensures
            final(self).same_but_caches(*old(self)),
            final(self).locals() == old(self).locals(),
            final(self).remotes() == old(self).remotes().insert(
                directory@,
                CachedView::Known(env_view(env)),
            ),
    {
        report(&mut self.remote_environments, directory, env);
    }

    /// The environment of a directory: that of the remote server where one is connected
    /// whose shell is known, else the local one, for which the worktrees have to be there
    /// unless the project is remote.
    pub fn directory_environment(
        &mut self,
        path: RelPath,
        remote: &RemoteClient,
        is_remote_project: bool,
        has_worktree_store: bool,
    ) -> (answer: EnvironmentAnswer)
        ensures
            is_directory_step(
                *old(self),
                *final(self),
                path@,
                *remote,
                is_remote_project || has_worktree_store,
                answer,
            ),
    {
        match remote {
            RemoteClient::Connected { shell: Some(shell) } => self.remote_directory_environment(
                ShellDirectory { shell: Shell::Program(shell.clone()), path },
            ),
            RemoteClient::Connected { shell: None } => EnvironmentAnswer::Ready(None),
            RemoteClient::Missing => {
                if is_remote_project || has_worktree_store {
                    self.local_directory_environment(
                        ShellDirectory { shell: Shell::System, path },
                    )
                } else {
                    EnvironmentAnswer::Ready(None)
                }
            },
        }
    }

    /// The environment of a worktree: that of the command line, if there is one, else
    /// that of its directory, which for a worktree of a single file is the one around it.
    pub fn worktree_environment(
        &mut self,
        abs_path: RelPath,
        is_single_file: bool,
        remote: &RemoteClient,
    ) -> (answer: EnvironmentAnswer)
        ensures
            is_worktree_step(
                *old(self),
                *final(self),
                abs_path@,
                is_single_file,
                *remote,
                answer,
            ),
    {
        if let Some(cli) = self.get_cli_environment() {
            return EnvironmentAnswer::Ready(Some(cli));
        }
        let path: RelPath = if is_single_file {
            match abs_path.parent() {
                Some(parent) => parent,
                None => return EnvironmentAnswer::Ready(None),
            }
        } else {
            abs_path
        };
        self.directory_environment(path, remote, false, true)
    }

    /// The environment of a buffer: that of the command line, else that of the worktree
    /// of its file. A buffer in no worktree has none.
    pub fn buffer_environment(
        &mut self,
        worktree: Option<(RelPath, bool)>,
        remote: &RemoteClient,
    ) -> (answer: EnvironmentAnswer)
        ensures
            match worktree {
                Some((abs_path, is_single_file)) => is_worktree_step(
                    *old(self),
                    *final(self),
                    abs_path@,
                    is_single_file,
                    *remote,
                    answer,
                ),
                None => is_ready(answer, cli_view(old(self).cli_environment)) && *final(self)
                    == *old(self),
            },
    {
        if let Some(cli) = self.get_cli_environment() {
            return EnvironmentAnswer::Ready(Some(cli));
        }
        match worktree {
            None => EnvironmentAnswer::Ready(None),
            Some((abs_path, is_single_file)) => self.worktree_environment(
                abs_path,
                is_single_file,
                remote,
            ),
        }
    }

    /// The environment of the project: that of its first visible worktree, or of the
    /// home directory where it has none.
    pub fn default_environment(
        &mut self,
        visible_worktree_paths: &Vec<RelPath>,
        home: RelPath,
    ) -> (answer: EnvironmentAnswer)
        ensures
            is_local_step(
                *old(self),
                *final(self),
                ShellDirectoryView {
                    shell: None,
                    path: if visible_worktree_paths@.len() > 0 {
                        visible_worktree_paths@[0]@
                    } else {
                        home@
                    },
                },
                answer,
            ),
    {
        let path: RelPath = if visible_worktree_paths.len() > 0 {
            visible_worktree_paths[0].clone()
        } else {
            home
        };
        self.local_directory_environment(ShellDirectory { shell: Shell::System, path })
    }

    /// The oldest error that was not taken yet.
    pub fn peek_environment_error(&self) -> (error: Option<&String>)
        ensures
            error == (if self.environment_error_messages@.len() > 0 {
                Some(&self.environment_error_messages@[0])
            } else {
                None
            }),
    {
        if self.environment_error_messages.len() > 0 {
            Some(&self.environment_error_messages[0])
        } else {
            None
        }
    }

    /// Takes the oldest error.
    pub fn pop_environment_error(&mut self) -> (error: Option<String>)
        ensures
            error == (if old(self).environment_error_messages@.len() > 0 {
                Some(old(self).environment_error_messages@[0])
            } else {
                None
            }),
            final(self).environment_error_messages@ == (if old(self).environment_error_messages@.len() > 0 {
                old(self).environment_error_messages@.skip(1)
            } else {
                old(self).environment_error_messages@
            }),
            final(self).cli_environment == old(self).cli_environment,
            final(self).local_environments == old(self).local_environments,
            final(self).remote_environments == old(self).remote_environments,
    {
        if self.environment_error_messages.len() > 0 {
            let error: String = self.environment_error_messages.remove(0);
            assert(self.environment_error_messages@ =~= old(self).environment_error_messages@.skip(1));
            Some(error)
        } else {
            None
        }
    }
}

/// What a shell reports is what those get who ask for its directory afterwards, unless the
/// project was opened from the command line.
pub proof fn reported_environment_is_handed_out(
    environment: ProjectEnvironment,
    after: ProjectEnvironment,
    cache: CacheView,
    directory: ShellDirectoryView,
    env: Option<EnvView>,
    answer: EnvironmentAnswer,
)
    requires
        environment.cli_environment is None,
        environment.locals() == cache.insert(directory, CachedView::Known(env)),
        is_local_step(environment, after, directory, answer),
    ensures
        is_ready(answer, env),
        after.locals() == environment.locals(),
{
}

/// The environment of the command line reaches the project as it is, but for the
/// variable that tells where it comes from.
pub proof fn cli_environment_is_kept(cli: EnvVars, name: Seq<char>)
    ensures
        cli_view(Some(cli)) is Some,
        cli_view(Some(cli))->0["ZED_ENVIRONMENT"@] == "cli"@,
        name != "ZED_ENVIRONMENT"@ ==> (cli_view(Some(cli))->0.contains_key(name)
            <==> cli@.contains_key(name)),
        name != "ZED_ENVIRONMENT"@ && cli@.contains_key(name) ==> cli_view(Some(cli))->0[name]
            == cli@[name],
{
}
/// The environment of the command line comes before any other, marked as such; nothing is asked
/// and nothing is kept then.
pub proof fn the_command_line_comes_first(
    project: &mut ProjectEnvironment,
    directory: ShellDirectory,
    answer: EnvironmentAnswer,
    name: Seq<char>,
)
    requires
        call_ensures(
            ProjectEnvironment::local_directory_environment,
            (project, directory),
            answer,
        ),
        old(project).cli_environment is Some,
    ensures
        answer is Ready && answer->Ready_0 is Some,
        answer->Ready_0->0@.contains_key("ZED_ENVIRONMENT"@),
        answer->Ready_0->0@["ZED_ENVIRONMENT"@] == "cli"@,
        name != "ZED_ENVIRONMENT"@ ==> (answer->Ready_0->0@.contains_key(name) <==> old(project).cli_environment->0@.contains_key(name)),
        name != "ZED_ENVIRONMENT"@ && answer->Ready_0->0@.contains_key(name)
            ==> answer->Ready_0->0@[name] == old(project).cli_environment->0@[name],
        final(project).locals() == old(project).locals(),
        final(project).remotes() == old(project).remotes(),
{
}

/// A directory is asked for once: the first to ask spawns a shell, and those who ask before it
/// reported wait for it.
pub proof fn one_shell_is_spawned(
    project: &mut ProjectEnvironment,
    directory: ShellDirectory,
    answer: EnvironmentAnswer,
    again: &mut ProjectEnvironment,
    second: EnvironmentAnswer,
)
    requires
        old(project).cli_environment is None,
        !old(project).locals().contains_key(directory@),
        call_ensures(
            ProjectEnvironment::local_directory_environment,
            (project, directory),
            answer,
        ),
        *old(again) == *final(project),
        call_ensures(
            ProjectEnvironment::local_directory_environment,
            (again, directory),
            second,
        ),
    ensures
        answer is Local && answer->Local_directory@ == directory@ && answer->spawn,
        second is Local && second->Local_directory@ == directory@ && !second->spawn,
        final(project).remotes() == old(project).remotes(),
        final(again).locals() == final(project).locals(),
{
}

/// What a shell reported is what who asks afterwards gets, for that directory and no other.
pub proof fn reports_answer_those_who_ask(
    project: &mut ProjectEnvironment,
    directory: ShellDirectory,
    env: Option<EnvVars>,
    again: &mut ProjectEnvironment,
    asked_for: ShellDirectory,
    answer: EnvironmentAnswer,
)
    requires
        old(project).cli_environment is None,
        call_ensures(
            ProjectEnvironment::local_environment_reported,
            (project, directory, env),
            (),
        ),
        *old(again) == *final(project),
        call_ensures(
            ProjectEnvironment::local_directory_environment,
            (again, asked_for),
            answer,
        ),
    ensures
        asked_for@ == directory@ ==> answer is Ready && (answer->Ready_0 is Some <==> env is Some),
        asked_for@ == directory@ && env is Some ==> answer->Ready_0->0@ == env->0@,
        asked_for@ != directory@ && !old(project).locals().contains_key(asked_for@) ==> answer
            is Local && answer->spawn,
        final(project).remotes() == old(project).remotes(),
{
    assert(env_view(env) is Some <==> env is Some);
}

/// The same holds of remote directories, which are asked for apart from local ones and
/// whatever the command line says.
pub proof fn one_remote_request_is_sent(
    project: &mut ProjectEnvironment,
    directory: ShellDirectory,
    answer: EnvironmentAnswer,
    again: &mut ProjectEnvironment,
    second: EnvironmentAnswer,
)
    requires
        !old(project).remotes().contains_key(directory@),
        call_ensures(
            ProjectEnvironment::remote_directory_environment,
            (project, directory),
            answer,
        ),
        *old(again) == *final(project),
        call_ensures(
            ProjectEnvironment::remote_directory_environment,
            (again, directory),
            second,
        ),
    ensures
        answer is Remote && answer->Remote_directory@ == directory@ && answer->send_request,
        second is Remote && second->Remote_directory@ == directory@ && !second->send_request,
        final(project).locals() == old(project).locals(),
{
}

/// A remote report answers those who ask the remote server, and nobody who asks here.
pub proof fn remote_reports_answer_those_who_ask(
    project: &mut ProjectEnvironment,
    directory: ShellDirectory,
    env: Option<EnvVars>,
    again: &mut ProjectEnvironment,
    answer: EnvironmentAnswer,
)
    requires
        call_ensures(
            ProjectEnvironment::remote_environment_reported,
            (project, directory, env),
            (),
        ),
        *old(again) == *final(project),
        call_ensures(
            ProjectEnvironment::remote_directory_environment,
            (again, directory),
            answer,
        ),
    ensures
        answer is Ready && (answer->Ready_0 is Some <==> env is Some),
        env is Some ==> answer->Ready_0->0@ == env->0@,
        final(project).locals() == old(project).locals(),
{
    assert(env_view(env) is Some <==> env is Some);
}

/// A directory is asked for on the remote server, in its shell, if one is connected; without a
/// known shell there is no environment. Else it is asked for here, in the shell of the system,
/// if it may be.
pub proof fn directories_are_asked_for_where_they_lie(
    project: &mut ProjectEnvironment,
    path: RelPath,
    remote: RemoteClient,
    is_remote_project: bool,
    has_worktree_store: bool,
    answer: EnvironmentAnswer,
)
    requires
        old(project).cli_environment is None,
        old(project).locals() == Map::<ShellDirectoryView, CachedView>::empty(),
        old(project).remotes() == Map::<ShellDirectoryView, CachedView>::empty(),
        call_ensures(
            ProjectEnvironment::directory_environment,
            (project, path, &remote, is_remote_project, has_worktree_store),
            answer,
        ),
    ensures
        remote matches RemoteClient::Connected { shell: Some(shell) } ==> answer is Remote
            && answer->Remote_directory@.path == path@ && answer->Remote_directory@.shell == Some(
            shell@,
        ),
        remote matches RemoteClient::Connected { shell: None } ==> answer is Ready
            && answer->Ready_0 is None,
        remote is Missing && (is_remote_project || has_worktree_store) ==> answer is Local
            && answer->Local_directory@.path == path@ && answer->Local_directory@.shell is None,
        remote is Missing && !is_remote_project && !has_worktree_store ==> answer is Ready
            && answer->Ready_0 is None,
{
}

/// A worktree is asked for in its directory, or in the one around it if it is a single file.
pub proof fn worktrees_are_asked_for_in_their_directory(
    project: &mut ProjectEnvironment,
    abs_path: RelPath,
    is_single_file: bool,
    answer: EnvironmentAnswer,
)
    requires
        old(project).cli_environment is None,
        old(project).locals() == Map::<ShellDirectoryView, CachedView>::empty(),
        call_ensures(
            ProjectEnvironment::worktree_environment,
            (project, abs_path, is_single_file, &RemoteClient::Missing),
            answer,
        ),
    ensures
        !is_single_file ==> answer is Local && answer->Local_directory@.path == abs_path@,
        is_single_file && abs_path@.len() > 0 ==> answer is Local && answer->Local_directory@.path
            == abs_path@.drop_last(),
        is_single_file && abs_path@.len() == 0 ==> answer is Ready && answer->Ready_0 is None,
{
}

/// A buffer in a worktree has the environment of the worktree; one in none has that of the
/// command line at most.
pub proof fn buffers_share_the_environment_of_their_worktree(
    project: &mut ProjectEnvironment,
    abs_path: RelPath,
    remote: RemoteClient,
    answer: EnvironmentAnswer,
    other: &mut ProjectEnvironment,
    alone: EnvironmentAnswer,
)
    requires
        old(project).cli_environment is None,
        old(project).locals() == Map::<ShellDirectoryView, CachedView>::empty(),
        call_ensures(
            ProjectEnvironment::buffer_environment,
            (project, Some((abs_path, false)), &RemoteClient::Missing),
            answer,
        ),
        call_ensures(ProjectEnvironment::buffer_environment, (other, None, &remote), alone),
    ensures
        answer is Local && answer->Local_directory@.path == abs_path@,
        alone is Ready && (alone->Ready_0 is Some <==> old(other).cli_environment is Some),
        *final(other) == *old(other),
{
}

/// The project has the environment of its first visible worktree, else of the home directory.
pub proof fn projects_default_to_their_first_worktree(
    project: &mut ProjectEnvironment,
    visible: Vec<RelPath>,
    home: RelPath,
    answer: EnvironmentAnswer,
)
    requires
        old(project).cli_environment is None,
        old(project).locals() == Map::<ShellDirectoryView, CachedView>::empty(),
        call_ensures(
            ProjectEnvironment::default_environment,
            (project, &visible, home),
            answer,
        ),
    ensures
        answer is Local && answer->spawn && answer->Local_directory@.shell is None,
        visible@.len() > 0 ==> answer->Local_directory@.path == visible@[0]@,
        visible@.len() == 0 ==> answer->Local_directory@.path == home@,
{
}

/// Errors are taken in the order in which they came; looking at one does not take it.
pub proof fn errors_are_taken_in_order(
    project: &mut ProjectEnvironment,
    peeked: Option<&String>,
    error: Option<String>,
    i: int,
)
    requires
        call_ensures(ProjectEnvironment::peek_environment_error, (&*old(project),), peeked),
        call_ensures(ProjectEnvironment::pop_environment_error, (project,), error),
    ensures
        error is Some <==> old(project).environment_error_messages@.len() > 0,
        peeked is Some <==> error is Some,
        error is Some ==> error->0 == old(project).environment_error_messages@[0] && *peeked->0
            == error->0,
        error is Some ==> final(project).environment_error_messages@.len() + 1 == old(project).environment_error_messages@.len(),
        error is Some && 0 <= i < final(project).environment_error_messages@.len() ==> final(project).environment_error_messages@[i] == old(project).environment_error_messages@[i + 1],
        error is None ==> final(project).environment_error_messages@ == old(project).environment_error_messages@,
{
}

/// A variable is what it was set to last, and setting one leaves the others alone. Another
/// environment sets all of its variables.
pub proof fn variables_are_what_they_were_set_to(
    env: &mut EnvVars,
    name: String,
    value: String,
    other: String,
    extended: &mut EnvVars,
    more: EnvVars,
)
    requires
        call_ensures(EnvVars::set, (env, name, value), ()),
        call_ensures(EnvVars::extend, (extended, &more), ()),
    ensures
        final(env)@.contains_key(name@) && final(env)@[name@] == value@,
        other@ != name@ ==> (final(env)@.contains_key(other@) <==> old(env)@.contains_key(other@)),
        other@ != name@ && old(env)@.contains_key(other@) ==> final(env)@[other@] == old(env)@[other@],
        more@.contains_key(name@) ==> final(extended)@.contains_key(name@) && final(extended)@[name@] == more@[name@],
        !more@.contains_key(name@) ==> (final(extended)@.contains_key(name@) <==> old(extended)@.contains_key(name@)),
        !more@.contains_key(name@) && old(extended)@.contains_key(name@) ==> final(extended)@[name@] == old(extended)@[name@],
{
}
/// The environment of the command line is given just if there is one, with the mark of where it
/// comes from.
pub proof fn the_command_line_is_marked(
    project: ProjectEnvironment,
    env: Option<EnvVars>,
    name: Seq<char>,
)
    requires
        call_ensures(ProjectEnvironment::get_cli_environment, (&project,), env),
    ensures
        env is Some <==> project.cli_environment is Some,
        env is Some ==> env->0@.contains_key("ZED_ENVIRONMENT"@) && env->0@["ZED_ENVIRONMENT"@]
            == "cli"@,
        env is Some && name != "ZED_ENVIRONMENT"@ && project.cli_environment->0@.contains_key(name)
            ==> env->0@.contains_key(name) && env->0@[name]
            == project.cli_environment->0@[name],
{
    assert(env_view(env) is Some <==> env is Some);
}

} // verus!
