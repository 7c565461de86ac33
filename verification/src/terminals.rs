//! The terminals of a project: where they start, what they are started from, and which exist.
use vstd::prelude::*;

use crate::environment::{
    is_local_step, is_remote_step, EnvVars, EnvView, EnvironmentAnswer, ProjectEnvironment,
    RemoteClient, Shell, ShellDirectory, ShellDirectoryView,
};
use crate::rel_path::RelPath;

verus! {

/// An entry of a worktree.
#[derive(Debug)]
pub struct WorktreeEntry {
    pub id: u64,
    pub path: RelPath,
    pub is_dir: bool,
}

/// A worktree of the project.
#[derive(Debug)]
pub struct ProjectWorktree {
    pub abs_path: RelPath,
    /// Whether the root is a directory, once it was scanned.
    pub root_is_dir: Option<bool>,
    pub entries: Vec<WorktreeEntry>,
}

/// The terminals that exist, by their identifiers.
#[derive(Debug)]
pub struct Terminals {
    pub local_handles: Vec<u64>,
}

/// The parts of a project that terminals depend on.
pub struct Project {
    pub active_entry: Option<u64>,
    pub worktrees: Vec<ProjectWorktree>,
    pub remote_client: RemoteClient,
    pub is_via_remote_server: bool,
    pub environment: ProjectEnvironment,
    pub terminals: Terminals,
}

/// A shell to open.
#[derive(Debug)]
pub struct ShellRequest {
    pub cwd: Option<RelPath>,
    /// It is opened here even if the project is remote.
    pub force_local: bool,
}

/// What becomes of a request to clone a terminal.
#[derive(Debug)]
pub enum ClonePlan {
    /// The terminal runs a task, which is not started again.
    OpenShell(ShellRequest),
    CloneTerminal { local_path: Option<RelPath> },
}

/// What a command is run with.
#[derive(Debug)]
pub struct ExecRequest {
    pub shell: Shell,
    pub path: Option<RelPath>,
}

/// A process to start.
#[derive(Debug)]
pub struct ProcessRequest {
    pub program: String,
    pub args: Vec<String>,
    pub env: EnvVars,
    pub current_dir: Option<RelPath>,
}

/// A command as a remote connection has to run it.
#[derive(Debug)]
pub struct CommandTemplate {
    pub program: String,
    pub args: Vec<String>,
    pub env: EnvVars,
}

pub open spec fn path_view(path: Option<RelPath>) -> Option<Seq<Seq<char>>> {
    match path {
        Some(path) => Some(path@),
        None => None,
    }
}

impl ProjectWorktree {
    /// The first entry with this identifier.
    pub open spec fn entry_at(self, id: u64) -> Option<int> {
        if exists|i: int| #[trigger] self.is_entry(id, i) {
            Some(choose|i: int| #[trigger] self.is_entry(id, i))
        } else {
            None
        }
    }

    /// The entry at `i` is the first with this identifier.
    pub open spec fn is_entry(self, id: u64, i: int) -> bool {
        0 <= i < self.entries@.len() && self.entries@[i].id == id && forall|j: int|
            0 <= j < i ==> (#[trigger] self.entries@[j]).id != id
    }

    pub fn entry_for_id(&self, id: u64) -> (entry: Option<&WorktreeEntry>)
        ensures
            entry is Some <==> self.entry_at(id) is Some,
            entry matches Some(entry) ==> *entry == self.entries@[self.entry_at(id)->0],
    {
        let mut i: usize = 0;
        while i < self.entries.len()
            invariant
                i <= self.entries@.len(),
                forall|j: int| 0 <= j < i ==> (#[trigger] self.entries@[j]).id != id,
            decreases self.entries@.len() - i,
        {
            if self.entries[i].id == id {
                assert(self.is_entry(id, i as int));
                return Some(&self.entries[i]);
            }
            i += 1;
        }
        None
    }

    /// The directory of the worktree, if its root is one.
    pub open spec fn directory(self) -> Option<Seq<Seq<char>>> {
        if self.root_is_dir == Some(true) {
            Some(self.abs_path@)
        } else {
            None
        }
    }

    pub fn root_dir(&self) -> (dir: Option<RelPath>)
        ensures
            path_view(dir) == self.directory(),
    {
        match self.root_is_dir {
            Some(true) => Some(self.abs_path.clone()),
            _ => None,
        }
    }
}

/// The first worktree with a directory has it.
pub open spec fn first_directory(worktrees: Seq<ProjectWorktree>) -> Option<Seq<Seq<char>>>
    decreases worktrees.len(),
{
    if worktrees.len() == 0 {
        None
    } else {
        match worktrees[0].directory() {
            Some(dir) => Some(dir),
            None => first_directory(worktrees.skip(1)),
        }
    }
}

impl Project {
    /// The worktree at `i` is the first that holds the entry.
    pub open spec fn holds_entry(self, id: u64, i: int) -> bool {
        0 <= i < self.worktrees@.len() && self.worktrees@[i].entry_at(id) is Some && forall|j: int|
            0 <= j < i ==> (#[trigger] self.worktrees@[j]).entry_at(id) is None
    }

    /// The first worktree that holds the active entry.
    pub open spec fn active_worktree(self) -> Option<int> {
        match self.active_entry {
            Some(id) => if exists|i: int| #[trigger] self.holds_entry(id, i) {
                Some(choose|i: int| #[trigger] self.holds_entry(id, i))
            } else {
                None
            },
            None => None,
        }
    }

    pub fn worktree_for_entry(&self, id: u64) -> (worktree: Option<&ProjectWorktree>)
        ensures
            worktree is Some <==> exists|i: int| #[trigger] self.holds_entry(id, i),
            worktree matches Some(worktree) ==> exists|i: int| #[trigger]
                self.holds_entry(id, i) && *worktree == self.worktrees@[i],
    {
        let mut i: usize = 0;
        while i < self.worktrees.len()
            invariant
                i <= self.worktrees@.len(),
                forall|j: int| 0 <= j < i ==> (#[trigger] self.worktrees@[j]).entry_at(id) is None,
            decreases self.worktrees@.len() - i,
        {
            if self.worktrees[i].entry_for_id(id).is_some() {
                assert(self.holds_entry(id, i as int));
                return Some(&self.worktrees[i]);
            }
            i += 1;
        }
        None
    }

    /// The directory of the active entry: the entry itself, or what it lies in.
    pub open spec fn entry_directory(self) -> Option<Seq<Seq<char>>> {
        match self.active_worktree() {
            None => None,
            Some(i) => {
                let worktree = self.worktrees@[i];
                let entry = worktree.entries@[worktree.entry_at(self.active_entry->0)->0];
                let path = worktree.abs_path@ + entry.path@;
                if entry.is_dir {
                    Some(path)
                } else if path.len() > 0 {
                    Some(path.drop_last())
                } else {
                    None
                }
            },
        }
    }

    pub fn active_entry_directory(&self) -> (dir: Option<RelPath>)
        ensures
            path_view(dir) == self.entry_directory(),
    {
        match self.active_entry {
            None => None,
            Some(id) => match self.worktree_for_entry(id) {
                None => None,
                Some(worktree) => {
                    proof {
                        self.lemma_holder_is_unique(id);
                    }
                    match worktree.entry_for_id(id) {
                        None => None,
                        Some(entry) => {
                            let path = worktree.abs_path.join(&entry.path);
                            if entry.is_dir {
                                Some(path)
                            } else {
                                path.parent()
                            }
                        },
                    }
                },
            },
        }
    }

    /// Only one worktree is the first to hold an entry.
    proof fn lemma_holder_is_unique(self, id: u64)
        ensures
            forall|i: int, j: int| #[trigger]
                self.holds_entry(id, i) && #[trigger] self.holds_entry(id, j) ==> i == j,
    {
        assert forall|i: int, j: int| #[trigger]
            self.holds_entry(id, i) && #[trigger] self.holds_entry(id, j) implies i == j by {
            if i < j {
                assert(self.worktrees@[i].entry_at(id) is None);
            } else if j < i {
                assert(self.worktrees@[j].entry_at(id) is None);
            }
        }
    }

    /// The directory of the project: that of the worktree of the active entry, else the first
    /// that a worktree has.
    pub open spec fn project_directory(self) -> Option<Seq<Seq<char>>> {
        match self.active_worktree() {
            Some(i) => match self.worktrees@[i].directory() {
                Some(dir) => Some(dir),
                None => first_directory(self.worktrees@),
            },
            None => first_directory(self.worktrees@),
        }
    }

    pub fn active_project_directory(&self) -> (dir: Option<RelPath>)
        ensures
            path_view(dir) == self.project_directory(),
    {
        if let Some(id) = self.active_entry {
            proof {
                self.lemma_holder_is_unique(id);
            }
            if let Some(worktree) = self.worktree_for_entry(id) {
                if let Some(dir) = worktree.root_dir() {
                    return Some(dir);
                }
            }
        }
        let mut i: usize = 0;
        assert(self.worktrees@.skip(0) =~= self.worktrees@);
        while i < self.worktrees.len()
            invariant
                i <= self.worktrees@.len(),
                first_directory(self.worktrees@.skip(i as int)) == self.project_directory(),
            decreases self.worktrees@.len() - i,
        {
            assert(self.worktrees@.skip(i as int)[0] == self.worktrees@[i as int]);
            assert(self.worktrees@.skip(i as int).skip(1) =~= self.worktrees@.skip(i + 1));
            if let Some(dir) = self.worktrees[i].root_dir() {
                return Some(dir);
            }
            i += 1;
        }
        None
    }

    /// The directory of the first worktree, whatever the others have.
    pub fn first_project_directory(&self) -> (dir: Option<RelPath>)
        ensures
            path_view(dir) == if self.worktrees@.len() > 0 {
                self.worktrees@[0].directory()
            } else {
                None
            },
    {
        if self.worktrees.len() > 0 {
            self.worktrees[0].root_dir()
        } else {
            None
        }
    }

    pub fn create_terminal_shell(&self, cwd: Option<RelPath>) -> (request: ShellRequest)
        ensures
            request == (ShellRequest { cwd, force_local: false }),
    {
        ShellRequest { cwd, force_local: false }
    }

    /// A shell that is opened here even if the project is remote. The directory of a remote
    /// project means nothing here.
    pub fn create_local_terminal(&self) -> (request: ShellRequest)
        ensures
            request.force_local,
            path_view(request.cwd) == if self.remote_client is Connected {
                None
            } else {
                self.project_directory()
            },
    {
        let cwd: Option<RelPath> = match &self.remote_client {
            RemoteClient::Connected { .. } => None,
            RemoteClient::Missing => self.active_project_directory(),
        };
        ShellRequest { cwd, force_local: true }
    }

    /// Clones a terminal into a directory. One that runs a task is not cloned, as that would
    /// run the task again: a shell is opened instead.
    pub fn clone_terminal(&self, runs_task: bool, cwd: Option<RelPath>) -> (plan: ClonePlan)
        ensures
            plan == if runs_task {
                ClonePlan::OpenShell(ShellRequest { cwd, force_local: false })
            } else {
                ClonePlan::CloneTerminal {
                    local_path: if self.is_via_remote_server {
                        None
                    } else {
                        cwd
                    },
                }
            },
    {
        if runs_task {
            return ClonePlan::OpenShell(self.create_terminal_shell(cwd));
        }
        let local_path: Option<RelPath> = if self.is_via_remote_server {
            None
        } else {
            cwd
        };
        ClonePlan::CloneTerminal { local_path }
    }

    /// Runs a command in the shell of the remote server, or of the system, in the directory of
    /// the first worktree.
    pub fn exec_in_shell(&self) -> (request: ExecRequest)
        ensures
            path_view(request.path) == if self.worktrees@.len() > 0 {
                self.worktrees@[0].directory()
            } else {
                None
            },
            match self.remote_client {
                RemoteClient::Connected { shell: Some(program) } => request.shell
                    == Shell::Program(program),
                _ => request.shell == Shell::System,
            },
    {
        let shell: Shell = match &self.remote_client {
            RemoteClient::Connected { shell: Some(program) } => Shell::Program(program.clone()),
            _ => Shell::System,
        };
        ExecRequest { shell, path: self.first_project_directory() }
    }

    pub fn local_terminal_handles(&self) -> (handles: &Vec<u64>)
        ensures
            *handles == self.terminals.local_handles,
    {
        &self.terminals.local_handles
    }

    /// The environment of a directory for a shell, remote where the project is.
    pub fn resolve_directory_environment(&mut self, shell: String, path: Option<RelPath>) -> (answer:
        EnvironmentAnswer)
        ensures
            match (path, old(self).remote_client) {
                (None, _) => answer == EnvironmentAnswer::Ready(None) && *final(self)
                    == *old(self),
                (Some(path), RemoteClient::Connected { .. }) => is_remote_step(
                    old(self).environment,
                    final(self).environment,
                    ShellDirectoryView { shell: Some(shell@), path: path@ },
                    answer,
                ),
                (Some(path), RemoteClient::Missing) => is_local_step(
                    old(self).environment,
                    final(self).environment,
                    ShellDirectoryView { shell: Some(shell@), path: path@ },
                    answer,
                ),
            },
            final(self).environment.same_but_caches(old(self).environment),
            final(self).active_entry == old(self).active_entry,
            final(self).worktrees == old(self).worktrees,
            final(self).remote_client == old(self).remote_client,
            final(self).is_via_remote_server == old(self).is_via_remote_server,
            final(self).terminals == old(self).terminals,
    {
        match path {
            None => EnvironmentAnswer::Ready(None),
            Some(path) => {
                let is_remote: bool = match &self.remote_client {
                    RemoteClient::Connected { .. } => true,
                    RemoteClient::Missing => false,
                };
                let directory = ShellDirectory { shell: Shell::Program(shell), path };
                if is_remote {
                    self.environment.remote_directory_environment(directory)
                } else {
                    self.environment.local_directory_environment(directory)
                }
            },
        }
    }

    /// A terminal was opened.
    pub fn terminal_opened(&mut self, handle: u64)
        ensures
            final(self).terminals.local_handles@ == old(self).terminals.local_handles@.push(handle),
            final(self).active_entry == old(self).active_entry,
            final(self).worktrees == old(self).worktrees,
            final(self).remote_client == old(self).remote_client,
            final(self).is_via_remote_server == old(self).is_via_remote_server,
            final(self).environment == old(self).environment,
    {
        self.terminals.local_handles.push(handle);
    }

    /// A terminal is gone. Says whether it was known.
    pub fn terminal_released(&mut self, handle: u64) -> (known: bool)
        ensures
            known == old(self).terminals.local_handles@.contains(handle),
            final(self).terminals.local_handles@ == without_first(
                old(self).terminals.local_handles@,
                handle,
            ),
            final(self).active_entry == old(self).active_entry,
            final(self).worktrees == old(self).worktrees,
            final(self).remote_client == old(self).remote_client,
            final(self).is_via_remote_server == old(self).is_via_remote_server,
            final(self).environment == old(self).environment,
    {
        let ghost before = self.terminals.local_handles@;
        let mut found: Option<usize> = None;
        let mut i: usize = 0;
        while i < self.terminals.local_handles.len() && found.is_none()
            invariant
                i <= self.terminals.local_handles@.len(),
                self.terminals.local_handles@ == before,
                match found {
                    Some(at) => at < before.len() && before[at as int] == handle && forall|j: int|
                        0 <= j < at ==> before[j] != handle,
                    None => forall|j: int| 0 <= j < i ==> before[j] != handle,
                },
            decreases self.terminals.local_handles@.len() - i,
        {
            if self.terminals.local_handles[i] == handle {
                found = Some(i);
            }
            i += 1;
        }
        match found {
            Some(at) => {
                proof {
                    lemma_without_first(before, handle, at as int);
                }
                let _ = self.terminals.local_handles.remove(at);
                true
            },
            None => {
                proof {
                    lemma_without_none(before, handle);
                }
                false
            },
        }
    }
}

/// The sequence without the first occurrence of an element.
pub open spec fn without_first(s: Seq<u64>, x: u64) -> Seq<u64>
    decreases s.len(),
{
    if s.len() == 0 {
        s
    } else if s[0] == x {
        s.skip(1)
    } else {
        seq![s[0]] + without_first(s.skip(1), x)
    }
}

proof fn lemma_without_first(s: Seq<u64>, x: u64, at: int)
    requires
        0 <= at < s.len(),
        s[at] == x,
        forall|j: int| 0 <= j < at ==> s[j] != x,
    ensures
        without_first(s, x) == s.remove(at),
    decreases s.len(),
{
    if at == 0 {
        assert(s.skip(1) =~= s.remove(0));
    } else {
        assert(s[0] != x);
        lemma_without_first(s.skip(1), x, at - 1);
        assert(seq![s[0]] + s.skip(1).remove(at - 1) =~= s.remove(at));
    }
}

proof fn lemma_without_none(s: Seq<u64>, x: u64)
    requires
        forall|j: int| 0 <= j < s.len() ==> s[j] != x,
    ensures
        without_first(s, x) == s,
    decreases s.len(),
{
    if s.len() > 0 {
        assert(s[0] != x);
        lemma_without_none(s.skip(1), x);
        assert(seq![s[0]] + s.skip(1) =~= s);
    }
}

/// Releasing the terminal that was opened last leaves the terminals as they were, if it has
/// an identifier of its own.
pub proof fn release_undoes_opening(handles: Seq<u64>, handle: u64)
    requires
        !handles.contains(handle),
    ensures
        without_first(handles.push(handle), handle) == handles,
{
    assert forall|j: int| 0 <= j < handles.len() implies handles.push(handle)[j] != handle by {
        assert(handles[j] != handle);
    }
    lemma_without_first(handles.push(handle), handle, handles.len() as int);
    assert(handles.push(handle).remove(handles.len() as int) =~= handles);
}

/// The environment that was found, or no variables.
pub open spec fn env_or_empty(env: Option<EnvVars>) -> EnvView {
    match env {
        Some(env) => env@,
        None => Map::empty(),
    }
}

pub fn env_or_default(env: Option<EnvVars>) -> (env_vars: EnvVars)
    ensures
        env_vars@ == env_or_empty(env),
{
    match env {
        Some(env) => env,
        None => EnvVars::new(),
    }
}

/// The process that runs a command: as the remote connection has to run it, or else here, in
/// the directory of the project.
pub fn exec_process(
    template: Option<CommandTemplate>,
    command: String,
    args: Vec<String>,
    env: Option<EnvVars>,
    path: Option<RelPath>,
) -> (process: ProcessRequest)
    ensures
        match template {
            Some(template) => process.program == template.program && process.args == template.args
                && process.env == template.env && process.current_dir is None,
            None => process.program == command && process.args == args && process.env@
                == env_or_empty(env) && process.current_dir == path,
        },
{
    match template {
        Some(template) => ProcessRequest {
            program: template.program,
            args: template.args,
            env: template.env,
            current_dir: None,
        },
        None => ProcessRequest {
            program: command,
            args,
            env: env_or_default(env),
            current_dir: path,
        },
    }
}
proof fn first_directory_is_the_first(worktrees: Seq<ProjectWorktree>, i: int)
    requires
        0 <= i <= worktrees.len(),
        forall|j: int| 0 <= j < i ==> (#[trigger] worktrees[j]).root_is_dir != Some(true),
        i < worktrees.len() ==> worktrees[i].root_is_dir == Some(true),
    ensures
        first_directory(worktrees) == (if i < worktrees.len() {
            Some(worktrees[i].abs_path@)
        } else {
            None
        }),
    decreases worktrees.len(),
{
    if worktrees.len() > 0 && i > 0 {
        assert(worktrees[0].root_is_dir != Some(true));
        assert forall|j: int| 0 <= j < i - 1 implies (#[trigger] worktrees.skip(1)[j]).root_is_dir
            != Some(true) by {
            assert(worktrees.skip(1)[j] == worktrees[j + 1]);
        }
        if i < worktrees.len() {
            assert(worktrees.skip(1)[i - 1] == worktrees[i]);
        }
        first_directory_is_the_first(worktrees.skip(1), i - 1);
    }
}

/// Without an active entry the project is in the first worktree that is a directory. The
/// first worktree alone counts where only the first is asked for.
pub proof fn projects_are_in_their_first_directory(
    project: Project,
    i: int,
    dir: Option<RelPath>,
    first: Option<RelPath>,
)
    requires
        project.active_entry is None,
        call_ensures(Project::active_project_directory, (&project,), dir),
        call_ensures(Project::first_project_directory, (&project,), first),
        0 <= i <= project.worktrees@.len(),
        forall|j: int|
            0 <= j < i ==> (#[trigger] project.worktrees@[j]).root_is_dir != Some(true),
        i < project.worktrees@.len() ==> project.worktrees@[i].root_is_dir == Some(true),
    ensures
        i < project.worktrees@.len() ==> dir is Some && dir->0@ == project.worktrees@[i].abs_path@,
        i == project.worktrees@.len() ==> dir is None,
        first is Some <==> project.worktrees@.len() > 0 && i == 0,
        first is Some ==> first->0@ == project.worktrees@[0].abs_path@,
{
    first_directory_is_the_first(project.worktrees@, i);
}

proof fn entry_is_the_first(worktree: ProjectWorktree, id: u64, i: int)
    requires
        worktree.is_entry(id, i),
    ensures
        worktree.entry_at(id) == Some(i),
{
    let k = choose|k: int| #[trigger] worktree.is_entry(id, k);
    assert(worktree.is_entry(id, k));
    if k < i {
        assert(worktree.entries@[k].id != id);
    }
    if i < k {
        assert(worktree.entries@[i].id != id);
    }
}

/// An entry is found by its number, the first one if there are several.
pub proof fn entries_are_found_by_id(
    worktree: ProjectWorktree,
    id: u64,
    i: int,
    entry: Option<&WorktreeEntry>,
)
    requires
        call_ensures(ProjectWorktree::entry_for_id, (&worktree, id), entry),
        0 <= i <= worktree.entries@.len(),
        forall|j: int| 0 <= j < i ==> (#[trigger] worktree.entries@[j]).id != id,
        i < worktree.entries@.len() ==> worktree.entries@[i].id == id,
    ensures
        i < worktree.entries@.len() ==> entry is Some && *entry->0 == worktree.entries@[i],
        i == worktree.entries@.len() ==> entry is None,
{
    if i < worktree.entries@.len() {
        assert(worktree.is_entry(id, i));
        entry_is_the_first(worktree, id, i);
    } else if worktree.entry_at(id) is Some {
        let k = choose|k: int| #[trigger] worktree.is_entry(id, k);
        assert(worktree.is_entry(id, k));
        assert(worktree.entries@[k].id != id);
    }
}

/// The directory of the active entry is the entry itself if it is one, else the one that it
/// lies in; the project is in the worktree of the active entry.
pub proof fn active_entries_say_where_the_project_is(
    project: Project,
    id: u64,
    i: int,
    dir: Option<RelPath>,
    project_dir: Option<RelPath>,
)
    requires
        project.active_entry == Some(id),
        project.worktrees@.len() == 1,
        project.worktrees@[0].is_entry(id, i),
        call_ensures(Project::active_entry_directory, (&project,), dir),
        call_ensures(Project::active_project_directory, (&project,), project_dir),
    ensures
        ({
            let worktree = project.worktrees@[0];
            let entry = worktree.entries@[i];
            let path = worktree.abs_path@ + entry.path@;
            &&& entry.is_dir ==> dir is Some && dir->0@ == path
            &&& !entry.is_dir && path.len() > 0 ==> dir is Some && dir->0@ == path.drop_last()
            &&& !entry.is_dir && path.len() == 0 ==> dir is None
            &&& worktree.root_is_dir == Some(true) ==> project_dir is Some && project_dir->0@
                == worktree.abs_path@
            &&& worktree.root_is_dir != Some(true) ==> project_dir is None
        }),
{
    let worktree = project.worktrees@[0];
    entry_is_the_first(worktree, id, i);
    assert(project.holds_entry(id, 0));
    let k = choose|k: int| #[trigger] project.holds_entry(id, k);
    assert(project.holds_entry(id, k));
    assert(k == 0);
    first_directory_is_the_first(
        project.worktrees@,
        if worktree.root_is_dir == Some(true) {
            0
        } else {
            1
        },
    );
}

/// A shell is opened where it is asked for, and here only if that is asked for.
pub proof fn shells_open_where_they_are_asked_for(
    project: Project,
    cwd: Option<RelPath>,
    request: ShellRequest,
    local: ShellRequest,
    dir: Option<RelPath>,
)
    requires
        call_ensures(Project::create_terminal_shell, (&project, cwd), request),
        call_ensures(Project::create_local_terminal, (&project,), local),
        call_ensures(Project::active_project_directory, (&project,), dir),
    ensures
        request.cwd == cwd && !request.force_local,
        local.force_local,
        project.remote_client is Connected ==> local.cwd is None,
        project.remote_client is Missing ==> path_view(local.cwd) == path_view(dir),
{
}

/// A terminal with a task is not cloned: a shell is opened in the directory. Any other is
/// cloned, with a directory only if it is here.
pub proof fn tasks_are_not_run_again(
    project: Project,
    runs_task: bool,
    cwd: Option<RelPath>,
    plan: ClonePlan,
)
    requires
        call_ensures(Project::clone_terminal, (&project, runs_task, cwd), plan),
    ensures
        runs_task <==> plan is OpenShell,
        runs_task ==> plan->OpenShell_0.cwd == cwd && !plan->OpenShell_0.force_local,
        !runs_task && project.is_via_remote_server ==> plan->local_path is None,
        !runs_task && !project.is_via_remote_server ==> plan->local_path == cwd,
{
}

/// A command runs in the shell of the remote server if it is known, else in that of the system.
pub proof fn commands_run_in_the_shell_of_the_project(
    project: Project,
    request: ExecRequest,
    first: Option<RelPath>,
)
    requires
        call_ensures(Project::exec_in_shell, (&project,), request),
        call_ensures(Project::first_project_directory, (&project,), first),
    ensures
        path_view(request.path) == path_view(first),
        project.remote_client matches RemoteClient::Connected { shell: Some(program) }
            ==> request.shell == Shell::Program(program),
        project.remote_client is Missing ==> request.shell is System,
        project.remote_client matches RemoteClient::Connected { shell: None } ==> request.shell
            is System,
{
}

/// A process that a remote connection runs is run as the connection says; any other is run as
/// the command says, in its directory.
pub proof fn remote_commands_run_as_the_connection_says(
    template: Option<CommandTemplate>,
    command: String,
    args: Vec<String>,
    env: Option<EnvVars>,
    path: Option<RelPath>,
    process: ProcessRequest,
)
    requires
        call_ensures(exec_process, (template, command, args, env, path), process),
    ensures
        template is Some ==> process.program == template->0.program && process.args
            == template->0.args && process.env == template->0.env && process.current_dir is None,
        template is None ==> process.program == command && process.args == args
            && process.current_dir == path,
        template is None && env is Some ==> process.env@ == env->0@,
        template is None && env is None ==> process.env@ == Map::<Seq<char>, Seq<char>>::empty(),
{
}

/// A terminal that was opened is known last, and one that is gone is not known any more; the
/// others stay known.
pub proof fn terminals_are_known_while_they_are_open(
    project: &mut Project,
    handle: u64,
    again: &mut Project,
    known: bool,
)
    requires
        !old(project).terminals.local_handles@.contains(handle),
        call_ensures(Project::terminal_opened, (project, handle), ()),
        *old(again) == *final(project),
        call_ensures(Project::terminal_released, (again, handle), known),
    ensures
        final(project).terminals.local_handles@.last() == handle,
        final(project).terminals.local_handles@.drop_last() == old(project).terminals.local_handles@,
        known,
        final(again).terminals.local_handles@ == old(project).terminals.local_handles@,
{
    release_undoes_opening(old(project).terminals.local_handles@, handle);
    assert(final(project).terminals.local_handles@.drop_last() =~= old(project).terminals.local_handles@);
    assert(final(project).terminals.local_handles@.last() == handle);
}

/// No directory has no environment. Any other is asked for in the given shell: on the remote
/// server where one is connected.
pub proof fn environments_are_resolved_where_the_project_is(
    project: &mut Project,
    shell: String,
    path: Option<RelPath>,
    answer: EnvironmentAnswer,
)
    requires
        call_ensures(Project::resolve_directory_environment, (project, shell, path), answer),
        old(project).environment.cli_environment is None,
        path is Some ==> !old(project).environment.locals().contains_key(
            (ShellDirectoryView { shell: Some(shell@), path: path->0@ }),
        ) && !old(project).environment.remotes().contains_key(
            (ShellDirectoryView { shell: Some(shell@), path: path->0@ }),
        ),
    ensures
        path is None ==> answer is Ready && answer->Ready_0 is None,
        path is Some && old(project).remote_client is Connected ==> answer is Remote
            && answer->send_request && answer->Remote_directory@.shell == Some(shell@)
            && answer->Remote_directory@.path == path->0@,
        path is Some && old(project).remote_client is Missing ==> answer is Local && answer->spawn
            && answer->Local_directory@.shell == Some(shell@) && answer->Local_directory@.path
            == path->0@,
{
}
/// The directory of a worktree is its path, if it was scanned and found to be a directory.
pub proof fn scanned_directories_are_given(worktree: ProjectWorktree, dir: Option<RelPath>)
    requires
        call_ensures(ProjectWorktree::root_dir, (&worktree,), dir),
    ensures
        dir is Some <==> worktree.root_is_dir == Some(true),
        dir is Some ==> dir->0@ == worktree.abs_path@,
{
}

} // verus!
