//! What git says about the files and buffers of a project.
use std::collections::BTreeMap;
use vstd::prelude::*;

use crate::git_store::open_diffs::BufferConflicts;
use crate::git_store::registry::{is_innermost, repository_holds, DirsView, GitStore};
use crate::git_store::snapshot::{entry_views, status_at, RepositorySnapshot};
use crate::git_store::status::FileStatus;
use crate::git_store::RepositoryId;
use crate::ids::{map_get, map_put, map_take};
use crate::rel_path::{RelPath, RepoPath};
use crate::text::same_text;

verus! {

/// Some repository holds the path.
pub open spec fn is_held(repositories: Map<u64, DirsView>, path: Seq<Seq<char>>) -> bool {
    exists|id: u64| repository_holds(repositories, id, path)
}

/// What a repository says of a path of the project: of the path inside the repository.
pub open spec fn status_in(
    store: GitStore,
    snapshots: Map<u64, RepositorySnapshot>,
    id: u64,
    path: Seq<Seq<char>>,
) -> Option<FileStatus> {
    if snapshots.contains_key(id) {
        match status_at(
            entry_views(snapshots[id].statuses_by_path@),
            path.skip(store@.repositories[id].work_directory.len() as int),
        ) {
            Some(entry) => Some(entry.status),
            None => None,
        }
    } else {
        None
    }
}

/// The answer is that of the innermost repository that holds the path; without one there is
/// none.
pub open spec fn is_status_of(
    status: Option<FileStatus>,
    store: GitStore,
    snapshots: Map<u64, RepositorySnapshot>,
    path: Seq<Seq<char>>,
) -> bool {
    if is_held(store@.repositories, path) {
        exists|id: u64| #[trigger]
            is_innermost(store@.repositories, id, path) && status == status_in(
                store,
                snapshots,
                id,
                path,
            )
    } else {
        status is None
    }
}

/// Who changed the lines of a file is read.
#[derive(Debug)]
pub struct BlameRequest {
    pub repository: RepositoryId,
    pub path: RepoPath,
    pub version: u64,
}

/// The file of a buffer lies in no repository.
#[derive(Clone, Copy, Debug, PartialEq, Eq, Structural)]
pub struct NoRepository;

impl NoRepository {
    pub fn message(&self) -> (message: &'static str)
        ensures
            message@ == "failed to find a git repository for buffer"@,
    {
        "failed to find a git repository for buffer"
    }
}

/// Where a link to a line comes from.
#[derive(Debug)]
pub enum PermalinkSource {
    /// From the commit that a repository is at, as its remote shows it.
    Repository { id: RepositoryId, path: RepoPath, remote: String },
    /// From the metadata of the package that the file belongs to.
    RustRegistry(RelPath),
}

/// Why there is no link to a line.
#[derive(Clone, Copy, Debug, PartialEq, Eq, Structural)]
pub enum PermalinkError {
    NoFile,
    Unavailable,
}

impl PermalinkError {
    pub fn message(&self) -> (message: &'static str)
        ensures
            message@ == (match *self {
                PermalinkError::NoFile => "buffer has no file"@,
                PermalinkError::Unavailable => "no permalink available"@,
            }),
    {
        match self {
            PermalinkError::NoFile => "buffer has no file",
            PermalinkError::Unavailable => "no permalink available",
        }
    }
}

/// The remote that the branch of a repository follows, else the origin.
pub open spec fn followed_remote(remotes: Map<u64, String>, id: u64) -> Seq<char> {
    if remotes.contains_key(id) {
        remotes[id]@
    } else {
        "origin"@
    }
}

impl GitStore {
    /// The status of a path of the project, if git has anything to say about it.
    pub fn project_path_git_status(
        &self,
        snapshots: &BTreeMap<u64, RepositorySnapshot>,
        abs_path: &RelPath,
    ) -> (status: Option<FileStatus>)
        requires
            forall|id: u64| #[trigger]
                snapshots@.contains_key(id) ==> snapshots@[id].well_formed(),
        ensures
            is_status_of(status, *self, snapshots@, abs_path@),
    {
        match self.repository_and_path_for_project_path(abs_path) {
            None => None,
            Some((id, path)) => {
                assert(repository_holds(self@.repositories, id.0, abs_path@));
                match map_get(snapshots, id.0) {
                    None => None,
                    Some(snapshot) => match snapshot.status_for_path(&path) {
                        Some(entry) => Some(entry.status),
                        None => None,
                    },
                }
            },
        }
    }

    /// The innermost repository of the file of a buffer, and the path of the file inside it.
    /// A buffer without a file of the project has none.
    pub fn repository_and_path_for_buffer_id(&self, buffer_path: Option<&RelPath>) -> (found: Option<
        (RepositoryId, RepoPath),
    >)
        ensures
            match buffer_path {
                None => found is None,
                Some(abs_path) => {
                    &&& found is Some <==> is_held(self@.repositories, abs_path@)
                    &&& (found matches Some((id, path)) ==> is_innermost(
                        self@.repositories,
                        id.0,
                        abs_path@,
                    ) && path@ == abs_path@.skip(
                        self@.repositories[id.0].work_directory.len() as int,
                    ))
                },
            },
    {
        match buffer_path {
            Some(abs_path) => self.repository_and_path_for_project_path(abs_path),
            None => None,
        }
    }

    /// Whose blame is read, of which path and of which version of the buffer: of the given
    /// one, else of the current one.
    pub fn blame_buffer(
        &self,
        buffer_path: Option<&RelPath>,
        version: Option<u64>,
        current: u64,
    ) -> (request: Result<BlameRequest, NoRepository>)
        ensures
            match buffer_path {
                None => request is Err,
                Some(abs_path) => {
                    &&& request is Ok <==> is_held(self@.repositories, abs_path@)
                    &&& (request matches Ok(request) ==> is_innermost(
                        self@.repositories,
                        request.repository.0,
                        abs_path@,
                    ) && request.path@ == abs_path@.skip(
                        self@.repositories[request.repository.0].work_directory.len() as int,
                    ) && request.version == (match version {
                        Some(version) => version,
                        None => current,
                    }))
                },
            },
    {
        match self.repository_and_path_for_buffer_id(buffer_path) {
            Some((repository, path)) => {
                let version: u64 = match version {
                    Some(version) => version,
                    None => current,
                };
                Ok(BlameRequest { repository, path, version })
            },
            None => Err(NoRepository),
        }
    }

    /// Says where a link to a line of a file comes from. A file in a repository is linked to
    /// on the remote that its branch follows. A file outside of any repository has a link only
    /// if it is a Rust source, which may come from a package registry.
    pub fn get_permalink_to_line(
        &self,
        file: Option<&RelPath>,
        language: Option<&String>,
        remotes: &BTreeMap<u64, String>,
    ) -> (source: Result<PermalinkSource, PermalinkError>)
        ensures
            match file {
                None => source == Err::<PermalinkSource, PermalinkError>(PermalinkError::NoFile),
                Some(abs_path) => if is_held(self@.repositories, abs_path@) {
                    source matches Ok(PermalinkSource::Repository { id, path, remote })
                        && is_innermost(self@.repositories, id.0, abs_path@) && path@
                        == abs_path@.skip(self@.repositories[id.0].work_directory.len() as int)
                        && remote@ == followed_remote(remotes@, id.0)
                } else if language matches Some(language) && language@ == "Rust"@ {
                    source matches Ok(PermalinkSource::RustRegistry(path)) && path@ == abs_path@
                } else {
                    source == Err::<PermalinkSource, PermalinkError>(PermalinkError::Unavailable)
                },
            },
    {
        match file {
            None => Err(PermalinkError::NoFile),
            Some(abs_path) => match self.repository_and_path_for_project_path(abs_path) {
                Some((id, path)) => {
                    let remote: String = match map_get(remotes, id.0) {
                        Some(remote) => remote.clone(),
                        None => "origin".to_owned(),
                    };
                    Ok(PermalinkSource::Repository { id, path, remote })
                },
                None => {
                    let is_rust: bool = match language {
                        Some(language) => same_text(language.as_str(), "Rust"),
                        None => false,
                    };
                    if is_rust {
                        Ok(PermalinkSource::RustRegistry(abs_path.clone()))
                    } else {
                        Err(PermalinkError::Unavailable)
                    }
                },
            },
        }
    }

    /// The status of the file of a buffer.
    pub fn status_for_buffer_id(
        &self,
        snapshots: &BTreeMap<u64, RepositorySnapshot>,
        buffer_path: Option<&RelPath>,
    ) -> (status: Option<FileStatus>)
        requires
            forall|id: u64| #[trigger]
                snapshots@.contains_key(id) ==> snapshots@[id].well_formed(),
        ensures
            match buffer_path {
                None => status is None,
                Some(abs_path) => is_status_of(status, *self, snapshots@, abs_path@),
            },
    {
        match buffer_path {
            Some(abs_path) => self.project_path_git_status(snapshots, abs_path),
            None => None,
        }
    }
}

/// The conflicts that buffers show.
#[derive(Debug)]
pub struct Conflicts {
    pub sets: BTreeMap<u64, BufferConflicts>,
}

#[verifier::ext_equal]
pub struct ConflictView {
    pub has_conflict: bool,
    pub waiting: Seq<u64>,
}

impl View for Conflicts {
    type V = Map<u64, ConflictView>;

    open spec fn view(&self) -> Map<u64, ConflictView> {
        self.sets@.map_values(
            |set: BufferConflicts|
                ConflictView { has_conflict: set.has_conflict, waiting: set.waiting@ },
        )
    }
}

/// Somebody wants the markers to be read again: they are, if the file is in conflict.
pub open spec fn asked_again(set: ConflictView, waiter: u64) -> ConflictView {
    if set.has_conflict {
        ConflictView { waiting: set.waiting.push(waiter), ..set }
    } else {
        set
    }
}

/// The conflicts, and the buffers whose markers are read again, after a repository was looked
/// through for the files of buffers.
pub open spec fn after_update(
    sets: Map<u64, ConflictView>,
    buffers: Seq<(u64, bool)>,
    waiter: u64,
) -> (Map<u64, ConflictView>, Seq<u64>)
    decreases buffers.len(),
{
    if buffers.len() == 0 {
        (sets, Seq::empty())
    } else {
        let (earlier, reread) = after_update(sets, buffers.drop_last(), waiter);
        let (buffer, has_conflict) = buffers.last();
        if earlier.contains_key(buffer) && earlier[buffer].has_conflict != has_conflict {
            (
                earlier.insert(
                    buffer,
                    asked_again(ConflictView { has_conflict, ..earlier[buffer] }, waiter),
                ),
                if has_conflict {
                    reread.push(buffer)
                } else {
                    reread
                },
            )
        } else {
            (earlier, reread)
        }
    }
}

impl Conflicts {
    pub fn new() -> (conflicts: Self)
        ensures
            conflicts@ == Map::<u64, ConflictView>::empty(),
    {
        let conflicts = Conflicts { sets: BTreeMap::new() };
        assert(conflicts@ =~= Map::<u64, ConflictView>::empty());
        conflicts
    }

    /// Shows the conflicts of a buffer. Those that are shown already are read again; else the
    /// repository says whether the file is in conflict. Says whether the markers are read.
    pub fn open_conflict_set(
        &mut self,
        buffer_id: u64,
        is_shown: bool,
        is_unmerged: bool,
        waiter: u64,
    ) -> (reread: bool)
        ensures
            ({
                let opened = if old(self)@.contains_key(buffer_id) {
                    if is_shown {
                        old(self)@[buffer_id]
                    } else {
                        ConflictView { has_conflict: is_unmerged, ..old(self)@[buffer_id] }
                    }
                } else {
                    ConflictView { has_conflict: is_unmerged, waiting: Seq::empty() }
                };
                &&& final(self)@ == old(self)@.insert(buffer_id, asked_again(opened, waiter))
                &&& reread == opened.has_conflict
            }),
    {
        let mut set: BufferConflicts = match map_take(&mut self.sets, buffer_id) {
            Some(set) => {
                let mut set: BufferConflicts = set;
                if !is_shown {
                    set.has_conflict = is_unmerged;
                }
                set
            },
            None => BufferConflicts::new(is_unmerged),
        };
        let reread: bool = set.reparse_conflict_markers(waiter);
        map_put(&mut self.sets, buffer_id, set);
        proof {
            let opened = if old(self)@.contains_key(buffer_id) {
                if is_shown {
                    old(self)@[buffer_id]
                } else {
                    ConflictView { has_conflict: is_unmerged, ..old(self)@[buffer_id] }
                }
            } else {
                ConflictView { has_conflict: is_unmerged, waiting: Seq::empty() }
            };
            assert(self@[buffer_id] =~= asked_again(opened, waiter));
            assert(self@ =~= old(self)@.insert(buffer_id, asked_again(opened, waiter)));
        }
        reread
    }

    /// A repository changed. `buffers` are the buffers whose files it holds, with whether it
    /// says that they are in conflict. Returns those whose markers are read again.
    pub fn on_repository_event(&mut self, buffers: &Vec<(u64, bool)>, waiter: u64) -> (reread: Vec<
        u64,
    >)
        ensures
            (final(self)@, reread@) == after_update(old(self)@, buffers@, waiter),
    {
        let ghost before = self@;
        let mut reread: Vec<u64> = Vec::new();
        let mut i: usize = 0;
        while i < buffers.len()
            invariant
                i <= buffers@.len(),
                (self@, reread@) == after_update(before, buffers@.take(i as int), waiter),
            decreases buffers@.len() - i,
        {
            assert(buffers@.take(i + 1).drop_last() =~= buffers@.take(i as int));
            assert(buffers@.take(i + 1).last() == buffers@[i as int]);
            let (buffer, has_conflict) = buffers[i];
            let ghost now = self@;
            if let Some(set) = map_take(&mut self.sets, buffer) {
                let mut set: BufferConflicts = set;
                assert(now.contains_key(buffer));
                if set.repository_updated(has_conflict) {
                    if set.reparse_conflict_markers(waiter) {
                        reread.push(buffer);
                    }
                    map_put(&mut self.sets, buffer, set);
                    proof {
                        let told = asked_again(ConflictView { has_conflict, ..now[buffer] }, waiter);
                        assert(self@[buffer] =~= told);
                        assert(self@ =~= now.insert(buffer, told));
                    }
                } else {
                    map_put(&mut self.sets, buffer, set);
                    assert(self@ =~= now);
                }
            } else {
                assert(!now.contains_key(buffer));
                assert(self@ =~= now);
            }
            i += 1;
        }
        assert(buffers@.take(i as int) =~= buffers@);
        reread
    }
}

/// A repository that says of each file what is known of it changes nothing.
pub proof fn known_conflicts_are_left_alone(
    sets: Map<u64, ConflictView>,
    buffers: Seq<(u64, bool)>,
    waiter: u64,
)
    requires
        forall|i: int|
            0 <= i < buffers.len() && sets.contains_key((#[trigger] buffers[i]).0)
                ==> sets[buffers[i].0].has_conflict == buffers[i].1,
    ensures
        after_update(sets, buffers, waiter) == (sets, Seq::<u64>::empty()),
    decreases buffers.len(),
{
    if buffers.len() > 0 {
        let earlier = buffers.drop_last();
        assert forall|i: int|
            0 <= i < earlier.len() && sets.contains_key((#[trigger] earlier[i]).0) implies
            sets[earlier[i].0].has_conflict == earlier[i].1 by {
            assert(earlier[i] == buffers[i]);
        }
        known_conflicts_are_left_alone(sets, earlier, waiter);
        assert(buffers.last() == buffers[buffers.len() - 1]);
    }
}

/// A path has the status that the innermost repository has for the rest of the path, and none
/// outside of all repositories or where the repository is not known.
pub proof fn paths_have_the_status_in_their_repository(
    store: GitStore,
    snapshots: BTreeMap<u64, RepositorySnapshot>,
    path: RelPath,
    status: Option<FileStatus>,
    of_buffer: Option<FileStatus>,
    id: u64,
    inside: RepoPath,
    entry: Option<crate::git_store::status::StatusEntry>,
)
    requires
        call_ensures(GitStore::project_path_git_status, (&store, &snapshots, &path), status),
        call_ensures(
            GitStore::status_for_buffer_id,
            (&store, &snapshots, Some(&path)),
            of_buffer,
        ),
        store.repositories@.contains_key(id),
        store.repositories@[id].work_directory@ + inside@ == path@,
        forall|other: u64|
            other != id && #[trigger] store.repositories@.contains_key(other)
                && crate::rel_path::has_prefix(path@, store.repositories@[other].work_directory@)
                ==> store.repositories@[other].work_directory@.len()
                < store.repositories@[id].work_directory@.len(),
        snapshots@.contains_key(id),
        snapshots@[id].well_formed(),
        call_ensures(RepositorySnapshot::status_for_path, (&snapshots@[id], &inside), entry),
    ensures
        entry is None ==> status is None && of_buffer is None,
        entry matches Some(entry) ==> status == Some(entry.status) && of_buffer == Some(
            entry.status,
        ),
{
    let repositories = store@.repositories;
    let held = store.repositories@[id].work_directory@;
    assert(path@.take(held.len() as int) =~= held);
    assert(path@.skip(held.len() as int) =~= inside@);
    assert(repositories.contains_key(id) && repositories[id].work_directory == held);
    assert(repository_holds(repositories, id, path@));
    assert forall|other: u64| #[trigger] is_innermost(repositories, other, path@) implies other
        == id by {
        assert(repository_holds(repositories, id, path@));
        assert(crate::rel_path::has_prefix(repositories[other].work_directory, held));
        assert(store.repositories@.contains_key(other));
    }
}

/// Outside of all repositories a path has no status, its buffer no repository, and no blame can be
/// read of it. A buffer without a file has none of these either.
pub proof fn files_outside_of_repositories_have_no_status(
    store: GitStore,
    snapshots: BTreeMap<u64, RepositorySnapshot>,
    path: RelPath,
    status: Option<FileStatus>,
    found: Option<(RepositoryId, RepoPath)>,
    version: Option<u64>,
    current: u64,
    blame: Result<BlameRequest, NoRepository>,
    no_status: Option<FileStatus>,
    none: Option<(RepositoryId, RepoPath)>,
    no_blame: Result<BlameRequest, NoRepository>,
)
    requires
        forall|id: u64| #[trigger]
            store.repositories@.contains_key(id) ==> !crate::rel_path::has_prefix(
                path@,
                store.repositories@[id].work_directory@,
            ),
        call_ensures(GitStore::project_path_git_status, (&store, &snapshots, &path), status),
        call_ensures(GitStore::repository_and_path_for_buffer_id, (&store, Some(&path)), found),
        call_ensures(GitStore::blame_buffer, (&store, Some(&path), version, current), blame),
        call_ensures(
            GitStore::status_for_buffer_id,
            (&store, &snapshots, None::<&RelPath>),
            no_status,
        ),
        call_ensures(
            GitStore::repository_and_path_for_buffer_id,
            (&store, None::<&RelPath>),
            none,
        ),
        call_ensures(
            GitStore::blame_buffer,
            (&store, None::<&RelPath>, version, current),
            no_blame,
        ),
    ensures
        status is None,
        found is None,
        blame is Err,
        no_status is None,
        none is None,
        no_blame is Err,
{
    assert forall|id: u64| !#[trigger] repository_holds(store@.repositories, id, path@) by {
        if store@.repositories.contains_key(id) {
            assert(store.repositories@.contains_key(id));
        }
    }
}

/// The file of a buffer lies in the innermost repository around it, at the rest of its path. The
/// blame is read there, of the version that was asked for, or else of the current one.
pub proof fn buffers_lie_in_the_innermost_repository(
    store: GitStore,
    path: RelPath,
    id: u64,
    inside: Seq<Seq<char>>,
    found: Option<(RepositoryId, RepoPath)>,
    version: u64,
    current: u64,
    of_version: Result<BlameRequest, NoRepository>,
    of_current: Result<BlameRequest, NoRepository>,
)
    requires
        store.repositories@.contains_key(id),
        store.repositories@[id].work_directory@ + inside == path@,
        forall|other: u64|
            other != id && #[trigger] store.repositories@.contains_key(other)
                && crate::rel_path::has_prefix(path@, store.repositories@[other].work_directory@)
                ==> store.repositories@[other].work_directory@.len()
                < store.repositories@[id].work_directory@.len(),
        call_ensures(GitStore::repository_and_path_for_buffer_id, (&store, Some(&path)), found),
        call_ensures(
            GitStore::blame_buffer,
            (&store, Some(&path), Some(version), current),
            of_version,
        ),
        call_ensures(
            GitStore::blame_buffer,
            (&store, Some(&path), None::<u64>, current),
            of_current,
        ),
    ensures
        found matches Some((repository, at)) && repository.0 == id && at@ == inside,
        of_version matches Ok(request) && request.repository.0 == id && request.path@ == inside
            && request.version == version,
        of_current matches Ok(request) && request.repository.0 == id && request.path@ == inside
            && request.version == current,
{
    let repositories = store@.repositories;
    let held = store.repositories@[id].work_directory@;
    assert(path@.take(held.len() as int) =~= held);
    assert(path@.skip(held.len() as int) =~= inside);
    assert(repositories.contains_key(id) && repositories[id].work_directory == held);
    assert(repository_holds(repositories, id, path@));
    assert forall|other: u64| #[trigger] is_innermost(repositories, other, path@) implies other
        == id by {
        assert(repository_holds(repositories, id, path@));
        assert(crate::rel_path::has_prefix(repositories[other].work_directory, held));
        assert(store.repositories@.contains_key(other));
    }
}

/// A line of a file in a repository is linked to on the remote that the branch follows, which is
/// the origin where it follows none. Elsewhere only Rust sources can be linked to.
pub proof fn lines_are_linked_to_on_the_remote(
    store: GitStore,
    path: RelPath,
    language: Option<&String>,
    remotes: BTreeMap<u64, String>,
    source: Result<PermalinkSource, PermalinkError>,
    no_file: Result<PermalinkSource, PermalinkError>,
)
    requires
        call_ensures(
            GitStore::get_permalink_to_line,
            (&store, Some(&path), language, &remotes),
            source,
        ),
        call_ensures(
            GitStore::get_permalink_to_line,
            (&store, None::<&RelPath>, language, &remotes),
            no_file,
        ),
    ensures
        no_file == Err::<PermalinkSource, PermalinkError>(PermalinkError::NoFile),
        source matches Ok(PermalinkSource::Repository { id, path: at, remote }) ==> {
            &&& store.repositories@.contains_key(id.0)
            &&& store.repositories@[id.0].work_directory@ + at@ == path@
            &&& remotes@.contains_key(id.0) ==> remote@ == remotes@[id.0]@
            &&& !remotes@.contains_key(id.0) ==> remote@ == "origin"@
        },
        source matches Ok(PermalinkSource::RustRegistry(at)) ==> at@ == path@ && (language
            matches Some(name) && name@ == "Rust"@),
        source matches Err(error) ==> error is Unavailable && (language matches Some(name)
            ==> name@ != "Rust"@),
        (exists|id: u64| #[trigger]
            store.repositories@.contains_key(id) && crate::rel_path::has_prefix(
                path@,
                store.repositories@[id].work_directory@,
            )) ==> source matches Ok(PermalinkSource::Repository { .. }),
{
    if exists|id: u64| #[trigger]
        store.repositories@.contains_key(id) && crate::rel_path::has_prefix(
            path@,
            store.repositories@[id].work_directory@,
        ) {
        let id = choose|id: u64| #[trigger]
            store.repositories@.contains_key(id) && crate::rel_path::has_prefix(
                path@,
                store.repositories@[id].work_directory@,
            );
        assert(repository_holds(store@.repositories, id, path@));
    }
    if let Ok(PermalinkSource::Repository { id, path: at, remote }) = source {
        assert(repository_holds(store@.repositories, id.0, path@));
        let held = store.repositories@[id.0].work_directory@;
        assert(held + path@.skip(held.len() as int) =~= path@);
    }
}

/// The conflicts of a buffer that are shown are read again where the file is in conflict; those
/// that are not are opened with what the repository says. Whoever asked waits just if the markers
/// are read.
pub proof fn conflicts_are_opened_as_the_repository_says(
    conflicts: &mut Conflicts,
    buffer_id: u64,
    is_shown: bool,
    is_unmerged: bool,
    waiter: u64,
    reread: bool,
    other: u64,
)
    requires
        call_ensures(
            Conflicts::open_conflict_set,
            (conflicts, buffer_id, is_shown, is_unmerged, waiter),
            reread,
        ),
        other != buffer_id,
    ensures
        final(conflicts).sets@.contains_key(buffer_id),
        final(conflicts).sets@[buffer_id].has_conflict == reread,
        !old(conflicts).sets@.contains_key(buffer_id) ==> reread == is_unmerged,
        !is_shown ==> reread == is_unmerged,
        old(conflicts).sets@.contains_key(buffer_id) && is_shown ==> reread == old(conflicts).sets@[buffer_id].has_conflict,
        reread ==> final(conflicts).sets@[buffer_id].waiting@.len() > 0 && final(conflicts).sets@[buffer_id].waiting@.last() == waiter,
        !reread && !old(conflicts).sets@.contains_key(buffer_id) ==> final(conflicts).sets@[buffer_id].waiting@.len() == 0,
        final(conflicts).sets@.contains_key(other) <==> old(conflicts).sets@.contains_key(other),
{
    let after = final(conflicts)@;
    assert(after.contains_key(buffer_id));
    assert(final(conflicts).sets@.contains_key(buffer_id));
    assert(after[buffer_id].has_conflict == final(conflicts).sets@[buffer_id].has_conflict);
    assert(after[buffer_id].waiting == final(conflicts).sets@[buffer_id].waiting@);
    assert(after.contains_key(other) <==> final(conflicts).sets@.contains_key(other));
    assert(old(conflicts)@.contains_key(other) <==> old(conflicts).sets@.contains_key(other));
    assert(old(conflicts)@.contains_key(buffer_id) <==> old(conflicts).sets@.contains_key(
        buffer_id,
    ));
    if old(conflicts).sets@.contains_key(buffer_id) {
        assert(old(conflicts)@[buffer_id].has_conflict == old(conflicts).sets@[buffer_id].has_conflict);
    }
}

/// A file that the repository says entered or left a conflict is noted, and its markers are read
/// again where it entered one; a buffer whose conflicts are not shown is passed over.
pub proof fn conflicts_follow_the_repository(
    conflicts: &mut Conflicts,
    buffers: Vec<(u64, bool)>,
    waiter: u64,
    reread: Vec<u64>,
)
    requires
        call_ensures(Conflicts::on_repository_event, (conflicts, &buffers, waiter), reread),
        buffers@.len() == 1,
    ensures
        ({
            let (buffer, has_conflict) = buffers@[0];
            &&& final(conflicts).sets@.contains_key(buffer) <==> old(conflicts).sets@.contains_key(buffer)
            &&& old(conflicts).sets@.contains_key(buffer) ==> final(conflicts).sets@[buffer].has_conflict == has_conflict
            &&& reread@.contains(buffer) <==> old(conflicts).sets@.contains_key(buffer) && !old(conflicts).sets@[buffer].has_conflict && has_conflict
            &&& reread@.len() <= 1
        }),
{
    reveal_with_fuel(after_update, 2);
    let (buffer, has_conflict) = buffers@[0];
    assert(buffers@.drop_last() =~= Seq::<(u64, bool)>::empty());
    assert(buffers@.last() == buffers@[0]);
    let before = old(conflicts)@;
    let after = final(conflicts)@;
    assert(before.contains_key(buffer) <==> old(conflicts).sets@.contains_key(buffer));
    assert(after.contains_key(buffer) <==> final(conflicts).sets@.contains_key(buffer));
    if before.contains_key(buffer) {
        assert(before[buffer].has_conflict == old(conflicts).sets@[buffer].has_conflict);
        assert(after[buffer].has_conflict == final(conflicts).sets@[buffer].has_conflict);
        if before[buffer].has_conflict != has_conflict && has_conflict {
            assert(reread@ =~= seq![buffer]);
            assert(reread@[0] == buffer);
        }
    }
}

} // verus!
