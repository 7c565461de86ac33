//! The state of the git repositories of a project.
pub mod changed_paths;
pub mod checkpoints;
pub mod commands;
pub mod commit_data;
pub mod diff_bases;
pub mod entry_staging;
pub mod graph;
pub mod hunk_writes;
pub mod jobs;
pub mod open_diffs;
pub mod pending_ops;
pub mod queries;
pub mod registry;
pub mod repository;
pub mod sharing;
pub mod snapshot;
pub mod staging;
pub mod status;
pub mod status_scan;
pub mod wire;
pub mod worktree_events;
pub mod worktree_paths;

use vstd::prelude::*;

use crate::rel_path::RelPath;
use crate::text::to_chars;

verus! {

/// Identifies a repository within a project.
#[derive(Clone, Copy, Debug, PartialEq, Eq, PartialOrd, Ord, Hash, Structural)]
pub struct RepositoryId(pub u64);

impl RepositoryId {
    pub fn to_proto(self) -> (id: u64)
        ensures
            id == self.0,
    {
        self.0
    }

    pub fn from_proto(id: u64) -> (repository_id: Self)
        ensures
            repository_id == RepositoryId(id),
    {
        RepositoryId(id)
    }
}

/// A repository identifier survives the wire.
pub proof fn repository_id_round_trip(id: RepositoryId)
    ensures
        RepositoryId(id.0) == id,
{
}

/// Whether the repository's git directory can be used.
#[derive(Clone, Copy, Debug, PartialEq, Eq, Structural)]
pub enum GitAccess {
    /// The user owns `.git`, or can read it and it is marked as safe.
    Yes,
    /// The user does not own `.git`, and cannot read it or it is not marked as safe.
    No,
}

impl Default for GitAccess {
    fn default() -> (access: Self)
        ensures
            access == GitAccess::Yes,
    {
        GitAccess::Yes
    }
}

/// Progress of loading the commit graph.
#[derive(Clone, Copy, Debug, PartialEq, Eq, Structural)]
pub enum GitGraphEvent {
    CountUpdated(usize),
    FullyLoaded,
    LoadingError,
}

/// The set of active jobs changed.
#[derive(Clone, Copy, Debug)]
pub struct JobsUpdated;

/// The last component of the path starts with a dot.
pub open spec fn is_dot_entry(path: Seq<Seq<char>>) -> bool {
    crate::rel_path::has_file_name(path) && path.last().len() > 0 && path.last()[0] == '.'
}

/// The directory that the user thinks of as the project: the parent of an
/// internal git directory such as `.git` or `.bare`, or else the common git
/// directory itself.
pub open spec fn repo_identity(common_dir: Seq<Seq<char>>) -> Seq<Seq<char>> {
    if is_dot_entry(common_dir) {
        common_dir.drop_last()
    } else {
        common_dir
    }
}

/// The identity path of a repository, given its common git directory.
pub fn repo_identity_path(common_dir: &RelPath) -> (identity: RelPath)
    ensures
        identity@ == repo_identity(common_dir@),
{
    if let Some(name) = common_dir.file_name() {
        let chars: Vec<char> = to_chars(name.as_str());
        if chars.len() > 0 && chars[0] == '.' {
            if let Some(parent) = common_dir.parent() {
                return parent;
            }
        }
    }
    common_dir.clone()
}

/// The number of a repository travels as it is.
pub proof fn repository_ids_travel_unchanged(id: RepositoryId, wire: u64, read: RepositoryId)
    requires
        call_ensures(RepositoryId::to_proto, (id,), wire),
        call_ensures(RepositoryId::from_proto, (wire,), read),
    ensures
        wire == id.0,
        read == id,
{
}

/// A repository whose common git directory is hidden, like `.git`, stands for the directory around
/// it; any other stands for itself.
pub proof fn hidden_directories_stand_for_their_parents(
    common_dir: RelPath,
    identity: RelPath,
    parent: Seq<Seq<char>>,
    name: Seq<char>,
)
    requires
        call_ensures(repo_identity_path, (&common_dir,), identity),
        common_dir@ == parent.push(name),
    ensures
        name.len() > 0 && name[0] == '.' && name != seq!['.', '.'] ==> identity@ == parent,
        name.len() > 0 && name[0] != '.' ==> identity@ == common_dir@,
{
    reveal_strlit("..");
    assert(".."@ =~= seq!['.', '.']);
    assert(common_dir@.last() == name);
    assert(common_dir@.drop_last() =~= parent);
}

} // verus!
