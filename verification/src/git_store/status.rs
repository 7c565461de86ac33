//! File statuses and how they travel between a host and whom it shares a project with.
use vstd::prelude::*;

use crate::rel_path::RepoPath;

verus! {

/// What happened to a tracked file on one side.
#[derive(Clone, Copy, Debug, PartialEq, Eq, Structural)]
pub enum StatusCode {
    Modified,
    TypeChanged,
    Added,
    Deleted,
    Renamed,
    Copied,
    Unmodified,
}

/// What happened to an unmerged file on one side of the merge.
#[derive(Clone, Copy, Debug, PartialEq, Eq, Structural)]
pub enum UnmergedStatusCode {
    Added,
    Deleted,
    Updated,
}

#[derive(Clone, Copy, Debug, PartialEq, Eq, Structural)]
pub struct TrackedStatus {
    pub index_status: StatusCode,
    pub worktree_status: StatusCode,
}

#[derive(Clone, Copy, Debug, PartialEq, Eq, Structural)]
pub struct UnmergedStatus {
    pub first_head: UnmergedStatusCode,
    pub second_head: UnmergedStatusCode,
}

#[derive(Clone, Copy, Debug, PartialEq, Eq, Structural)]
pub enum FileStatus {
    Untracked,
    Ignored,
    Unmerged(UnmergedStatus),
    TrackedFile(TrackedStatus),
}

impl FileStatus {
    /// Whether the file is in conflict.
    pub fn is_conflicted(self) -> (result: bool)
        ensures
            result == (self is Unmerged),
    {
        matches!(self, FileStatus::Unmerged(_))
    }
}

/// The status codes of the wire format.
#[derive(Clone, Copy, Debug, PartialEq, Eq, Structural)]
pub enum GitStatus {
    Added,
    Modified,
    Conflict,
    Deleted,
    Updated,
    TypeChanged,
    Renamed,
    Copied,
    Unmodified,
}

/// A detailed status in the wire format. A code that is not known is `None`.
#[derive(Clone, Copy, Debug, PartialEq, Eq, Structural)]
pub enum GitFileStatus {
    Untracked,
    Ignored,
    Unmerged { first_head: Option<GitStatus>, second_head: Option<GitStatus> },
    TrackedFile { index_status: Option<GitStatus>, worktree_status: Option<GitStatus> },
}

/// Why a status could not be read.
#[derive(Clone, Copy, Debug, PartialEq, Eq, Structural)]
pub enum StatusError {
    /// The path is none.
    InvalidRepoPath,
    /// The code is not known.
    InvalidCode,
    /// The code cannot stand for a whole status.
    InvalidSimpleStatus(GitStatus),
    /// The code cannot stand for one side of a merge.
    InvalidUnmergedStatus(GitStatus),
    /// The code cannot stand for one side of a tracked file.
    InvalidTrackedStatus(GitStatus),
}

/// How many lines were added and deleted.
#[derive(Clone, Copy, Debug, PartialEq, Eq, Structural)]
pub struct DiffStat {
    pub added: u32,
    pub deleted: u32,
}

/// The code for one side of an unmerged file.
pub open spec fn unmerged_code(code: UnmergedStatusCode) -> GitStatus {
    match code {
        UnmergedStatusCode::Added => GitStatus::Added,
        UnmergedStatusCode::Deleted => GitStatus::Deleted,
        UnmergedStatusCode::Updated => GitStatus::Updated,
    }
}

/// The code for one side of a tracked file.
pub open spec fn tracked_code(code: StatusCode) -> GitStatus {
    match code {
        StatusCode::Added => GitStatus::Added,
        StatusCode::Deleted => GitStatus::Deleted,
        StatusCode::Modified => GitStatus::Modified,
        StatusCode::Renamed => GitStatus::Renamed,
        StatusCode::TypeChanged => GitStatus::TypeChanged,
        StatusCode::Copied => GitStatus::Copied,
        StatusCode::Unmodified => GitStatus::Unmodified,
    }
}

/// `read` is what a code says about one side of an unmerged file: the side that the
/// code stands for, or why it stands for none.
pub open spec fn reads_unmerged(
    code: Option<GitStatus>,
    read: Result<UnmergedStatusCode, StatusError>,
) -> bool {
    match (code, read) {
        (None, Err(error)) => error == StatusError::InvalidCode,
        (Some(code), Ok(side)) => unmerged_code(side) == code,
        (Some(code), Err(error)) => error == StatusError::InvalidUnmergedStatus(code)
            && forall|side: UnmergedStatusCode| #[trigger] unmerged_code(side) != code,
        (None, Ok(_)) => false,
    }
}

/// `read` is what a code says about one side of a tracked file.
pub open spec fn reads_tracked(
    code: Option<GitStatus>,
    read: Result<StatusCode, StatusError>,
) -> bool {
    match (code, read) {
        (None, Err(error)) => error == StatusError::InvalidCode,
        (Some(code), Ok(side)) => tracked_code(side) == code,
        (Some(code), Err(error)) => error == StatusError::InvalidTrackedStatus(code)
            && forall|side: StatusCode| #[trigger] tracked_code(side) != code,
        (None, Ok(_)) => false,
    }
}

/// The status that a code stands for when no detail came with it.
pub open spec fn simple_status(code: Option<GitStatus>) -> Result<FileStatus, StatusError> {
    match code {
        None => Err(StatusError::InvalidCode),
        Some(GitStatus::Added) => Ok(worktree_only(StatusCode::Added)),
        Some(GitStatus::Modified) => Ok(worktree_only(StatusCode::Modified)),
        Some(GitStatus::Deleted) => Ok(worktree_only(StatusCode::Deleted)),
        Some(GitStatus::Conflict) => Ok(
            FileStatus::Unmerged(
                UnmergedStatus {
                    first_head: UnmergedStatusCode::Updated,
                    second_head: UnmergedStatusCode::Updated,
                },
            ),
        ),
        Some(code) => Err(StatusError::InvalidSimpleStatus(code)),
    }
}

/// A tracked file that only the worktree differs in.
pub open spec fn worktree_only(worktree_status: StatusCode) -> FileStatus {
    FileStatus::TrackedFile(
        TrackedStatus { worktree_status, index_status: StatusCode::Unmodified },
    )
}

/// `result` is what a received status means.
pub open spec fn reads_status(
    simple: Option<GitStatus>,
    status: Option<GitFileStatus>,
    result: Result<FileStatus, StatusError>,
) -> bool {
    match status {
        None => result == simple_status(simple),
        Some(GitFileStatus::Untracked) => result == Ok::<FileStatus, StatusError>(
            FileStatus::Untracked,
        ),
        Some(GitFileStatus::Ignored) => result == Ok::<FileStatus, StatusError>(
            FileStatus::Ignored,
        ),
        Some(GitFileStatus::Unmerged { first_head, second_head }) => exists|
            first: Result<UnmergedStatusCode, StatusError>,
            second: Result<UnmergedStatusCode, StatusError>,
        |
            #![trigger reads_unmerged(first_head, first), reads_unmerged(second_head, second)]
            reads_unmerged(first_head, first) && reads_unmerged(second_head, second) && result == (
            match (first, second) {
                (Ok(first_head), Ok(second_head)) => Ok::<FileStatus, StatusError>(
                    FileStatus::Unmerged(UnmergedStatus { first_head, second_head }),
                ),
                (Err(error), _) => Err(error),
                (_, Err(error)) => Err(error),
            }),
        Some(GitFileStatus::TrackedFile { index_status, worktree_status }) => exists|
            index: Result<StatusCode, StatusError>,
            worktree: Result<StatusCode, StatusError>,
        |
            #![trigger reads_tracked(index_status, index), reads_tracked(worktree_status, worktree)]
            reads_tracked(index_status, index) && reads_tracked(worktree_status, worktree)
                && result == (match (index, worktree) {
                (Ok(index_status), Ok(worktree_status)) => Ok::<FileStatus, StatusError>(
                    FileStatus::TrackedFile(TrackedStatus { index_status, worktree_status }),
                ),
                (Err(error), _) => Err(error),
                (_, Err(error)) => Err(error),
            }),
    }
}

/// A status in the wire format.
pub open spec fn wire_status(status: FileStatus) -> GitFileStatus {
    match status {
        FileStatus::Untracked => GitFileStatus::Untracked,
        FileStatus::Ignored => GitFileStatus::Ignored,
        FileStatus::Unmerged(status) => GitFileStatus::Unmerged {
            first_head: Some(unmerged_code(status.first_head)),
            second_head: Some(unmerged_code(status.second_head)),
        },
        FileStatus::TrackedFile(status) => GitFileStatus::TrackedFile {
            index_status: Some(tracked_code(status.index_status)),
            worktree_status: Some(tracked_code(status.worktree_status)),
        },
    }
}

/// The one code that sums up a status: of a tracked file that of the worktree,
/// unless the worktree is unmodified.
pub open spec fn wire_simple_status(status: FileStatus) -> GitStatus {
    match status {
        FileStatus::Ignored | FileStatus::Untracked => GitStatus::Added,
        FileStatus::Unmerged(_) => GitStatus::Conflict,
        FileStatus::TrackedFile(status) => if status.worktree_status != StatusCode::Unmodified {
            tracked_code(status.worktree_status)
        } else {
            tracked_code(status.index_status)
        },
    }
}

/// Different sides of a merge have different codes.
proof fn lemma_unmerged_code_injective(a: UnmergedStatusCode, b: UnmergedStatusCode)
    requires
        unmerged_code(a) == unmerged_code(b),
    ensures
        a == b,
{
}

/// Different sides of a tracked file have different codes.
proof fn lemma_tracked_code_injective(a: StatusCode, b: StatusCode)
    requires
        tracked_code(a) == tracked_code(b),
    ensures
        a == b,
{
}

/// A status survives the wire, whatever simple code comes along with it.
pub proof fn status_round_trip(
    status: FileStatus,
    simple: Option<GitStatus>,
    result: Result<FileStatus, StatusError>,
)
    requires
        reads_status(simple, Some(wire_status(status)), result),
    ensures
        result == Ok::<FileStatus, StatusError>(status),
{
    match status {
        FileStatus::Unmerged(status) => {
            let first_head = Some(unmerged_code(status.first_head));
            let second_head = Some(unmerged_code(status.second_head));
            let (first, second) = choose|
                first: Result<UnmergedStatusCode, StatusError>,
                second: Result<UnmergedStatusCode, StatusError>,
            |
                #![trigger reads_unmerged(first_head, first), reads_unmerged(second_head, second)]
                reads_unmerged(first_head, first) && reads_unmerged(second_head, second) && result
                    == (match (first, second) {
                    (Ok(first_head), Ok(second_head)) => Ok::<FileStatus, StatusError>(
                        FileStatus::Unmerged(UnmergedStatus { first_head, second_head }),
                    ),
                    (Err(error), _) => Err(error),
                    (_, Err(error)) => Err(error),
                });
            lemma_unmerged_code_injective(first->Ok_0, status.first_head);
            lemma_unmerged_code_injective(second->Ok_0, status.second_head);
        },
        FileStatus::TrackedFile(status) => {
            let index_status = Some(tracked_code(status.index_status));
            let worktree_status = Some(tracked_code(status.worktree_status));
            let (index, worktree) = choose|
                index: Result<StatusCode, StatusError>,
                worktree: Result<StatusCode, StatusError>,
            |
                #![trigger reads_tracked(index_status, index), reads_tracked(worktree_status, worktree)]
                reads_tracked(index_status, index) && reads_tracked(worktree_status, worktree)
                    && result == (match (index, worktree) {
                    (Ok(index_status), Ok(worktree_status)) => Ok::<FileStatus, StatusError>(
                        FileStatus::TrackedFile(TrackedStatus { index_status, worktree_status }),
                    ),
                    (Err(error), _) => Err(error),
                    (_, Err(error)) => Err(error),
                });
            lemma_tracked_code_injective(index->Ok_0, status.index_status);
            lemma_tracked_code_injective(worktree->Ok_0, status.worktree_status);
        },
        _ => {},
    }
}

fn unmerged_status_from_proto(code: Option<GitStatus>) -> (read: Result<
    UnmergedStatusCode,
    StatusError,
>)
    ensures
        reads_unmerged(code, read),
{
    match code {
        None => Err(StatusError::InvalidCode),
        Some(GitStatus::Added) => Ok(UnmergedStatusCode::Added),
        Some(GitStatus::Updated) => Ok(UnmergedStatusCode::Updated),
        Some(GitStatus::Deleted) => Ok(UnmergedStatusCode::Deleted),
        Some(code) => Err(StatusError::InvalidUnmergedStatus(code)),
    }
}

fn tracked_status_from_proto(code: Option<GitStatus>) -> (read: Result<StatusCode, StatusError>)
    ensures
        reads_tracked(code, read),
{
    match code {
        None => Err(StatusError::InvalidCode),
        Some(GitStatus::Modified) => Ok(StatusCode::Modified),
        Some(GitStatus::TypeChanged) => Ok(StatusCode::TypeChanged),
        Some(GitStatus::Added) => Ok(StatusCode::Added),
        Some(GitStatus::Deleted) => Ok(StatusCode::Deleted),
        Some(GitStatus::Renamed) => Ok(StatusCode::Renamed),
        Some(GitStatus::Copied) => Ok(StatusCode::Copied),
        Some(GitStatus::Unmodified) => Ok(StatusCode::Unmodified),
        Some(code) => Err(StatusError::InvalidTrackedStatus(code)),
    }
}

/// Reads a received status. Where no detail came along, the simple code decides.
pub fn status_from_proto(simple: Option<GitStatus>, status: Option<GitFileStatus>) -> (result:
    Result<FileStatus, StatusError>)
    ensures
        reads_status(simple, status, result),
{
    match status {
        None => match simple {
            None => Err(StatusError::InvalidCode),
            Some(GitStatus::Added) => Ok(
                FileStatus::TrackedFile(
                    TrackedStatus {
                        worktree_status: StatusCode::Added,
                        index_status: StatusCode::Unmodified,
                    },
                ),
            ),
            Some(GitStatus::Modified) => Ok(
                FileStatus::TrackedFile(
                    TrackedStatus {
                        worktree_status: StatusCode::Modified,
                        index_status: StatusCode::Unmodified,
                    },
                ),
            ),
            Some(GitStatus::Conflict) => Ok(
                FileStatus::Unmerged(
                    UnmergedStatus {
                        first_head: UnmergedStatusCode::Updated,
                        second_head: UnmergedStatusCode::Updated,
                    },
                ),
            ),
            Some(GitStatus::Deleted) => Ok(
                FileStatus::TrackedFile(
                    TrackedStatus {
                        worktree_status: StatusCode::Deleted,
                        index_status: StatusCode::Unmodified,
                    },
                ),
            ),
            Some(code) => Err(StatusError::InvalidSimpleStatus(code)),
        },
        Some(GitFileStatus::Untracked) => Ok(FileStatus::Untracked),
        Some(GitFileStatus::Ignored) => Ok(FileStatus::Ignored),
        Some(GitFileStatus::Unmerged { first_head, second_head }) => {
            let first = unmerged_status_from_proto(first_head);
            let second = unmerged_status_from_proto(second_head);
            match (first, second) {
                (Ok(first_head), Ok(second_head)) => Ok(
                    FileStatus::Unmerged(UnmergedStatus { first_head, second_head }),
                ),
                (Err(error), _) => Err(error),
                (_, Err(error)) => Err(error),
            }
        },
        Some(GitFileStatus::TrackedFile { index_status, worktree_status }) => {
            let index = tracked_status_from_proto(index_status);
            let worktree = tracked_status_from_proto(worktree_status);
            match (index, worktree) {
                (Ok(index_status), Ok(worktree_status)) => Ok(
                    FileStatus::TrackedFile(TrackedStatus { index_status, worktree_status }),
                ),
                (Err(error), _) => Err(error),
                (_, Err(error)) => Err(error),
            }
        },
    }
}

/// The wire format of one side of an unmerged file.
pub fn unmerged_status_to_proto(code: UnmergedStatusCode) -> (wire: GitStatus)
    ensures
        wire == unmerged_code(code),
{
    match code {
        UnmergedStatusCode::Added => GitStatus::Added,
        UnmergedStatusCode::Deleted => GitStatus::Deleted,
        UnmergedStatusCode::Updated => GitStatus::Updated,
    }
}

/// The wire format of one side of a tracked file.
pub fn tracked_status_to_proto(code: StatusCode) -> (wire: GitStatus)
    ensures
        wire == tracked_code(code),
{
    match code {
        StatusCode::Added => GitStatus::Added,
        StatusCode::Deleted => GitStatus::Deleted,
        StatusCode::Modified => GitStatus::Modified,
        StatusCode::Renamed => GitStatus::Renamed,
        StatusCode::TypeChanged => GitStatus::TypeChanged,
        StatusCode::Copied => GitStatus::Copied,
        StatusCode::Unmodified => GitStatus::Unmodified,
    }
}

/// The wire format of a status.
pub fn status_to_proto(status: FileStatus) -> (wire: GitFileStatus)
    ensures
        wire == wire_status(status),
{
    match status {
        FileStatus::Untracked => GitFileStatus::Untracked,
        FileStatus::Ignored => GitFileStatus::Ignored,
        FileStatus::Unmerged(status) => GitFileStatus::Unmerged {
            first_head: Some(unmerged_status_to_proto(status.first_head)),
            second_head: Some(unmerged_status_to_proto(status.second_head)),
        },
        FileStatus::TrackedFile(status) => GitFileStatus::TrackedFile {
            index_status: Some(tracked_status_to_proto(status.index_status)),
            worktree_status: Some(tracked_status_to_proto(status.worktree_status)),
        },
    }
}

/// The status of one path of a repository.
#[derive(Debug)]
pub struct StatusEntry {
    pub repo_path: RepoPath,
    pub status: FileStatus,
    pub diff_stat: Option<DiffStat>,
}

pub struct StatusView {
    pub repo_path: Seq<Seq<char>>,
    pub status: FileStatus,
    pub diff_stat: Option<DiffStat>,
}

impl View for StatusEntry {
    type V = StatusView;

    open spec fn view(&self) -> StatusView {
        StatusView {
            repo_path: self.repo_path@,
            status: self.status,
            diff_stat: self.diff_stat,
        }
    }
}

impl Clone for StatusEntry {
    fn clone(&self) -> (copy: Self)
        ensures
            copy@ == self@,
    {
        StatusEntry {
            repo_path: self.repo_path.clone(),
            status: self.status,
            diff_stat: self.diff_stat,
        }
    }
}

/// A status entry in the wire format. A path that is none is `None`.
#[derive(Debug)]
pub struct ProtoStatusEntry {
    pub repo_path: Option<RepoPath>,
    pub simple_status: Option<GitStatus>,
    pub status: Option<GitFileStatus>,
    pub diff_stat_added: Option<u32>,
    pub diff_stat_deleted: Option<u32>,
}

pub struct ProtoStatusView {
    pub repo_path: Option<Seq<Seq<char>>>,
    pub simple_status: Option<GitStatus>,
    pub status: Option<GitFileStatus>,
    pub diff_stat_added: Option<u32>,
    pub diff_stat_deleted: Option<u32>,
}

impl View for ProtoStatusEntry {
    type V = ProtoStatusView;

    open spec fn view(&self) -> ProtoStatusView {
        ProtoStatusView {
            repo_path: crate::git_store::registry::opt_view(self.repo_path),
            simple_status: self.simple_status,
            status: self.status,
            diff_stat_added: self.diff_stat_added,
            diff_stat_deleted: self.diff_stat_deleted,
        }
    }
}

/// A status entry in the wire format.
pub open spec fn wire_entry(entry: StatusView) -> ProtoStatusView {
    ProtoStatusView {
        repo_path: Some(entry.repo_path),
        simple_status: Some(wire_simple_status(entry.status)),
        status: Some(wire_status(entry.status)),
        diff_stat_added: match entry.diff_stat {
            Some(stat) => Some(stat.added),
            None => None,
        },
        diff_stat_deleted: match entry.diff_stat {
            Some(stat) => Some(stat.deleted),
            None => None,
        },
    }
}

/// `result` is what a received entry means. Line counts count only if both came.
pub open spec fn reads_entry(
    wire: ProtoStatusView,
    result: Result<StatusView, StatusError>,
) -> bool {
    match wire.repo_path {
        None => result == Err::<StatusView, StatusError>(StatusError::InvalidRepoPath),
        Some(repo_path) => match result {
            Ok(entry) => reads_status(wire.simple_status, wire.status, Ok(entry.status))
                && entry.repo_path == repo_path && entry.diff_stat == (match (
                wire.diff_stat_added,
                wire.diff_stat_deleted,
            ) {
                (Some(added), Some(deleted)) => Some(DiffStat { added, deleted }),
                _ => None,
            }),
            Err(error) => reads_status(wire.simple_status, wire.status, Err(error)),
        },
    }
}

/// An entry survives the wire.
pub proof fn entry_round_trip(entry: StatusView, result: Result<StatusView, StatusError>)
    requires
        reads_entry(wire_entry(entry), result),
    ensures
        result == Ok::<StatusView, StatusError>(entry),
{
    let simple = Some(wire_simple_status(entry.status));
    match result {
        Ok(read) => {
            status_round_trip(entry.status, simple, Ok(read.status));
        },
        Err(error) => {
            status_round_trip(entry.status, simple, Err(error));
        },
    }
}

impl StatusEntry {
    /// The wire format of the entry.
    pub fn to_proto(&self) -> (wire: ProtoStatusEntry)
        ensures
            wire@ == wire_entry(self@),
    {
        let simple_status = match self.status {
            FileStatus::Ignored | FileStatus::Untracked => GitStatus::Added,
            FileStatus::Unmerged(_) => GitStatus::Conflict,
            FileStatus::TrackedFile(status) => tracked_status_to_proto(
                if status.worktree_status != StatusCode::Unmodified {
                    status.worktree_status
                } else {
                    status.index_status
                },
            ),
        };
        let (diff_stat_added, diff_stat_deleted) = match self.diff_stat {
            Some(stat) => (Some(stat.added), Some(stat.deleted)),
            None => (None, None),
        };
        ProtoStatusEntry {
            repo_path: Some(self.repo_path.clone()),
            simple_status: Some(simple_status),
            status: Some(status_to_proto(self.status)),
            diff_stat_added,
            diff_stat_deleted,
        }
    }

    /// Reads a received entry.
    pub fn from_proto(wire: &ProtoStatusEntry) -> (result: Result<Self, StatusError>)
        ensures
            reads_entry(
                wire@,
                match result {
                    Ok(entry) => Ok(entry@),
                    Err(error) => Err(error),
                },
            ),
    {
        let repo_path = match &wire.repo_path {
            Some(repo_path) => repo_path.clone(),
            None => {
                return Err(StatusError::InvalidRepoPath);
            },
        };
        let status = match status_from_proto(wire.simple_status, wire.status) {
            Ok(status) => status,
            Err(error) => {
                return Err(error);
            },
        };
        let diff_stat = match (wire.diff_stat_added, wire.diff_stat_deleted) {
            (Some(added), Some(deleted)) => Some(DiffStat { added, deleted }),
            _ => None,
        };
        Ok(StatusEntry { repo_path, status, diff_stat })
    }
}

/// A bare code stands for a change in the worktree alone, or for a conflict in which both sides
/// updated the file. No other code can stand alone.
pub proof fn bare_codes_speak_of_the_worktree(
    simple: Option<GitStatus>,
    result: Result<FileStatus, StatusError>,
)
    requires
        call_ensures(status_from_proto, (simple, None), result),
    ensures
        simple is None ==> result == Err::<FileStatus, StatusError>(StatusError::InvalidCode),
        simple == Some(GitStatus::Added) ==> (result matches Ok(FileStatus::TrackedFile(followed))
            && followed.index_status is Unmodified && followed.worktree_status is Added),
        simple == Some(GitStatus::Modified) ==> (result matches Ok(FileStatus::TrackedFile(followed))
            && followed.index_status is Unmodified && followed.worktree_status is Modified),
        simple == Some(GitStatus::Deleted) ==> (result matches Ok(FileStatus::TrackedFile(followed))
            && followed.index_status is Unmodified && followed.worktree_status is Deleted),
        simple == Some(GitStatus::Conflict) ==> (result matches Ok(FileStatus::Unmerged(unmerged))
            && unmerged.first_head is Updated && unmerged.second_head is Updated),
        simple matches Some(code) ==> (code is Updated || code is TypeChanged || code is Renamed
            || code is Copied || code is Unmodified) ==> result == Err::<FileStatus, StatusError>(
            StatusError::InvalidSimpleStatus(code),
        ),
{
}

/// Every side of a tracked or unmerged file travels as the code of the same name.
pub proof fn sides_travel_under_their_names(
    followed: StatusCode,
    tracked_wire: GitStatus,
    unmerged: UnmergedStatusCode,
    unmerged_wire: GitStatus,
)
    requires
        call_ensures(tracked_status_to_proto, (followed,), tracked_wire),
        call_ensures(unmerged_status_to_proto, (unmerged,), unmerged_wire),
    ensures
        followed is Modified <==> tracked_wire is Modified,
        followed is TypeChanged <==> tracked_wire is TypeChanged,
        followed is Added <==> tracked_wire is Added,
        followed is Deleted <==> tracked_wire is Deleted,
        followed is Renamed <==> tracked_wire is Renamed,
        followed is Copied <==> tracked_wire is Copied,
        followed is Unmodified <==> tracked_wire is Unmodified,
        unmerged is Added <==> unmerged_wire is Added,
        unmerged is Deleted <==> unmerged_wire is Deleted,
        unmerged is Updated <==> unmerged_wire is Updated,
{
}

/// A status that is sent is read as the same status, and it is sent with each side in its place.
pub proof fn statuses_travel_unchanged(
    status: FileStatus,
    wire: GitFileStatus,
    simple: Option<GitStatus>,
    result: Result<FileStatus, StatusError>,
)
    requires
        call_ensures(status_to_proto, (status,), wire),
        call_ensures(status_from_proto, (simple, Some(wire)), result),
    ensures
        result == Ok::<FileStatus, StatusError>(status),
        status is Untracked <==> wire is Untracked,
        status is Ignored <==> wire is Ignored,
        status matches FileStatus::TrackedFile(followed) ==> (wire matches GitFileStatus::TrackedFile {
            index_status,
            worktree_status,
        } && (index_status == Some(GitStatus::Added) <==> followed.index_status is Added) && (
        worktree_status == Some(GitStatus::Added) <==> followed.worktree_status is Added)),
        status matches FileStatus::Unmerged(unmerged) ==> (wire matches GitFileStatus::Unmerged {
            first_head,
            second_head,
        } && (first_head == Some(GitStatus::Updated) <==> unmerged.first_head is Updated) && (
        second_head == Some(GitStatus::Updated) <==> unmerged.second_head is Updated)),
{
    status_round_trip(status, simple, result);
}

/// A detail that names a code which cannot stand there is refused, the first side before the
/// second.
pub proof fn impossible_codes_are_refused(
    simple: Option<GitStatus>,
    first: Option<GitStatus>,
    second: Option<GitStatus>,
    unmerged: Result<FileStatus, StatusError>,
    followed: Result<FileStatus, StatusError>,
)
    requires
        call_ensures(
            status_from_proto,
            (
                simple,
                Some(GitFileStatus::Unmerged { first_head: first, second_head: second }),
            ),
            unmerged,
        ),
        call_ensures(
            status_from_proto,
            (
                simple,
                Some(GitFileStatus::TrackedFile { index_status: first, worktree_status: second }),
            ),
            followed,
        ),
    ensures
        first is None ==> unmerged == Err::<FileStatus, StatusError>(StatusError::InvalidCode)
            && followed == Err::<FileStatus, StatusError>(StatusError::InvalidCode),
        first matches Some(code) ==> !(code is Added || code is Deleted || code is Updated)
            ==> unmerged == Err::<FileStatus, StatusError>(
            StatusError::InvalidUnmergedStatus(code),
        ),
        first matches Some(code) ==> (code is Conflict || code is Updated) ==> followed == Err::<
            FileStatus,
            StatusError,
        >(StatusError::InvalidTrackedStatus(code)),
{
    let first_unmerged: Result<UnmergedStatusCode, StatusError> = choose|
        a: Result<UnmergedStatusCode, StatusError>,
    | #[trigger] reads_unmerged(first, a);
    if let Some(code) = first {
        assert(unmerged_code(UnmergedStatusCode::Added) is Added);
        assert(tracked_code(StatusCode::Added) is Added);
    }
}

/// An entry that is sent is read as the same entry. Along with its status travels one code for
/// those who read no details: the change in the worktree, or that in the index where the worktree
/// has none; what git does not track counts as added, and what it could not merge as a conflict.
pub proof fn entries_travel_unchanged(
    entry: StatusEntry,
    wire: ProtoStatusEntry,
    result: Result<StatusEntry, StatusError>,
)
    requires
        call_ensures(StatusEntry::to_proto, (&entry,), wire),
        call_ensures(StatusEntry::from_proto, (&wire,), result),
    ensures
        result matches Ok(read) && read.repo_path@ == entry.repo_path@ && read.status == entry.status
            && read.diff_stat == entry.diff_stat,
        entry.status is Untracked || entry.status is Ignored ==> wire.simple_status == Some(
            GitStatus::Added,
        ),
        entry.status is Unmerged ==> wire.simple_status == Some(GitStatus::Conflict),
        entry.status matches FileStatus::TrackedFile(followed) ==> {
            &&& followed.worktree_status is Modified ==> wire.simple_status == Some(
                GitStatus::Modified,
            )
            &&& followed.worktree_status is Deleted ==> wire.simple_status == Some(
                GitStatus::Deleted,
            )
            &&& followed.worktree_status is Added ==> wire.simple_status == Some(GitStatus::Added)
            &&& followed.worktree_status is Unmodified && followed.index_status is Added
                ==> wire.simple_status == Some(GitStatus::Added)
            &&& followed.worktree_status is Unmodified && followed.index_status is Renamed
                ==> wire.simple_status == Some(GitStatus::Renamed)
            &&& followed.worktree_status is Unmodified && followed.index_status is Modified
                ==> wire.simple_status == Some(GitStatus::Modified)
        },
        entry.diff_stat matches Some(stat) ==> wire.diff_stat_added == Some(stat.added)
            && wire.diff_stat_deleted == Some(stat.deleted),
{
    entry_round_trip(
        entry@,
        match result {
            Ok(read) => Ok(read@),
            Err(error) => Err(error),
        },
    );
    assert(wire@.simple_status == wire.simple_status);
}

/// Of an entry whose path is none nothing is read, and line counts count only together.
pub proof fn incomplete_entries_are_read_in_part(
    wire: ProtoStatusEntry,
    result: Result<StatusEntry, StatusError>,
)
    requires
        call_ensures(StatusEntry::from_proto, (&wire,), result),
    ensures
        wire.repo_path is None ==> result == Err::<StatusEntry, StatusError>(
            StatusError::InvalidRepoPath,
        ),
        result matches Ok(entry) ==> {
            &&& wire.repo_path matches Some(path) && entry.repo_path@ == path@
            &&& (entry.diff_stat is Some <==> wire.diff_stat_added is Some
                && wire.diff_stat_deleted is Some)
            &&& (entry.diff_stat matches Some(stat) ==> wire.diff_stat_added == Some(stat.added)
                && wire.diff_stat_deleted == Some(stat.deleted))
        },
{
    assert(wire@.repo_path is None <==> wire.repo_path is None);
}

/// A file is in conflict just if it is unmerged.
pub proof fn unmerged_files_are_in_conflict(status: FileStatus, conflicted: bool)
    requires
        call_ensures(FileStatus::is_conflicted, (status,), conflicted),
    ensures
        conflicted == match status {
            FileStatus::Unmerged(_) => true,
            FileStatus::Untracked | FileStatus::Ignored | FileStatus::TrackedFile(_) => false,
        },
{
}

} // verus!
