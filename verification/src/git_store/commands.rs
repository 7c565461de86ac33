//! Git commands that users run: how they are shown while they run, and what follows from
//! their outcome.
use vstd::prelude::*;

use crate::git_store::changed_paths::views;
use crate::git_store::diff_bases::same_opt_text;
use crate::git_store::jobs::{path_texts, GitJobKey, KeyView};
use crate::git_store::snapshot::{clone_paths, entry_views, RepositorySnapshot};
use crate::git_store::status::StatusView;
use crate::git_store::wire::{
    branch_views, same_branches, same_stashes, stash_views, Branch, Oid, StashEntry,
};
use crate::git_store::GitAccess;
use crate::rel_path::{join_slashes, texts, RelPath, RepoPath};
use crate::text::{join_texts, joined, same_text, text_view, to_chars};
use crate::text_lines::{
    lines, lines_from, lines_of, nothing_to_trim, trim, trimmed, without_return,
};

verus! {

#[derive(Clone, Copy, Debug, PartialEq, Eq, Structural)]
pub enum PushOptions {
    SetUpstream,
    Force,
}

/// How far a reset goes.
#[derive(Clone, Copy, Debug, PartialEq, Eq, Structural)]
pub enum ResetMode {
    /// The index and the files stay.
    Soft,
    /// The files stay.
    Mixed,
}

/// What a job of a repository asks git for. Absolute paths, flags, options and kinds of
/// comparisons are given as they are shown.
#[derive(Debug)]
#[allow(inconsistent_fields)]
pub enum GitCommand {
    CheckoutFiles { commit: String, paths: Vec<RepoPath> },
    RunHook { hook: String },
    /// The commit is made only if the job of the hook succeeded.
    Commit {
        message: String,
        name_and_email: Option<(String, String)>,
        options: String,
        hook_job: u64,
    },
    Fetch { options: String },
    Push {
        branch: String,
        remote_branch: String,
        remote: String,
        options: Option<PushOptions>,
    },
    Pull { branch: Option<String>, remote: String, rebase: bool },
    CreateRemote { remote_name: String, remote_url: String },
    RemoveRemote { remote_name: String },
    /// A worktree without a branch is detached.
    CreateWorktree { branch_name: Option<String>, base_sha: Option<String>, path: String },
    CheckoutBranchInWorktree { branch_name: String, worktree_path: String, create: bool },
    RemoveWorktree { path: String, force: bool },
    RenameWorktree { old_path: String, new_path: String },
    CreateBranch { branch_name: String, base_branch: Option<String> },
    ChangeBranch { branch_name: String },
    DeleteBranch { flag: String, branch_name: String },
    RenameBranch { branch: String, new_name: String },
    StageEntries { paths: Vec<RepoPath> },
    UnstageEntries { paths: Vec<RepoPath> },
    SetIndexText { path: RepoPath, content: Option<String> },
    OpenCommitBuffer,
    Reset { commit: String, mode: ResetMode },
    Show { commit: String },
    LoadCommitDiff { commit: String },
    FileHistoryChangedFiles { paths: Vec<RepoPath>, commit_limit: usize },
    StashEntries { paths: Vec<RepoPath> },
    /// Without an index the latest entry is meant.
    StashPop { index: Option<usize> },
    StashApply { index: Option<usize> },
    StashDrop { index: Option<usize> },
    AddPathToGitignore { path: RepoPath, is_dir: bool },
    GetRemotes(RemotesQuery),
    Branches,
    Worktrees,
    HeadSha,
    EditRef(RefEdit),
    RepairWorktrees,
    CreateArchiveCheckpoint,
    RestoreArchiveCheckpoint { staged_sha: String, unstaged_sha: String },
    DefaultBranch { include_remote_name: bool },
    DiffTree { diff_type: String },
    Diff { diff_type: String },
    CheckForPushedCommits,
    Checkpoint,
    RestoreCheckpoint { checkpoint: Oid },
    CompareCheckpoints { left: Oid, right: Oid },
    DiffCheckpoints { base_checkpoint: Oid, target_checkpoint: Oid },
    LoadStagedText { path: RepoPath },
    LoadCommittedText { path: RepoPath },
    LoadCommitTemplateText,
    LoadBlobContent { oid: Oid },
    GetPermalinkToLine,
    ReloadBufferDiffBases,
    PathsChanged,
    Access,
    /// Nothing but that everything before it is done.
    Barrier,
}

pub open spec fn push_flag(options: Option<PushOptions>) -> Seq<char> {
    match options {
        Some(PushOptions::SetUpstream) => " --set-upstream"@,
        Some(PushOptions::Force) => " --force-with-lease"@,
        None => ""@,
    }
}

/// How a command is shown while it runs. Commands that are not listed are not shown.
pub open spec fn status_text(command: GitCommand) -> Option<Seq<char>> {
    match command {
        GitCommand::CheckoutFiles { commit, .. } => Some("git checkout "@ + commit@),
        GitCommand::RunHook { hook } => Some("git hook "@ + hook@),
        GitCommand::Commit { .. } => Some("git commit"@),
        GitCommand::Fetch { .. } => Some("git fetch"@),
        GitCommand::Push { branch, remote_branch, remote, options } => Some(
            "git push "@ + push_flag(options) + " "@ + remote@ + " "@ + branch@ + ":"@
                + remote_branch@,
        ),
        GitCommand::Pull { branch, remote, rebase } => {
            let start = if rebase {
                "git pull"@ + " --rebase"@
            } else {
                "git pull"@
            };
            match branch {
                Some(branch) => Some(start + " "@ + remote@ + " "@ + branch@),
                None => Some(start + " "@ + remote@),
            }
        },
        GitCommand::CreateRemote { remote_name, remote_url } => Some(
            "git remote add "@ + remote_name@ + " "@ + remote_url@,
        ),
        GitCommand::RemoveRemote { remote_name } => Some("git remove remote "@ + remote_name@),
        GitCommand::CreateWorktree { branch_name, .. } => match branch_name {
            Some(branch_name) => Some("git worktree add: "@ + branch_name@),
            None => Some("git worktree add (detached)"@),
        },
        GitCommand::CheckoutBranchInWorktree { branch_name, create, .. } => if create {
            Some("git checkout -b "@ + branch_name@)
        } else {
            Some("git checkout "@ + branch_name@)
        },
        GitCommand::RemoveWorktree { path, .. } => Some("git worktree remove: "@ + path@),
        GitCommand::RenameWorktree { old_path, .. } => Some("git worktree move: "@ + old_path@),
        GitCommand::CreateBranch { branch_name, base_branch } => match base_branch {
            Some(base) => Some("git switch -c "@ + branch_name@ + " "@ + base@),
            None => Some("git switch -c "@ + branch_name@),
        },
        GitCommand::ChangeBranch { branch_name } => Some("git switch "@ + branch_name@),
        GitCommand::DeleteBranch { flag, branch_name } => Some(
            "git branch "@ + flag@ + " "@ + branch_name@,
        ),
        GitCommand::RenameBranch { branch, new_name } => Some(
            "git branch -m "@ + branch@ + " "@ + new_name@,
        ),
        GitCommand::StageEntries { paths } => Some("git add "@ + shown_paths(paths@)),
        GitCommand::UnstageEntries { paths } => Some("git reset "@ + shown_paths(paths@)),
        _ => None,
    }
}

/// Paths as they are shown, with spaces between them.
pub open spec fn shown_paths(paths: Seq<RepoPath>) -> Seq<char> {
    joined(views(paths).map_values(|path: Seq<Seq<char>>| join_slashes(path)), " "@)
}

/// The key of a job: those with the same key do the same work.
pub open spec fn command_key(command: GitCommand) -> Option<KeyView> {
    match command {
        GitCommand::StageEntries { paths } => Some(KeyView::WriteIndex(views(paths@))),
        GitCommand::UnstageEntries { paths } => Some(KeyView::WriteIndex(views(paths@))),
        GitCommand::SetIndexText { path, .. } => Some(KeyView::WriteIndex(seq![path@])),
        GitCommand::ReloadBufferDiffBases => Some(KeyView::ReloadBufferDiffBases),
        GitCommand::PathsChanged => Some(KeyView::RefreshStatuses),
        _ => None,
    }
}

/// One text behind the other.
fn behind(start: &str, rest: &str) -> (text: String)
    ensures
        text@ == start@ + rest@,
{
    let mut text: String = start.to_owned();
    text.append(rest);
    text
}

/// Two texts behind a first one, with a space between them.
fn two_behind(start: &str, first: &str, second: &str) -> (text: String)
    ensures
        text@ == start@ + first@ + " "@ + second@,
{
    let mut text: String = start.to_owned();
    text.append(first);
    text.append(" ");
    text.append(second);
    text
}

/// The paths behind the start of a command.
fn paths_behind(start: &str, paths: &Vec<RepoPath>) -> (text: String)
    ensures
        text@ == start@ + shown_paths(paths@),
{
    let texts: Vec<String> = path_texts(paths);
    behind(start, join_texts(&texts, " ").as_str())
}

impl GitCommand {
    /// What is shown while the command runs, if anything is.
    pub fn status(&self) -> (text: Option<String>)
        ensures
            text_view(text) == status_text(*self),
    {
        match self {
            GitCommand::CheckoutFiles { commit, .. } => Some(
                behind("git checkout ", commit.as_str()),
            ),
            GitCommand::RunHook { hook } => Some(behind("git hook ", hook.as_str())),
            GitCommand::Commit { .. } => Some("git commit".to_owned()),
            GitCommand::Fetch { .. } => Some("git fetch".to_owned()),
            GitCommand::Push { branch, remote_branch, remote, options } => {
                let flag: &str = match options {
                    Some(PushOptions::SetUpstream) => " --set-upstream",
                    Some(PushOptions::Force) => " --force-with-lease",
                    None => "",
                };
                let mut text: String = two_behind("git push ", flag, remote.as_str());
                text.append(" ");
                text.append(branch.as_str());
                text.append(":");
                text.append(remote_branch.as_str());
                Some(text)
            },
            GitCommand::Pull { branch, remote, rebase } => {
                let mut text: String = "git pull".to_owned();
                if *rebase {
                    text.append(" --rebase");
                }
                text.append(" ");
                text.append(remote.as_str());
                if let Some(branch) = branch {
                    text.append(" ");
                    text.append(branch.as_str());
                }
                Some(text)
            },
            GitCommand::CreateRemote { remote_name, remote_url } => Some(
                two_behind("git remote add ", remote_name.as_str(), remote_url.as_str()),
            ),
            GitCommand::RemoveRemote { remote_name } => Some(
                behind("git remove remote ", remote_name.as_str()),
            ),
            GitCommand::CreateWorktree { branch_name, .. } => match branch_name {
                Some(branch_name) => Some(behind("git worktree add: ", branch_name.as_str())),
                None => Some("git worktree add (detached)".to_owned()),
            },
            GitCommand::CheckoutBranchInWorktree { branch_name, create, .. } => if *create {
                Some(behind("git checkout -b ", branch_name.as_str()))
            } else {
                Some(behind("git checkout ", branch_name.as_str()))
            },
            GitCommand::RemoveWorktree { path, .. } => Some(
                behind("git worktree remove: ", path.as_str()),
            ),
            GitCommand::RenameWorktree { old_path, .. } => Some(
                behind("git worktree move: ", old_path.as_str()),
            ),
            GitCommand::CreateBranch { branch_name, base_branch } => match base_branch {
                Some(base) => Some(
                    two_behind("git switch -c ", branch_name.as_str(), base.as_str()),
                ),
                None => Some(behind("git switch -c ", branch_name.as_str())),
            },
            GitCommand::ChangeBranch { branch_name } => Some(
                behind("git switch ", branch_name.as_str()),
            ),
            GitCommand::DeleteBranch { flag, branch_name } => Some(
                two_behind("git branch ", flag.as_str(), branch_name.as_str()),
            ),
            GitCommand::RenameBranch { branch, new_name } => Some(
                two_behind("git branch -m ", branch.as_str(), new_name.as_str()),
            ),
            GitCommand::StageEntries { paths } => Some(paths_behind("git add ", paths)),
            GitCommand::UnstageEntries { paths } => Some(paths_behind("git reset ", paths)),
            _ => None,
        }
    }

    /// The key of the job, if only the last one with it has to run.
    pub fn key(&self) -> (key: Option<GitJobKey>)
        ensures
            match key {
                Some(key) => command_key(*self) == Some(key@),
                None => command_key(*self) is None,
            },
    {
        match self {
            GitCommand::StageEntries { paths } => Some(GitJobKey::WriteIndex(clone_paths(paths))),
            GitCommand::UnstageEntries { paths } => Some(
                GitJobKey::WriteIndex(clone_paths(paths)),
            ),
            GitCommand::SetIndexText { path, .. } => {
                let mut paths: Vec<RepoPath> = Vec::new();
                paths.push(path.clone());
                assert(views(paths@) =~= seq![path@]);
                Some(GitJobKey::WriteIndex(paths))
            },
            GitCommand::ReloadBufferDiffBases => Some(GitJobKey::ReloadBufferDiffBases),
            GitCommand::PathsChanged => Some(GitJobKey::RefreshStatuses),
            _ => None,
        }
    }
}

/// Which remotes are asked for.
#[derive(Debug)]
pub enum RemotesQuery {
    /// The one that a branch is pushed to.
    PushRemote(String),
    /// The one that a branch follows.
    BranchRemote(String),
    All,
}

/// What to ask for first when the remotes of a branch are wanted.
pub fn remotes_query(branch_name: Option<String>, is_push: bool) -> (query: RemotesQuery)
    ensures
        query == match branch_name {
            Some(branch) => if is_push {
                RemotesQuery::PushRemote(branch)
            } else {
                RemotesQuery::BranchRemote(branch)
            },
            None => RemotesQuery::All,
        },
{
    match branch_name {
        Some(branch) => if is_push {
            RemotesQuery::PushRemote(branch)
        } else {
            RemotesQuery::BranchRemote(branch)
        },
        None => RemotesQuery::All,
    }
}

/// The remotes of a branch: its own alone, or all where it has none of its own.
pub fn get_remotes(own: Option<String>, all: Vec<String>) -> (remotes: Vec<String>)
    ensures
        remotes@ == match own {
            Some(remote) => seq![remote],
            None => all@,
        },
{
    match own {
        Some(remote) => {
            let mut remotes: Vec<String> = Vec::new();
            remotes.push(remote);
            assert(remotes@ =~= seq![remote]);
            remotes
        },
        None => all,
    }
}

/// A change of a reference.
#[derive(Debug)]
pub enum RefEdit {
    Update { ref_name: String, commit: String },
    Delete { ref_name: String },
}

/// A reference without a commit is deleted.
pub fn edit_ref(ref_name: String, commit: Option<String>) -> (edit: RefEdit)
    ensures
        edit == match commit {
            Some(commit) => RefEdit::Update { ref_name, commit },
            None => RefEdit::Delete { ref_name },
        },
{
    match commit {
        Some(commit) => RefEdit::Update { ref_name, commit },
        None => RefEdit::Delete { ref_name },
    }
}

/// The repository can be used if git answers when asked for its status.
pub fn access(status_is_known: bool) -> (access: GitAccess)
    ensures
        access == if status_is_known {
            GitAccess::Yes
        } else {
            GitAccess::No
        },
{
    if status_is_known {
        GitAccess::Yes
    } else {
        GitAccess::No
    }
}

/// What is written into an ignore file for a path. A directory ends in a slash.
pub open spec fn ignore_pattern(path: Seq<Seq<char>>, is_dir: bool) -> Seq<char> {
    if is_dir {
        join_slashes(path) + "/"@
    } else {
        join_slashes(path)
    }
}

/// One of the lines is the pattern, but for white space around it.
pub open spec fn ignores(content: Seq<char>, pattern: Seq<char>) -> bool {
    exists|i: int|
        0 <= i < lines_of(content).len() && trimmed(#[trigger] lines_of(content)[i]) == pattern
}

/// The content with the pattern on a line of its own at the end.
pub open spec fn with_pattern(content: Seq<char>, pattern: Seq<char>) -> Seq<char> {
    if content.len() == 0 {
        pattern + "\n"@
    } else if content.last() == '\n' {
        content + pattern + "\n"@
    } else {
        content + "\n"@ + pattern + "\n"@
    }
}

/// Adds a path to the content of an ignore file, unless it is there.
pub fn add_path_to_gitignore(content: &str, repo_path: &RepoPath, is_dir: bool) -> (new_content:
    Option<String>)
    ensures
        text_view(new_content) == if ignores(content@, ignore_pattern(repo_path@, is_dir)) {
            None
        } else {
            Some(with_pattern(content@, ignore_pattern(repo_path@, is_dir)))
        },
{
    let mut pattern: String = repo_path.as_unix_str();
    if is_dir {
        pattern.append("/");
    }
    assert(pattern@ == ignore_pattern(repo_path@, is_dir));
    let present: Vec<String> = lines(content);
    let mut i: usize = 0;
    while i < present.len()
        invariant
            i <= present@.len(),
            texts(present@) == lines_of(content@),
            pattern@ == ignore_pattern(repo_path@, is_dir),
            forall|k: int|
                0 <= k < i ==> trimmed(#[trigger] lines_of(content@)[k]) != pattern@,
        decreases present@.len() - i,
    {
        assert(texts(present@)[i as int] == present@[i as int]@);
        if same_text(trim(present[i].as_str()).as_str(), pattern.as_str()) {
            assert(ignores(content@, pattern@));
            return None;
        }
        i += 1;
    }
    let chars: Vec<char> = to_chars(content);
    let mut new_content: String = content.to_owned();
    if chars.len() > 0 && chars[chars.len() - 1] != '\n' {
        new_content.append("\n");
    }
    new_content.append(pattern.as_str());
    new_content.append("\n");
    assert(content@.len() == 0 ==> content@ + pattern@ =~= pattern@);
    Some(new_content)
}

/// The lines of a text that ends a line, and of what follows it, are read apart.
proof fn lemma_lines_apart(current: Seq<char>, a: Seq<char>, b: Seq<char>)
    requires
        a.len() > 0,
        a.last() == '\n',
    ensures
        lines_from(current, a + b) == lines_from(current, a) + lines_of(b),
    decreases a.len(),
{
    assert((a + b)[0] == a[0]);
    assert((a + b).skip(1) =~= a.skip(1) + b);
    if a.len() == 1 {
        assert(a.skip(1) + b =~= b);
        let line = seq![without_return(current)];
        assert(a.skip(1) =~= Seq::<char>::empty());
        assert(lines_from(Seq::empty(), a.skip(1)) =~= Seq::<Seq<char>>::empty());
        assert(lines_from(current, a) =~= line + Seq::<Seq<char>>::empty());
        assert(line + Seq::<Seq<char>>::empty() =~= line);
    } else if a[0] == '\n' {
        lemma_lines_apart(Seq::empty(), a.skip(1), b);
        let line = seq![without_return(current)];
        let rest = lines_from(Seq::empty(), a.skip(1));
        assert(line + (rest + lines_of(b)) =~= line + rest + lines_of(b));
    } else {
        lemma_lines_apart(current.push(a[0]), a.skip(1), b);
    }
}

/// One line is read as it is.
proof fn lemma_one_line(current: Seq<char>, line: Seq<char>)
    requires
        !line.contains('\n'),
    ensures
        lines_from(current, line.push('\n')) == seq![without_return(current + line)],
    decreases line.len(),
{
    let text = line.push('\n');
    if line.len() == 0 {
        assert(current + line =~= current);
        assert(text.skip(1) =~= Seq::<char>::empty());
        assert(lines_from(Seq::empty(), text.skip(1)) =~= Seq::<Seq<char>>::empty());
        assert(lines_from(current, text) =~= seq![without_return(current)]);
    } else {
        assert(line.contains(line[0]));
        assert(text.skip(1) =~= line.skip(1).push('\n'));
        assert forall|c: char| line.skip(1).contains(c) implies line.contains(c) by {
            let k = line.skip(1).index_of(c);
            assert(line[k + 1] == c);
        }
        lemma_one_line(current.push(line[0]), line.skip(1));
        assert(current.push(line[0]) + line.skip(1) =~= current + line);
    }
}

/// A newline behind a text that does not end a line makes no more lines of it.
proof fn lemma_ended_line(current: Seq<char>, text: Seq<char>)
    requires
        text.len() > 0 ==> text.last() != '\n',
        current.len() + text.len() > 0,
    ensures
        lines_from(current, text.push('\n')).len() == lines_from(current, text).len(),
    decreases text.len(),
{
    let ended = text.push('\n');
    if text.len() == 0 {
        assert(ended.skip(1) =~= Seq::<char>::empty());
        assert(lines_from(Seq::empty(), ended.skip(1)) =~= Seq::<Seq<char>>::empty());
    } else {
        assert(ended.skip(1) =~= text.skip(1).push('\n'));
        assert(text.len() > 1 ==> text.skip(1).last() == text.last());
        if text[0] == '\n' {
            lemma_ended_line(Seq::empty(), text.skip(1));
        } else {
            lemma_ended_line(current.push(text[0]), text.skip(1));
        }
    }
}

/// A pattern that is one line without white space around it is found once it was added. Nothing
/// before it changes, and there is one line more.
proof fn lemma_pattern_is_found(content: Seq<char>, pattern: Seq<char>)
    requires
        !pattern.contains('\n'),
        trimmed(pattern) == pattern,
    ensures
        ignores(with_pattern(content, pattern), pattern),
        lines_of(with_pattern(content, pattern)).len() == lines_of(content).len() + 1,
        content.is_prefix_of(with_pattern(content, pattern)),
{
    reveal_strlit("\n");
    assert("\n"@ =~= seq!['\n']);
    nothing_to_trim(pattern);
    let added = pattern.push('\n');
    assert(pattern + "\n"@ =~= added);
    lemma_one_line(Seq::empty(), pattern);
    assert(Seq::<char>::empty() + pattern =~= pattern);
    let all = lines_of(with_pattern(content, pattern));
    if content.len() == 0 {
        assert(all[0] == pattern);
        assert(content =~= with_pattern(content, pattern).subrange(0, 0));
    } else if content.last() == '\n' {
        assert(with_pattern(content, pattern) =~= content + added);
        lemma_lines_apart(Seq::empty(), content, added);
        assert(all[lines_of(content).len() as int] == pattern);
    } else {
        assert(with_pattern(content, pattern) =~= content.push('\n') + added);
        lemma_lines_apart(Seq::empty(), content.push('\n'), added);
        lemma_ended_line(Seq::empty(), content);
        assert(all[lines_of(content.push('\n')).len() as int] == pattern);
    }
}

/// The content of an ignore file after a path was added to it.
pub open spec fn ignoring(content: Seq<char>, path: Seq<Seq<char>>, is_dir: bool) -> Seq<char> {
    if ignores(content, ignore_pattern(path, is_dir)) {
        content
    } else {
        with_pattern(content, ignore_pattern(path, is_dir))
    }
}

/// Adding a path to an ignore file twice is adding it once: the second time there is nothing to
/// save. Nothing that was there changes, there is at most one line more, and one of the lines is
/// the path. The path has to be one line without white space around it.
pub proof fn paths_are_ignored_once(content: Seq<char>, path: Seq<Seq<char>>, is_dir: bool)
    requires
        !join_slashes(path).contains('\n'),
        trimmed(join_slashes(path)) == join_slashes(path),
    ensures
        ({
            let once = ignoring(content, path, is_dir);
            &&& ignores(once, ignore_pattern(path, is_dir))
            &&& ignoring(once, path, is_dir) == once
            &&& content.is_prefix_of(once)
            &&& lines_of(once).len() <= lines_of(content).len() + 1
        }),
{
    let path_text = join_slashes(path);
    let pattern = ignore_pattern(path, is_dir);
    reveal_strlit("/");
    assert("/"@ =~= seq!['/']);
    nothing_to_trim(path_text);
    nothing_to_trim(pattern);
    assert(!pattern.contains('\n')) by {
        if pattern.contains('\n') {
            let k = pattern.index_of('\n');
            if k < path_text.len() {
                assert(path_text[k] == '\n');
            }
        }
    }
    if !ignores(content, pattern) {
        lemma_pattern_is_found(content, pattern);
    } else {
        assert(content =~= content.subrange(0, content.len() as int));
    }
}

/// The path of a source file in the repository of its package, given the package's directory
/// on disk and its path in the repository.
pub fn path_in_vcs(path: &RelPath, package_dir: &RelPath, package_path_in_vcs: &RelPath) -> (in_vcs:
    Option<RepoPath>)
    ensures
        in_vcs is Some <==> crate::rel_path::has_prefix(path@, package_dir@),
        in_vcs matches Some(in_vcs) ==> in_vcs@ == package_path_in_vcs@ + path@.skip(
            package_dir@.len() as int,
        ),
{
    match path.strip_prefix(package_dir) {
        Some(rest) => Some(package_path_in_vcs.join(&rest)),
        None => None,
    }
}

/// The paths of all statuses.
pub open spec fn status_paths(entries: Seq<StatusView>) -> Seq<Seq<Seq<char>>> {
    entries.map_values(|entry: StatusView| entry.repo_path)
}

/// The first branch that is checked out.
pub open spec fn head_branch(branches: Seq<Branch>) -> Option<Branch>
    decreases branches.len(),
{
    if branches.len() == 0 {
        None
    } else if branches[0].is_head {
        Some(branches[0])
    } else {
        head_branch(branches.skip(1))
    }
}

impl RepositorySnapshot {
    /// The paths of everything that has a status: what stashing all puts away.
    pub fn stash_all(&self) -> (paths: Vec<RepoPath>)
        ensures
            views(paths@) == status_paths(entry_views(self.statuses_by_path@)),
    {
        let mut paths: Vec<RepoPath> = Vec::new();
        let mut i: usize = 0;
        while i < self.statuses_by_path.len()
            invariant
                i <= self.statuses_by_path@.len(),
                paths@.len() == i,
                forall|k: int|
                    0 <= k < i ==> (#[trigger] paths@[k])@ == self.statuses_by_path@[k]@.repo_path,
            decreases self.statuses_by_path@.len() - i,
        {
            paths.push(self.statuses_by_path[i].repo_path.clone());
            i += 1;
        }
        assert(views(paths@) =~= status_paths(entry_views(self.statuses_by_path@)));
        paths
    }

    /// The stash was read again. Says whether it is another one than before.
    pub fn stash_read(&mut self, stash_entries: Vec<StashEntry>) -> (changed: bool)
        ensures
            changed == (stash_views(old(self).stash_entries@) != stash_views(stash_entries@)),
            *final(self) == (RepositorySnapshot { stash_entries, ..*old(self) }),
    {
        let changed: bool = !same_stashes(&self.stash_entries, &stash_entries);
        self.stash_entries = stash_entries;
        changed
    }

    /// The branches were read again after a push, and perhaps an error came with them. Says
    /// whether the list or the error is another one than before.
    pub fn branches_read(&mut self, branches: Vec<Branch>, error: Option<String>) -> (changed: bool)
        ensures
            changed == (branch_views(old(self).branch_list@) != branch_views(branches@)
                || text_view(old(self).branch_list_error) != text_view(error)),
            *final(self) == (RepositorySnapshot {
                branch: head_branch(branches@),
                branch_list: branches,
                branch_list_error: error,
                ..*old(self)
            }),
    {
        let changed: bool = !same_branches(&self.branch_list, &branches) || !same_opt_text(
            &self.branch_list_error,
            &error,
        );
        let mut branch: Option<Branch> = None;
        let mut i: usize = 0;
        assert(branches@.skip(0) =~= branches@);
        while i < branches.len() && branch.is_none()
            invariant
                i <= branches@.len(),
                branch is None ==> head_branch(branches@.skip(i as int)) == head_branch(branches@),
                branch is Some ==> branch == head_branch(branches@),
            decreases branches@.len() - i,
        {
            assert(branches@.skip(i as int)[0] == branches@[i as int]);
            assert(branches@.skip(i as int).skip(1) =~= branches@.skip(i + 1));
            if branches[i].is_head {
                branch = Some(branches[i].copy());
            }
            i += 1;
        }
        self.branch = branch;
        self.branch_list = branches;
        self.branch_list_error = error;
        changed
    }
}

/// A file of the repository that is open in a buffer, or not.
#[derive(Clone, Copy, Debug, PartialEq, Eq, Structural)]
pub enum OpenFile {
    /// It lies in no worktree, or no buffer shows it.
    NotOpen,
    Open { buffer_id: u64, exists_on_disk: bool, has_unsaved_edits: bool },
}

/// The buffers with unsaved edits of files that exist.
pub open spec fn unsaved_buffers(files: Seq<OpenFile>) -> Seq<u64>
    decreases files.len(),
{
    if files.len() == 0 {
        Seq::empty()
    } else {
        let earlier = unsaved_buffers(files.drop_last());
        match files.last() {
            OpenFile::Open { buffer_id, exists_on_disk: true, has_unsaved_edits: true } =>
                earlier.push(buffer_id),
            _ => earlier,
        }
    }
}

/// Which buffers are saved before their files are staged or unstaged.
pub fn save_buffers(files: &Vec<OpenFile>) -> (buffers: Vec<u64>)
    ensures
        buffers@ == unsaved_buffers(files@),
{
    let mut buffers: Vec<u64> = Vec::new();
    let mut i: usize = 0;
    while i < files.len()
        invariant
            i <= files@.len(),
            buffers@ == unsaved_buffers(files@.take(i as int)),
        decreases files@.len() - i,
    {
        assert(files@.take(i + 1).drop_last() =~= files@.take(i as int));
        assert(files@.take(i + 1).last() == files@[i as int]);
        if let OpenFile::Open { buffer_id, exists_on_disk, has_unsaved_edits } = files[i] {
            if exists_on_disk && has_unsaved_edits {
                buffers.push(buffer_id);
            }
        }
        i += 1;
    }
    assert(files@.take(i as int) =~= files@);
    buffers
}

/// What is shown of a command is the line that a user would have typed.
pub proof fn commands_are_shown_as_typed(
    a: String,
    b: String,
    c: String,
    push: Option<String>,
    upstream: Option<String>,
    force: Option<String>,
    pull: Option<String>,
    rebase: Option<String>,
    all: Option<String>,
    add: Option<String>,
    remove: Option<String>,
)
    requires
        call_ensures(
            GitCommand::status,
            (&GitCommand::Push { branch: a, remote_branch: b, remote: c, options: None },),
            push,
        ),
        call_ensures(
            GitCommand::status,
            (
                &GitCommand::Push {
                    branch: a,
                    remote_branch: b,
                    remote: c,
                    options: Some(PushOptions::SetUpstream),
                },
            ),
            upstream,
        ),
        call_ensures(
            GitCommand::status,
            (
                &GitCommand::Push {
                    branch: a,
                    remote_branch: b,
                    remote: c,
                    options: Some(PushOptions::Force),
                },
            ),
            force,
        ),
        call_ensures(
            GitCommand::status,
            (&GitCommand::Pull { branch: Some(a), remote: c, rebase: false },),
            pull,
        ),
        call_ensures(
            GitCommand::status,
            (&GitCommand::Pull { branch: Some(a), remote: c, rebase: true },),
            rebase,
        ),
        call_ensures(
            GitCommand::status,
            (&GitCommand::Pull { branch: None, remote: c, rebase: false },),
            all,
        ),
        call_ensures(
            GitCommand::status,
            (&GitCommand::CreateRemote { remote_name: a, remote_url: b },),
            add,
        ),
        call_ensures(GitCommand::status, (&GitCommand::RemoveRemote { remote_name: a },), remove),
    ensures
        text_view(push) == Some("git push "@ + ""@ + " "@ + c@ + " "@ + a@ + ":"@ + b@),
        text_view(upstream) == Some(
            "git push "@ + " --set-upstream"@ + " "@ + c@ + " "@ + a@ + ":"@ + b@,
        ),
        text_view(force) == Some(
            "git push "@ + " --force-with-lease"@ + " "@ + c@ + " "@ + a@ + ":"@ + b@,
        ),
        text_view(pull) == Some("git pull"@ + " "@ + c@ + " "@ + a@),
        text_view(rebase) == Some("git pull"@ + " --rebase"@ + " "@ + c@ + " "@ + a@),
        text_view(all) == Some("git pull"@ + " "@ + c@),
        text_view(add) == Some("git remote add "@ + a@ + " "@ + b@),
        text_view(remove) == Some("git remove remote "@ + a@),
{
}

/// What is shown of a command on branches and worktrees is the line that a user would have typed.
pub proof fn branch_commands_are_shown_as_typed(
    a: String,
    b: String,
    flag: bool,
    worktree: Option<String>,
    detached: Option<String>,
    made: Option<String>,
    checked_out: Option<String>,
    removed: Option<String>,
    moved: Option<String>,
    created: Option<String>,
    based: Option<String>,
    switched: Option<String>,
    deleted: Option<String>,
    renamed: Option<String>,
)
    requires
        call_ensures(
            GitCommand::status,
            (&GitCommand::CreateWorktree { branch_name: Some(a), base_sha: Some(b), path: b },),
            worktree,
        ),
        call_ensures(
            GitCommand::status,
            (&GitCommand::CreateWorktree { branch_name: None, base_sha: Some(b), path: b },),
            detached,
        ),
        call_ensures(
            GitCommand::status,
            (
                &GitCommand::CheckoutBranchInWorktree {
                    branch_name: a,
                    worktree_path: b,
                    create: true,
                },
            ),
            made,
        ),
        call_ensures(
            GitCommand::status,
            (
                &GitCommand::CheckoutBranchInWorktree {
                    branch_name: a,
                    worktree_path: b,
                    create: false,
                },
            ),
            checked_out,
        ),
        call_ensures(
            GitCommand::status,
            (&GitCommand::RemoveWorktree { path: a, force: flag },),
            removed,
        ),
        call_ensures(
            GitCommand::status,
            (&GitCommand::RenameWorktree { old_path: a, new_path: b },),
            moved,
        ),
        call_ensures(
            GitCommand::status,
            (&GitCommand::CreateBranch { branch_name: a, base_branch: None },),
            created,
        ),
        call_ensures(
            GitCommand::status,
            (&GitCommand::CreateBranch { branch_name: a, base_branch: Some(b) },),
            based,
        ),
        call_ensures(GitCommand::status, (&GitCommand::ChangeBranch { branch_name: a },), switched),
        call_ensures(
            GitCommand::status,
            (&GitCommand::DeleteBranch { flag: b, branch_name: a },),
            deleted,
        ),
        call_ensures(
            GitCommand::status,
            (&GitCommand::RenameBranch { branch: a, new_name: b },),
            renamed,
        ),
    ensures
        text_view(worktree) == Some("git worktree add: "@ + a@),
        text_view(detached) == Some("git worktree add (detached)"@),
        text_view(made) == Some("git checkout -b "@ + a@),
        text_view(checked_out) == Some("git checkout "@ + a@),
        text_view(removed) == Some("git worktree remove: "@ + a@),
        text_view(moved) == Some("git worktree move: "@ + a@),
        text_view(created) == Some("git switch -c "@ + a@),
        text_view(based) == Some("git switch -c "@ + a@ + " "@ + b@),
        text_view(switched) == Some("git switch "@ + a@),
        text_view(deleted) == Some("git branch "@ + b@ + " "@ + a@),
        text_view(renamed) == Some("git branch -m "@ + a@ + " "@ + b@),
{
}

/// A command that only asks is not shown.
pub proof fn questions_are_not_shown(command: GitCommand, text: Option<String>)
    requires
        call_ensures(GitCommand::status, (&command,), text),
        command is Show || command is Branches || command is Worktrees || command is HeadSha
            || command is GetRemotes || command is LoadStagedText || command is LoadCommittedText
            || command is LoadCommitDiff || command is Checkpoint || command is Barrier || command
            is PathsChanged || command is ReloadBufferDiffBases || command is SetIndexText
            || command is Reset || command is StashEntries || command is StashPop,
    ensures
        text is None,
{
}

/// Commands that write the index of the same paths repeat each other, whatever they write; so do
/// refreshes, and so do reloads. No other command repeats any.
pub proof fn commands_repeat_each_other(
    paths: Vec<RepoPath>,
    path: RepoPath,
    content: Option<String>,
    stage: Option<GitJobKey>,
    unstage: Option<GitJobKey>,
    write: Option<GitJobKey>,
    reload: Option<GitJobKey>,
    refresh: Option<GitJobKey>,
    other: GitCommand,
    none: Option<GitJobKey>,
)
    requires
        call_ensures(GitCommand::key, (&GitCommand::StageEntries { paths },), stage),
        call_ensures(GitCommand::key, (&GitCommand::UnstageEntries { paths },), unstage),
        call_ensures(GitCommand::key, (&GitCommand::SetIndexText { path, content },), write),
        call_ensures(GitCommand::key, (&GitCommand::ReloadBufferDiffBases,), reload),
        call_ensures(GitCommand::key, (&GitCommand::PathsChanged,), refresh),
        call_ensures(GitCommand::key, (&other,), none),
        !(other is StageEntries || other is UnstageEntries || other is SetIndexText || other
            is ReloadBufferDiffBases || other is PathsChanged),
    ensures
        stage matches Some(GitJobKey::WriteIndex(written)) && written@.len() == paths@.len(),
        stage->0@ == KeyView::WriteIndex(views(paths@)),
        unstage is Some && unstage->0@ == stage->0@,
        write matches Some(GitJobKey::WriteIndex(written)) && written@.len() == 1 && written@[0]@
            == path@,
        reload matches Some(GitJobKey::ReloadBufferDiffBases),
        refresh matches Some(GitJobKey::RefreshStatuses),
        none is None,
{
    if let Some(GitJobKey::WriteIndex(written)) = stage {
        assert(views(written@).len() == written@.len());
        assert(views(paths@).len() == paths@.len());
    }
    if let Some(GitJobKey::WriteIndex(written)) = write {
        assert(views(written@) =~= seq![path@]);
        assert(views(written@).len() == written@.len());
        assert(views(written@)[0] == written@[0]@);
    }
}

/// A branch with a remote of its own has that alone, else all. A reference without a commit is
/// deleted, else set. Git can be used where it answers.
pub proof fn answers_are_used_as_given(
    own: String,
    all: Vec<String>,
    remotes: Vec<String>,
    others: Vec<String>,
    ref_name: String,
    commit: String,
    update: RefEdit,
    delete: RefEdit,
    yes: GitAccess,
    no: GitAccess,
)
    requires
        call_ensures(get_remotes, (Some(own), all), remotes),
        call_ensures(get_remotes, (None::<String>, all), others),
        call_ensures(edit_ref, (ref_name, Some(commit)), update),
        call_ensures(edit_ref, (ref_name, None::<String>), delete),
        call_ensures(access, (true,), yes),
        call_ensures(access, (false,), no),
    ensures
        remotes@.len() == 1 && remotes@[0] == own,
        others@ == all@,
        update == (RefEdit::Update { ref_name, commit }),
        delete == (RefEdit::Delete { ref_name }),
        yes is Yes,
        no is No,
{
}

/// A path is added to an ignore file on a line of its own behind all that is there, a directory
/// with a slash behind it. A file that has the line is left alone.
pub proof fn ignored_paths_get_a_line(
    content: &str,
    path: RepoPath,
    is_dir: bool,
    new_content: Option<String>,
)
    requires
        call_ensures(add_path_to_gitignore, (content, &path, is_dir), new_content),
    ensures
        ({
            let line = if is_dir {
                join_slashes(path@).push('/')
            } else {
                join_slashes(path@)
            };
            &&& content@.len() == 0 ==> (new_content matches Some(text) ==> text@ == line.push(
                '\n',
            ))
            &&& content@.len() > 0 && content@.last() == '\n' ==> (new_content matches Some(text)
                ==> text@ == (content@ + line).push('\n'))
            &&& content@.len() > 0 && content@.last() != '\n' ==> (new_content matches Some(text)
                ==> text@ == (content@.push('\n') + line).push('\n'))
        }),
        new_content is None <==> ignores(content@, ignore_pattern(path@, is_dir)),
{
    reveal_strlit("/");
    reveal_strlit("\n");
    assert("/"@ =~= seq!['/']);
    assert("\n"@ =~= seq!['\n']);
    let text = join_slashes(path@);
    assert(text + "/"@ =~= text.push('/'));
    let line = ignore_pattern(path@, is_dir);
    assert(line + "\n"@ =~= line.push('\n'));
    assert(content@ + line + "\n"@ =~= (content@ + line).push('\n'));
    assert(content@ + "\n"@ =~= content@.push('\n'));
    assert(content@ + "\n"@ + line + "\n"@ =~= (content@.push('\n') + line).push('\n'));
}

/// A source file of a package has in the repository the path of the package, and behind it what
/// follows the directory of the package on disk.
pub proof fn packages_lie_in_repositories(
    path: RelPath,
    package_dir: RelPath,
    package_path: RelPath,
    rest: Seq<Seq<char>>,
    in_vcs: Option<RepoPath>,
)
    requires
        call_ensures(path_in_vcs, (&path, &package_dir, &package_path), in_vcs),
    ensures
        path@ == package_dir@ + rest ==> (in_vcs matches Some(found) && found@ == package_path@
            + rest),
        in_vcs is Some ==> path@.len() >= package_dir@.len() && path@.take(
            package_dir@.len() as int,
        ) == package_dir@,
{
    if path@ == package_dir@ + rest {
        assert(path@.take(package_dir@.len() as int) =~= package_dir@);
        assert(path@.skip(package_dir@.len() as int) =~= rest);
    }
}

proof fn lemma_head_branch(branches: Seq<Branch>, i: int)
    requires
        0 <= i < branches.len(),
        branches[i].is_head,
        forall|j: int| 0 <= j < i ==> !(#[trigger] branches[j]).is_head,
    ensures
        head_branch(branches) == Some(branches[i]),
    decreases branches.len(),
{
    if i > 0 {
        assert(!branches[0].is_head);
        let rest = branches.skip(1);
        assert forall|j: int| 0 <= j < i - 1 implies !(#[trigger] rest[j]).is_head by {
            assert(!branches[j + 1].is_head);
        }
        lemma_head_branch(rest, i - 1);
    }
}

proof fn lemma_no_head_branch(branches: Seq<Branch>)
    requires
        forall|j: int| 0 <= j < branches.len() ==> !(#[trigger] branches[j]).is_head,
    ensures
        head_branch(branches) is None,
    decreases branches.len(),
{
    if branches.len() > 0 {
        assert(!branches[0].is_head);
        let rest = branches.skip(1);
        assert forall|j: int| 0 <= j < rest.len() implies !(#[trigger] rest[j]).is_head by {
            assert(!branches[j + 1].is_head);
        }
        lemma_no_head_branch(rest);
    }
}

/// Branches that were read are taken over with their error, and the first one that is checked out
/// is the branch of the repository.
pub proof fn read_branches_are_taken_over(
    snapshot: &mut RepositorySnapshot,
    branches: Vec<Branch>,
    error: Option<String>,
    changed: bool,
    i: int,
)
    requires
        call_ensures(RepositorySnapshot::branches_read, (snapshot, branches, error), changed),
    ensures
        final(snapshot).branch_list == branches,
        final(snapshot).branch_list_error == error,
        0 <= i < branches@.len() && branches@[i].is_head && (forall|j: int|
            0 <= j < i ==> !(#[trigger] branches@[j]).is_head) ==> final(snapshot).branch == Some(
            branches@[i],
        ),
        (forall|j: int| 0 <= j < branches@.len() ==> !(#[trigger] branches@[j]).is_head) ==> final(snapshot).branch is None,
        old(snapshot).branch_list@ == branches@ && old(snapshot).branch_list_error == error
            ==> !changed,
        old(snapshot).branch_list@.len() != branches@.len() ==> changed,
        (old(snapshot).branch_list_error is Some) != (error is Some) ==> changed,
        final(snapshot).statuses_by_path == old(snapshot).statuses_by_path,
        final(snapshot).scan_id == old(snapshot).scan_id,
{
    assert(branch_views(branches@).len() == branches@.len());
    assert(branch_views(old(snapshot).branch_list@).len() == old(snapshot).branch_list@.len());
    if 0 <= i < branches@.len() && branches@[i].is_head && (forall|j: int|
        0 <= j < i ==> !(#[trigger] branches@[j]).is_head) {
        lemma_head_branch(branches@, i);
    }
    if forall|j: int| 0 <= j < branches@.len() ==> !(#[trigger] branches@[j]).is_head {
        lemma_no_head_branch(branches@);
    }
}

/// Stashing everything names the path of every status, in their order. A stash that was read is
/// taken over.
pub proof fn all_statuses_are_stashed(
    snapshot: RepositorySnapshot,
    paths: Vec<RepoPath>,
    i: int,
    reading: &mut RepositorySnapshot,
    stash_entries: Vec<StashEntry>,
    changed: bool,
)
    requires
        call_ensures(RepositorySnapshot::stash_all, (&snapshot,), paths),
        call_ensures(RepositorySnapshot::stash_read, (reading, stash_entries), changed),
    ensures
        paths@.len() == snapshot.statuses_by_path@.len(),
        0 <= i < paths@.len() ==> paths@[i]@ == snapshot.statuses_by_path@[i].repo_path@,
        final(reading).stash_entries == stash_entries,
        final(reading).statuses_by_path == old(reading).statuses_by_path,
        final(reading).branch == old(reading).branch,
        old(reading).stash_entries@ == stash_entries@ ==> !changed,
        old(reading).stash_entries@.len() != stash_entries@.len() ==> changed,
{
    let entries = entry_views(snapshot.statuses_by_path@);
    assert(views(paths@).len() == paths@.len());
    assert(status_paths(entries).len() == snapshot.statuses_by_path@.len());
    if 0 <= i < paths@.len() {
        assert(views(paths@)[i] == paths@[i]@);
        assert(status_paths(entries)[i] == entries[i].repo_path);
    }
    assert(stash_views(stash_entries@).len() == stash_entries@.len());
    assert(stash_views(old(reading).stash_entries@).len() == old(reading).stash_entries@.len());
}

proof fn lemma_unsaved(files: Seq<OpenFile>, i: int)
    requires
        0 <= i < files.len(),
    ensures
        files[i] matches OpenFile::Open { buffer_id, exists_on_disk, has_unsaved_edits } ==> (
        exists_on_disk && has_unsaved_edits ==> unsaved_buffers(files).contains(buffer_id)),
    decreases files.len(),
{
    let earlier = unsaved_buffers(files.drop_last());
    let all = unsaved_buffers(files);
    if i < files.len() - 1 {
        lemma_unsaved(files.drop_last(), i);
        assert(files.drop_last()[i] == files[i]);
        if let OpenFile::Open { buffer_id, .. } = files[i] {
            if earlier.contains(buffer_id) {
                let at = choose|at: int| 0 <= at < earlier.len() && earlier[at] == buffer_id;
                assert(all[at] == buffer_id);
            }
        }
    } else if all.len() > earlier.len() {
        assert(all[all.len() - 1] == all.last());
    }
}

proof fn lemma_unsaved_from(files: Seq<OpenFile>, at: int)
    requires
        0 <= at < unsaved_buffers(files).len(),
    ensures
        exists|i: int|
            0 <= i < files.len() && (#[trigger] files[i]) == (OpenFile::Open {
                buffer_id: unsaved_buffers(files)[at],
                exists_on_disk: true,
                has_unsaved_edits: true,
            }),
    decreases files.len(),
{
    let earlier = unsaved_buffers(files.drop_last());
    if at < earlier.len() {
        lemma_unsaved_from(files.drop_last(), at);
        let i = choose|i: int|
            0 <= i < files.drop_last().len() && (#[trigger] files.drop_last()[i]) == (
            OpenFile::Open {
                buffer_id: earlier[at],
                exists_on_disk: true,
                has_unsaved_edits: true,
            });
        assert(files[i] == files.drop_last()[i]);
    } else {
        assert(files[files.len() - 1] == files.last());
    }
}

/// Before files are staged, the buffers that hold unsaved edits of files on disk are saved, and no
/// others.
pub proof fn edited_files_are_saved_first(
    files: Vec<OpenFile>,
    buffers: Vec<u64>,
    i: int,
    at: int,
)
    requires
        call_ensures(save_buffers, (&files,), buffers),
    ensures
        0 <= i < files@.len() ==> (files@[i] matches OpenFile::Open {
            buffer_id,
            exists_on_disk,
            has_unsaved_edits,
        } ==> (exists_on_disk && has_unsaved_edits ==> buffers@.contains(buffer_id))),
        0 <= at < buffers@.len() ==> exists|k: int|
            0 <= k < files@.len() && (#[trigger] files@[k]) == (OpenFile::Open {
                buffer_id: buffers@[at],
                exists_on_disk: true,
                has_unsaved_edits: true,
            }),
{
    if 0 <= i < files@.len() {
        lemma_unsaved(files@, i);
    }
    if 0 <= at < buffers@.len() {
        lemma_unsaved_from(files@, at);
    }
}

} // verus!
