use project::git_store::commands::{
    access, add_path_to_gitignore, edit_ref, get_remotes, path_in_vcs, remotes_query,
    save_buffers, GitCommand, OpenFile, PushOptions, RefEdit, RemotesQuery,
};
use project::git_store::registry::RepositoryDirs;
use project::git_store::sharing::{DownstreamMessage, DownstreamUpdate, SharedRepositories};
use project::git_store::snapshot::{status_delta, MergeDetails, RepositorySnapshot};
use project::git_store::status::{
    status_from_proto, status_to_proto, DiffStat, FileStatus, GitFileStatus, GitStatus,
    ProtoStatusEntry, StatusCode, StatusEntry, StatusError, TrackedStatus, UnmergedStatus,
    UnmergedStatusCode,
};
use project::git_store::status_scan::{ReportedDiffStat, ReportedStatus, StatusRefresh};
use project::git_store::wire::{
    branch_to_proto, commit_details_to_proto, proto_to_stash, same_branches, same_stashes,
    stash_to_proto, worktree_to_proto, Branch, CommitDetails, CommitSummary, GitWorktree,
    InvalidOid, Oid, StashEntry, Upstream, UpstreamTrackingStatus,
};
use project::git_store::{GitAccess, RepositoryId};
use project::rel_path::RelPath;

fn path(text: &str) -> RelPath {
    RelPath::from_unix_str(text)
}

fn modified() -> FileStatus {
    FileStatus::TrackedFile(TrackedStatus {
        index_status: StatusCode::Unmodified,
        worktree_status: StatusCode::Modified,
    })
}

fn entry(text: &str, status: FileStatus) -> StatusEntry {
    StatusEntry { repo_path: path(text), status, diff_stat: None }
}

fn snapshot(statuses: Vec<StatusEntry>) -> RepositorySnapshot {
    let mut snapshot = RepositorySnapshot::empty(RepositoryId(3), path("code"), None, None, None);
    snapshot.statuses_by_path = statuses;
    snapshot
}

fn branch(name: &str, is_head: bool) -> Branch {
    Branch {
        is_head,
        ref_name: name.to_string(),
        upstream: Some(Upstream {
            ref_name: "refs/remotes/origin/x".to_string(),
            tracking: Some(UpstreamTrackingStatus { ahead: 1, behind: 2 }),
        }),
        most_recent_commit: Some(CommitSummary {
            sha: "abc".to_string(),
            subject: "s".to_string(),
            commit_timestamp: -1,
            author_name: "a".to_string(),
        }),
    }
}

fn stash(index: usize) -> StashEntry {
    StashEntry {
        oid: Oid { high: 1, middle: 2, low: 3 },
        message: "wip".to_string(),
        branch: Some("main".to_string()),
        index,
        timestamp: 5,
    }
}

#[test]
fn every_status_survives_the_wire() {
    let mut all = vec![FileStatus::Untracked, FileStatus::Ignored];
    let heads = [
        UnmergedStatusCode::Added,
        UnmergedStatusCode::Deleted,
        UnmergedStatusCode::Updated,
    ];
    for first_head in heads {
        for second_head in heads {
            all.push(FileStatus::Unmerged(UnmergedStatus { first_head, second_head }));
        }
    }
    let codes = [
        StatusCode::Modified,
        StatusCode::TypeChanged,
        StatusCode::Added,
        StatusCode::Deleted,
        StatusCode::Renamed,
        StatusCode::Copied,
        StatusCode::Unmodified,
    ];
    for index_status in codes {
        for worktree_status in codes {
            all.push(FileStatus::TrackedFile(TrackedStatus { index_status, worktree_status }));
        }
    }
    for status in all {
        let read = status_from_proto(Some(GitStatus::Added), Some(status_to_proto(status)));
        assert_eq!(read, Ok(status));
    }
}

#[test]
fn unreadable_statuses_are_refused() {
    assert_eq!(status_from_proto(None, None), Err(StatusError::InvalidCode));
    assert_eq!(
        status_from_proto(Some(GitStatus::Unmodified), None),
        Err(StatusError::InvalidSimpleStatus(GitStatus::Unmodified))
    );
    let unmerged = GitFileStatus::Unmerged {
        first_head: Some(GitStatus::Modified),
        second_head: Some(GitStatus::Added),
    };
    assert_eq!(
        status_from_proto(None, Some(unmerged)),
        Err(StatusError::InvalidUnmergedStatus(GitStatus::Modified))
    );
    let file = GitFileStatus::TrackedFile {
        index_status: Some(GitStatus::Conflict),
        worktree_status: Some(GitStatus::Added),
    };
    assert_eq!(
        status_from_proto(None, Some(file)),
        Err(StatusError::InvalidTrackedStatus(GitStatus::Conflict))
    );
    let unknown = GitFileStatus::TrackedFile { index_status: None, worktree_status: None };
    assert_eq!(status_from_proto(None, Some(unknown)), Err(StatusError::InvalidCode));
}

#[test]
fn entries_survive_the_wire() {
    let mut sent = entry("src/a.rs", modified());
    sent.diff_stat = Some(DiffStat { added: 3, deleted: 1 });
    let read = StatusEntry::from_proto(&sent.to_proto()).unwrap();
    assert_eq!(read.repo_path.as_unix_str(), "src/a.rs");
    assert_eq!(read.status, modified());
    assert_eq!(read.diff_stat, Some(DiffStat { added: 3, deleted: 1 }));
    let pathless = ProtoStatusEntry {
        repo_path: None,
        simple_status: Some(GitStatus::Added),
        status: None,
        diff_stat_added: None,
        diff_stat_deleted: None,
    };
    assert_eq!(StatusEntry::from_proto(&pathless).unwrap_err(), StatusError::InvalidRepoPath);
}

#[test]
fn stashes_survive_the_wire() {
    let read = proto_to_stash(&stash_to_proto(&stash(4))).unwrap();
    assert!(same_stashes(&vec![read], &vec![stash(4)]));
    assert!(!same_stashes(&vec![stash(4)], &vec![stash(5)]));
    let mut broken = stash_to_proto(&stash(0));
    broken.oid = None;
    assert_eq!(proto_to_stash(&broken).unwrap_err(), InvalidOid);
}

#[test]
fn branches_on_the_wire() {
    let wire = branch_to_proto(&branch("main", true));
    assert!(wire.is_head);
    assert_eq!(wire.unix_timestamp, Some(u64::MAX));
    let tracking = wire.upstream.unwrap().tracking.unwrap();
    assert_eq!((tracking.ahead, tracking.behind), (1, 2));
    let worktree = GitWorktree {
        path: path("a/b"),
        ref_name: None,
        sha: "1".to_string(),
        is_main: false,
        is_bare: true,
    };
    let wire = worktree_to_proto(&worktree);
    assert_eq!(wire.ref_name, "");
    assert!(wire.is_bare);
    let commit = CommitDetails {
        sha: "s".to_string(),
        message: "m".to_string(),
        commit_timestamp: 1,
        author_email: "e".to_string(),
        author_name: "n".to_string(),
    };
    assert_eq!(commit_details_to_proto(&commit).message, "m");
}

#[test]
fn delta_turns_old_statuses_into_new_ones() {
    let old = vec![
        entry("a", modified()),
        entry("b", FileStatus::Untracked),
        entry("c", modified()),
    ];
    let new = vec![
        entry("b", modified()),
        entry("c", modified()),
        entry("d", FileStatus::Untracked),
    ];
    let (updated, removed) = status_delta(&old, &new);
    let updated: Vec<String> = updated.iter().map(|entry| entry.repo_path.as_unix_str()).collect();
    assert_eq!(updated, vec!["b", "d"]);
    assert_eq!(removed.len(), 1);
    assert_eq!(removed[0].as_unix_str(), "a");
}

#[test]
fn guests_get_all_statuses_first_and_changes_later() {
    let mut shared = SharedRepositories::new(11);
    let first = snapshot(vec![entry("a", modified()), entry("b", modified())]);
    match shared.tell(DownstreamUpdate::UpdateRepository(first)) {
        DownstreamMessage::Update(message) => {
            assert_eq!(message.project_id, 11);
            assert_eq!(message.entry_ids, vec![3]);
            assert_eq!(message.updated_statuses.len(), 2);
            assert_eq!(message.removed_statuses.len(), 0);
            assert!(message.is_last_update);
            assert_eq!(message.abs_path.as_unix_str(), "code");
        }
        DownstreamMessage::Remove { .. } => panic!("nothing was removed"),
    }
    let second = snapshot(vec![entry("b", modified()), entry("c", FileStatus::Untracked)]);
    match shared.tell(DownstreamUpdate::UpdateRepository(second)) {
        DownstreamMessage::Update(message) => {
            assert_eq!(message.entry_ids.len(), 0);
            assert_eq!(message.updated_statuses.len(), 1);
            assert_eq!(message.removed_statuses[0].as_unix_str(), "a");
        }
        DownstreamMessage::Remove { .. } => panic!("nothing was removed"),
    }
    assert!(matches!(
        shared.tell(DownstreamUpdate::RemoveRepository(RepositoryId(3))),
        DownstreamMessage::Remove { project_id: 11, id: 3 }
    ));
}

#[test]
fn statuses_are_looked_up_by_path() {
    let mut found = snapshot(vec![entry("a", modified()), entry("b/c", FileStatus::Untracked)]);
    found.statuses_by_path[0].diff_stat = Some(DiffStat { added: 1, deleted: 0 });
    assert_eq!(found.status_for_path(&path("b/c")).unwrap().status, FileStatus::Untracked);
    assert!(found.status_for_path(&path("b")).is_none());
    assert_eq!(found.diff_stat_for_path(&path("a")), Some(DiffStat { added: 1, deleted: 0 }));
    assert_eq!(found.diff_stat_for_path(&path("x")), None);
    assert_eq!(
        found.abs_path_to_repo_path(&path("code/x/y")).map(|path| path.as_unix_str()),
        Some("x/y".to_string())
    );
    assert!(found.abs_path_to_repo_path(&path("other")).is_none());
    assert_eq!(found.repo_path_to_abs_path(&path("x")).as_unix_str(), "code/x");
    assert_eq!(found.display_name(), "code");
    let stashed: Vec<String> = found.stash_all().iter().map(|path| path.as_unix_str()).collect();
    assert_eq!(stashed, vec!["a", "b/c"]);
}

#[test]
fn conflicts_come_from_statuses_and_merges() {
    let unmerged = FileStatus::Unmerged(UnmergedStatus {
        first_head: UnmergedStatusCode::Updated,
        second_head: UnmergedStatusCode::Deleted,
    });
    let mut merging = snapshot(vec![entry("a", unmerged), entry("b", modified())]);
    merging.merge =
        MergeDetails { conflicted_paths: vec![path("c")], message: Some("merge".to_string()) };
    assert!(merging.has_conflict(&path("a")));
    assert!(!merging.has_conflict(&path("b")));
    assert!(merging.has_conflict(&path("c")));
    assert!(merging.had_conflict_on_last_merge_head_change(&path("c")));
    assert!(!merging.had_conflict_on_last_merge_head_change(&path("a")));
}

#[test]
fn remote_of_a_repository_is_its_upstream() {
    let mut remotes = snapshot(Vec::new());
    assert_eq!(remotes.default_remote_url(), None);
    remotes.remote_origin_url = Some("origin".to_string());
    assert_eq!(remotes.default_remote_url(), Some("origin".to_string()));
    remotes.remote_upstream_url = Some("upstream".to_string());
    assert_eq!(remotes.default_remote_url(), Some("upstream".to_string()));
    assert!(remotes.is_main_worktree());
    assert!(!remotes.is_linked_worktree());
    remotes.dirs = RepositoryDirs {
        work_directory: path("t"),
        dot_git: path("t/.git"),
        repository_dir: path("zed.git/worktrees/t"),
        common_dir: path("zed.git"),
    };
    assert!(remotes.is_linked_worktree());
    assert!(remotes.main_worktree_abs_path().is_none());
    assert_eq!(remotes.linked_worktrees().len(), 0);
}

#[test]
fn scans_replace_what_changed() {
    let mut scanned = snapshot(vec![entry("a", modified()), entry("b", modified())]);
    let reported = vec![ReportedStatus { path: path("c"), status: FileStatus::Untracked }];
    let stats = vec![ReportedDiffStat { path: path("c"), stat: DiffStat { added: 2, deleted: 0 } }];
    assert!(scanned.apply_status_scan(&vec![path("a"), path("c")], &reported, &stats));
    assert_eq!(scanned.scan_id, 1);
    let paths: Vec<String> =
        scanned.statuses_by_path.iter().map(|entry| entry.repo_path.as_unix_str()).collect();
    assert_eq!(paths, vec!["b", "c"]);
    assert_eq!(scanned.diff_stat_for_path(&path("c")), Some(DiffStat { added: 2, deleted: 0 }));
    assert!(!scanned.apply_status_scan(&vec![path("c")], &reported, &stats));
    assert_eq!(scanned.scan_id, 1);
}

#[test]
fn changed_paths_wait_for_one_refresh() {
    let mut refresh = StatusRefresh::new();
    refresh.paths_changed(vec![path("b"), path("a")]);
    refresh.paths_changed(vec![path("c"), path("b")]);
    let taken: Vec<String> = refresh.take().iter().map(|path| path.as_unix_str()).collect();
    assert_eq!(taken, vec!["a", "b", "c"]);
    assert_eq!(refresh.take().len(), 0);
}

#[test]
fn commands_show_what_they_run() {
    let text = |command: GitCommand| command.status().unwrap();
    let owned = |text: &str| text.to_string();
    assert_eq!(text(GitCommand::CheckoutFiles { commit: owned("abc"), paths: Vec::new() }), "git checkout abc");
    assert_eq!(text(GitCommand::RunHook { hook: owned("pre-commit") }), "git hook pre-commit");
    assert_eq!(text(GitCommand::Commit {
            message: owned("m"),
            name_and_email: None,
            options: String::new(),
            hook_job: 0
        }), "git commit");
    assert_eq!(text(GitCommand::Fetch { options: String::new() }), "git fetch");
    let push = |options: Option<PushOptions>| GitCommand::Push {
        branch: owned("b"),
        remote_branch: owned("r"),
        remote: owned("origin"),
        options,
    };
    assert_eq!(text(push(None)), "git push  origin b:r");
    assert_eq!(
        text(push(Some(PushOptions::SetUpstream))),
        "git push  --set-upstream origin b:r"
    );
    assert_eq!(
        text(push(Some(PushOptions::Force))),
        "git push  --force-with-lease origin b:r"
    );
    let pull = |branch: Option<String>, rebase: bool| GitCommand::Pull {
        branch,
        remote: owned("origin"),
        rebase,
    };
    assert_eq!(text(pull(None, false)), "git pull origin");
    assert_eq!(text(pull(Some(owned("main")), true)), "git pull --rebase origin main");
    assert_eq!(
        text(GitCommand::CreateRemote { remote_name: owned("o"), remote_url: owned("u") }),
        "git remote add o u"
    );
    assert_eq!(text(GitCommand::RemoveRemote { remote_name: owned("o") }), "git remove remote o");
    assert_eq!(
        text(GitCommand::CreateWorktree {
            branch_name: Some(owned("b")),
            base_sha: None,
            path: owned("/w")
        }),
        "git worktree add: b"
    );
    assert_eq!(
        text(GitCommand::CreateWorktree {
            branch_name: None,
            base_sha: Some(owned("c")),
            path: owned("/w")
        }),
        "git worktree add (detached)"
    );
    assert_eq!(
        text(GitCommand::CheckoutBranchInWorktree {
            branch_name: owned("b"),
            worktree_path: owned("/w"),
            create: true
        }),
        "git checkout -b b"
    );
    assert_eq!(
        text(GitCommand::CheckoutBranchInWorktree {
            branch_name: owned("b"),
            worktree_path: owned("/w"),
            create: false
        }),
        "git checkout b"
    );
    assert_eq!(
        text(GitCommand::RemoveWorktree { path: owned("/w"), force: true }),
        "git worktree remove: /w"
    );
    assert_eq!(
        text(GitCommand::RenameWorktree { old_path: owned("/w"), new_path: owned("/v") }),
        "git worktree move: /w"
    );
    assert_eq!(
        text(GitCommand::CreateBranch { branch_name: owned("b"), base_branch: Some(owned("m")) }),
        "git switch -c b m"
    );
    assert_eq!(
        text(GitCommand::CreateBranch { branch_name: owned("b"), base_branch: None }),
        "git switch -c b"
    );
    assert_eq!(text(GitCommand::ChangeBranch { branch_name: owned("b") }), "git switch b");
    assert_eq!(
        text(GitCommand::DeleteBranch { flag: owned("-D"), branch_name: owned("b") }),
        "git branch -D b"
    );
    assert_eq!(
        text(GitCommand::RenameBranch { branch: owned("a"), new_name: owned("b") }),
        "git branch -m a b"
    );
}

#[test]
fn ignored_paths_get_a_line_of_their_own() {
    let add = |content: &str, text: &str, is_dir: bool| {
        add_path_to_gitignore(content, &path(text), is_dir)
    };
    assert_eq!(add("", "a/b", false), Some("a/b\n".to_string()));
    assert_eq!(add("x\n", "a", true), Some("x\na/\n".to_string()));
    assert_eq!(add("x", "a", false), Some("x\na\n".to_string()));
    assert_eq!(add("x\n  a  \r\n", "a", false), None);
    let once = add("x", "target", true).unwrap();
    assert_eq!(add(&once, "target", true), None);
    assert_eq!(once, "x\ntarget/\n");
    let once = add("x\r\ny\r", "a b", false).unwrap();
    assert_eq!(once, "x\r\ny\r\na b\n");
    assert_eq!(add(&once, "a b", false), None);
}

#[test]
fn remotes_of_a_branch() {
    assert!(matches!(
        remotes_query(Some("b".to_string()), true),
        RemotesQuery::PushRemote(branch) if branch == "b"
    ));
    assert!(matches!(
        remotes_query(Some("b".to_string()), false),
        RemotesQuery::BranchRemote(branch) if branch == "b"
    ));
    assert!(matches!(remotes_query(None, true), RemotesQuery::All));
    assert_eq!(get_remotes(Some("o".to_string()), vec!["p".to_string()]), vec!["o"]);
    assert_eq!(get_remotes(None, vec!["p".to_string()]), vec!["p"]);
    assert!(matches!(
        edit_ref("r".to_string(), Some("c".to_string())),
        RefEdit::Update { ref_name, commit } if ref_name == "r" && commit == "c"
    ));
    assert!(matches!(edit_ref("r".to_string(), None), RefEdit::Delete { .. }));
    assert_eq!(access(true), GitAccess::Yes);
    assert_eq!(access(false), GitAccess::No);
}

#[test]
fn packages_tell_where_their_files_lie() {
    let inside = path_in_vcs(&path("reg/dep-1/src/lib.rs"), &path("reg/dep-1"), &path("crates/dep"));
    assert_eq!(inside.map(|path| path.as_unix_str()), Some("crates/dep/src/lib.rs".to_string()));
    assert!(path_in_vcs(&path("x"), &path("reg"), &path("")).is_none());
}

#[test]
fn branches_are_taken_over_after_a_push() {
    let mut pushed = snapshot(Vec::new());
    assert!(pushed.branches_read(vec![branch("a", false), branch("b", true)], None));
    assert_eq!(pushed.branch.as_ref().unwrap().ref_name, "b");
    assert!(!pushed.branches_read(vec![branch("a", false), branch("b", true)], None));
    assert!(pushed.branches_read(
        vec![branch("a", false), branch("b", true)],
        Some("broken".to_string())
    ));
    assert!(same_branches(&pushed.branch_list, &vec![branch("a", false), branch("b", true)]));
    assert!(pushed.stash_read(vec![stash(1)]));
    assert!(!pushed.stash_read(vec![stash(1)]));
}

#[test]
fn only_unsaved_buffers_of_files_are_saved() {
    let open = |buffer_id: u64, exists_on_disk: bool, has_unsaved_edits: bool| OpenFile::Open {
        buffer_id,
        exists_on_disk,
        has_unsaved_edits,
    };
    let files = vec![
        OpenFile::NotOpen,
        open(1, true, true),
        open(2, false, true),
        open(3, true, false),
        open(4, true, true),
    ];
    assert_eq!(save_buffers(&files), vec![1, 4]);
}
