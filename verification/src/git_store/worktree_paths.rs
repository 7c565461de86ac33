//! Where linked worktrees are put, and how they are called.
use vstd::prelude::*;

use crate::git_store::registry::{main_worktree, opt_view};
use crate::git_store::snapshot::RepositorySnapshot;
use crate::rel_path::{has_file_name, has_prefix, texts, RelPath};
use crate::text::{same_text, text_of, text_view, to_chars};

verus! {

/// How paths are written.
#[derive(Clone, Copy, Debug, PartialEq, Eq, Structural)]
pub enum PathStyle {
    Posix,
    Windows,
}

/// Why no directory for worktrees can be used.
#[derive(Clone, Copy, Debug, PartialEq, Eq, Structural)]
pub enum WorktreePathError {
    /// The setting is an absolute path.
    NotRelative,
    Empty,
    /// The setting is the parent directory itself.
    ParentDirectory,
    /// The setting leads out of the parent of the repository.
    OutsideOfParent,
    /// The repository has no directory name.
    NoDirectoryName,
    /// The name of the branch is an absolute path.
    AbsoluteBranch,
}

/// The character separates components.
pub open spec fn is_separator(c: char, style: PathStyle) -> bool {
    c == '/' || style == PathStyle::Windows && c == '\\'
}

fn separates(c: char, style: PathStyle) -> (result: bool)
    ensures
        result == is_separator(c, style),
{
    c == '/' || style == PathStyle::Windows && c == '\\'
}

pub open spec fn is_ascii_letter(c: char) -> bool {
    'a' <= c <= 'z' || 'A' <= c <= 'Z'
}

/// The text starts at a root: with a separator, or with a drive letter, a colon and a
/// separator.
pub open spec fn is_absolute_text(text: Seq<char>, style: PathStyle) -> bool {
    ||| text.len() > 0 && is_separator(text[0], style)
    ||| style == PathStyle::Windows && text.len() > 2 && is_ascii_letter(text[0]) && text[1] == ':'
        && is_separator(text[2], style)
}

impl PathStyle {
    pub fn is_absolute(self, text: &str) -> (absolute: bool)
        ensures
            absolute == is_absolute_text(text@, self),
    {
        let chars: Vec<char> = to_chars(text);
        if chars.len() > 0 && separates(chars[0], self) {
            return true;
        }
        self == PathStyle::Windows && chars.len() > 2 && ('a' <= chars[0] && chars[0] <= 'z' || 'A'
            <= chars[0] && chars[0] <= 'Z') && chars[1] == ':' && separates(chars[2], self)
    }
}

/// The components of a text behind what was read of the current one. Empty ones are left out.
pub open spec fn split_from(current: Seq<char>, text: Seq<char>, style: PathStyle) -> Seq<Seq<char>>
    decreases text.len(),
{
    if text.len() == 0 {
        if current.len() == 0 {
            Seq::empty()
        } else {
            seq![current]
        }
    } else if is_separator(text[0], style) {
        if current.len() == 0 {
            split_from(Seq::empty(), text.skip(1), style)
        } else {
            seq![current] + split_from(Seq::empty(), text.skip(1), style)
        }
    } else {
        split_from(current.push(text[0]), text.skip(1), style)
    }
}

/// The components of a path.
pub open spec fn split_path(text: Seq<char>, style: PathStyle) -> Seq<Seq<char>> {
    split_from(Seq::empty(), text, style)
}

/// Splits a path into its components.
pub fn path_components(text: &str, style: PathStyle) -> (parts: Vec<String>)
    ensures
        texts(parts@) == split_path(text@, style),
{
    let chars: Vec<char> = to_chars(text);
    let mut parts: Vec<String> = Vec::new();
    let mut start: usize = 0;
    let mut i: usize = 0;
    proof {
        assert(chars@.skip(0) =~= chars@);
        assert(chars@.subrange(0, 0) =~= Seq::<char>::empty());
        assert(texts(parts@) =~= Seq::<Seq<char>>::empty());
        assert(Seq::<Seq<char>>::empty() + split_path(chars@, style) =~= split_path(chars@, style));
    }
    while i < chars.len()
        invariant
            start <= i <= chars@.len(),
            split_path(chars@, style) == texts(parts@) + split_from(
                chars@.subrange(start as int, i as int),
                chars@.skip(i as int),
                style,
            ),
        decreases chars@.len() - i,
    {
        let ghost current = chars@.subrange(start as int, i as int);
        let ghost before = texts(parts@);
        assert(chars@.skip(i as int)[0] == chars@[i as int]);
        assert(chars@.skip(i as int).skip(1) =~= chars@.skip(i + 1));
        if separates(chars[i], style) {
            if start < i {
                let part: String = text_of(&chars, start, i);
                parts.push(part);
                proof {
                    let rest = split_from(Seq::empty(), chars@.skip(i + 1), style);
                    assert(texts(parts@) =~= before.push(current));
                    assert(before + (seq![current] + rest) =~= before.push(current) + rest);
                }
            }
            assert(chars@.subrange(i + 1, i + 1) =~= Seq::<char>::empty());
            start = i + 1;
        } else {
            assert(chars@.subrange(start as int, i + 1) =~= current.push(chars@[i as int]));
        }
        i += 1;
    }
    let ghost before = texts(parts@);
    assert(chars@.skip(i as int).len() == 0);
    if start < chars.len() {
        let part: String = text_of(&chars, start, chars.len());
        parts.push(part);
        assert(texts(parts@) =~= before + seq![part@]);
    } else {
        assert(before + Seq::<Seq<char>>::empty() =~= before);
    }
    parts
}

/// The path from the root without components that mean the directory itself or its parent.
/// The parent of the root is the root.
pub open spec fn normalized(path: Seq<Seq<char>>) -> Seq<Seq<char>>
    decreases path.len(),
{
    if path.len() == 0 {
        path
    } else {
        let before = normalized(path.drop_last());
        if path.last() == "."@ {
            before
        } else if path.last() == ".."@ {
            if before.len() > 0 {
                before.drop_last()
            } else {
                before
            }
        } else {
            before.push(path.last())
        }
    }
}

/// The absolute path that a relative one leads to.
pub open spec fn path_at(base: Seq<Seq<char>>, text: Seq<char>, style: PathStyle) -> Seq<Seq<char>> {
    normalized(base + split_path(text, style))
}

/// Follows a relative path from a directory.
pub fn join_path(base: &RelPath, text: &str, style: PathStyle) -> (path: RelPath)
    ensures
        path@ == path_at(base@, text@, style),
{
    let tail = RelPath { parts: path_components(text, style) };
    let whole = base.join(&tail);
    let ghost all = whole@;
    let mut parts: Vec<String> = Vec::new();
    let mut i: usize = 0;
    assert(texts(parts@) =~= normalized(all.take(0)));
    while i < whole.parts.len()
        invariant
            i <= whole.parts@.len(),
            all == whole@,
            texts(parts@) == normalized(all.take(i as int)),
        decreases whole.parts@.len() - i,
    {
        let ghost before = texts(parts@);
        let part: &String = &whole.parts[i];
        assert(all.take(i + 1).drop_last() =~= all.take(i as int));
        assert(all.take(i + 1).last() == part@);
        if same_text(part.as_str(), "..") && !same_text(part.as_str(), ".") {
            let _ = parts.pop();
            assert(before.len() > 0 ==> texts(parts@) =~= before.drop_last());
        } else if !same_text(part.as_str(), ".") {
            parts.push(part.clone());
            assert(texts(parts@) =~= before.push(part@));
        }
        i += 1;
    }
    assert(all.take(i as int) =~= all);
    RelPath { parts }
}

/// The text without separators of either kind at its end.
pub open spec fn without_separators(text: Seq<char>) -> Seq<char>
    decreases text.len(),
{
    if text.len() > 0 && (text.last() == '/' || text.last() == '\\') {
        without_separators(text.drop_last())
    } else {
        text
    }
}

fn trim_separators(text: &str) -> (trimmed: String)
    ensures
        trimmed@ == without_separators(text@),
{
    let chars: Vec<char> = to_chars(text);
    let mut end: usize = chars.len();
    assert(chars@.take(end as int) =~= chars@);
    while end > 0 && (chars[end - 1] == '/' || chars[end - 1] == '\\')
        invariant
            end <= chars@.len(),
            without_separators(chars@) == without_separators(chars@.take(end as int)),
        ensures
            end <= chars@.len(),
            without_separators(chars@) == without_separators(chars@.take(end as int)),
            end > 0 ==> chars@[end - 1] != '/' && chars@[end - 1] != '\\',
        decreases end,
    {
        assert(chars@.take(end as int).drop_last() =~= chars@.take(end - 1));
        end -= 1;
    }
    assert(chars@.take(end as int) =~= chars@.subrange(0, end as int));
    text_of(&chars, 0, end)
}

/// The directory of the repository, or the root where the repository is the root.
pub open spec fn parent_or_self(path: Seq<Seq<char>>) -> Seq<Seq<char>> {
    if path.len() > 0 {
        path.drop_last()
    } else {
        path
    }
}

/// Where the setting leads. Outside of the repository, the worktrees of each repository
/// have a directory of their own, which is named after it.
pub open spec fn resolved_directory(
    anchor: Seq<Seq<char>>,
    setting: Seq<char>,
    style: PathStyle,
) -> Seq<Seq<char>> {
    let resolved = path_at(anchor, without_separators(setting), style);
    if !has_prefix(resolved, anchor) && has_file_name(anchor) {
        path_at(resolved, anchor.last(), style)
    } else {
        resolved
    }
}

/// The directory for the worktrees of a repository, or what is wrong with the setting.
pub open spec fn worktrees_directory(
    anchor: Seq<Seq<char>>,
    setting: Seq<char>,
    style: PathStyle,
) -> Result<Seq<Seq<char>>, WorktreePathError> {
    if is_absolute_text(setting, style) || setting.len() > 0 && setting[0] == '\\' {
        Err(WorktreePathError::NotRelative)
    } else if setting.len() == 0 {
        Err(WorktreePathError::Empty)
    } else if without_separators(setting) == ".."@ {
        Err(WorktreePathError::ParentDirectory)
    } else if !has_prefix(resolved_directory(anchor, setting, style), parent_or_self(anchor)) {
        Err(WorktreePathError::OutsideOfParent)
    } else {
        Ok(resolved_directory(anchor, setting, style))
    }
}

pub open spec fn path_result(result: Result<RelPath, WorktreePathError>) -> Result<
    Seq<Seq<char>>,
    WorktreePathError,
> {
    match result {
        Ok(path) => Ok(path@),
        Err(error) => Err(error),
    }
}

/// Finds the directory for the worktrees of a repository. The setting has to be a relative
/// path that leads below the repository or its parent.
pub fn worktrees_directory_for_repo(
    repository_anchor_path: &RelPath,
    worktree_directory_setting: &str,
    path_style: PathStyle,
) -> (directory: Result<RelPath, WorktreePathError>)
    ensures
        path_result(directory) == worktrees_directory(
            repository_anchor_path@,
            worktree_directory_setting@,
            path_style,
        ),
{
    let chars: Vec<char> = to_chars(worktree_directory_setting);
    if path_style.is_absolute(worktree_directory_setting) || chars.len() > 0 && chars[0] == '\\' {
        return Err(WorktreePathError::NotRelative);
    }
    if chars.len() == 0 {
        return Err(WorktreePathError::Empty);
    }
    let trimmed: String = trim_separators(worktree_directory_setting);
    if same_text(trimmed.as_str(), "..") {
        return Err(WorktreePathError::ParentDirectory);
    }
    let mut resolved = join_path(repository_anchor_path, trimmed.as_str(), path_style);
    if !resolved.starts_with(repository_anchor_path) {
        if let Some(name) = repository_anchor_path.file_name() {
            resolved = join_path(&resolved, name.as_str(), path_style);
        }
    }
    let inside: bool = match repository_anchor_path.parent() {
        Some(parent) => resolved.starts_with(&parent),
        None => resolved.starts_with(repository_anchor_path),
    };
    if inside {
        Ok(resolved)
    } else {
        Err(WorktreePathError::OutsideOfParent)
    }
}

/// The path of a new worktree: below the directory for worktrees it has the name of its
/// branch, and below that the name of the project.
pub open spec fn new_worktree_path(
    anchor: Seq<Seq<char>>,
    branch_name: Seq<char>,
    setting: Seq<char>,
    style: PathStyle,
) -> Result<Seq<Seq<char>>, WorktreePathError> {
    if !has_file_name(anchor) {
        Err(WorktreePathError::NoDirectoryName)
    } else {
        match worktrees_directory(anchor, setting, style) {
            Err(error) => Err(error),
            Ok(directory) => if is_absolute_text(branch_name, style) {
                Err(WorktreePathError::AbsoluteBranch)
            } else {
                Ok(path_at(path_at(directory, branch_name, style), anchor.last(), style))
            },
        }
    }
}

impl RepositorySnapshot {
    /// What worktrees are placed by: the main worktree, or the common git directory where
    /// there is none.
    pub open spec fn anchor(self) -> Seq<Seq<char>> {
        match main_worktree(self.dirs@) {
            Some(path) => path,
            None => self.dirs.common_dir@,
        }
    }

    pub fn repository_anchor(&self) -> (anchor: RelPath)
        ensures
            anchor@ == self.anchor(),
    {
        match self.main_worktree_abs_path() {
            Some(path) => path,
            None => self.dirs.common_dir.clone(),
        }
    }

    /// The path of this worktree, if it was created from another one.
    pub fn linked_worktree_path(&self) -> (path: Option<RelPath>)
        ensures
            opt_view(path) == if self.dirs.repository_dir@ != self.dirs.common_dir@ {
                Some(self.dirs.work_directory@)
            } else {
                None
            },
    {
        if self.is_linked_worktree() {
            Some(self.dirs.work_directory.clone())
        } else {
            None
        }
    }

    /// Where to put a new worktree for a branch.
    pub fn path_for_new_linked_worktree(
        &self,
        branch_name: &str,
        worktree_directory_setting: &str,
        path_style: PathStyle,
    ) -> (path: Result<RelPath, WorktreePathError>)
        ensures
            path_result(path) == new_worktree_path(
                self.anchor(),
                branch_name@,
                worktree_directory_setting@,
                path_style,
            ),
    {
        let anchor: RelPath = self.repository_anchor();
        let project_name: String = match anchor.file_name() {
            Some(name) => name,
            None => {
                return Err(WorktreePathError::NoDirectoryName);
            },
        };
        match worktrees_directory_for_repo(&anchor, worktree_directory_setting, path_style) {
            Err(error) => Err(error),
            Ok(directory) => {
                if path_style.is_absolute(branch_name) {
                    return Err(WorktreePathError::AbsoluteBranch);
                }
                let directory = join_path(&directory, branch_name, path_style);
                Ok(join_path(&directory, project_name.as_str(), path_style))
            },
        }
    }
}

/// The directory for worktrees lies below the repository or next to it.
pub proof fn worktrees_stay_close(anchor: Seq<Seq<char>>, setting: Seq<char>, style: PathStyle)
    requires
        worktrees_directory(anchor, setting, style) is Ok,
    ensures
        has_prefix(worktrees_directory(anchor, setting, style)->Ok_0, parent_or_self(anchor)),
{
}

/// A directory that may have become empty when something below it was removed.
pub open spec fn removable_parent(
    current: Seq<Seq<char>>,
    base: Seq<Seq<char>>,
) -> Option<Seq<Seq<char>>> {
    if current.len() > 0 && current.drop_last() != base && has_prefix(current.drop_last(), base) {
        Some(current.drop_last())
    } else {
        None
    }
}

/// The next directory to remove once a worktree, or a directory above it, is gone: the
/// parent, as long as it lies below the directory for worktrees.
pub fn next_managed_worktree_ancestor(current: &RelPath, base: &RelPath) -> (next: Option<RelPath>)
    ensures
        opt_view(next) == removable_parent(current@, base@),
{
    match current.parent() {
        None => None,
        Some(parent) => {
            if parent.same_as(base) || !parent.starts_with(base) {
                None
            } else {
                Some(parent)
            }
        },
    }
}

/// Only directories strictly below the directory for worktrees are removed, each one level
/// above the one before.
pub proof fn only_managed_directories_go(current: Seq<Seq<char>>, base: Seq<Seq<char>>)
    requires
        removable_parent(current, base) is Some,
    ensures
        has_prefix(removable_parent(current, base)->0, base),
        removable_parent(current, base)->0 != base,
        removable_parent(current, base)->0.len() + 1 == current.len(),
{
}

/// The short name of a worktree: that of its directory, or where that is the name of the
/// project, that of the directory above.
pub open spec fn short_name(main: Seq<Seq<char>>, linked: Seq<Seq<char>>) -> Option<Seq<char>> {
    if main == linked || !has_file_name(main) || !has_file_name(linked) {
        None
    } else if linked.last() != main.last() {
        Some(linked.last())
    } else if has_file_name(linked.drop_last()) {
        Some(linked.drop_last().last())
    } else {
        None
    }
}

/// A short name that tells a linked worktree from the main one.
pub fn linked_worktree_short_name(
    main_worktree_path: &RelPath,
    linked_worktree_path: &RelPath,
) -> (name: Option<String>)
    ensures
        text_view(name) == short_name(
            main_worktree_path@,
            linked_worktree_path@,
        ),
{
    if main_worktree_path.same_as(linked_worktree_path) {
        return None;
    }
    match (main_worktree_path.file_name(), linked_worktree_path.file_name()) {
        (Some(project_name), Some(directory_name)) => {
            if !same_text(directory_name.as_str(), project_name.as_str()) {
                return Some(directory_name);
            }
            match linked_worktree_path.parent() {
                Some(parent) => parent.file_name(),
                None => None,
            }
        },
        _ => None,
    }
}

/// No component means the directory itself or its parent.
pub open spec fn is_plain(path: Seq<Seq<char>>) -> bool {
    forall|i: int| 0 <= i < path.len() ==> #[trigger] path[i] != "."@ && path[i] != ".."@
}

proof fn lemma_normalized_is_plain(path: Seq<Seq<char>>)
    ensures
        is_plain(normalized(path)),
    decreases path.len(),
{
    if path.len() > 0 {
        lemma_normalized_is_plain(path.drop_last());
    }
}

proof fn lemma_plain_tail_stays(path: Seq<Seq<char>>, tail: Seq<Seq<char>>)
    requires
        is_plain(tail),
    ensures
        normalized(path + tail) == normalized(path) + tail,
    decreases tail.len(),
{
    if tail.len() == 0 {
        assert(path + tail =~= path);
        assert(normalized(path) + tail =~= normalized(path));
    } else {
        assert((path + tail).drop_last() =~= path + tail.drop_last());
        assert((path + tail).last() == tail.last());
        assert(tail[tail.len() - 1] == tail.last());
        assert(is_plain(tail.drop_last())) by {
            assert forall|i: int| 0 <= i < tail.drop_last().len() implies
                #[trigger] tail.drop_last()[i] != "."@ && tail.drop_last()[i] != ".."@ by {
                assert(tail[i] == tail.drop_last()[i]);
            }
        }
        lemma_plain_tail_stays(path, tail.drop_last());
        assert(normalized(path) + tail =~= (normalized(path) + tail.drop_last()).push(tail.last()));
    }
}

proof fn lemma_plain_is_normal(path: Seq<Seq<char>>)
    requires
        is_plain(path),
    ensures
        normalized(path) == path,
{
    lemma_plain_tail_stays(Seq::empty(), path);
    assert(Seq::<Seq<char>>::empty() + path =~= path);
}

/// A worktree that was put where new ones go is called after its branch: its short name is
/// the last component of the name of the branch. The paths have to be written plainly, and
/// the name of the project to be one component.
pub proof fn short_name_is_that_of_the_branch(
    anchor: Seq<Seq<char>>,
    branch_name: Seq<char>,
    setting: Seq<char>,
    style: PathStyle,
)
    requires
        new_worktree_path(anchor, branch_name, setting, style) is Ok,
        is_plain(anchor),
        split_path(anchor.last(), style) == seq![anchor.last()],
        split_path(branch_name, style).len() > 0,
        is_plain(split_path(branch_name, style)),
    ensures
        short_name(anchor, new_worktree_path(anchor, branch_name, setting, style)->Ok_0) == Some(
            split_path(branch_name, style).last(),
        ),
{
    let directory = worktrees_directory(anchor, setting, style)->Ok_0;
    let branch = split_path(branch_name, style);
    let resolved = path_at(anchor, without_separators(setting), style);
    lemma_normalized_is_plain(anchor + split_path(without_separators(setting), style));
    lemma_normalized_is_plain(resolved + split_path(anchor.last(), style));
    lemma_plain_is_normal(directory);
    lemma_plain_tail_stays(directory, branch);
    let in_branch = path_at(directory, branch_name, style);
    assert(in_branch == directory + branch);
    lemma_normalized_is_plain(directory + branch);
    lemma_plain_is_normal(in_branch);
    let name = seq![anchor.last()];
    assert(anchor[anchor.len() - 1] == anchor.last());
    assert(is_plain(name));
    lemma_plain_tail_stays(in_branch, name);
    let path = new_worktree_path(anchor, branch_name, setting, style)->Ok_0;
    assert(path == in_branch + name);
    assert(path.drop_last() =~= in_branch);
    assert(path.last() == anchor.last());
    assert(branch[branch.len() - 1] == branch.last());
    assert(in_branch.last() == branch.last());
    assert(path.len() > anchor.len());
}

/// What a `.git` file says about where the git directory of a linked worktree is.
pub open spec fn git_dir_pointer(content: Seq<char>) -> Option<Seq<char>> {
    if content.len() >= "gitdir:"@.len() && content.take("gitdir:"@.len() as int) == "gitdir:"@ {
        Some(crate::text_lines::trimmed(content.skip("gitdir:"@.len() as int)))
    } else {
        None
    }
}

/// Reads a `.git` file, which a linked worktree has in place of a git directory.
pub fn linked_git_dir(content: &str) -> (pointer: Option<String>)
    ensures
        text_view(pointer) == git_dir_pointer(content@),
{
    let chars: Vec<char> = to_chars(content);
    let prefix: Vec<char> = to_chars("gitdir:");
    if chars.len() < prefix.len() {
        return None;
    }
    let start: String = text_of(&chars, 0, prefix.len());
    assert(start@ =~= content@.take(prefix@.len() as int));
    if !same_text(start.as_str(), "gitdir:") {
        return None;
    }
    let rest: String = text_of(&chars, prefix.len(), chars.len());
    assert(rest@ =~= content@.skip(prefix@.len() as int));
    Some(crate::text_lines::trim(rest.as_str()))
}

/// Reads the file that names the git directory shared by the worktrees of a repository.
pub fn shared_git_dir(content: &str) -> (pointer: String)
    ensures
        pointer@ == crate::text_lines::trimmed(content@),
{
    crate::text_lines::trim(content)
}

proof fn lemma_split_name(current: Seq<char>, text: Seq<char>, style: PathStyle)
    requires
        forall|i: int| 0 <= i < text.len() ==> !is_separator(#[trigger] text[i], style),
    ensures
        split_from(current, text, style) == if current.len() + text.len() == 0 {
            Seq::<Seq<char>>::empty()
        } else {
            seq![current + text]
        },
    decreases text.len(),
{
    if text.len() == 0 {
        assert(current + text =~= current);
    } else {
        let rest = text.skip(1);
        assert forall|i: int| 0 <= i < rest.len() implies !is_separator(
            #[trigger] rest[i],
            style,
        ) by {
            assert(rest[i] == text[i + 1]);
        }
        assert(!is_separator(text[0], style));
        lemma_split_name(current.push(text[0]), rest, style);
        assert(current.push(text[0]) + rest =~= current + text);
    }
}

proof fn lemma_split_both(
    current: Seq<char>,
    a: Seq<char>,
    separator: char,
    b: Seq<char>,
    style: PathStyle,
)
    requires
        is_separator(separator, style),
    ensures
        split_from(current, a.push(separator) + b, style) == split_from(current, a, style)
            + split_from(Seq::empty(), b, style),
    decreases a.len(),
{
    let text = a.push(separator) + b;
    if a.len() == 0 {
        assert(text[0] == separator);
        assert(text.skip(1) =~= b);
        let rest = split_from(Seq::empty(), b, style);
        assert(Seq::<Seq<char>>::empty() + rest =~= rest);
    } else {
        assert(text[0] == a[0]);
        assert(text.skip(1) =~= a.skip(1).push(separator) + b);
        let rest = split_from(Seq::empty(), b, style);
        if is_separator(a[0], style) {
            lemma_split_both(Seq::empty(), a.skip(1), separator, b, style);
            let own = split_from(Seq::empty(), a.skip(1), style);
            assert(seq![current] + (own + rest) =~= (seq![current] + own) + rest);
        } else {
            lemma_split_both(current.push(a[0]), a.skip(1), separator, b, style);
        }
    }
}

/// The components of a path are what lies between its separators: a name without any is one
/// component, nothing is none, and those of two paths with a separator between them are those of
/// the first and those of the second. A slash separates everywhere, a backslash on Windows.
pub proof fn paths_are_split_at_separators(
    name: Seq<char>,
    a: Seq<char>,
    separator: char,
    b: Seq<char>,
    style: PathStyle,
)
    ensures
        name.len() > 0 && !name.contains('/') && (style == PathStyle::Windows ==> !name.contains(
            '\\',
        )) ==> split_path(name, style) == seq![name],
        split_path(Seq::empty(), style) == Seq::<Seq<char>>::empty(),
        separator == '/' || (style == PathStyle::Windows && separator == '\\') ==> split_path(
            a.push(separator) + b,
            style,
        ) == split_path(a, style) + split_path(b, style),
{
    if name.len() > 0 && !name.contains('/') && (style == PathStyle::Windows ==> !name.contains(
        '\\',
    )) {
        assert forall|i: int| 0 <= i < name.len() implies !is_separator(
            #[trigger] name[i],
            style,
        ) by {
            assert(name.contains(name[i]));
        }
        lemma_split_name(Seq::empty(), name, style);
        assert(Seq::<char>::empty() + name =~= name);
    }
    if is_separator(separator, style) {
        lemma_split_both(Seq::empty(), a, separator, b, style);
    }
}

proof fn lemma_normalized_start(path: Seq<Seq<char>>, tail: Seq<Seq<char>>)
    ensures
        normalized(normalized(path) + tail) == normalized(path + tail),
    decreases tail.len(),
{
    if tail.len() == 0 {
        assert(path + tail =~= path);
        assert(normalized(path) + tail =~= normalized(path));
        lemma_normalized_is_plain(path);
        lemma_plain_is_normal(normalized(path));
    } else {
        lemma_normalized_start(path, tail.drop_last());
        assert((path + tail).drop_last() =~= path + tail.drop_last());
        assert((normalized(path) + tail).drop_last() =~= normalized(path) + tail.drop_last());
    }
}

/// A relative path is followed component by component from where one is: a name leads into the
/// directory of that name, `..` to the parent, where there is one, and `.` nowhere. Two paths
/// with a separator between them are followed one after the other.
pub proof fn relative_paths_are_followed(
    base: Seq<Seq<char>>,
    name: Seq<char>,
    a: Seq<char>,
    b: Seq<char>,
    style: PathStyle,
)
    requires
        is_plain(base),
    ensures
        path_at(base, Seq::empty(), style) == base,
        path_at(base, seq!['.'], style) == base,
        path_at(base, seq!['.', '.'], style) == if base.len() > 0 {
            base.drop_last()
        } else {
            base
        },
        name.len() > 0 && name != seq!['.'] && name != seq!['.', '.'] && !name.contains('/') && (
        style == PathStyle::Windows ==> !name.contains('\\')) ==> path_at(base, name, style)
            == base.push(name),
        path_at(base, a.push('/') + b, style) == path_at(path_at(base, a, style), b, style),
        is_plain(path_at(base, a, style)),
{
    reveal_strlit(".");
    reveal_strlit("..");
    assert("."@ =~= seq!['.']);
    assert(".."@ =~= seq!['.', '.']);
    lemma_plain_is_normal(base);
    let dot = seq!['.'];
    let dots = seq!['.', '.'];
    assert forall|i: int| 0 <= i < dot.len() implies !is_separator(#[trigger] dot[i], style) by {}
    assert forall|i: int| 0 <= i < dots.len() implies !is_separator(#[trigger] dots[i], style) by {}
    lemma_split_name(Seq::empty(), dot, style);
    lemma_split_name(Seq::empty(), dots, style);
    assert(Seq::<char>::empty() + dot =~= dot);
    assert(Seq::<char>::empty() + dots =~= dots);
    assert(base + Seq::<Seq<char>>::empty() =~= base);
    assert((base + seq![dot]).drop_last() =~= base);
    assert((base + seq![dots]).drop_last() =~= base);
    if name.len() > 0 && name != dot && name != dots && !name.contains('/') && (style
        == PathStyle::Windows ==> !name.contains('\\')) {
        paths_are_split_at_separators(name, a, '/', b, style);
        assert((base + seq![name]).drop_last() =~= base);
        assert((base + seq![name]).last() == name);
    }
    paths_are_split_at_separators(name, a, '/', b, style);
    let first = split_path(a, style);
    let second = split_path(b, style);
    lemma_normalized_start(base + first, second);
    assert(base + (first + second) =~= (base + first) + second);
    lemma_normalized_is_plain(base + first);
}

/// Only separators are taken off the end of a setting, and all of them.
pub proof fn separators_at_the_end_do_not_count(setting: Seq<char>)
    ensures
        ({
            let left = without_separators(setting);
            &&& left.len() <= setting.len()
            &&& setting.take(left.len() as int) == left
            &&& left.len() > 0 ==> left.last() != '/' && left.last() != '\\'
            &&& forall|i: int|
                left.len() <= i < setting.len() ==> (#[trigger] setting[i]) == '/' || setting[i]
                    == '\\'
        }),
    decreases setting.len(),
{
    let left = without_separators(setting);
    if setting.len() > 0 && (setting.last() == '/' || setting.last() == '\\') {
        separators_at_the_end_do_not_count(setting.drop_last());
        assert(setting.take(left.len() as int) =~= setting.drop_last().take(left.len() as int));
        assert forall|i: int| left.len() <= i < setting.len() implies (#[trigger] setting[i]) == '/'
            || setting[i] == '\\' by {
            if i < setting.len() - 1 {
                assert(setting.drop_last()[i] == setting[i]);
            }
        }
    } else {
        assert(setting.take(left.len() as int) =~= setting);
    }
}

/// The directory for the worktrees of a repository lies below the repository, where the setting
/// leads there; otherwise it is a directory below where the setting leads that has the name of the
/// repository. Either way it lies below the directory that the repository is in.
pub proof fn repositories_have_worktree_directories_of_their_own(
    anchor: RelPath,
    setting: &str,
    style: PathStyle,
    directory: RelPath,
)
    requires
        call_ensures(
            worktrees_directory_for_repo,
            (&anchor, setting, style),
            Ok::<RelPath, WorktreePathError>(directory),
        ),
        is_plain(anchor@),
        anchor@.len() > 0,
        anchor@.last().len() > 0,
        !anchor@.last().contains('/'),
        style == PathStyle::Windows ==> !anchor@.last().contains('\\'),
    ensures
        ({
            let leads_to = path_at(anchor@, without_separators(setting@), style);
            if leads_to.len() >= anchor@.len() && leads_to.take(anchor@.len() as int) == anchor@ {
                directory@ == leads_to
            } else {
                directory@ == leads_to.push(anchor@.last())
            }
        }),
        directory@.len() >= anchor@.len() - 1,
        directory@.take(anchor@.len() - 1) == anchor@.drop_last(),
{
    let leads_to = path_at(anchor@, without_separators(setting@), style);
    let name = anchor@.last();
    assert(anchor@[anchor@.len() - 1] == name);
    reveal_strlit(".");
    reveal_strlit("..");
    assert("."@ =~= seq!['.']);
    assert(".."@ =~= seq!['.', '.']);
    lemma_normalized_is_plain(anchor@ + split_path(without_separators(setting@), style));
    relative_paths_are_followed(leads_to, name, Seq::empty(), Seq::empty(), style);
    assert(worktrees_directory(anchor@, setting@, style) == Ok::<
        Seq<Seq<char>>,
        WorktreePathError,
    >(directory@));
}

/// A setting is refused just if it is an absolute path, is empty, is the parent directory itself,
/// or leads out of the directory that the repository is in.
pub proof fn settings_are_refused_for_a_reason(
    anchor: RelPath,
    setting: &str,
    style: PathStyle,
    directory: Result<RelPath, WorktreePathError>,
)
    requires
        call_ensures(worktrees_directory_for_repo, (&anchor, setting, style), directory),
    ensures
        ({
            let text = setting@;
            let trimmed = without_separators(text);
            let absolute = text.len() > 0 && (text[0] == '/' || text[0] == '\\') || (style
                == PathStyle::Windows && text.len() > 2 && ('a' <= text[0] <= 'z' || 'A' <= text[0]
                <= 'Z') && text[1] == ':' && (text[2] == '/' || text[2] == '\\'));
            &&& (directory matches Err(WorktreePathError::NotRelative)) <==> absolute
            &&& (directory matches Err(WorktreePathError::Empty)) <==> text.len() == 0
            &&& (directory matches Err(WorktreePathError::ParentDirectory)) <==> !absolute && trimmed
                == seq!['.', '.']
            &&& (directory matches Err(error) ==> error == WorktreePathError::NotRelative || error
                == WorktreePathError::Empty || error == WorktreePathError::ParentDirectory || error
                == WorktreePathError::OutsideOfParent)
            &&& (directory matches Ok(path) ==> anchor@.len() > 0 ==> path@.len() >= anchor@.len()
                - 1 && path@.take(anchor@.len() - 1) == anchor@.drop_last())
        }),
{
    reveal_strlit("..");
    assert(".."@ =~= seq!['.', '.']);
    let trimmed = without_separators(setting@);
    if trimmed == seq!['.', '.'] {
        separators_at_the_end_do_not_count(setting@);
    }
    assert(path_result(directory) == worktrees_directory(anchor@, setting@, style));
}

/// A setting that leads below the directory that the repository is in is not refused for where it
/// leads.
pub proof fn settings_below_the_parent_are_taken(
    anchor: RelPath,
    setting: &str,
    style: PathStyle,
    directory: Result<RelPath, WorktreePathError>,
)
    requires
        call_ensures(worktrees_directory_for_repo, (&anchor, setting, style), directory),
        is_plain(anchor@),
        anchor@.len() > 0,
        anchor@.last().len() > 0,
        !anchor@.last().contains('/'),
        style == PathStyle::Windows ==> !anchor@.last().contains('\\'),
        ({
            let leads_to = path_at(anchor@, without_separators(setting@), style);
            leads_to.len() >= anchor@.len() - 1 && leads_to.take(anchor@.len() - 1)
                == anchor@.drop_last()
        }),
    ensures
        directory != Err::<RelPath, WorktreePathError>(WorktreePathError::OutsideOfParent),
{
    let leads_to = path_at(anchor@, without_separators(setting@), style);
    let name = anchor@.last();
    assert(anchor@[anchor@.len() - 1] == name);
    reveal_strlit(".");
    reveal_strlit("..");
    assert("."@ =~= seq!['.']);
    assert(".."@ =~= seq!['.', '.']);
    lemma_normalized_is_plain(anchor@ + split_path(without_separators(setting@), style));
    relative_paths_are_followed(leads_to, name, Seq::empty(), Seq::empty(), style);
    assert(leads_to.push(name).take(anchor@.len() - 1) =~= leads_to.take(anchor@.len() - 1));
    assert(path_result(directory) == worktrees_directory(anchor@, setting@, style));
}

/// A new worktree lies below the directory for worktrees: in the directory of its branch, under
/// the name of the project.
pub proof fn new_worktrees_lie_in_their_branch(
    snapshot: RepositorySnapshot,
    branch_name: &str,
    setting: &str,
    style: PathStyle,
    path: RelPath,
)
    requires
        call_ensures(
            RepositorySnapshot::path_for_new_linked_worktree,
            (&snapshot, branch_name, setting, style),
            Ok::<RelPath, WorktreePathError>(path),
        ),
        is_plain(snapshot.anchor()),
        snapshot.anchor().len() > 0,
        snapshot.anchor().last().len() > 0,
        !snapshot.anchor().last().contains('/'),
        style == PathStyle::Windows ==> !snapshot.anchor().last().contains('\\'),
        is_plain(split_path(branch_name@, style)),
    ensures
        exists|directory: Seq<Seq<char>>| #[trigger]
            worktrees_directory(snapshot.anchor(), setting@, style) == Ok::<
                Seq<Seq<char>>,
                WorktreePathError,
            >(directory) && path@ == (directory + split_path(branch_name@, style)).push(
                snapshot.anchor().last(),
            ),
{
    let anchor = snapshot.anchor();
    let name = anchor.last();
    let branch = split_path(branch_name@, style);
    reveal_strlit(".");
    reveal_strlit("..");
    assert("."@ =~= seq!['.']);
    assert(".."@ =~= seq!['.', '.']);
    assert(anchor[anchor.len() - 1] == name);
    let directory = worktrees_directory(anchor, setting@, style)->Ok_0;
    assert(new_worktree_path(anchor, branch_name@, setting@, style) == Ok::<
        Seq<Seq<char>>,
        WorktreePathError,
    >(path@));
    let leads_to = path_at(anchor, without_separators(setting@), style);
    lemma_normalized_is_plain(anchor + split_path(without_separators(setting@), style));
    lemma_normalized_is_plain(leads_to + split_path(anchor.last(), style));
    lemma_plain_is_normal(directory);
    lemma_plain_tail_stays(directory, branch);
    lemma_normalized_is_plain(directory + branch);
    relative_paths_are_followed(directory + branch, name, Seq::empty(), Seq::empty(), style);
    assert(worktrees_directory(anchor, setting@, style) == Ok::<Seq<Seq<char>>, WorktreePathError>(
        directory,
    ));
}

/// A new worktree is refused where the repository has no name, where its setting is refused, or
/// where the name of the branch is an absolute path, and only there.
pub proof fn new_worktrees_are_refused_for_a_reason(
    snapshot: RepositorySnapshot,
    branch_name: &str,
    setting: &str,
    style: PathStyle,
    path: Result<RelPath, WorktreePathError>,
)
    requires
        call_ensures(
            RepositorySnapshot::path_for_new_linked_worktree,
            (&snapshot, branch_name, setting, style),
            path,
        ),
    ensures
        ({
            let anchor = snapshot.anchor();
            let text = branch_name@;
            let named = anchor.len() > 0 && anchor.last() != seq!['.', '.'];
            let absolute = text.len() > 0 && (text[0] == '/' || style == PathStyle::Windows
                && text[0] == '\\') || (style == PathStyle::Windows && text.len() > 2 && ('a'
                <= text[0] <= 'z' || 'A' <= text[0] <= 'Z') && text[1] == ':' && (text[2] == '/'
                || text[2] == '\\'));
            &&& (path matches Err(WorktreePathError::NoDirectoryName)) <==> !named
            &&& (path matches Err(WorktreePathError::AbsoluteBranch)) <==> named
                && worktrees_directory(anchor, setting@, style) is Ok && absolute
            &&& path is Ok <==> named && worktrees_directory(anchor, setting@, style) is Ok
                && !absolute
        }),
{
    reveal_strlit("..");
    assert(".."@ =~= seq!['.', '.']);
    assert(path_result(path) == new_worktree_path(
        snapshot.anchor(),
        branch_name@,
        setting@,
        style,
    ));
}

/// Worktrees are placed by the main worktree: the work directory of a repository that is no
/// linked worktree, and what the common git directory lies in of one that is. Where that is bare,
/// the common directory itself stands for it.
pub proof fn worktrees_are_placed_by_the_main_one(
    snapshot: RepositorySnapshot,
    anchor: RelPath,
    linked: Option<RelPath>,
)
    requires
        call_ensures(RepositorySnapshot::repository_anchor, (&snapshot,), anchor),
        call_ensures(RepositorySnapshot::linked_worktree_path, (&snapshot,), linked),
    ensures
        snapshot.anchor() == anchor@,
        snapshot.dirs.repository_dir@ == snapshot.dirs.common_dir@ ==> anchor@
            == snapshot.dirs.work_directory@ && linked is None,
        snapshot.dirs.repository_dir@ != snapshot.dirs.common_dir@ ==> (linked matches Some(path)
            && path@ == snapshot.dirs.work_directory@) && (anchor@ == snapshot.dirs.common_dir@
            || anchor@.push(".git"@) == snapshot.dirs.common_dir@),
        snapshot.dirs.repository_dir@ != snapshot.dirs.common_dir@
            && snapshot.dirs.common_dir@.len() > 0 && snapshot.dirs.common_dir@.last() == ".git"@
            ==> anchor@.push(".git"@) == snapshot.dirs.common_dir@,
{
    if snapshot.dirs.repository_dir@ != snapshot.dirs.common_dir@
        && snapshot.dirs.common_dir@.len() > 0 && snapshot.dirs.common_dir@.last() == ".git"@ {
        assert(anchor@.push(".git"@) =~= snapshot.dirs.common_dir@);
    }
}

/// When a worktree is removed, the directories above it are looked at one after the other, each
/// the parent of the one before, until the directory for worktrees is reached, which stays.
pub proof fn empty_directories_are_removed_upwards(
    current: RelPath,
    base: RelPath,
    next: Option<RelPath>,
)
    requires
        call_ensures(next_managed_worktree_ancestor, (&current, &base), next),
    ensures
        match next {
            Some(parent) => parent@.push(current@.last()) == current@ && parent@.len()
                > base@.len() && parent@.take(base@.len() as int) == base@,
            None => forall|below: Seq<Seq<char>>, name: Seq<char>|
                below.len() > 0 ==> current@ != #[trigger] (base@ + below).push(name),
        },
{
    if let Some(parent) = next {
        assert(parent@.push(current@.last()) =~= current@);
        if parent@.len() == base@.len() {
            assert(parent@.take(base@.len() as int) =~= parent@);
        }
    } else {
        assert forall|below: Seq<Seq<char>>, name: Seq<char>| below.len() > 0 implies current@
            != #[trigger] (base@ + below).push(name) by {
            let path = (base@ + below).push(name);
            if current@ == path {
                assert(path.drop_last() =~= base@ + below);
                assert((base@ + below).take(base@.len() as int) =~= base@);
                assert((base@ + below).len() > base@.len());
            }
        }
    }
}

/// The short name of a linked worktree is the last name in its path that is not that of the
/// project; the main worktree has none.
pub proof fn short_names_tell_worktrees_apart(
    main: RelPath,
    linked: RelPath,
    name: Option<String>,
)
    requires
        call_ensures(linked_worktree_short_name, (&main, &linked), name),
    ensures
        main@ == linked@ ==> name is None,
        main@.len() == 0 || linked@.len() == 0 ==> name is None,
        main@ != linked@ && main@.len() > 0 && linked@.len() > 0 && main@.last() != seq!['.', '.']
            && linked@.last() != seq!['.', '.'] ==> ({
            &&& linked@.last() != main@.last() ==> name is Some && name->0@ == linked@.last()
            &&& linked@.last() == main@.last() && linked@.len() > 1 && linked@[linked@.len() - 2]
                != seq!['.', '.'] ==> name is Some && name->0@ == linked@[linked@.len() - 2]
        }),
{
    reveal_strlit("..");
    assert(".."@ =~= seq!['.', '.']);
    assert(text_view(name) == short_name(main@, linked@));
}

/// A `.git` file names the git directory behind its keyword, and nothing else does.
pub proof fn git_files_name_the_git_directory(content: &str, pointer: Option<String>, rest: Seq<char>)
    requires
        call_ensures(linked_git_dir, (content,), pointer),
    ensures
        content@ == seq!['g', 'i', 't', 'd', 'i', 'r', ':'] + rest ==> pointer is Some
            && pointer->0@ == crate::text_lines::trimmed(rest),
        pointer is Some ==> content@.len() >= 7 && content@.take(7) == seq![
            'g',
            'i',
            't',
            'd',
            'i',
            'r',
            ':',
        ],
{
    reveal_strlit("gitdir:");
    let keyword = seq!['g', 'i', 't', 'd', 'i', 'r', ':'];
    assert("gitdir:"@ =~= keyword);
    if content@ == keyword + rest {
        assert(content@.take(7) =~= keyword);
        assert(content@.skip(7) =~= rest);
    }
    assert(text_view(pointer) == git_dir_pointer(content@));
}

} // verus!
