//! Opening a file that a language server named.
use std::collections::BTreeMap;
use vstd::prelude::*;

use crate::ids::map_get;
use crate::lsp_store::registration::serves_invisibly;
use crate::lsp_store::requests::symbol_seed;
use crate::lsp_store::servers::{serves, LocalLspStore, LocalView, SeedView};
use crate::rel_path::{has_prefix, RelPath};

verus! {

/// A file inside an archive: the archive, and the path in it.
#[derive(Debug)]
pub struct ArchivedPath {
    pub root: RelPath,
    pub path: RelPath,
}

/// Whose settings say whether a buffer is read-only: those of a worktree, about the root of
/// the worktree that was made for the buffer.
#[derive(Debug)]
pub struct Governed {
    pub worktree: u64,
    pub root: RelPath,
}

/// How far the opening of a file has come.
#[derive(Debug)]
pub enum OpeningStage {
    /// It is found out whether the file lies in an archive.
    Unpacking,
    FindingWorktree { archived: Option<ArchivedPath> },
    MakingWorktree { archived: Option<ArchivedPath> },
    OpeningBuffer { governed: Option<Governed> },
    Ended,
}

/// A file that is being opened because a server named it.
#[derive(Debug)]
pub struct LocalBufferOpening {
    pub abs_path: RelPath,
    pub language_server_id: u64,
    pub stage: OpeningStage,
}

/// What comes back from outside.
#[derive(Debug)]
pub enum OpeningEvent {
    /// Where in an archive the file lies, if it does.
    Unpacked(Option<ArchivedPath>),
    /// A worktree, and the path in it.
    WorktreeFound { worktree: u64, path: RelPath },
    WorktreeMissing,
    /// A worktree that is not shown was made. `served` is the worktree that the server was
    /// started for, if that is known.
    WorktreeMade { worktree: u64, root: RelPath, is_local: bool, served: Option<u64> },
    BufferOpened,
    /// What was asked for failed.
    Failed,
}

/// What is done next.
#[derive(Debug)]
pub enum OpeningAction {
    FindWorktree(RelPath),
    MakeWorktree(RelPath),
    OpenBuffer { worktree: u64, path: RelPath },
    /// The buffer is handed out, read-only if the settings say so.
    HandOut { governed: Option<Governed> },
    Fail,
}

/// The URI is not that of a file.
#[derive(Clone, Copy, Debug, PartialEq, Eq, Structural)]
pub struct NoFilePath;

impl NoFilePath {
    pub fn message(&self) -> (message: &'static str)
        ensures
            message@ == "can't convert URI to path"@,
    {
        "can't convert URI to path"
    }
}

pub ghost struct ArchivedView {
    pub root: Seq<Seq<char>>,
    pub path: Seq<Seq<char>>,
}

pub ghost struct GovernedView {
    pub worktree: u64,
    pub root: Seq<Seq<char>>,
}

pub ghost enum StageView {
    Unpacking,
    FindingWorktree { archived: Option<ArchivedView> },
    MakingWorktree { archived: Option<ArchivedView> },
    OpeningBuffer { governed: Option<GovernedView> },
    Ended,
}

pub ghost enum EventView {
    Unpacked(Option<ArchivedView>),
    WorktreeFound { worktree: u64, path: Seq<Seq<char>> },
    WorktreeMissing,
    WorktreeMade { worktree: u64, root: Seq<Seq<char>>, is_local: bool, served: Option<u64> },
    BufferOpened,
    Failed,
}

pub ghost enum ActionView {
    FindWorktree(Seq<Seq<char>>),
    MakeWorktree(Seq<Seq<char>>),
    OpenBuffer { worktree: u64, path: Seq<Seq<char>> },
    HandOut { governed: Option<GovernedView> },
    Fail,
}

pub open spec fn archived_view(archived: Option<ArchivedPath>) -> Option<ArchivedView> {
    match archived {
        Some(archived) => Some(ArchivedView { root: archived.root@, path: archived.path@ }),
        None => None,
    }
}

pub open spec fn governed_view(governed: Option<Governed>) -> Option<GovernedView> {
    match governed {
        Some(governed) => Some(
            GovernedView { worktree: governed.worktree, root: governed.root@ },
        ),
        None => None,
    }
}

impl View for OpeningStage {
    type V = StageView;

    open spec fn view(&self) -> StageView {
        match *self {
            OpeningStage::Unpacking => StageView::Unpacking,
            OpeningStage::FindingWorktree { archived } => StageView::FindingWorktree {
                archived: archived_view(archived),
            },
            OpeningStage::MakingWorktree { archived } => StageView::MakingWorktree {
                archived: archived_view(archived),
            },
            OpeningStage::OpeningBuffer { governed } => StageView::OpeningBuffer {
                governed: governed_view(governed),
            },
            OpeningStage::Ended => StageView::Ended,
        }
    }
}

impl View for OpeningEvent {
    type V = EventView;

    open spec fn view(&self) -> EventView {
        match *self {
            OpeningEvent::Unpacked(archived) => EventView::Unpacked(archived_view(archived)),
            OpeningEvent::WorktreeFound { worktree, path } => EventView::WorktreeFound {
                worktree,
                path: path@,
            },
            OpeningEvent::WorktreeMissing => EventView::WorktreeMissing,
            OpeningEvent::WorktreeMade { worktree, root, is_local, served } => {
                EventView::WorktreeMade { worktree, root: root@, is_local, served }
            },
            OpeningEvent::BufferOpened => EventView::BufferOpened,
            OpeningEvent::Failed => EventView::Failed,
        }
    }
}

impl View for OpeningAction {
    type V = ActionView;

    open spec fn view(&self) -> ActionView {
        match *self {
            OpeningAction::FindWorktree(path) => ActionView::FindWorktree(path@),
            OpeningAction::MakeWorktree(path) => ActionView::MakeWorktree(path@),
            OpeningAction::OpenBuffer { worktree, path } => ActionView::OpenBuffer {
                worktree,
                path: path@,
            },
            OpeningAction::HandOut { governed } => ActionView::HandOut {
                governed: governed_view(governed),
            },
            OpeningAction::Fail => ActionView::Fail,
        }
    }
}

/// The path whose worktree is looked for: that of the archive for a file in one, else the
/// file itself.
pub open spec fn target_of(abs_path: Seq<Seq<char>>, archived: Option<ArchivedView>) -> Seq<
    Seq<char>,
> {
    match archived {
        Some(archived) => archived.root,
        None => abs_path,
    }
}

/// The path of a file in a worktree that was found for it.
pub open spec fn path_when_found(found: Seq<Seq<char>>, archived: Option<ArchivedView>) -> Seq<
    Seq<char>,
> {
    match archived {
        Some(archived) => archived.path,
        None => found,
    }
}

/// The path of a file in a worktree that was made for it; none, if the file does not lie in
/// it.
pub open spec fn path_when_made(
    abs_path: Seq<Seq<char>>,
    root: Seq<Seq<char>>,
    archived: Option<ArchivedView>,
) -> Option<Seq<Seq<char>>> {
    match archived {
        Some(archived) => Some(archived.path),
        None => if has_prefix(abs_path, root) {
            Some(abs_path.skip(root.len() as int))
        } else {
            None
        },
    }
}

/// What follows on an event. An event that does not belong to the stage ends the opening.
pub open spec fn opening_step(
    abs_path: Seq<Seq<char>>,
    stage: StageView,
    event: EventView,
) -> (StageView, ActionView) {
    match (stage, event) {
        (StageView::Unpacking, EventView::Unpacked(archived)) => (
            StageView::FindingWorktree { archived },
            ActionView::FindWorktree(target_of(abs_path, archived)),
        ),
        (
            StageView::FindingWorktree { archived },
            EventView::WorktreeFound { worktree, path },
        ) => (
            StageView::OpeningBuffer { governed: None },
            ActionView::OpenBuffer { worktree, path: path_when_found(path, archived) },
        ),
        (StageView::FindingWorktree { archived }, EventView::WorktreeMissing) => (
            StageView::MakingWorktree { archived },
            ActionView::MakeWorktree(target_of(abs_path, archived)),
        ),
        (
            StageView::MakingWorktree { archived },
            EventView::WorktreeMade { worktree, root, is_local, served },
        ) => match path_when_made(abs_path, root, archived) {
            Some(path) => (
                StageView::OpeningBuffer {
                    governed: match served {
                        Some(served) if is_local => Some(
                            GovernedView { worktree: served, root },
                        ),
                        _ => None,
                    },
                },
                ActionView::OpenBuffer { worktree, path },
            ),
            None => (StageView::Ended, ActionView::Fail),
        },
        (StageView::OpeningBuffer { governed }, EventView::BufferOpened) => (
            StageView::Ended,
            ActionView::HandOut { governed },
        ),
        _ => (StageView::Ended, ActionView::Fail),
    }
}

/// The worktree that an event reports as made, if the server has to serve it from now on.
pub open spec fn newly_served(stage: StageView, event: EventView) -> Option<u64> {
    match (stage, event) {
        (
            StageView::MakingWorktree { .. },
            EventView::WorktreeMade { worktree, is_local, .. },
        ) if is_local => Some(worktree),
        _ => None,
    }
}

/// A path in a worktree of the project.
#[derive(Debug)]
pub struct ProjectPath {
    pub worktree_id: u64,
    pub path: RelPath,
}

/// Where a symbol lies.
#[derive(Debug)]
pub enum SymbolLocation {
    InProject(ProjectPath),
    /// A path that does not start at the root of the file system leads nowhere.
    OutsideProject { abs_path: Option<RelPath>, signature: [u8; 32] },
}

/// A symbol that a server named.
#[derive(Debug)]
pub struct Symbol {
    pub language_server_name: String,
    pub source_worktree_id: u64,
    pub source_language_server_id: u64,
    pub path: SymbolLocation,
}

/// Why a symbol cannot be opened.
#[derive(Clone, Copy, Debug, PartialEq, Eq, Structural)]
pub enum SymbolError {
    ServerNotFound,
    NoSuchWorktree,
    InvalidPath,
}

impl SymbolError {
    pub fn message(&self) -> (message: &'static str)
        ensures
            message@ == (match *self {
                SymbolError::ServerNotFound => {
                    "language server for worktree and language not found"@
                },
                SymbolError::NoSuchWorktree => "no such worktree"@,
                SymbolError::InvalidPath => "invalid symbol path"@,
            }),
    {
        match self {
            SymbolError::ServerNotFound => "language server for worktree and language not found",
            SymbolError::NoSuchWorktree => "no such worktree",
            SymbolError::InvalidPath => "invalid symbol path",
        }
    }
}

/// The path of a symbol on disk, given the roots of the worktrees.
pub open spec fn symbol_path(location: SymbolLocation, roots: Map<u64, RelPath>) -> Result<
    Seq<Seq<char>>,
    SymbolError,
> {
    match location {
        SymbolLocation::InProject(path) => if roots.contains_key(path.worktree_id) {
            Ok(roots[path.worktree_id]@ + path.path@)
        } else {
            Err(SymbolError::NoSuchWorktree)
        },
        SymbolLocation::OutsideProject { abs_path: Some(path), .. } => Ok(path@),
        SymbolLocation::OutsideProject { abs_path: None, .. } => Err(SymbolError::InvalidPath),
    }
}

/// The server that a symbol came from is still the one for its worktree.
pub open spec fn has_source(store: LocalView, symbol: Symbol) -> bool {
    exists|seed: SeedView| #[trigger]
        serves(store.ids, seed, symbol.source_language_server_id) && symbol_seed(
            seed,
            symbol.source_worktree_id,
            symbol.language_server_name@,
        )
}

impl LocalLspStore {
    /// Begins to open the file of a symbol, if the server that it came from is still the one
    /// for its worktree.
    pub fn open_buffer_for_symbol(&self, symbol: &Symbol, roots: &BTreeMap<u64, RelPath>) -> (
    result: Result<LocalBufferOpening, SymbolError>)
        requires
            self.well_formed(),
        ensures
            if !has_source(self@, *symbol) {
                result == Err::<LocalBufferOpening, SymbolError>(SymbolError::ServerNotFound)
            } else {
                match symbol_path(symbol.path, roots@) {
                    Ok(path) => result matches Ok(opening) && opening.abs_path@ == path
                        && opening.language_server_id == symbol.source_language_server_id
                        && opening.stage is Unpacking,
                    Err(error) => result == Err::<LocalBufferOpening, SymbolError>(error),
                }
            },
    {
        if !self.is_valid_symbol_source(
            symbol.source_worktree_id,
            symbol.source_language_server_id,
            symbol.language_server_name.as_str(),
        ) {
            return Err(SymbolError::ServerNotFound);
        }
        let abs_path: Option<RelPath> = match &symbol.path {
            SymbolLocation::InProject(path) => match map_get(roots, path.worktree_id) {
                Some(root) => Some(root.join(&path.path)),
                None => return Err(SymbolError::NoSuchWorktree),
            },
            SymbolLocation::OutsideProject { abs_path: Some(path), .. } => Some(path.clone()),
            SymbolLocation::OutsideProject { abs_path: None, .. } => None,
        };
        match Self::open_local_buffer_via_lsp(abs_path, symbol.source_language_server_id) {
            Ok(opening) => Ok(opening),
            Err(NoFilePath) => Err(SymbolError::InvalidPath),
        }
    }

    /// Begins to open a file that a server named by its URI. `path` is that of the file, if
    /// the URI is one of a file.
    pub fn open_local_buffer_via_lsp(path: Option<RelPath>, language_server_id: u64) -> (result:
        Result<LocalBufferOpening, NoFilePath>)
        ensures
            match path {
                Some(path) => result == Ok::<LocalBufferOpening, NoFilePath>(
                    LocalBufferOpening {
                        abs_path: path,
                        language_server_id,
                        stage: OpeningStage::Unpacking,
                    },
                ),
                None => result == Err::<LocalBufferOpening, NoFilePath>(NoFilePath),
            },
    {
        match path {
            Some(abs_path) => Ok(
                LocalBufferOpening {
                    abs_path,
                    language_server_id,
                    stage: OpeningStage::Unpacking,
                },
            ),
            None => Err(NoFilePath),
        }
    }

    /// Goes on with the opening of a file: takes what came back from outside, and says what is
    /// done next. The server serves a worktree that was made for the file.
    pub fn advance_opening(&mut self, opening: &mut LocalBufferOpening, event: OpeningEvent) -> (
    action: OpeningAction)
        requires
            old(self).well_formed(),
        ensures
            final(self).well_formed(),
            final(opening).abs_path == old(opening).abs_path,
            final(opening).language_server_id == old(opening).language_server_id,
            (final(opening).stage@, action@) == opening_step(
                old(opening).abs_path@,
                old(opening).stage@,
                event@,
            ),
            match newly_served(old(opening).stage@, event@) {
                Some(worktree) => serves_invisibly(
                    old(self)@.ids,
                    final(self)@.ids,
                    worktree,
                    old(opening).language_server_id,
                ),
                None => final(self)@.ids == old(self)@.ids,
            },
            final(self)@ == (LocalView { ids: final(self)@.ids, ..old(self)@ }),
    {
        let mut stage: OpeningStage = OpeningStage::Ended;
        std::mem::swap(&mut stage, &mut opening.stage);
        match (stage, event) {
            (OpeningStage::Unpacking, OpeningEvent::Unpacked(archived)) => {
                let target: RelPath = match &archived {
                    Some(archived) => archived.root.clone(),
                    None => opening.abs_path.clone(),
                };
                opening.stage = OpeningStage::FindingWorktree { archived };
                OpeningAction::FindWorktree(target)
            },
            (
                OpeningStage::FindingWorktree { archived },
                OpeningEvent::WorktreeFound { worktree, path },
            ) => {
                opening.stage = OpeningStage::OpeningBuffer { governed: None };
                let path: RelPath = match archived {
                    Some(archived) => archived.path,
                    None => path,
                };
                OpeningAction::OpenBuffer { worktree, path }
            },
            (OpeningStage::FindingWorktree { archived }, OpeningEvent::WorktreeMissing) => {
                let target: RelPath = match &archived {
                    Some(archived) => archived.root.clone(),
                    None => opening.abs_path.clone(),
                };
                opening.stage = OpeningStage::MakingWorktree { archived };
                OpeningAction::MakeWorktree(target)
            },
            (
                OpeningStage::MakingWorktree { archived },
                OpeningEvent::WorktreeMade { worktree, root, is_local, served },
            ) => {
                if is_local {
                    self.register_language_server_for_invisible_worktree(
                        worktree,
                        opening.language_server_id,
                    );
                }
                let path: Option<RelPath> = match archived {
                    Some(archived) => Some(archived.path),
                    None => opening.abs_path.strip_prefix(&root),
                };
                match path {
                    Some(path) => {
                        let governed: Option<Governed> = match served {
                            Some(served) if is_local => Some(Governed { worktree: served, root }),
                            _ => None,
                        };
                        opening.stage = OpeningStage::OpeningBuffer { governed };
                        OpeningAction::OpenBuffer { worktree, path }
                    },
                    None => OpeningAction::Fail,
                }
            },
            (OpeningStage::OpeningBuffer { governed }, OpeningEvent::BufferOpened) => {
                OpeningAction::HandOut { governed }
            },
            _ => OpeningAction::Fail,
        }
    }
}

/// The file that is opened is the one that was named. In a worktree that was made for it, its
/// path below the root leads to it. A file in an archive is opened under its path there,
/// whether the worktree of the archive was found or made.
pub proof fn opened_file_is_the_named_one(
    abs_path: Seq<Seq<char>>,
    archived: Option<ArchivedView>,
    stage: StageView,
    event: EventView,
)
    requires
        stage == (StageView::FindingWorktree { archived }) || stage == (
        StageView::MakingWorktree { archived }),
    ensures
        opening_step(abs_path, stage, event).1 matches ActionView::OpenBuffer { path, .. } ==> (
        match archived {
            Some(archived) => path == archived.path,
            None => match event {
                EventView::WorktreeMade { root, .. } => root + path == abs_path,
                EventView::WorktreeFound { path: found, .. } => path == found,
                _ => false,
            },
        }),
{
    if archived is None {
        if let EventView::WorktreeMade { root, .. } = event {
            if has_prefix(abs_path, root) {
                assert(root + abs_path.skip(root.len() as int) =~= abs_path);
            }
        }
    }
}

/// A file is opened step by step. First it is found out whether it lies in an archive. Then the
/// worktree of the archive, or of the file itself, is looked for.
pub proof fn files_are_looked_for(
    plain_store: &mut LocalLspStore,
    packed_store: &mut LocalLspStore,
    plain: &mut LocalBufferOpening,
    packed: &mut LocalBufferOpening,
    root: RelPath,
    path: RelPath,
    to_plain: OpeningAction,
    to_packed: OpeningAction,
)
    requires
        old(plain).stage is Unpacking,
        old(packed).stage is Unpacking,
        call_ensures(
            LocalLspStore::advance_opening,
            (plain_store, plain, OpeningEvent::Unpacked(None)),
            to_plain,
        ),
        call_ensures(
            LocalLspStore::advance_opening,
            (packed_store, packed, OpeningEvent::Unpacked(Some(ArchivedPath { root, path }))),
            to_packed,
        ),
    ensures
        to_plain matches OpeningAction::FindWorktree(looked_for) && looked_for@ == old(plain).abs_path@,
        to_packed matches OpeningAction::FindWorktree(looked_for) && looked_for@ == root@,
        final(plain).stage matches OpeningStage::FindingWorktree { archived } && archived is None,
        final(packed).stage matches OpeningStage::FindingWorktree { archived } && archived is Some
            && archived->0.root@ == root@ && archived->0.path@ == path@,
        final(plain_store)@.ids == old(plain_store)@.ids,
{
    assert(to_plain@ == ActionView::FindWorktree(old(plain).abs_path@));
    assert(to_packed@ == ActionView::FindWorktree(root@));
    assert(final(plain).stage@ == (StageView::FindingWorktree { archived: None }));
    assert(final(packed).stage@ == (StageView::FindingWorktree {
        archived: Some(ArchivedView { root: root@, path: path@ }),
    }));
}

/// A file is opened in the worktree that was found for it, at the path that was found. Where none
/// is found, one is made. A file that does not lie in the worktree that was made cannot be
/// opened; else it is opened at its path below the root.
pub proof fn files_are_opened_in_their_worktree(
    found_store: &mut LocalLspStore,
    missing_store: &mut LocalLspStore,
    made_store: &mut LocalLspStore,
    found: &mut LocalBufferOpening,
    missing: &mut LocalBufferOpening,
    made: &mut LocalBufferOpening,
    worktree: u64,
    path: RelPath,
    root: RelPath,
    is_local: bool,
    served: Option<u64>,
    inside: Seq<Seq<char>>,
    to_found: OpeningAction,
    to_missing: OpeningAction,
    to_made: OpeningAction,
)
    requires
        old(found).stage == (OpeningStage::FindingWorktree { archived: None }),
        old(missing).stage == (OpeningStage::FindingWorktree { archived: None }),
        old(made).stage == (OpeningStage::MakingWorktree { archived: None }),
        call_ensures(
            LocalLspStore::advance_opening,
            (found_store, found, OpeningEvent::WorktreeFound { worktree, path }),
            to_found,
        ),
        call_ensures(
            LocalLspStore::advance_opening,
            (missing_store, missing, OpeningEvent::WorktreeMissing),
            to_missing,
        ),
        call_ensures(
            LocalLspStore::advance_opening,
            (
                made_store,
                made,
                OpeningEvent::WorktreeMade { worktree, root, is_local, served },
            ),
            to_made,
        ),
    ensures
        to_found matches OpeningAction::OpenBuffer { worktree: into, path: at } && into == worktree
            && at@ == path@,
        final(found).stage matches OpeningStage::OpeningBuffer { governed: None },
        to_missing matches OpeningAction::MakeWorktree(at) && at@ == old(missing).abs_path@,
        final(missing).stage is MakingWorktree,
        old(made).abs_path@ == root@ + inside ==> (to_made matches OpeningAction::OpenBuffer {
            worktree: into,
            path: at,
        } && into == worktree && at@ == inside),
        !has_prefix(old(made).abs_path@, root@) ==> to_made is Fail && final(made).stage is Ended,
        has_prefix(old(made).abs_path@, root@) && is_local ==> (final(made).stage
            matches OpeningStage::OpeningBuffer { governed } && (governed is Some <==> served
            is Some) && (governed is Some ==> governed->0.worktree == served->0
            && governed->0.root@ == root@)),
        has_prefix(old(made).abs_path@, root@) && !is_local ==> (final(made).stage
            matches OpeningStage::OpeningBuffer { governed: None }),
{
    assert(to_found@ == (ActionView::OpenBuffer { worktree, path: path@ }));
    assert(final(found).stage@ == (StageView::OpeningBuffer { governed: None }));
    assert(to_missing@ == ActionView::MakeWorktree(old(missing).abs_path@));
    if old(made).abs_path@ == root@ + inside {
        assert(old(made).abs_path@.take(root@.len() as int) =~= root@);
        assert(old(made).abs_path@.skip(root@.len() as int) =~= inside);
        assert(to_made@ == (ActionView::OpenBuffer { worktree, path: inside }));
    }
    if has_prefix(old(made).abs_path@, root@) {
        assert(final(made).stage@ is OpeningBuffer);
        match final(made).stage {
            OpeningStage::OpeningBuffer { governed } => {
                assert(final(made).stage@ == (StageView::OpeningBuffer {
                    governed: governed_view(governed),
                }));
            },
            _ => {},
        }
    }
}

/// A file in an archive is opened at its path in the archive, whether the worktree was found or
/// made for it.
pub proof fn archived_files_are_opened_in_the_archive(
    found_store: &mut LocalLspStore,
    made_store: &mut LocalLspStore,
    found: &mut LocalBufferOpening,
    made: &mut LocalBufferOpening,
    archived: ArchivedPath,
    worktree: u64,
    path: RelPath,
    root: RelPath,
    is_local: bool,
    served: Option<u64>,
    to_found: OpeningAction,
    to_made: OpeningAction,
)
    requires
        old(found).stage == (OpeningStage::FindingWorktree { archived: Some(archived) }),
        old(made).stage == (OpeningStage::MakingWorktree { archived: Some(archived) }),
        call_ensures(
            LocalLspStore::advance_opening,
            (found_store, found, OpeningEvent::WorktreeFound { worktree, path }),
            to_found,
        ),
        call_ensures(
            LocalLspStore::advance_opening,
            (
                made_store,
                made,
                OpeningEvent::WorktreeMade { worktree, root, is_local, served },
            ),
            to_made,
        ),
    ensures
        to_found matches OpeningAction::OpenBuffer { worktree: into, path: at } && into == worktree
            && at@ == archived.path@,
        to_made matches OpeningAction::OpenBuffer { worktree: into, path: at } && into == worktree
            && at@ == archived.path@,
{
    assert(to_found@ == (ActionView::OpenBuffer { worktree, path: archived.path@ }));
    assert(to_made@ == (ActionView::OpenBuffer { worktree, path: archived.path@ }));
}

/// A buffer that was opened is handed out under the settings that govern it. What failed, or does
/// not belong there, ends the opening.
pub proof fn opened_buffers_are_handed_out(
    opened_store: &mut LocalLspStore,
    failed_store: &mut LocalLspStore,
    opened: &mut LocalBufferOpening,
    failed: &mut LocalBufferOpening,
    governed: Option<Governed>,
    to_opened: OpeningAction,
    to_failed: OpeningAction,
)
    requires
        old(opened).stage == (OpeningStage::OpeningBuffer { governed }),
        call_ensures(
            LocalLspStore::advance_opening,
            (opened_store, opened, OpeningEvent::BufferOpened),
            to_opened,
        ),
        call_ensures(
            LocalLspStore::advance_opening,
            (failed_store, failed, OpeningEvent::Failed),
            to_failed,
        ),
    ensures
        to_opened matches OpeningAction::HandOut { governed: by } && (by is Some <==> governed
            is Some) && (by is Some ==> by->0.worktree == governed->0.worktree && by->0.root@
            == governed->0.root@),
        final(opened).stage is Ended,
        to_failed is Fail,
        final(failed).stage is Ended,
        final(failed).abs_path == old(failed).abs_path,
{
    assert(to_opened@ == (ActionView::HandOut { governed: governed_view(governed) }));
    assert(final(opened).stage@ is Ended);
    assert(to_failed@ is Fail);
    assert(final(failed).stage@ is Ended);
}

/// A worktree that was made for a local file is served by the server that named the file. Nothing
/// else that happens changes what servers serve.
pub proof fn made_worktrees_are_served(
    store: &mut LocalLspStore,
    opening: &mut LocalBufferOpening,
    event: OpeningEvent,
    action: OpeningAction,
    worktree: u64,
    seed: SeedView,
)
    requires
        call_ensures(LocalLspStore::advance_opening, (store, opening, event), action),
    ensures
        !(old(opening).stage is MakingWorktree && event is WorktreeMade) ==> final(store)@ == old(store)@,
        old(opening).stage is MakingWorktree ==> (event matches OpeningEvent::WorktreeMade {
            worktree: made,
            is_local,
            ..
        } ==> made == worktree && is_local ==> (old(store).language_server_ids@.contains_key(seed)
            && old(store).language_server_ids@[seed].id == old(opening).language_server_id
            ==> exists|s: SeedView| #[trigger]
            final(store).language_server_ids@.contains_key(s) && s.worktree_id == worktree)),
        old(store).language_server_ids@.contains_key(seed) ==> final(store).language_server_ids@.contains_key(seed),
        final(store).language_servers@ == old(store).language_servers@,
{
    let before = old(store)@.ids;
    let after = final(store)@.ids;
    assert(before.contains_key(seed) <==> old(store).language_server_ids@.contains_key(seed));
    assert(after.contains_key(seed) <==> final(store).language_server_ids@.contains_key(seed));
    match newly_served(old(opening).stage@, event@) {
        Some(made) => {
            if exists|s: SeedView| serves(before, s, old(opening).language_server_id) {
                let s = choose|s: SeedView| #[trigger]
                    serves(before, s, old(opening).language_server_id) && after
                        == crate::lsp_store::registration::also_in_worktree(before, s, made);
                let there = SeedView { worktree_id: made, ..s };
                assert(after.contains_key(there));
                assert(final(store).language_server_ids@.contains_key(there));
            }
            if old(store).language_server_ids@.contains_key(seed) && old(store).language_server_ids@[seed].id == old(opening).language_server_id {
                assert(before[seed].id == old(store).language_server_ids@[seed].id);
                assert(serves(before, seed, old(opening).language_server_id));
            }
        },
        None => {},
    }
}

/// The file of a symbol lies below the root of its worktree, or at its own path outside of the
/// project. It is opened only if its server is still the one that it came from.
pub proof fn symbols_lead_to_their_files(
    store: LocalLspStore,
    symbol: Symbol,
    roots: BTreeMap<u64, RelPath>,
    result: Result<LocalBufferOpening, SymbolError>,
    valid: bool,
    name: &str,
)
    requires
        call_ensures(LocalLspStore::open_buffer_for_symbol, (&store, &symbol, &roots), result),
        name@ == symbol.language_server_name@,
        call_ensures(
            LocalLspStore::is_valid_symbol_source,
            (&store, symbol.source_worktree_id, symbol.source_language_server_id, name),
            valid,
        ),
    ensures
        !valid ==> result == Err::<LocalBufferOpening, SymbolError>(SymbolError::ServerNotFound),
        valid ==> (symbol.path matches SymbolLocation::InProject(path) ==> if roots@.contains_key(
            path.worktree_id,
        ) {
            result matches Ok(opening) && opening.abs_path@ == roots@[path.worktree_id]@
                + path.path@ && opening.language_server_id == symbol.source_language_server_id
                && opening.stage is Unpacking
        } else {
            result == Err::<LocalBufferOpening, SymbolError>(SymbolError::NoSuchWorktree)
        }),
        valid ==> (symbol.path matches SymbolLocation::OutsideProject { abs_path, .. } ==> (abs_path
            is None ==> result == Err::<LocalBufferOpening, SymbolError>(
            SymbolError::InvalidPath,
        )) && (abs_path is Some ==> (result matches Ok(opening) && opening.abs_path@
            == abs_path->0@))),
{
    assert(valid == has_source(store@, symbol)) by {
        assert(valid == crate::lsp_store::requests::is_source(
            store@.ids,
            symbol.source_worktree_id,
            symbol.source_language_server_id,
            name@,
        ));
    }
}

/// A file that a server names by the URI of a file is opened from the start; any other URI leads
/// nowhere.
pub proof fn named_files_are_opened_from_the_start(
    path: RelPath,
    language_server_id: u64,
    result: Result<LocalBufferOpening, NoFilePath>,
    none: Result<LocalBufferOpening, NoFilePath>,
)
    requires
        call_ensures(
            LocalLspStore::open_local_buffer_via_lsp,
            (Some(path), language_server_id),
            result,
        ),
        call_ensures(
            LocalLspStore::open_local_buffer_via_lsp,
            (None::<RelPath>, language_server_id),
            none,
        ),
    ensures
        result matches Ok(opening) && opening.abs_path == path && opening.language_server_id
            == language_server_id && opening.stage is Unpacking,
        none is Err,
{
}

} // verus!
