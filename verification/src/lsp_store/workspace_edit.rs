//! What a workspace edit of a language server does, step by step.
use vstd::prelude::*;

use crate::lsp_store::text_edits::PointUtf16;
use crate::rel_path::RelPath;
use crate::text::same_text;

verus! {

/// A change of a text, as a language server states it.
#[derive(Debug)]
pub struct LspTextEdit {
    pub start: PointUtf16,
    pub end: PointUtf16,
    pub new_text: String,
}

pub ghost struct LspTextEditView {
    pub start: PointUtf16,
    pub end: PointUtf16,
    pub new_text: Seq<char>,
}

impl View for LspTextEdit {
    type V = LspTextEditView;

    open spec fn view(&self) -> LspTextEditView {
        LspTextEditView { start: self.start, end: self.end, new_text: self.new_text@ }
    }
}

impl LspTextEdit {
    fn same(&self, other: &LspTextEdit) -> (same: bool)
        ensures
            same == (self@ == other@),
    {
        self.start == other.start && self.end == other.end && same_text(
            self.new_text.as_str(),
            other.new_text.as_str(),
        )
    }

    fn copy(&self) -> (copy: LspTextEdit)
        ensures
            copy == *self,
    {
        LspTextEdit { start: self.start, end: self.end, new_text: self.new_text.clone() }
    }
}

/// An edit in a document change, with or without an annotation.
#[derive(Debug)]
pub enum Edit {
    Plain(LspTextEdit),
    Annotated(LspTextEdit),
}

impl Edit {
    pub open spec fn text_edit(self) -> LspTextEdit {
        match self {
            Edit::Plain(edit) => edit,
            Edit::Annotated(edit) => edit,
        }
    }
}

/// The edits of one document, which was at `version` when they were made.
#[derive(Debug)]
pub struct TextDocumentEdit {
    pub uri: String,
    pub version: Option<i32>,
    pub edits: Vec<Edit>,
}

/// Options of a resource operation that may be left out.
#[derive(Clone, Copy, Debug, PartialEq, Eq, Structural)]
pub struct CreateOptions {
    pub overwrite: Option<bool>,
    pub ignore_if_exists: Option<bool>,
}

#[derive(Clone, Copy, Debug, PartialEq, Eq, Structural)]
pub struct DeleteOptions {
    pub recursive: Option<bool>,
    pub ignore_if_not_exists: Option<bool>,
}

/// An operation of a document change. A path is missing where the URI names no file.
#[derive(Debug)]
pub enum DocumentChangeOperation {
    Create { path: Option<RelPath>, options: Option<CreateOptions> },
    Rename { source: Option<RelPath>, target: Option<RelPath>, options: Option<CreateOptions> },
    Delete { path: Option<RelPath>, delete_options: Option<DeleteOptions> },
    Edit(TextDocumentEdit),
}

#[derive(Debug)]
pub enum DocumentChanges {
    Edits(Vec<TextDocumentEdit>),
    Operations(Vec<DocumentChangeOperation>),
}

#[derive(Debug)]
pub struct WorkspaceEdit {
    pub document_changes: Option<DocumentChanges>,
    pub changes: Option<Vec<(String, Vec<LspTextEdit>)>>,
}

/// A thing to do for a workspace edit.
#[derive(Debug)]
pub enum WorkspaceStep {
    CreateDir { path: RelPath },
    CreateFile { path: RelPath, overwrite: bool, ignore_if_exists: bool },
    Rename {
        source: RelPath,
        target: RelPath,
        overwrite: bool,
        ignore_if_exists: bool,
        create_parents: bool,
    },
    RemoveDir { path: RelPath, recursive: bool, ignore_if_not_exists: bool },
    RemoveFile { path: RelPath, recursive: bool, ignore_if_not_exists: bool },
    EditBuffer { uri: String, version: Option<i32>, edits: Vec<LspTextEdit> },
}

pub ghost enum StepView {
    CreateDir { path: Seq<Seq<char>> },
    CreateFile { path: Seq<Seq<char>>, overwrite: bool, ignore_if_exists: bool },
    Rename {
        source: Seq<Seq<char>>,
        target: Seq<Seq<char>>,
        overwrite: bool,
        ignore_if_exists: bool,
        create_parents: bool,
    },
    RemoveDir { path: Seq<Seq<char>>, recursive: bool, ignore_if_not_exists: bool },
    RemoveFile { path: Seq<Seq<char>>, recursive: bool, ignore_if_not_exists: bool },
    EditBuffer { uri: Seq<char>, version: Option<i32>, edits: Seq<LspTextEditView> },
}

pub open spec fn edit_views(edits: Seq<LspTextEdit>) -> Seq<LspTextEditView> {
    edits.map_values(|e: LspTextEdit| e@)
}

impl View for WorkspaceStep {
    type V = StepView;

    open spec fn view(&self) -> StepView {
        match *self {
            WorkspaceStep::CreateDir { path } => StepView::CreateDir { path: path@ },
            WorkspaceStep::CreateFile { path, overwrite, ignore_if_exists } => {
                StepView::CreateFile { path: path@, overwrite, ignore_if_exists }
            },
            WorkspaceStep::Rename {
                source,
                target,
                overwrite,
                ignore_if_exists,
                create_parents,
            } => StepView::Rename {
                source: source@,
                target: target@,
                overwrite,
                ignore_if_exists,
                create_parents,
            },
            WorkspaceStep::RemoveDir { path, recursive, ignore_if_not_exists } => {
                StepView::RemoveDir { path: path@, recursive, ignore_if_not_exists }
            },
            WorkspaceStep::RemoveFile { path, recursive, ignore_if_not_exists } => {
                StepView::RemoveFile { path: path@, recursive, ignore_if_not_exists }
            },
            WorkspaceStep::EditBuffer { uri, version, edits } => {
                StepView::EditBuffer { uri: uri@, version, edits: edit_views(edits@) }
            },
        }
    }
}

pub open spec fn step_views(steps: Seq<WorkspaceStep>) -> Seq<StepView> {
    steps.map_values(|s: WorkspaceStep| s@)
}

/// The URI of a resource operation names no file.
#[derive(Clone, Copy, Debug, PartialEq, Eq, Structural)]
pub struct UriError;

impl UriError {
    pub fn message(&self) -> (message: &'static str)
        ensures
            message@ == "can't convert URI to path"@,
    {
        "can't convert URI to path"
    }
}

/// An option that was left out is false.
pub open spec fn or_false(option: Option<bool>) -> bool {
    option == Some(true)
}

fn is_set(option: Option<bool>) -> (set: bool)
    ensures
        set == or_false(option),
{
    match option {
        Some(set) => set,
        None => false,
    }
}

/// The edits without those that are equal to an earlier one.
pub open spec fn distinct(edits: Seq<Edit>) -> Seq<LspTextEditView>
    decreases edits.len(),
{
    if edits.len() == 0 {
        Seq::empty()
    } else {
        let earlier = distinct(edits.drop_last());
        let edit = edits.last().text_edit()@;
        if earlier.contains(edit) {
            earlier
        } else {
            earlier.push(edit)
        }
    }
}

/// What an operation asks for; nothing, where one of its URIs names no file.
pub open spec fn steps(operation: DocumentChangeOperation) -> Option<Seq<StepView>> {
    match operation {
        DocumentChangeOperation::Create { path, options } => match path {
            None => None,
            Some(path) => if path@.len() == 0 {
                Some(seq![StepView::CreateDir { path: path@ }])
            } else {
                Some(
                    seq![
                        StepView::CreateDir { path: path@.drop_last() },
                        StepView::CreateFile {
                            path: path@,
                            overwrite: options is Some && or_false(options->0.overwrite),
                            ignore_if_exists: options is Some && or_false(
                                options->0.ignore_if_exists,
                            ),
                        },
                    ],
                )
            },
        },
        DocumentChangeOperation::Rename { source, target, options } => match (source, target) {
            (Some(source), Some(target)) => Some(
                seq![
                    StepView::Rename {
                        source: source@,
                        target: target@,
                        overwrite: options is Some && or_false(options->0.overwrite),
                        ignore_if_exists: options is Some && or_false(options->0.ignore_if_exists),
                        create_parents: true,
                    },
                ],
            ),
            _ => None,
        },
        DocumentChangeOperation::Delete { path, delete_options: options } => match path {
            None => None,
            Some(path) => {
                let recursive = options is Some && or_false(options->0.recursive);
                let ignore_if_not_exists = options is Some && or_false(
                    options->0.ignore_if_not_exists,
                );
                if path@.len() == 0 {
                    Some(
                        seq![StepView::RemoveDir { path: path@, recursive, ignore_if_not_exists }],
                    )
                } else {
                    Some(
                        seq![StepView::RemoveFile { path: path@, recursive, ignore_if_not_exists }],
                    )
                }
            },
        },
        DocumentChangeOperation::Edit(edit) => Some(
            seq![
                StepView::EditBuffer {
                    uri: edit.uri@,
                    version: edit.version,
                    edits: distinct(edit.edits@),
                },
            ],
        ),
    }
}

fn distinct_edits(edits: &Vec<Edit>) -> (result: Vec<LspTextEdit>)
    ensures
        edit_views(result@) == distinct(edits@),
{
    let mut result: Vec<LspTextEdit> = Vec::new();
    let mut i: usize = 0;
    assert(edit_views(result@) =~= Seq::<LspTextEditView>::empty());
    while i < edits.len()
        invariant
            i <= edits@.len(),
            edit_views(result@) == distinct(edits@.take(i as int)),
        decreases edits@.len() - i,
    {
        let edit: &LspTextEdit = match &edits[i] {
            Edit::Plain(edit) => edit,
            Edit::Annotated(edit) => edit,
        };
        let mut known: bool = false;
        let mut j: usize = 0;
        while j < result.len()
            invariant
                j <= result@.len(),
                known == edit_views(result@).take(j as int).contains(edit@),
            decreases result@.len() - j,
        {
            let ghost views = edit_views(result@);
            if result[j].same(edit) {
                known = true;
                assert(views.take(j + 1)[j as int] == edit@);
            }
            proof {
                let seen = views.take(j as int);
                let next = views.take(j + 1);
                assert(next =~= seen.push(views[j as int]));
                if seen.contains(edit@) {
                    let k = choose|k: int| 0 <= k < seen.len() && seen[k] == edit@;
                    assert(next[k] == edit@);
                }
                if next.contains(edit@) && views[j as int] != edit@ {
                    let k = choose|k: int| 0 <= k < next.len() && next[k] == edit@;
                    assert(seen[k] == edit@);
                }
            }
            j += 1;
        }
        let ghost before = edit_views(result@);
        assert(before.take(j as int) =~= before);
        if !known {
            result.push(edit.copy());
            assert(edit_views(result@) =~= before.push(edit@));
        }
        assert(edits@.take(i + 1).drop_last() =~= edits@.take(i as int));
        assert(edits@.take(i + 1).last() == edits@[i as int]);
        i += 1;
    }
    assert(edits@.take(i as int) =~= edits@);
    result
}

impl DocumentChangeOperation {
    /// The steps of an operation.
    pub fn plan(&self) -> (plan: Result<Vec<WorkspaceStep>, UriError>)
        ensures
            plan is Ok <==> steps(*self) is Some,
            plan matches Ok(plan) ==> step_views(plan@) == steps(*self)->0,
    {
        let mut plan: Vec<WorkspaceStep> = Vec::new();
        match self {
            DocumentChangeOperation::Create { path, options } => {
                let path: &RelPath = match path {
                    Some(path) => path,
                    None => return Err(UriError),
                };
                match path.parent() {
                    None => {
                        plan.push(WorkspaceStep::CreateDir { path: path.clone() });
                    },
                    Some(parent) => {
                        plan.push(WorkspaceStep::CreateDir { path: parent });
                        let step = match options {
                            Some(options) => WorkspaceStep::CreateFile {
                                path: path.clone(),
                                overwrite: is_set(options.overwrite),
                                ignore_if_exists: is_set(options.ignore_if_exists),
                            },
                            None => WorkspaceStep::CreateFile {
                                path: path.clone(),
                                overwrite: false,
                                ignore_if_exists: false,
                            },
                        };
                        plan.push(step);
                    },
                }
            },
            DocumentChangeOperation::Rename { source, target, options } => {
                match (source, target) {
                    (Some(source), Some(target)) => {
                        let overwrite: bool = match options {
                            Some(options) => is_set(options.overwrite),
                            None => false,
                        };
                        let ignore_if_exists: bool = match options {
                            Some(options) => is_set(options.ignore_if_exists),
                            None => false,
                        };
                        plan.push(
                            WorkspaceStep::Rename {
                                source: source.clone(),
                                target: target.clone(),
                                overwrite,
                                ignore_if_exists,
                                create_parents: true,
                            },
                        );
                    },
                    _ => return Err(UriError),
                }
            },
            DocumentChangeOperation::Delete { path, delete_options: options } => {
                let path: &RelPath = match path {
                    Some(path) => path,
                    None => return Err(UriError),
                };
                let recursive: bool = match options {
                    Some(options) => is_set(options.recursive),
                    None => false,
                };
                let ignore_if_not_exists: bool = match options {
                    Some(options) => is_set(options.ignore_if_not_exists),
                    None => false,
                };
                if path.parts.len() == 0 {
                    plan.push(
                        WorkspaceStep::RemoveDir {
                            path: path.clone(),
                            recursive,
                            ignore_if_not_exists,
                        },
                    );
                } else {
                    plan.push(
                        WorkspaceStep::RemoveFile {
                            path: path.clone(),
                            recursive,
                            ignore_if_not_exists,
                        },
                    );
                }
            },
            DocumentChangeOperation::Edit(edit) => {
                plan.push(
                    WorkspaceStep::EditBuffer {
                        uri: edit.uri.clone(),
                        version: edit.version,
                        edits: distinct_edits(&edit.edits),
                    },
                );
            },
        }
        assert(step_views(plan@) =~= steps(*self)->0);
        Ok(plan)
    }
}

/// The operations of a workspace edit. Document changes take precedence over changes
/// by document, which know no version.
pub open spec fn is_operations_of(
    operations: Seq<DocumentChangeOperation>,
    edit: WorkspaceEdit,
) -> bool {
    match (edit.document_changes, edit.changes) {
        (Some(DocumentChanges::Edits(edits)), _) => {
            &&& operations.len() == edits@.len()
            &&& forall|i: int|
                0 <= i < edits@.len() ==> #[trigger] operations[i] == DocumentChangeOperation::Edit(
                    edits@[i],
                )
        },
        (Some(DocumentChanges::Operations(given)), _) => operations == given@,
        (None, Some(changes)) => {
            &&& operations.len() == changes@.len()
            &&& forall|i: int|
                0 <= i < changes@.len() ==> is_unversioned_edit(#[trigger] operations[i], changes@[i])
        },
        (None, None) => operations.len() == 0,
    }
}

pub open spec fn is_unversioned_edit(
    operation: DocumentChangeOperation,
    change: (String, Vec<LspTextEdit>),
) -> bool {
    operation matches DocumentChangeOperation::Edit(edit) && {
        &&& edit.uri == change.0
        &&& edit.version is None
        &&& is_plain(edit.edits@, change.1@)
    }
}

pub open spec fn is_plain(edits: Seq<Edit>, changes: Seq<LspTextEdit>) -> bool {
    edits == changes.map_values(|change: LspTextEdit| Edit::Plain(change))
}

fn plain_edits(changes: Vec<LspTextEdit>) -> (edits: Vec<Edit>)
    ensures
        is_plain(edits@, changes@),
{
    let ghost given = changes@;
    let mut rest: Vec<LspTextEdit> = changes;
    let mut edits: Vec<Edit> = Vec::new();
    assert(edits@ =~= given.take(0).map_values(|change: LspTextEdit| Edit::Plain(change)));
    while rest.len() > 0
        invariant
            rest@.len() <= given.len(),
            rest@ == given.skip(given.len() - rest@.len()),
            is_plain(edits@, given.take(given.len() - rest@.len())),
        decreases rest@.len(),
    {
        let ghost done = given.len() - rest@.len();
        let change: LspTextEdit = rest.remove(0);
        edits.push(Edit::Plain(change));
        assert(rest@ =~= given.skip(done + 1));
        assert(given.take(done + 1) =~= given.take(done).push(given[done]));
        assert(edits@ =~= given.take(done + 1).map_values(
            |change: LspTextEdit| Edit::Plain(change),
        ));
    }
    assert(given.take(given.len() as int) =~= given);
    edits
}

impl WorkspaceEdit {
    /// The operations of the edit, in the order in which they are carried out.
    pub fn operations(self) -> (operations: Vec<DocumentChangeOperation>)
        ensures
            is_operations_of(operations@, self),
    {
        let ghost edit = self;
        let mut operations: Vec<DocumentChangeOperation> = Vec::new();
        match self.document_changes {
            Some(DocumentChanges::Edits(edits)) => {
                let ghost given = edits@;
                let mut rest: Vec<TextDocumentEdit> = edits;
                while rest.len() > 0
                    invariant
                        rest@.len() + operations@.len() == given.len(),
                        rest@ == given.skip(operations@.len() as int),
                        forall|i: int|
                            0 <= i < operations@.len() ==> #[trigger] operations@[i]
                                == DocumentChangeOperation::Edit(given[i]),
                    decreases rest@.len(),
                {
                    let ghost done = operations@.len() as int;
                    let next: TextDocumentEdit = rest.remove(0);
                    operations.push(DocumentChangeOperation::Edit(next));
                    assert(rest@ =~= given.skip(done + 1));
                }
                operations
            },
            Some(DocumentChanges::Operations(given)) => given,
            None => {
                if let Some(changes) = self.changes {
                    let ghost given = changes@;
                    let mut rest: Vec<(String, Vec<LspTextEdit>)> = changes;
                    while rest.len() > 0
                        invariant
                            rest@.len() + operations@.len() == given.len(),
                            rest@ == given.skip(operations@.len() as int),
                            forall|i: int|
                                0 <= i < operations@.len() ==> is_unversioned_edit(
                                    #[trigger] operations@[i],
                                    given[i],
                                ),
                        decreases rest@.len(),
                    {
                        let ghost done = operations@.len() as int;
                        let (uri, edits) = rest.remove(0);
                        operations.push(
                            DocumentChangeOperation::Edit(
                                TextDocumentEdit { uri, version: None, edits: plain_edits(edits) },
                            ),
                        );
                        assert(rest@ =~= given.skip(done + 1));
                    }
                }
                operations
            },
        }
    }
}

/// The steps of operations up to the first that has a URI which names no file, and whether
/// there is one.
pub open spec fn steps_of(operations: Seq<DocumentChangeOperation>) -> (Seq<StepView>, bool)
    decreases operations.len(),
{
    if operations.len() == 0 {
        (Seq::empty(), false)
    } else {
        let (earlier, failed) = steps_of(operations.drop_last());
        if failed {
            (earlier, true)
        } else {
            match steps(operations.last()) {
                Some(own) => (earlier + own, false),
                None => (earlier, true),
            }
        }
    }
}

/// What a workspace edit comes to.
#[derive(Debug)]
pub struct WorkspacePlan {
    /// What is done, in this order.
    pub steps: Vec<WorkspaceStep>,
    /// What ends the edit after that, if it does not go through.
    pub error: Option<UriError>,
}

impl WorkspaceEdit {
    /// The steps of the edit. What precedes an operation that cannot be carried out is done,
    /// and what follows it is not.
    pub fn deserialize_workspace_edit(self) -> (plan: WorkspacePlan)
        ensures
            exists|operations: Seq<DocumentChangeOperation>| #[trigger]
                is_operations_of(operations, self) && steps_of(operations) == (
                    step_views(plan.steps@),
                    plan.error is Some,
                ),
    {
        let operations: Vec<DocumentChangeOperation> = self.operations();
        let mut done: Vec<WorkspaceStep> = Vec::new();
        let mut error: Option<UriError> = None;
        let mut i: usize = 0;
        assert(step_views(done@) =~= Seq::<StepView>::empty());
        while i < operations.len()
            invariant
                i <= operations@.len(),
                steps_of(operations@.take(i as int)) == (step_views(done@), error is Some),
            decreases operations@.len() - i,
        {
            assert(operations@.take(i + 1).drop_last() =~= operations@.take(i as int));
            assert(operations@.take(i + 1).last() == operations@[i as int]);
            if error.is_none() {
                match operations[i].plan() {
                    Ok(plan) => {
                        let mut plan: Vec<WorkspaceStep> = plan;
                        let ghost earlier = done@;
                        let ghost own = plan@;
                        done.append(&mut plan);
                        assert(step_views(earlier + own) =~= step_views(earlier) + step_views(own));
                    },
                    Err(failed) => {
                        error = Some(failed);
                    },
                }
            }
            i += 1;
        }
        assert(operations@.take(i as int) =~= operations@);
        assert(is_operations_of(operations@, self));
        WorkspacePlan { steps: done, error }
    }
}

/// Operations that only edit documents always go through, one step for each.
pub proof fn document_edits_go_through(operations: Seq<DocumentChangeOperation>)
    requires
        forall|i: int| 0 <= i < operations.len() ==> (#[trigger] operations[i]) is Edit,
    ensures
        !steps_of(operations).1,
        steps_of(operations).0.len() == operations.len(),
    decreases operations.len(),
{
    if operations.len() > 0 {
        assert forall|i: int| 0 <= i < operations.len() - 1 implies (
        #[trigger] operations.drop_last()[i]) is Edit by {
            assert(operations[i] is Edit);
        }
        document_edits_go_through(operations.drop_last());
        assert(operations[operations.len() - 1] is Edit);
    }
}

/// What answers a request to apply a workspace edit.
#[derive(Clone, Copy, Debug, PartialEq, Eq, Structural)]
pub enum WorkspaceEditReply {
    ProjectClosed,
    LanguageServerNotFound,
    /// The server is told that the edit was applied. Only a transaction that came
    /// about is announced and kept.
    Applied { announce: bool },
}

/// Decides the answer to a request to apply a workspace edit.
pub fn on_lsp_workspace_edit(
    project_open: bool,
    server_found: bool,
    transaction_made: bool,
) -> (reply: WorkspaceEditReply)
    ensures
        reply == (if !project_open {
            WorkspaceEditReply::ProjectClosed
        } else if !server_found {
            WorkspaceEditReply::LanguageServerNotFound
        } else {
            WorkspaceEditReply::Applied { announce: transaction_made }
        }),
{
    if !project_open {
        WorkspaceEditReply::ProjectClosed
    } else if !server_found {
        WorkspaceEditReply::LanguageServerNotFound
    } else {
        WorkspaceEditReply::Applied { announce: transaction_made }
    }
}

/// The edits of a document are made once each: no two of them are equal, and each
/// edit that was sent is among them.
pub proof fn distinct_edits_are_complete(edits: Seq<Edit>)
    ensures
        forall|i: int, j: int|
            0 <= i < j < distinct(edits).len() ==> distinct(edits)[i] != distinct(edits)[j],
        forall|k: int|
            0 <= k < edits.len() ==> distinct(edits).contains(
                (#[trigger] edits[k]).text_edit()@,
            ),
    decreases edits.len(),
{
    if edits.len() > 0 {
        let earlier = distinct(edits.drop_last());
        let result = distinct(edits);
        let last = edits.last().text_edit()@;
        distinct_edits_are_complete(edits.drop_last());
        assert forall|k: int| 0 <= k < edits.len() implies result.contains(
            (#[trigger] edits[k]).text_edit()@,
        ) by {
            if k < edits.len() - 1 {
                assert(edits.drop_last()[k] == edits[k]);
                let wanted = edits[k].text_edit()@;
                assert(earlier.contains(wanted));
                let at = choose|at: int| 0 <= at < earlier.len() && earlier[at] == wanted;
                assert(result[at] == wanted);
            } else if !earlier.contains(last) {
                assert(result[earlier.len() as int] == last);
            }
        }
        assert forall|i: int, j: int| 0 <= i < j < result.len() implies result[i]
            != result[j] by {
            if j == earlier.len() {
                assert(earlier[i] == result[i]);
                if result[i] == last {
                    assert(earlier.contains(last));
                }
            } else {
                assert(result[i] == earlier[i] && result[j] == earlier[j]);
            }
        }
    }
}

/// The contents of the files of a file system, by their paths.
pub type Files = Map<Seq<Seq<char>>, Seq<char>>;

/// The files after a step was carried out, as far as it went through. A file that is in the way
/// stays, unless it is to be overwritten.
pub open spec fn carried_out(files: Files, step: WorkspaceStep) -> Files {
    match step {
        WorkspaceStep::CreateFile { path, overwrite, .. } => if files.contains_key(path@)
            && !overwrite {
            files
        } else {
            files.insert(path@, Seq::empty())
        },
        WorkspaceStep::Rename { source, target, overwrite, .. } => if files.contains_key(source@)
            && (overwrite || !files.contains_key(target@)) {
            files.remove(source@).insert(target@, files[source@])
        } else {
            files
        },
        WorkspaceStep::RemoveFile { path, .. } => files.remove(path@),
        _ => files,
    }
}

/// The files after steps were carried out one after the other.
pub open spec fn all_carried_out(files: Files, steps: Seq<WorkspaceStep>) -> Files
    decreases steps.len(),
{
    if steps.len() == 0 {
        files
    } else {
        carried_out(all_carried_out(files, steps.drop_last()), steps.last())
    }
}

/// A rename moves a file from the path of its old URI to the path of its new one: where there is
/// a file at the old path and none at the new one, the old one is gone, the new one holds what the
/// old one held, and no other file changes. A file that is in the way is overwritten just if that
/// is asked for.
pub proof fn renames_move_files(
    source: RelPath,
    target: RelPath,
    options: Option<CreateOptions>,
    plan: Seq<WorkspaceStep>,
    files: Files,
)
    requires
        steps(
            DocumentChangeOperation::Rename {
                source: Some(source),
                target: Some(target),
                options,
            },
        ) == Some(step_views(plan)),
        files.contains_key(source@),
        source@ != target@,
    ensures
        ({
            let after = all_carried_out(files, plan);
            let may_overwrite = options matches Some(options) && options.overwrite == Some(true);
            if may_overwrite || !files.contains_key(target@) {
                &&& !after.contains_key(source@)
                &&& after.contains_key(target@) && after[target@] == files[source@]
                &&& forall|path: Seq<Seq<char>>|
                    path != source@ && path != target@ ==> (#[trigger] after.contains_key(path)
                        <==> files.contains_key(path)) && (after.contains_key(path) ==> after[path]
                        == files[path])
            } else {
                after == files
            }
        }),
        plan.len() == 1,
        plan[0] matches WorkspaceStep::Rename { source: from, target: to, overwrite, ignore_if_exists, create_parents }
            && {
            &&& from@ == source@
            &&& to@ == target@
            &&& overwrite == (options matches Some(options) && options.overwrite == Some(true))
            &&& ignore_if_exists == (options matches Some(options) && options.ignore_if_exists
                == Some(true))
            &&& create_parents
        },
{
    let views = step_views(plan);
    assert(views.len() == 1);
    assert(views[0] == plan[0]@);
    assert(plan.drop_last() =~= Seq::<WorkspaceStep>::empty());
    assert(plan.last() == plan[0]);
    reveal_with_fuel(all_carried_out, 2);
}

/// A creation makes the directory that the file lies in, and then the file: afterwards there is
/// one at the path, an empty one unless there was one that is not to be overwritten, and no other
/// file changes.
pub proof fn creations_make_files(
    path: RelPath,
    options: Option<CreateOptions>,
    plan: Seq<WorkspaceStep>,
    files: Files,
)
    requires
        steps(DocumentChangeOperation::Create { path: Some(path), options }) == Some(
            step_views(plan),
        ),
        path@.len() > 0,
    ensures
        ({
            let after = all_carried_out(files, plan);
            let may_overwrite = options matches Some(options) && options.overwrite == Some(true);
            &&& after.contains_key(path@)
            &&& after[path@] == if files.contains_key(path@) && !may_overwrite {
                files[path@]
            } else {
                Seq::empty()
            }
            &&& forall|other: Seq<Seq<char>>|
                other != path@ ==> (#[trigger] after.contains_key(other) <==> files.contains_key(
                    other,
                )) && (after.contains_key(other) ==> after[other] == files[other])
        }),
        plan.len() == 2,
        plan[0] matches WorkspaceStep::CreateDir { path: parent } && parent@.push(path@.last())
            == path@,
        plan[1] matches WorkspaceStep::CreateFile { path: file, overwrite, ignore_if_exists } && {
            &&& file@ == path@
            &&& overwrite == (options matches Some(options) && options.overwrite == Some(true))
            &&& ignore_if_exists == (options matches Some(options) && options.ignore_if_exists
                == Some(true))
        },
{
    let views = step_views(plan);
    assert(views.len() == 2);
    assert(views[0] == plan[0]@ && views[1] == plan[1]@);
    assert(plan[0] is CreateDir);
    assert(plan[0]->CreateDir_path@.push(path@.last()) =~= path@);
    assert(plan.drop_last().drop_last() =~= Seq::<WorkspaceStep>::empty());
    assert(plan.drop_last().last() == plan[0]);
    assert(plan.last() == plan[1]);
    reveal_with_fuel(all_carried_out, 3);
}

/// A deletion leaves no file at the path, and all others.
pub proof fn deletions_remove_files(
    path: RelPath,
    options: Option<DeleteOptions>,
    plan: Seq<WorkspaceStep>,
    files: Files,
)
    requires
        steps(DocumentChangeOperation::Delete { path: Some(path), delete_options: options })
            == Some(step_views(plan)),
        path@.len() > 0,
    ensures
        ({
            let after = all_carried_out(files, plan);
            &&& !after.contains_key(path@)
            &&& forall|other: Seq<Seq<char>>|
                other != path@ ==> (#[trigger] after.contains_key(other) <==> files.contains_key(
                    other,
                )) && (after.contains_key(other) ==> after[other] == files[other])
        }),
        plan.len() == 1,
        plan[0] matches WorkspaceStep::RemoveFile { path: file, recursive, ignore_if_not_exists }
            && {
            &&& file@ == path@
            &&& recursive == (options matches Some(options) && options.recursive == Some(true))
            &&& ignore_if_not_exists == (options matches Some(options)
                && options.ignore_if_not_exists == Some(true))
        },
{
    let views = step_views(plan);
    assert(views.len() == 1);
    assert(views[0] == plan[0]@);
    assert(plan.drop_last() =~= Seq::<WorkspaceStep>::empty());
    assert(plan.last() == plan[0]);
    reveal_with_fuel(all_carried_out, 2);
}

/// What is created or deleted at the root is a directory.
pub proof fn the_root_is_a_directory(
    path: RelPath,
    options: Option<CreateOptions>,
    delete_options: Option<DeleteOptions>,
    created: Seq<WorkspaceStep>,
    deleted: Seq<WorkspaceStep>,
)
    requires
        path@.len() == 0,
        steps(DocumentChangeOperation::Create { path: Some(path), options }) == Some(
            step_views(created),
        ),
        steps(DocumentChangeOperation::Delete { path: Some(path), delete_options }) == Some(
            step_views(deleted),
        ),
    ensures
        created.len() == 1 && deleted.len() == 1,
        created[0] matches WorkspaceStep::CreateDir { path: directory } && directory@ == path@,
        deleted[0] matches WorkspaceStep::RemoveDir { path: directory, recursive, ignore_if_not_exists }
            && {
            &&& directory@ == path@
            &&& recursive == (delete_options matches Some(options) && options.recursive == Some(
                true,
            ))
            &&& ignore_if_not_exists == (delete_options matches Some(options)
                && options.ignore_if_not_exists == Some(true))
        },
{
    let made = step_views(created);
    let removed = step_views(deleted);
    assert(made.len() == 1 && removed.len() == 1);
    assert(made[0] == created[0]@);
    assert(removed[0] == deleted[0]@);
}

/// The edits of a document are made in it, for the version that they were made for: every edit
/// that was sent, in the order in which they were first sent, and no other.
pub proof fn document_edits_are_made_in_order(
    edit: TextDocumentEdit,
    plan: Seq<WorkspaceStep>,
    earlier: Seq<Edit>,
    next: Edit,
)
    requires
        steps(DocumentChangeOperation::Edit(edit)) == Some(step_views(plan)),
    ensures
        plan.len() == 1,
        plan[0] matches WorkspaceStep::EditBuffer { uri, version, edits } && {
            &&& uri@ == edit.uri@
            &&& version == edit.version
            &&& edits@.len() == distinct(edit.edits@).len()
            &&& forall|k: int|
                0 <= k < edits@.len() ==> {
                    let sent = distinct(edit.edits@)[k];
                    (#[trigger] edits@[k]).start == sent.start && edits@[k].end == sent.end
                        && edits@[k].new_text@ == sent.new_text
                }
        },
        distinct(Seq::empty()).len() == 0,
        ({
            let sent = match next {
                Edit::Plain(edit) => edit,
                Edit::Annotated(edit) => edit,
            };
            let view = LspTextEditView {
                start: sent.start,
                end: sent.end,
                new_text: sent.new_text@,
            };
            distinct(earlier.push(next)) == if distinct(earlier).contains(view) {
                distinct(earlier)
            } else {
                distinct(earlier).push(view)
            }
        }),
{
    let views = step_views(plan);
    assert(views.len() == 1);
    assert(views[0] == plan[0]@);
    assert(plan[0] is EditBuffer);
    let edits = plan[0]->EditBuffer_edits;
    assert forall|k: int| 0 <= k < edits@.len() implies {
        let sent = distinct(edit.edits@)[k];
        (#[trigger] edits@[k]).start == sent.start && edits@[k].end == sent.end
            && edits@[k].new_text@ == sent.new_text
    } by {
        assert(edit_views(edits@)[k] == edits@[k]@);
    }
    assert(earlier.push(next).drop_last() =~= earlier);
}

/// An operation is refused just if one of its URIs names no file; edits are never refused.
pub proof fn operations_need_files(operation: DocumentChangeOperation)
    ensures
        steps(operation) is None <==> match operation {
            DocumentChangeOperation::Create { path, .. } => path is None,
            DocumentChangeOperation::Rename { source, target, .. } => source is None || target
                is None,
            DocumentChangeOperation::Delete { path, .. } => path is None,
            DocumentChangeOperation::Edit(_) => false,
        },
{
}

/// The operations are carried out in their order: the steps of each come behind those of the
/// earlier ones, and after one that is refused nothing is done any more.
pub proof fn operations_follow_each_other(
    operations: Seq<DocumentChangeOperation>,
    operation: DocumentChangeOperation,
)
    ensures
        steps_of(Seq::empty()) == (Seq::<StepView>::empty(), false),
        ({
            let (earlier, failed) = steps_of(operations);
            let (now, fails) = steps_of(operations.push(operation));
            &&& fails == (failed || steps(operation) is None)
            &&& now == if fails {
                earlier
            } else {
                earlier + steps(operation)->0
            }
        }),
{
    assert(operations.push(operation).drop_last() =~= operations);
}

/// Where a workspace edit states operations, just those are carried out, in their order. Where it
/// states edits of documents, there is one operation for each, with its version; changes by
/// document count only where it states neither, and know no version.
pub proof fn document_changes_take_precedence(
    edit: WorkspaceEdit,
    operations: Seq<DocumentChangeOperation>,
    k: int,
)
    requires
        is_operations_of(operations, edit),
        0 <= k,
    ensures
        edit.document_changes matches Some(DocumentChanges::Operations(given)) ==> operations
            == given@,
        edit.document_changes matches Some(DocumentChanges::Edits(given)) ==> operations.len()
            == given@.len() && (k < given@.len() ==> operations[k] == DocumentChangeOperation::Edit(
            given@[k],
        )),
        edit.document_changes is None ==> match edit.changes {
            None => operations.len() == 0,
            Some(given) => {
                &&& operations.len() == given@.len()
                &&& k < given@.len() ==> (operations[k] matches DocumentChangeOperation::Edit(own)
                    && {
                    &&& own.uri == given@[k].0
                    &&& own.version is None
                    &&& own.edits@.len() == given@[k].1@.len()
                    &&& forall|j: int|
                        0 <= j < own.edits@.len() ==> #[trigger] own.edits@[j] == Edit::Plain(
                            given@[k].1@[j],
                        )
                })
            },
        },
{
    if edit.document_changes is None && edit.changes is Some {
        let given = edit.changes->0@;
        if k < given.len() {
            assert(is_unversioned_edit(operations[k], given[k]));
        }
    }
}

} // verus!
