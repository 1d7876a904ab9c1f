//! Creating directories and deleting paths under the served root: where
//! each operation acts, what it does for the kind of thing found there, and
//! the reply it gives.

use vstd::prelude::*;
use crate::listing::PathKind;
use crate::paths::{child, is_inside, join_name, ConfinedPath, ResolvedPath};
use crate::text::{push_str, string_of};
use crate::types::{IoErrorKind, IoFailure, JsonRequest, JsonResponse, OpError, ReplyView};

verus! {

/// The text of a reply that reports `e`.
pub open spec fn error_text(e: OpError) -> Seq<char> {
    match e {
        OpError::PathEscapesRoot => "invalid path: outside the served directory"@,
        OpError::InvalidName => "invalid name: must be one plain path segment"@,
        OpError::AlreadyExists => "already exists"@,
        OpError::TargetMissing => "target directory does not exist"@,
        OpError::MissingFileName => "missing file name"@,
        OpError::IoFailure => "input/output failure"@,
    }
}

impl OpError {
    /// A human-readable description of the error.
    pub fn message(&self) -> (r: String)
        ensures
            r@ == error_text(*self),
    {
        let s = match self {
            OpError::PathEscapesRoot => "invalid path: outside the served directory",
            OpError::InvalidName => "invalid name: must be one plain path segment",
            OpError::AlreadyExists => "already exists",
            OpError::TargetMissing => "target directory does not exist",
            OpError::MissingFileName => "missing file name",
            OpError::IoFailure => "input/output failure",
        };
        let mut out: Vec<char> = Vec::new();
        push_str(&mut out, s);
        string_of(out.as_slice())
    }
}

/// The failed reply that reports `e`.
pub fn error_response(e: OpError) -> (r: JsonResponse)
    ensures
        r@ == (ReplyView { succeeded: false, msg: Some(error_text(e)) }),
{
    JsonResponse::Failed { msg: Some(e.message()) }
}

/// The error that a failed file-system call stands for.
pub open spec fn io_error_of(kind: IoErrorKind) -> OpError {
    if kind == IoErrorKind::AlreadyExists {
        OpError::AlreadyExists
    } else {
        OpError::IoFailure
    }
}

/// Classifies a failed file-system call.
pub fn io_error(failure: &IoFailure) -> (r: OpError)
    ensures
        r == io_error_of(failure.kind),
{
    if failure.kind == IoErrorKind::AlreadyExists {
        OpError::AlreadyExists
    } else {
        OpError::IoFailure
    }
}

/// The name that a request asks to create.
pub open spec fn requested_name(req: JsonRequest) -> Seq<char> {
    match req {
        JsonRequest::CreateDirectory { dir_name } => dir_name@,
    }
}

/// Where the directory that `req` asks for goes: below `parent`, a
/// directory confirmed inside the root, with the new name appended as one
/// plain segment. Refused with `InvalidName` when the name is not one.
pub fn create_dir(parent: &ConfinedPath, req: &JsonRequest) -> (r: Result<ResolvedPath, OpError>)
    ensures
        match r {
            Ok(c) => child(parent@, requested_name(*req)) == Ok::<Seq<char>, OpError>(c@)
                && c.root() == parent.root() && c.relative() == join_name(
                parent.relative(),
                requested_name(*req),
            ),
            Err(e) => child(parent@, requested_name(*req)) == Err::<Seq<char>, OpError>(e),
        },
{
    match req {
        JsonRequest::CreateDirectory { dir_name } => parent.resolved().child(dir_name.as_str()),
    }
}

/// The reply to creating `target`: success naming it, or the failure's text.
pub open spec fn create_dir_reply(target: Seq<char>, failure: Option<IoFailure>) -> ReplyView {
    match failure {
        None => ReplyView { succeeded: true, msg: Some("create dir: "@ + target) },
        Some(f) => ReplyView { succeeded: false, msg: Some(f.message@) },
    }
}

/// The result of creating `target`: `AlreadyExists` when something was
/// already there, `IoFailure` for any other failure.
pub fn create_dir_result(failure: &Option<IoFailure>) -> (r: Result<(), OpError>)
    ensures
        r is Ok <==> failure is None,
        failure matches Some(f) ==> r == Err::<(), OpError>(io_error_of(f.kind)),
{
    match failure {
        None => Ok(()),
        Some(f) => Err(io_error(f)),
    }
}

/// The reply to creating the directory `target`.
pub fn create_dir_response(target: &str, failure: &Option<IoFailure>) -> (r: JsonResponse)
    ensures
        r@ == create_dir_reply(target@, *failure),
{
    match failure {
        None => {
            let mut msg: Vec<char> = Vec::new();
            push_str(&mut msg, "create dir: ");
            push_str(&mut msg, target);
            JsonResponse::Succeeded { msg: Some(string_of(msg.as_slice())) }
        },
        Some(f) => JsonResponse::Failed { msg: Some(f.message.clone()) },
    }
}

/// What deleting a resolved path does.
#[derive(Clone, Debug)]
pub enum DeleteAction {
    /// Remove the file (or the link) at the path.
    RemoveFile(String),
    /// Remove the directory at the path and all it holds.
    RemoveDirAll(String),
    /// Nothing is there: nothing is done.
    Nothing,
}

/// The mathematical content of a [`DeleteAction`].
pub enum DeleteView {
    RemoveFile(Seq<char>),
    RemoveDirAll(Seq<char>),
    Nothing,
}

impl View for DeleteAction {
    type V = DeleteView;

    open spec fn view(&self) -> DeleteView {
        match self {
            DeleteAction::RemoveFile(p) => DeleteView::RemoveFile(p@),
            DeleteAction::RemoveDirAll(p) => DeleteView::RemoveDirAll(p@),
            DeleteAction::Nothing => DeleteView::Nothing,
        }
    }
}

/// What deleting `target` does, given what is there.
pub open spec fn delete_plan(target: Seq<char>, kind: PathKind) -> DeleteView {
    match kind {
        PathKind::File => DeleteView::RemoveFile(target),
        PathKind::Directory => DeleteView::RemoveDirAll(target),
        _ => DeleteView::Nothing,
    }
}

/// Decides what deleting `target`, a path confirmed inside the root, does:
/// a file is removed, a directory is removed with all it holds, and where
/// there is neither nothing is done.
pub fn plan_delete(target: &ConfinedPath, kind: PathKind) -> (r: DeleteAction)
    ensures
        r@ == delete_plan(target@, kind),
        match r@ {
            DeleteView::RemoveFile(p) | DeleteView::RemoveDirAll(p) => is_inside(target.root(), p),
            DeleteView::Nothing => true,
        },
{
    let _ = target.as_str();
    let t = string_of(crate::text::chars_of(target.as_str()).as_slice());
    match kind {
        PathKind::File => DeleteAction::RemoveFile(t),
        PathKind::Directory => DeleteAction::RemoveDirAll(t),
        _ => DeleteAction::Nothing,
    }
}

/// The reply to deleting `relative`, after `action` was carried out.
pub open spec fn delete_reply(relative: Seq<char>, action: DeleteView, failure: Option<IoFailure>) -> ReplyView {
    match (action, failure) {
        (DeleteView::RemoveFile(_), Some(f)) => ReplyView {
            succeeded: false,
            msg: Some("failed to remove file: "@ + relative + ", error: "@ + f.message@),
        },
        (DeleteView::RemoveDirAll(_), Some(f)) => ReplyView {
            succeeded: false,
            msg: Some("failed to remove dir: "@ + relative + ", error: "@ + f.message@),
        },
        _ => ReplyView { succeeded: true, msg: None },
    }
}

/// The reply to deleting `relative`, given how carrying out `action`
/// failed, if it did.
pub fn delete_response(relative: &str, action: &DeleteAction, failure: &Option<IoFailure>) -> (r: JsonResponse)
    ensures
        r@ == delete_reply(relative@, action@, *failure),
{
    match (action, failure) {
        (DeleteAction::RemoveFile(_), Some(f)) => {
            let mut msg: Vec<char> = Vec::new();
            push_str(&mut msg, "failed to remove file: ");
            push_str(&mut msg, relative);
            push_str(&mut msg, ", error: ");
            push_str(&mut msg, f.message.as_str());
            JsonResponse::Failed { msg: Some(string_of(msg.as_slice())) }
        },
        (DeleteAction::RemoveDirAll(_), Some(f)) => {
            let mut msg: Vec<char> = Vec::new();
            push_str(&mut msg, "failed to remove dir: ");
            push_str(&mut msg, relative);
            push_str(&mut msg, ", error: ");
            push_str(&mut msg, f.message.as_str());
            JsonResponse::Failed { msg: Some(string_of(msg.as_slice())) }
        },
        _ => JsonResponse::Succeeded { msg: None },
    }
}

/// Deleting is idempotent: where nothing is, deleting removes nothing and
/// succeeds, whatever failure was passed along; so a second delete of a
/// path that a first one removed succeeds and leaves everything as it is.
pub proof fn lemma_delete_idempotent(relative: Seq<char>, target: Seq<char>, failure: Option<IoFailure>)
    ensures
        delete_plan(target, PathKind::Absent) == DeleteView::Nothing,
        delete_reply(relative, delete_plan(target, PathKind::Absent), failure) == (ReplyView {
            succeeded: true,
            msg: None,
        }),
{
}

} // verus!
