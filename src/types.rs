//! The values exchanged with clients: directory descriptions, requests,
//! responses, and the library's error taxonomy.

use vstd::prelude::*;

verus! {

/// What a directory entry is, after following a symbolic link when its
/// target can be read.
#[derive(Clone, Copy, Debug, PartialEq, Eq, Structural, PartialOrd)]
pub enum FileType {
    File,
    Directory,
    SymbolicLink,
}

/// One child of a listed directory.
#[derive(Clone, Debug)]
pub struct DirEntry {
    pub file_name: String,
    pub file_type: FileType,
    pub file_size: u64,
    pub last_accessed: String,
}

/// The mathematical content of a [`DirEntry`].
pub struct EntryView {
    pub name: Seq<char>,
    pub kind: FileType,
    pub size: u64,
    pub accessed: Seq<char>,
}

impl View for DirEntry {
    type V = EntryView;

    open spec fn view(&self) -> EntryView {
        EntryView {
            name: self.file_name@,
            kind: self.file_type,
            size: self.file_size,
            accessed: self.last_accessed@,
        }
    }
}

/// A one-level description of a directory: its slash-prefixed display name
/// and its children in enumeration order.
#[derive(Clone, Debug)]
pub struct DirDesc {
    pub dir_name: String,
    pub descendants: Vec<DirEntry>,
}

impl DirDesc {
    /// The children, as views.
    pub open spec fn entries(&self) -> Seq<EntryView> {
        self.descendants@.map_values(|e: DirEntry| e@)
    }
}

/// A request body that mutates a directory.
#[derive(Clone, Debug)]
pub enum JsonRequest {
    CreateDirectory { dir_name: String },
}

/// The uniform result shape of the mutating operations.
#[derive(Clone, Debug)]
pub enum JsonResponse {
    Succeeded { msg: Option<String> },
    Failed { msg: Option<String> },
}

/// The mathematical content of a [`JsonResponse`]: whether it reports
/// success, and its message.
pub struct ReplyView {
    pub succeeded: bool,
    pub msg: Option<Seq<char>>,
}

impl View for JsonResponse {
    type V = ReplyView;

    open spec fn view(&self) -> ReplyView {
        match self {
            JsonResponse::Succeeded { msg } => ReplyView {
                succeeded: true,
                msg: match msg {
                    Some(m) => Some(m@),
                    None => None,
                },
            },
            JsonResponse::Failed { msg } => ReplyView {
                succeeded: false,
                msg: match msg {
                    Some(m) => Some(m@),
                    None => None,
                },
            },
        }
    }
}

/// Why an operation was refused or failed.
#[derive(Clone, Copy, Debug, PartialEq, Eq, Structural)]
pub enum OpError {
    /// The path would leave the served root.
    PathEscapesRoot,
    /// A name that must be one plain path segment is not.
    InvalidName,
    /// The thing to create is already there.
    AlreadyExists,
    /// The directory an upload targets does not exist.
    TargetMissing,
    /// An uploaded part carries no file name.
    MissingFileName,
    /// Reading, writing, creating or removing failed.
    IoFailure,
}

/// How the file system reported a failed call, reduced to what the
/// operations tell apart.
#[derive(Clone, Copy, Debug, PartialEq, Eq, Structural)]
pub enum IoErrorKind {
    AlreadyExists,
    NotFound,
    Other,
}

/// A failed file-system call: its kind and its human-readable text.
#[derive(Clone, Debug)]
pub struct IoFailure {
    pub kind: IoErrorKind,
    pub message: String,
}

} // verus!
