//! Root-confined file browsing: path resolution and containment, directory
//! listings, streamed upload bookkeeping, and the create / delete operations
//! of a small file server, with the transport and the file system left to
//! the caller.

pub mod listing;
pub mod mutation;
pub mod paths;
pub mod probe;
pub mod text;
pub mod types;
pub mod upload;

pub use listing::{list_files, EntryFacts, ListOutcome, LocalTimestamp, PathKind};
pub use mutation::{create_dir, delete_response, plan_delete, DeleteAction};
pub use paths::{check_contained, confirm_on_disk, resolve, ConfinedPath, ResolvedPath, ServerRoot};
pub use types::{
    DirDesc, DirEntry, FileType, IoErrorKind, IoFailure, JsonRequest, JsonResponse, OpError,
};
pub use upload::{UploadBatch, UploadOutcome};
