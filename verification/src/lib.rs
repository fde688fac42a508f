//! Workspace file service: directory enumeration, content classification
//! (text or binary, with a language tag), and the error shapes of the
//! create/write/delete operations of a code-editor backend.

pub mod blueprint;
pub mod classify;
pub mod content;
pub mod mutate;
pub mod paths;
pub mod tree;

pub use blueprint::Connection;
pub use blueprint::NodeType;
pub use classify::Disposition;
pub use content::FileContent;
pub use mutate::FileError;
pub use mutate::MutationKind;
pub use tree::FileEntry;
pub use tree::RawNode;
