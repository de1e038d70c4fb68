//! Shared directories as the gateway sees them.
use vstd::prelude::*;

verus! {

/// Who may open a share in a browser.
#[derive(Debug, Clone, Copy, PartialEq, Eq, Structural)]
pub enum WebAccessMode {
    Disabled,
    Public,
    Password,
}

/// How a share is offered to browsers.
#[derive(Debug, Clone, PartialEq, Eq)]
pub struct WebSharePolicy {
    pub slug: String,
    pub mode: WebAccessMode,
    /// Counts the changes of the share's password.
    pub credential_revision: u64,
    pub allow_preview: bool,
    pub allow_download: bool,
}

/// A shared directory.
#[derive(Debug, Clone, PartialEq, Eq)]
pub struct SharedDirectory {
    pub id: String,
    pub name: String,
    pub web: WebSharePolicy,
}

/// What kind of preview a file has in a browser.
#[derive(Debug, Clone, Copy, PartialEq, Eq, Structural)]
pub enum PreviewKind {
    Image,
    Audio,
    Video,
    Other,
}

/// A file of a share.
#[derive(Debug, Clone, PartialEq, Eq)]
pub struct FileEntry {
    pub name: String,
    pub media_type: String,
    pub preview_kind: PreviewKind,
    /// Milliseconds from the start of 1970.
    pub modified_at_ms: u64,
}

} // verus!
