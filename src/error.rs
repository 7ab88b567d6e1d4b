//! The failures a synchronization pass can report.
use vstd::prelude::*;

verus! {

/// Why a synchronization step could not be completed. Each names the
/// directory, file or namespace it concerns.
#[derive(Debug, Clone)]
pub enum SyncError {
    /// The definition directory could not be listed; this ends the whole pass.
    DirectoryUnreadable(String),
    /// A controller or registry file exists but could not be read.
    FileUnreadable(String),
    /// An existing file is not well-formed source.
    UnparsableSource(String),
    /// No import group, or more than one, sits under the namespace that new
    /// request and response types must be imported from.
    MissingOrAmbiguousImportSite(String),
    /// Stubs are missing, but the existing file has no `impl` block to add
    /// them to.
    MissingMethodSite(String),
    /// A splice location lies outside the text it addresses.
    InvalidPatchLocation,
}

} // verus!
