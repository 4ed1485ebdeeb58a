//! What can go wrong in a run.
use vstd::prelude::*;

verus! {

/// Why a run produced no result.
#[derive(Clone, Copy, Debug, PartialEq, Eq, Structural)]
pub enum RunError {
    /// The place file's path has no file extension.
    MissingExtension,
    /// The plugins path does not exist.
    PluginsPathMissing,
    /// The plugins path is not a directory.
    PluginsPathNotDirectory,
    /// The Studio executable path does not exist.
    StudioPathMissing,
    /// The Studio executable path is a directory.
    StudioPathIsDirectory,
    /// The plugin could not be written as a model file.
    Encode,
    /// The event stream ended before Studio reported the end of the script.
    ProcessEnded,
}

} // verus!
