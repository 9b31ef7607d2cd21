//! The ways in which an invocation can fail.

use vstd::prelude::*;

verus! {

/// Why an invocation ended without a build.
#[derive(Debug, Clone, Copy, PartialEq, Eq, Structural)]
pub enum Failure {
    /// The list of requested dependencies could not be parsed.
    Format,
    /// A directory or file of the target project could not be written.
    Io,
    /// The descriptor of the dependency at position `index` of the list
    /// could not be read, or lacks a name or a version.
    Resolution { index: usize },
    /// The build command could not be started.
    Build,
    /// The caller reported something that the invocation was not waiting
    /// for.
    OutOfTurn,
}

} // verus!
