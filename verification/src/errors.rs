//! The error taxonomy of the library: lookup misses, spawn faults, stream
//! faults, and the data-carried upstream-error signal that halts a pipeline.

use vstd::prelude::*;

verus! {

/// Why a lookup or an execution failed.
#[derive(Debug)]
pub enum ExecError {
    /// The requested executable name is absent from the index.
    Lookup { name: String },
    /// The operating system could not start the resolved binary.
    Spawn { detail: String },
    /// Writing the child's input stream or draining its output or error
    /// stream failed.
    StreamIo { detail: String },
    /// An earlier stage produced non-empty error text; its text is carried
    /// verbatim and the chain goes no further.
    Upstream { text: String },
}

/// A pipeline failure: the error itself, annotated with the index of the
/// stage it belongs to.
#[derive(Debug)]
pub struct StageError {
    pub stage: usize,
    pub error: ExecError,
}

} // verus!
