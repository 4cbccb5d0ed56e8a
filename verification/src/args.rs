//! The command-line arguments the rest of the pipeline consumes. Parsing
//! them out of the process arguments is the caller's business.
use vstd::prelude::*;

verus! {

/// The arguments: an optional draft commit message.
#[derive(Debug)]
pub struct Args {
    /// Draft commit
    pub message: Option<String>,
}

} // verus!
