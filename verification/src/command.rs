//! What the library needs to know of an external command that was run.

use vstd::prelude::*;

verus! {

/// The outcome of an external command: whether it exited successfully, and its
/// standard output and error streams decoded as text.
#[derive(Debug, Clone)]
pub struct CommandOutput {
    pub success: bool,
    pub code: Option<i32>,
    pub stdout: String,
    pub stderr: String,
}

} // verus!
