//! The operating systems whose conventions the library follows.

use vstd::prelude::*;

verus! {

/// The platform the program runs on, for what differs between them.
#[derive(Debug, Clone, Copy, PartialEq, Eq, Structural)]
pub enum Platform {
    MacOs,
    Windows,
    Linux,
    Other,
}

} // verus!
