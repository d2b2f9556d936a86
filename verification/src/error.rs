//! The error type shared by every component of the library.

use vstd::prelude::*;

verus! {

/// An error report. `General` carries a human-readable description of a
/// failure that has no more precise class; `InvalidArgument` reports a
/// request that was malformed from the start, such as an attempt to open a
/// path that does not name an existing device node.
#[derive(Debug)]
pub enum Illusion {
    General(String),
    InvalidArgument(String),
}

} // verus!
