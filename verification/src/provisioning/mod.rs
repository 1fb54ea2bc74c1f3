//! The Fleet Provisioning protocol: its reserved topics.

pub mod topics;

use vstd::prelude::*;

verus! {

/// What can go wrong with a provisioning topic.
#[derive(Debug, Clone, Copy, PartialEq, Eq, Structural)]
pub enum Error {
    /// A topic path is longer than the buffer it was to be built in.
    Overflow,
}

} // verus!
