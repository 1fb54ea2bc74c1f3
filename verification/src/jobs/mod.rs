//! The Jobs protocol: which reserved topics a device subscribes to, and the
//! requests it publishes.

pub mod batch;
pub mod calls;
pub mod data_types;
pub mod requests;
pub mod subscription;
pub mod topics;

use vstd::prelude::*;

verus! {

/// The operations of the Jobs protocol.
pub struct Jobs;

} // verus!
