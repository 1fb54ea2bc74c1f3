//! Delivery guarantees of the publish/subscribe transport.

use vstd::prelude::*;

verus! {

/// Quality of service of a publication or a subscription.
#[derive(Debug, Clone, Copy, PartialEq, Eq, Structural)]
pub enum QoS {
    /// No acknowledgement; a message may be lost.
    AtMostOnce,
    /// One acknowledgement; a message may arrive more than once.
    AtLeastOnce,
    /// Two acknowledgements; a message arrives exactly once.
    ExactlyOnce,
}

} // verus!
