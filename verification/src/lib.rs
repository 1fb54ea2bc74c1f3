//! Device-side topic handling for the AWS IoT Jobs and Fleet Provisioning
//! protocols.
//!
//! Topic paths are built in buffers of fixed capacity, which report overflow
//! and never truncate; paths that arrive are recognised again; and the topics
//! of a subscription are collected into batches of the size that a transport
//! accepts in one call.
//!
//! The crate computes and performs no transport call itself. An operation
//! returns what is to be sent: the topic, the record and the quality of
//! service of a publication, or the batches of a subscription in the order in
//! which the transport is to get them.
//!
//! - [`bounded`]: strings of fixed capacity.
//! - [`text`]: comparing strings and cutting a path into its segments.
//! - [`qos`]: the delivery guarantees of the transport.
//! - [`jobs`]: the Jobs protocol.
//! - [`provisioning`]: the Fleet Provisioning protocol.

pub mod bounded;
pub mod jobs;
pub mod provisioning;
pub mod qos;
pub mod text;
