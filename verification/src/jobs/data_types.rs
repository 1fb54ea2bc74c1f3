//! The limits that buffers are sized by, and the request records of the Jobs
//! API. A record holds the fields of one request; turning it into bytes is
//! the caller's part.

use vstd::prelude::*;

verus! {

/// The longest thing name, in bytes.
pub const MAX_THING_NAME_LEN: usize = 128;

/// The longest job id, in bytes.
pub const MAX_JOB_ID_LEN: usize = 64;

/// The longest client token, in bytes.
pub const MAX_CLIENT_TOKEN_LEN: usize = MAX_THING_NAME_LEN + 10;

/// The status of a job execution.
#[derive(Debug, Clone, Copy, PartialEq, Eq, Structural)]
pub enum JobStatus {
    Queued,
    InProgress,
    Failed,
    Succeeded,
    Canceled,
    TimedOut,
    Rejected,
    Removed,
}

/// Asks for the list of job executions that are not finished.
#[derive(Debug, Clone, Copy)]
pub struct GetPendingJobExecutionsRequest<'a> {
    /// An opaque string that comes back in the response.
    pub client_token: Option<&'a str>,
}

/// Asks to start the next pending job execution.
#[derive(Debug, Clone, Copy)]
pub struct StartNextPendingJobExecutionRequest<'a> {
    /// Minutes that the device has to finish the execution.
    pub step_timeout_in_minutes: Option<i64>,
    /// An opaque string that comes back in the response.
    pub client_token: Option<&'a str>,
}

/// Asks for the details of one job execution.
#[derive(Debug, Clone, Copy)]
pub struct DescribeJobExecutionRequest<'a> {
    /// Which execution of the job on this device.
    pub execution_number: Option<i64>,
    /// Whether the response is to hold the job document.
    pub include_job_document: Option<bool>,
    /// An opaque string that comes back in the response.
    pub client_token: Option<&'a str>,
}

/// Reports the status of one job execution. `D` is the type of the status
/// details, which this crate only carries.
#[derive(Debug)]
pub struct UpdateJobExecutionRequest<'a, D> {
    /// Which execution of the job on this device.
    pub execution_number: Option<i64>,
    /// The version that the execution is expected to have.
    pub expected_version: Option<i64>,
    /// Whether the response is to hold the job document.
    pub include_job_document: Option<bool>,
    /// Whether the response is to hold the execution state.
    pub include_job_execution_state: Option<bool>,
    /// The new status.
    pub status: JobStatus,
    /// Name-value pairs that describe the status.
    pub status_details: Option<&'a D>,
    /// Minutes that the device has to finish the execution.
    pub step_timeout_in_minutes: Option<i64>,
    /// An opaque string that comes back in the response.
    pub client_token: Option<&'a str>,
}

} // verus!
