//! The five requests of the Jobs API: for each, the topic to publish on, the
//! record to send and the size of the buffer that the record must fit in.

use crate::bounded::{byte_len, lemma_byte_len_ascii, lemma_byte_len_concat, BoundedString};
use crate::jobs::data_types::{
    DescribeJobExecutionRequest, GetPendingJobExecutionsRequest, JobStatus,
    StartNextPendingJobExecutionRequest, UpdateJobExecutionRequest, MAX_CLIENT_TOKEN_LEN,
    MAX_JOB_ID_LEN, MAX_THING_NAME_LEN,
};
use crate::jobs::Jobs;
use crate::qos::QoS;
use crate::text::text_of;
use vstd::prelude::*;

verus! {

/// Capacity of the topic of a get-pending request.
pub const GET_PENDING_TOPIC_LEN: usize = MAX_THING_NAME_LEN + 21;

/// Capacity of the topic of a start-next request.
pub const START_NEXT_TOPIC_LEN: usize = MAX_THING_NAME_LEN + 28;

/// Capacity of the topic of a describe request.
pub const DESCRIBE_TOPIC_LEN: usize = MAX_THING_NAME_LEN + MAX_JOB_ID_LEN + 22;

/// Capacity of the topic of an update request.
pub const UPDATE_TOPIC_LEN: usize = MAX_THING_NAME_LEN + MAX_JOB_ID_LEN + 25;

/// Size of the buffer for the record of a get-pending or start-next request.
pub const PENDING_PAYLOAD_LEN: usize = MAX_CLIENT_TOKEN_LEN;

/// Bytes of a record around the JSON string of its client token:
/// `{"clientToken":` in front of it and `}` behind it.
pub const CLIENT_TOKEN_FRAME_LEN: usize = 16;

/// The most bytes that a JSON string takes for one byte of its text: a
/// control character, written as `\u00XX`.
pub const JSON_ESCAPE_LEN: usize = 6;

/// Size of the buffer for the record of a describe request: room for the
/// frame, the two quotes of the string, and the longest client token with
/// every byte of it escaped.
pub const DESCRIBE_PAYLOAD_LEN: usize = CLIENT_TOKEN_FRAME_LEN + 2 + JSON_ESCAPE_LEN
    * MAX_CLIENT_TOKEN_LEN;

/// Size of the buffer for the record of an update request.
pub const UPDATE_PAYLOAD_LEN: usize = 512;

/// The job id that stands for the next pending job execution.
pub const NEXT_JOB: &'static str = "$next";

/// One publication: where it goes, what it carries and how.
pub struct Publish<const N: usize, P> {
    /// The topic to publish on.
    pub topic: BoundedString<N>,
    /// The record to send.
    pub payload: P,
    /// Size in bytes of the buffer that the encoded record must fit in; if
    /// it does not, nothing is published.
    pub payload_capacity: usize,
    /// The quality of service to publish with.
    pub qos: QoS,
}

/// The topic of a request that concerns the thing as a whole:
/// `$aws/things/<thing>/jobs/<action>`.
pub open spec fn thing_topic(thing: Seq<char>, action: Seq<char>) -> Seq<char> {
    "$aws/things/"@ + thing + "/jobs/"@ + action
}

/// The topic of a request that concerns one job:
/// `$aws/things/<thing>/jobs/<job>/<action>`, where `action` starts with the
/// slash.
pub open spec fn job_topic(thing: Seq<char>, job: Seq<char>, action: Seq<char>) -> Seq<char> {
    "$aws/things/"@ + thing + "/jobs/"@ + job + action
}

/// Builds `$aws/things/<thing>/jobs/<job><action>` in `N` bytes, or fails if
/// it is longer.
fn format_topic<const N: usize>(thing: &str, job: &str, action: &str) -> (r: Result<
    BoundedString<N>,
    (),
>)
    ensures
        r is Ok <==> byte_len(job_topic(thing@, job@, action@)) <= N,
        r matches Ok(t) ==> t@ == job_topic(thing@, job@, action@),
{
    let ghost empty = Seq::<char>::empty();
    let ghost a = "$aws/things/"@;
    let ghost b = a + thing@;
    let ghost c = b + "/jobs/"@;
    let ghost d = c + job@;
    proof {
        assert(empty + a =~= a);
        lemma_byte_len_concat(empty, a);
        lemma_byte_len_concat(a, thing@);
        lemma_byte_len_concat(b, "/jobs/"@);
        lemma_byte_len_concat(c, job@);
        lemma_byte_len_concat(d, action@);
    }
    let mut topic = BoundedString::<N>::new();
    if topic.push_str("$aws/things/").is_err() {
        return Err(());
    }
    if topic.push_str(thing).is_err() {
        return Err(());
    }
    if topic.push_str("/jobs/").is_err() {
        return Err(());
    }
    if topic.push_str(job).is_err() {
        return Err(());
    }
    if topic.push_str(action).is_err() {
        return Err(());
    }
    Ok(topic)
}

/// Whether a client token is short enough to be sent.
pub open spec fn token_fits(client_token: Option<Seq<char>>) -> bool {
    match client_token {
        Some(token) => byte_len(token) <= MAX_CLIENT_TOKEN_LEN,
        None => true,
    }
}

impl Jobs {
    /// The request for the list of pending job executions: published on
    /// `$aws/things/<thing>/jobs/get`, without a client token, at least
    /// once. Fails when the topic does not fit in its buffer.
    pub fn get_pending(thing: &str) -> (r: Result<
        Publish<GET_PENDING_TOPIC_LEN, GetPendingJobExecutionsRequest<'static>>,
        (),
    >)
        ensures
            r is Ok <==> byte_len(thing_topic(thing@, "get"@)) <= GET_PENDING_TOPIC_LEN,
            r matches Ok(p) ==> {
                &&& p.topic@ == thing_topic(thing@, "get"@)
                &&& p.payload.client_token is None
                &&& p.payload_capacity == PENDING_PAYLOAD_LEN
                &&& p.qos == QoS::AtLeastOnce
            },
    {
        proof {
            reveal_strlit("");
            assert(job_topic(thing@, ""@, "get"@) =~= thing_topic(thing@, "get"@));
        }
        match format_topic::<GET_PENDING_TOPIC_LEN>(thing, "", "get") {
            Ok(topic) => Ok(
                Publish {
                    topic,
                    payload: GetPendingJobExecutionsRequest { client_token: None },
                    payload_capacity: PENDING_PAYLOAD_LEN,
                    qos: QoS::AtLeastOnce,
                },
            ),
            Err(_) => Err(()),
        }
    }

    /// The request to start the next pending job execution: published on
    /// `$aws/things/<thing>/jobs/start-next`, without a step timeout or a
    /// client token, at least once. Fails when the topic does not fit in its
    /// buffer.
    pub fn start_next(thing: &str) -> (r: Result<
        Publish<START_NEXT_TOPIC_LEN, StartNextPendingJobExecutionRequest<'static>>,
        (),
    >)
        ensures
            r is Ok <==> byte_len(thing_topic(thing@, "start-next"@)) <= START_NEXT_TOPIC_LEN,
            r matches Ok(p) ==> {
                &&& p.topic@ == thing_topic(thing@, "start-next"@)
                &&& p.payload.step_timeout_in_minutes is None
                &&& p.payload.client_token is None
                &&& p.payload_capacity == PENDING_PAYLOAD_LEN
                &&& p.qos == QoS::AtLeastOnce
            },
    {
        proof {
            reveal_strlit("");
            assert(job_topic(thing@, ""@, "start-next"@) =~= thing_topic(thing@, "start-next"@));
        }
        match format_topic::<START_NEXT_TOPIC_LEN>(thing, "", "start-next") {
            Ok(topic) => Ok(
                Publish {
                    topic,
                    payload: StartNextPendingJobExecutionRequest {
                        step_timeout_in_minutes: None,
                        client_token: None,
                    },
                    payload_capacity: PENDING_PAYLOAD_LEN,
                    qos: QoS::AtLeastOnce,
                },
            ),
            Err(_) => Err(()),
        }
    }

    /// The request for the details of the next pending job execution:
    /// [`Jobs::describe`] with the job id `$next`.
    pub fn describe_next<'a>(thing: &str, client_token: Option<&'a str>) -> (r: Result<
        Publish<DESCRIBE_TOPIC_LEN, DescribeJobExecutionRequest<'a>>,
        (),
    >)
        ensures
            r is Ok <==> token_fits(text_of(client_token)) && byte_len(
                job_topic(thing@, NEXT_JOB@, "/get"@),
            ) <= DESCRIBE_TOPIC_LEN,
            r matches Ok(p) ==> {
                &&& p.topic@ == job_topic(thing@, NEXT_JOB@, "/get"@)
                &&& p.payload.execution_number is None
                &&& p.payload.include_job_document is None
                &&& text_of(p.payload.client_token) == text_of(client_token)
                &&& p.payload_capacity == DESCRIBE_PAYLOAD_LEN
                &&& p.qos == QoS::AtLeastOnce
            },
    {
        Self::describe(thing, NEXT_JOB, client_token)
    }

    /// The request for the details of the job execution `job_id`: published
    /// on `$aws/things/<thing>/jobs/<job_id>/get` with the client token, at
    /// least once. Fails when the client token is too long, and when the
    /// topic does not fit in its buffer.
    pub fn describe<'a>(thing: &str, job_id: &str, client_token: Option<&'a str>) -> (r: Result<
        Publish<DESCRIBE_TOPIC_LEN, DescribeJobExecutionRequest<'a>>,
        (),
    >)
        ensures
            r is Ok <==> token_fits(text_of(client_token)) && byte_len(
                job_topic(thing@, job_id@, "/get"@),
            ) <= DESCRIBE_TOPIC_LEN,
            r matches Ok(p) ==> {
                &&& p.topic@ == job_topic(thing@, job_id@, "/get"@)
                &&& p.payload.execution_number is None
                &&& p.payload.include_job_document is None
                &&& text_of(p.payload.client_token) == text_of(client_token)
                &&& p.payload_capacity == DESCRIBE_PAYLOAD_LEN
                &&& p.qos == QoS::AtLeastOnce
            },
    {
        let too_long = match client_token {
            Some(token) => token.as_bytes().len() > MAX_CLIENT_TOKEN_LEN,
            None => false,
        };
        if too_long {
            return Err(());
        }
        match format_topic::<DESCRIBE_TOPIC_LEN>(thing, job_id, "/get") {
            Ok(topic) => Ok(
                Publish {
                    topic,
                    payload: DescribeJobExecutionRequest {
                        execution_number: None,
                        include_job_document: None,
                        client_token,
                    },
                    payload_capacity: DESCRIBE_PAYLOAD_LEN,
                    qos: QoS::AtLeastOnce,
                },
            ),
            Err(_) => Err(()),
        }
    }

    /// The report of a job execution's status: published on
    /// `$aws/things/<thing>/jobs/<job_id>/update` with the status, the
    /// status details and nothing else, with the quality of service that the
    /// caller chose. Fails when the topic does not fit in its buffer.
    pub fn update<'a, D>(
        thing: &str,
        job_id: &str,
        status: JobStatus,
        status_details: Option<&'a D>,
        qos: QoS,
    ) -> (r: Result<Publish<UPDATE_TOPIC_LEN, UpdateJobExecutionRequest<'a, D>>, ()>)
        ensures
            r is Ok <==> byte_len(job_topic(thing@, job_id@, "/update"@)) <= UPDATE_TOPIC_LEN,
            r matches Ok(p) ==> {
                &&& p.topic@ == job_topic(thing@, job_id@, "/update"@)
                &&& p.payload.execution_number is None
                &&& p.payload.expected_version is None
                &&& p.payload.include_job_document is None
                &&& p.payload.include_job_execution_state is None
                &&& p.payload.status == status
                &&& p.payload.status_details == status_details
                &&& p.payload.step_timeout_in_minutes is None
                &&& p.payload.client_token is None
                &&& p.payload_capacity == UPDATE_PAYLOAD_LEN
                &&& p.qos == qos
            },
    {
        match format_topic::<UPDATE_TOPIC_LEN>(thing, job_id, "/update") {
            Ok(topic) => Ok(
                Publish {
                    topic,
                    payload: UpdateJobExecutionRequest {
                        execution_number: None,
                        expected_version: None,
                        include_job_document: None,
                        include_job_execution_state: None,
                        status,
                        status_details,
                        step_timeout_in_minutes: None,
                        client_token: None,
                    },
                    payload_capacity: UPDATE_PAYLOAD_LEN,
                    qos,
                },
            ),
            Err(_) => Err(()),
        }
    }
}

/// The topic of each request is as long as the names in it and its fixed
/// words together. So the buffer of each has room for the longest thing
/// name and, where the topic holds one, the longest job id, and for nothing
/// more.
pub proof fn lemma_request_topic_lengths(thing: Seq<char>, job: Seq<char>)
    ensures
        byte_len(thing_topic(thing, "get"@)) == byte_len(thing) + 21,
        byte_len(thing_topic(thing, "start-next"@)) == byte_len(thing) + 28,
        byte_len(job_topic(thing, job, "/get"@)) == byte_len(thing) + byte_len(job) + 22,
        byte_len(job_topic(thing, job, "/update"@)) == byte_len(thing) + byte_len(job) + 25,
{
    reveal_strlit("$aws/things/");
    reveal_strlit("/jobs/");
    reveal_strlit("get");
    reveal_strlit("start-next");
    reveal_strlit("/get");
    reveal_strlit("/update");
    lemma_byte_len_ascii("$aws/things/"@);
    lemma_byte_len_ascii("/jobs/"@);
    lemma_byte_len_ascii("get"@);
    lemma_byte_len_ascii("start-next"@);
    lemma_byte_len_ascii("/get"@);
    lemma_byte_len_ascii("/update"@);
    let a = "$aws/things/"@ + thing;
    let b = a + "/jobs/"@;
    lemma_byte_len_concat("$aws/things/"@, thing);
    lemma_byte_len_concat(a, "/jobs/"@);
    lemma_byte_len_concat(b, "get"@);
    lemma_byte_len_concat(b, "start-next"@);
    lemma_byte_len_concat(b, job);
    lemma_byte_len_concat(b + job, "/get"@);
    lemma_byte_len_concat(b + job, "/update"@);
}

/// The length in bytes of the record of a describe request, given the
/// length of the JSON string of its client token, quotes included. Without
/// a client token the record is `{}`.
pub open spec fn describe_record_len(token_string_len: Option<nat>) -> nat {
    match token_string_len {
        Some(len) => (CLIENT_TOKEN_FRAME_LEN + len) as nat,
        None => 2,
    }
}

/// The buffer of a describe request holds the record of every request that
/// passes validation: the JSON string of a client token takes its two
/// quotes and at most six bytes for each byte of the token, and no token
/// that passes is longer than the limit.
pub proof fn lemma_describe_record_fits(client_token: Option<Seq<char>>, string_len: nat)
    requires
        token_fits(client_token),
        client_token matches Some(token) ==> string_len <= JSON_ESCAPE_LEN * byte_len(token) + 2,
    ensures
        describe_record_len(
            match client_token {
                Some(_) => Some(string_len),
                None => None,
            },
        ) <= DESCRIBE_PAYLOAD_LEN,
{
}

/// A client token of the greatest length and without a character that needs
/// an escape makes a record of 156 bytes.
pub proof fn lemma_longest_plain_describe_record(token: Seq<char>)
    requires
        byte_len(token) == MAX_CLIENT_TOKEN_LEN,
    ensures
        describe_record_len(Some(byte_len(token) + 2)) == 156,
        describe_record_len(Some(byte_len(token) + 2)) <= DESCRIBE_PAYLOAD_LEN,
{
}

/// The record of a get-pending or a start-next request has no field and is
/// `{}`: it fits in its buffer.
pub proof fn lemma_empty_record_fits()
    ensures
        describe_record_len(None) <= PENDING_PAYLOAD_LEN,
{
}

} // verus!
