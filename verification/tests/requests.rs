use aws_iot_topics::jobs::data_types::{
    JobStatus, MAX_CLIENT_TOKEN_LEN, MAX_JOB_ID_LEN, MAX_THING_NAME_LEN,
};
use aws_iot_topics::jobs::requests::{
    CLIENT_TOKEN_FRAME_LEN, DESCRIBE_PAYLOAD_LEN, DESCRIBE_TOPIC_LEN, GET_PENDING_TOPIC_LEN,
    JSON_ESCAPE_LEN, NEXT_JOB, PENDING_PAYLOAD_LEN, START_NEXT_TOPIC_LEN, UPDATE_PAYLOAD_LEN,
    UPDATE_TOPIC_LEN,
};
use serde::ser::{Serialize, SerializeStruct, Serializer};
use aws_iot_topics::jobs::Jobs;
use aws_iot_topics::qos::QoS;

#[test]
fn limits() {
    assert_eq!(MAX_THING_NAME_LEN, 128);
    assert_eq!(MAX_JOB_ID_LEN, 64);
    assert_eq!(MAX_CLIENT_TOKEN_LEN, 138);
    assert_eq!(GET_PENDING_TOPIC_LEN, 149);
    assert_eq!(START_NEXT_TOPIC_LEN, 156);
    assert_eq!(DESCRIBE_TOPIC_LEN, 214);
    assert_eq!(UPDATE_TOPIC_LEN, 217);
    assert_eq!(PENDING_PAYLOAD_LEN, 138);
    assert_eq!(CLIENT_TOKEN_FRAME_LEN, 16);
    assert_eq!(JSON_ESCAPE_LEN, 6);
    assert_eq!(DESCRIBE_PAYLOAD_LEN, 846);
    assert_eq!(UPDATE_PAYLOAD_LEN, 512);
    assert_eq!(NEXT_JOB, "$next");
}

#[test]
fn get_pending_request() {
    let p = Jobs::get_pending("test_client").unwrap();
    assert_eq!(p.topic.as_str(), "$aws/things/test_client/jobs/get");
    assert_eq!(p.topic.capacity(), 149);
    assert_eq!(p.payload.client_token, None);
    assert_eq!(p.payload_capacity, 138);
    assert_eq!(p.qos, QoS::AtLeastOnce);
}

#[test]
fn get_pending_takes_the_longest_thing_name_and_no_longer() {
    let longest = "n".repeat(128);
    let p = Jobs::get_pending(&longest).unwrap();
    assert_eq!(p.topic.len(), 149);
    assert_eq!(p.topic.as_str(), format!("$aws/things/{}/jobs/get", longest));
    assert!(Jobs::get_pending(&"n".repeat(129)).is_err());
    assert!(Jobs::get_pending("").is_ok());
}

#[test]
fn start_next_request() {
    let p = Jobs::start_next("test_client").unwrap();
    assert_eq!(p.topic.as_str(), "$aws/things/test_client/jobs/start-next");
    assert_eq!(p.payload.step_timeout_in_minutes, None);
    assert_eq!(p.payload.client_token, None);
    assert_eq!(p.payload_capacity, 138);
    assert_eq!(p.qos, QoS::AtLeastOnce);
    assert_eq!(Jobs::start_next(&"n".repeat(128)).unwrap().topic.len(), 156);
    assert!(Jobs::start_next(&"n".repeat(129)).is_err());
}

#[test]
fn describe_request() {
    let p = Jobs::describe("test_client", "job-7", Some("token")).unwrap();
    assert_eq!(p.topic.as_str(), "$aws/things/test_client/jobs/job-7/get");
    assert_eq!(p.payload.execution_number, None);
    assert_eq!(p.payload.include_job_document, None);
    assert_eq!(p.payload.client_token, Some("token"));
    assert_eq!(p.payload_capacity, 846);
    assert_eq!(p.qos, QoS::AtLeastOnce);

    let p = Jobs::describe("test_client", "job-7", None).unwrap();
    assert_eq!(p.payload.client_token, None);
}

#[test]
fn describe_refuses_a_client_token_that_is_too_long() {
    let longest = "t".repeat(138);
    let p = Jobs::describe("test_client", "job", Some(&longest)).unwrap();
    assert_eq!(p.payload.client_token, Some(longest.as_str()));
    assert!(Jobs::describe("test_client", "job", Some(&"t".repeat(139))).is_err());
    // 69 characters of two bytes each
    assert!(Jobs::describe("test_client", "job", Some(&"é".repeat(69))).is_ok());
    assert!(Jobs::describe("test_client", "job", Some(&"é".repeat(70))).is_err());
    assert!(Jobs::describe_next("test_client", Some(&"t".repeat(139))).is_err());
}

#[test]
fn describe_topic_has_room_for_the_names_together() {
    let thing = "n".repeat(128);
    let job = "j".repeat(64);
    let p = Jobs::describe(&thing, &job, None).unwrap();
    assert_eq!(p.topic.len(), 214);
    assert_eq!(p.topic.as_str(), format!("$aws/things/{}/jobs/{}/get", thing, job));
    assert!(Jobs::describe(&thing, &"j".repeat(65), None).is_err());
    assert!(Jobs::describe(&"n".repeat(129), &job, None).is_err());
    // a longer thing name is made up for by a shorter job id
    assert!(Jobs::describe(&"n".repeat(150), &"j".repeat(42), None).is_ok());
    assert!(Jobs::describe(&"n".repeat(150), &"j".repeat(43), None).is_err());
}

#[test]
fn describe_next_request() {
    let p = Jobs::describe_next("test_client", Some("abc")).unwrap();
    assert_eq!(p.topic.as_str(), "$aws/things/test_client/jobs/$next/get");
    assert_eq!(p.payload.execution_number, None);
    assert_eq!(p.payload.include_job_document, None);
    assert_eq!(p.payload.client_token, Some("abc"));
    assert_eq!(p.payload_capacity, 846);
    assert_eq!(p.qos, QoS::AtLeastOnce);
    assert!(Jobs::describe_next(&"n".repeat(188), None).is_err());
    assert!(Jobs::describe_next(&"n".repeat(187), None).is_ok());
}

#[test]
fn update_request() {
    let details = vec![("progress", "50%")];
    let p = Jobs::update(
        "test_client",
        "job-7",
        JobStatus::InProgress,
        Some(&details),
        QoS::AtMostOnce,
    )
    .unwrap();
    assert_eq!(p.topic.as_str(), "$aws/things/test_client/jobs/job-7/update");
    assert_eq!(p.payload.execution_number, None);
    assert_eq!(p.payload.expected_version, None);
    assert_eq!(p.payload.include_job_document, None);
    assert_eq!(p.payload.include_job_execution_state, None);
    assert_eq!(p.payload.status, JobStatus::InProgress);
    assert_eq!(p.payload.status_details, Some(&details));
    assert_eq!(p.payload.step_timeout_in_minutes, None);
    assert_eq!(p.payload.client_token, None);
    assert_eq!(p.payload_capacity, 512);
    assert_eq!(p.qos, QoS::AtMostOnce);
}

#[test]
fn update_publishes_with_the_chosen_qos() {
    for qos in [QoS::AtMostOnce, QoS::AtLeastOnce, QoS::ExactlyOnce] {
        for status in [
            JobStatus::Queued,
            JobStatus::InProgress,
            JobStatus::Failed,
            JobStatus::Succeeded,
            JobStatus::Canceled,
            JobStatus::TimedOut,
            JobStatus::Rejected,
            JobStatus::Removed,
        ] {
            let p = Jobs::update::<()>("t", "j", status, None, qos).unwrap();
            assert_eq!(p.qos, qos);
            assert_eq!(p.payload.status, status);
            assert_eq!(p.payload.status_details, None);
        }
    }
}

#[test]
fn update_topic_has_room_for_the_names_together() {
    let thing = "n".repeat(128);
    let job = "j".repeat(64);
    let p = Jobs::update::<()>(&thing, &job, JobStatus::Succeeded, None, QoS::AtLeastOnce).unwrap();
    assert_eq!(p.topic.len(), 217);
    assert_eq!(p.topic.as_str(), format!("$aws/things/{}/jobs/{}/update", thing, job));
    assert!(
        Jobs::update::<()>(&thing, &"j".repeat(65), JobStatus::Succeeded, None, QoS::AtLeastOnce)
            .is_err()
    );
}

/// The record of a describe request as it goes over the wire.
struct DescribeRecord<'a> {
    client_token: Option<&'a str>,
}

impl<'a> Serialize for DescribeRecord<'a> {
    fn serialize<S: Serializer>(&self, serializer: S) -> Result<S::Ok, S::Error> {
        match self.client_token {
            Some(token) => {
                let mut record = serializer.serialize_struct("DescribeJobExecutionRequest", 1)?;
                record.serialize_field("clientToken", token)?;
                record.end()
            }
            None => serializer.serialize_struct("DescribeJobExecutionRequest", 0)?.end(),
        }
    }
}

/// The bytes of the record of `Jobs::describe` with this token, encoded in
/// a buffer of the size that the request names.
fn encoded_describe(token: Option<&str>) -> Result<Vec<u8>, ()> {
    let request = Jobs::describe("test_client", "job", token)?;
    let record = DescribeRecord { client_token: request.payload.client_token };
    let mut buf = vec![0u8; request.payload_capacity];
    let len = serde_json_core::to_slice(&record, &mut buf).map_err(drop)?;
    buf.truncate(len);
    Ok(buf)
}

#[test]
fn describe_buffer_holds_the_longest_token() {
    let longest = "t".repeat(138);
    let bytes = encoded_describe(Some(&longest)).unwrap();
    assert_eq!(bytes.len(), 156);
    assert_eq!(bytes, format!("{{\"clientToken\":\"{}\"}}", longest).into_bytes());
}

#[test]
fn describe_buffer_holds_every_token_that_passes() {
    for len in 0..=138 {
        let token = "t".repeat(len);
        assert_eq!(encoded_describe(Some(&token)).unwrap().len(), 18 + len);
    }
}

#[test]
fn describe_buffer_holds_the_longest_token_with_every_byte_escaped() {
    let quotes = "\"".repeat(138);
    assert_eq!(encoded_describe(Some(&quotes)).unwrap().len(), 18 + 2 * 138);
    let controls = "\u{1}".repeat(138);
    let bytes = encoded_describe(Some(&controls)).unwrap();
    assert_eq!(bytes.len(), 846);
    assert_eq!(bytes.len(), DESCRIBE_PAYLOAD_LEN);
    assert!(bytes.starts_with(b"{\"clientToken\":\"\\u0001"));
}

#[test]
fn describe_record_without_token_is_empty() {
    assert_eq!(encoded_describe(None).unwrap(), b"{}".to_vec());
    assert!(2 <= PENDING_PAYLOAD_LEN);
}
