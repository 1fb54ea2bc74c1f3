use aws_iot_topics::bounded::BoundedString;
use aws_iot_topics::provisioning::topics::{
    Direction, PayloadFormat, Subscribe, Topic, CERT_PREFIX, PROVISIONING_PREFIX,
};
use aws_iot_topics::provisioning::Error;
use aws_iot_topics::qos::QoS;

fn path(topic: Topic<'_>) -> String {
    topic.format::<128>().unwrap().as_str().to_string()
}

fn incoming(name: &str) -> Vec<Topic<'_>> {
    let mut list = Vec::new();
    for format in [PayloadFormat::Json, PayloadFormat::Cbor] {
        list.push(Topic::RegisterThingAccepted(name, format));
        list.push(Topic::RegisterThingRejected(name, format));
        list.push(Topic::CreateKeysAndCertificateAccepted(format));
        list.push(Topic::CreateKeysAndCertificateRejected(format));
        list.push(Topic::CreateCertificateFromCsrAccepted(format));
        list.push(Topic::CreateCertificateFromCsrRejected(format));
    }
    list
}

#[test]
fn prefixes() {
    assert_eq!(CERT_PREFIX, "$aws/certificates");
    assert_eq!(PROVISIONING_PREFIX, "$aws/provisioning-templates");
}

#[test]
fn formats_every_variant() {
    let json = PayloadFormat::Json;
    let cbor = PayloadFormat::Cbor;
    assert_eq!(
        path(Topic::RegisterThing("tmpl", json)),
        "$aws/provisioning-templates/tmpl/provision/json"
    );
    assert_eq!(
        path(Topic::RegisterThingAccepted("tmpl", json)),
        "$aws/provisioning-templates/tmpl/provision/json/accepted"
    );
    assert_eq!(
        path(Topic::RegisterThingRejected("tmpl", cbor)),
        "$aws/provisioning-templates/tmpl/provision/cbor/rejected"
    );
    assert_eq!(path(Topic::CreateKeysAndCertificate(json)), "$aws/certificates/create/json");
    assert_eq!(
        path(Topic::CreateKeysAndCertificateAccepted(cbor)),
        "$aws/certificates/create/cbor/accepted"
    );
    assert_eq!(
        path(Topic::CreateKeysAndCertificateRejected(json)),
        "$aws/certificates/create/json/rejected"
    );
    assert_eq!(
        path(Topic::CreateCertificateFromCsr(cbor)),
        "$aws/certificates/create-from-csr/cbor"
    );
    assert_eq!(
        path(Topic::CreateCertificateFromCsrAccepted(json)),
        "$aws/certificates/create-from-csr/json/accepted"
    );
    assert_eq!(
        path(Topic::CreateCertificateFromCsrRejected(json)),
        "$aws/certificates/create-from-csr/json/rejected"
    );
}

#[test]
fn format_reports_overflow_at_the_exact_length() {
    // "$aws/certificates/create/json/accepted" has 38 bytes
    let topic = Topic::CreateKeysAndCertificateAccepted(PayloadFormat::Json);
    assert_eq!(topic.format::<38>().unwrap().as_str(), "$aws/certificates/create/json/accepted");
    assert_eq!(topic.format::<37>().err(), Some(Error::Overflow));
    assert_eq!(topic.format::<0>().err(), Some(Error::Overflow));
    assert_eq!(topic.format::<17>().err(), Some(Error::Overflow));
    assert_eq!(topic.format::<30>().err(), Some(Error::Overflow));
}

#[test]
fn format_counts_the_bytes_of_the_template_name() {
    // 27 + 1 + name + 11 + 4 bytes; "né" has 3 bytes
    let topic = Topic::RegisterThing("né", PayloadFormat::Json);
    assert_eq!(
        topic.format::<46>().unwrap().as_str(),
        "$aws/provisioning-templates/né/provision/json"
    );
    assert_eq!(topic.format::<45>().err(), Some(Error::Overflow));
}

#[test]
fn parses_every_incoming_variant() {
    assert_eq!(
        Topic::from_str("$aws/provisioning-templates/tmpl/provision/json/accepted"),
        Some(Topic::RegisterThingAccepted("tmpl", PayloadFormat::Json))
    );
    assert_eq!(
        Topic::from_str("$aws/provisioning-templates/tmpl/provision/cbor/rejected"),
        Some(Topic::RegisterThingRejected("tmpl", PayloadFormat::Cbor))
    );
    assert_eq!(
        Topic::from_str("$aws/certificates/create/json/accepted"),
        Some(Topic::CreateKeysAndCertificateAccepted(PayloadFormat::Json))
    );
    assert_eq!(
        Topic::from_str("$aws/certificates/create/cbor/rejected"),
        Some(Topic::CreateKeysAndCertificateRejected(PayloadFormat::Cbor))
    );
    assert_eq!(
        Topic::from_str("$aws/certificates/create-from-csr/json/accepted"),
        Some(Topic::CreateCertificateFromCsrAccepted(PayloadFormat::Json))
    );
    assert_eq!(
        Topic::from_str("$aws/certificates/create-from-csr/json/rejected"),
        Some(Topic::CreateCertificateFromCsrRejected(PayloadFormat::Json))
    );
}

#[test]
fn parse_of_a_formatted_incoming_topic_gives_it_back() {
    for name in ["tmpl", "", "a-b_c", "né"] {
        for topic in incoming(name) {
            let text = path(topic);
            assert_eq!(Topic::from_str(&text), Some(topic));
        }
    }
}

#[test]
fn parses_every_request_variant() {
    assert_eq!(
        Topic::from_str("$aws/provisioning-templates/tmpl/provision/json"),
        Some(Topic::RegisterThing("tmpl", PayloadFormat::Json))
    );
    assert_eq!(
        Topic::from_str("$aws/provisioning-templates/tmpl/provision/cbor"),
        Some(Topic::RegisterThing("tmpl", PayloadFormat::Cbor))
    );
    assert_eq!(
        Topic::from_str("$aws/certificates/create/json"),
        Some(Topic::CreateKeysAndCertificate(PayloadFormat::Json))
    );
    assert_eq!(
        Topic::from_str("$aws/certificates/create/cbor"),
        Some(Topic::CreateKeysAndCertificate(PayloadFormat::Cbor))
    );
    assert_eq!(
        Topic::from_str("$aws/certificates/create-from-csr/json"),
        Some(Topic::CreateCertificateFromCsr(PayloadFormat::Json))
    );
    assert_eq!(
        Topic::from_str("$aws/certificates/create-from-csr/cbor"),
        Some(Topic::CreateCertificateFromCsr(PayloadFormat::Cbor))
    );
}

#[test]
fn parse_of_a_formatted_request_topic_gives_it_back() {
    for name in ["tmpl", "", "a-b_c", "né"] {
        for format in [PayloadFormat::Json, PayloadFormat::Cbor] {
            for topic in [
                Topic::RegisterThing(name, format),
                Topic::CreateKeysAndCertificate(format),
                Topic::CreateCertificateFromCsr(format),
            ] {
                assert_eq!(topic.direction(), Direction::Outgoing);
                assert_eq!(Topic::from_str(&path(topic)), Some(topic));
            }
        }
    }
}

#[test]
fn template_name_with_a_slash_is_not_read_back() {
    let topic = Topic::RegisterThingAccepted("a/b", PayloadFormat::Json);
    assert_eq!(path(topic), "$aws/provisioning-templates/a/b/provision/json/accepted");
    assert_eq!(Topic::from_str(&path(topic)), None);
    let topic = Topic::RegisterThing("a/b", PayloadFormat::Json);
    assert_eq!(path(topic), "$aws/provisioning-templates/a/b/provision/json");
    assert_eq!(Topic::from_str(&path(topic)), None);
}

#[test]
fn parse_answers_none_for_other_paths() {
    for s in [
        "",
        "$aws",
        "$aws/",
        "$aws/certificates",
        "$aws/certificates/create",
        "$aws/certificates/create/",
        "$aws/certificates/create/xml",
        "$aws/certificates/delete/json",
        "$aws/certificates/create/json/",
        "$aws/certificates/create-from-csr/json/",
        "$aws/certificates/create/xml/accepted",
        "$aws/certificates/create/json/done",
        "$aws/certificates/delete/json/accepted",
        "$aws/certificates/create/JSON/accepted",
        "aws/certificates/create/json/accepted",
        "/$aws/certificates/create/json/accepted",
        "$aws/things/create/json/accepted",
        "$aws/provisioning-templates/tmpl/provision",
        "$aws/provisioning-templates/tmpl/provision/",
        "$aws/provisioning-templates/tmpl/provision/yaml",
        "$aws/provisioning-templates/tmpl/register/json",
        "$aws/provisioning-templates/tmpl/provision/json/",
        "$aws/provisioning-templates/tmpl/provision/json/done",
        "$aws/provisioning-templates/tmpl/provision/json/accepted/",
        "$aws/provisioning-templates/tmpl/provision/json/accepted/more",
        "$aws/provisioning-templates/tmpl/provision/yaml/accepted",
        "$aws/provisioning-templates/tmpl/register/json/accepted",
        "$aws/provisioning-templates/provision/json/accepted",
        "$aws/things/test_client/jobs/notify",
    ] {
        assert_eq!(Topic::from_str(s), None, "{}", s);
    }
}

#[test]
fn certificate_paths_may_go_on_after_the_last_word() {
    assert_eq!(
        Topic::from_str("$aws/certificates/create/json/accepted/more"),
        Some(Topic::CreateKeysAndCertificateAccepted(PayloadFormat::Json))
    );
    assert_eq!(
        Topic::from_str("$aws/certificates/create-from-csr/cbor/rejected/a/b/c"),
        Some(Topic::CreateCertificateFromCsrRejected(PayloadFormat::Cbor))
    );
    assert_eq!(
        Topic::from_str("$aws/certificates/create/json/accepted/"),
        Some(Topic::CreateKeysAndCertificateAccepted(PayloadFormat::Json))
    );
}

#[test]
fn empty_template_name_of_a_request_is_read() {
    assert_eq!(
        Topic::from_str("$aws/provisioning-templates//provision/json"),
        Some(Topic::RegisterThing("", PayloadFormat::Json))
    );
}

#[test]
fn empty_template_name_is_read() {
    assert_eq!(
        Topic::from_str("$aws/provisioning-templates//provision/json/accepted"),
        Some(Topic::RegisterThingAccepted("", PayloadFormat::Json))
    );
}

#[test]
fn check_looks_at_the_prefix_only() {
    assert!(Topic::check("$aws/certificates/create/json/accepted"));
    assert!(Topic::check("$aws/certificates"));
    assert!(Topic::check("$aws/certificatesX"));
    assert!(Topic::check("$aws/provisioning-templates/tmpl/provision/json/accepted"));
    assert!(Topic::check("$aws/provisioning-templates"));
    assert!(!Topic::check("$aws/certificate"));
    assert!(!Topic::check("$aws/things/x/jobs/notify"));
    assert!(!Topic::check(""));
    assert!(!Topic::check(" $aws/certificates"));
}

#[test]
fn requests_go_out_and_answers_come_in() {
    let json = PayloadFormat::Json;
    assert_eq!(Topic::RegisterThing("t", json).direction(), Direction::Outgoing);
    assert_eq!(Topic::CreateKeysAndCertificate(json).direction(), Direction::Outgoing);
    assert_eq!(Topic::CreateCertificateFromCsr(json).direction(), Direction::Outgoing);
    for topic in incoming("t") {
        assert_eq!(topic.direction(), Direction::Incoming);
    }
}

#[test]
fn payload_format_names() {
    assert_eq!(PayloadFormat::Json.as_str(), "json");
    assert_eq!(PayloadFormat::Cbor.as_str(), "cbor");
    assert_eq!(PayloadFormat::from_str("json"), Ok(PayloadFormat::Json));
    assert_eq!(PayloadFormat::from_str("cbor"), Ok(PayloadFormat::Cbor));
    assert_eq!(PayloadFormat::from_str("Json"), Err(()));
    assert_eq!(PayloadFormat::from_str(""), Err(()));
    assert_eq!(PayloadFormat::from_str("json "), Err(()));
}

#[test]
fn same_compares_kind_name_and_format() {
    let a = Topic::RegisterThingAccepted("t", PayloadFormat::Json);
    assert!(a.same(&Topic::RegisterThingAccepted("t", PayloadFormat::Json)));
    assert!(!a.same(&Topic::RegisterThingAccepted("u", PayloadFormat::Json)));
    assert!(!a.same(&Topic::RegisterThingAccepted("t", PayloadFormat::Cbor)));
    assert!(!a.same(&Topic::RegisterThingRejected("t", PayloadFormat::Json)));
    for x in incoming("t") {
        for y in incoming("t") {
            assert_eq!(x.same(&y), x == y);
        }
    }
}

fn listed<'a, const N: usize>(set: &Subscribe<'a, N>) -> Vec<(Topic<'a>, QoS)> {
    set.iter().to_vec()
}

#[test]
fn builder_keeps_the_first_of_two_equal_topics() {
    let topic = Topic::CreateKeysAndCertificateAccepted(PayloadFormat::Json);
    let set = Subscribe::<4>::new()
        .topic(topic, QoS::AtLeastOnce)
        .topic(topic, QoS::ExactlyOnce);
    assert_eq!(listed(&set), vec![(topic, QoS::AtLeastOnce)]);
    assert_eq!(set.len(), 1);
}

#[test]
fn builder_leaves_outgoing_topics_out() {
    let set = Subscribe::<4>::new()
        .topic(Topic::RegisterThing("t", PayloadFormat::Json), QoS::AtLeastOnce)
        .topic(Topic::CreateKeysAndCertificate(PayloadFormat::Json), QoS::AtLeastOnce)
        .topic(Topic::CreateCertificateFromCsr(PayloadFormat::Json), QoS::AtMostOnce);
    assert_eq!(set.len(), 0);
    assert!(listed(&set).is_empty());
}

#[test]
fn builder_keeps_the_order_of_adding() {
    let a = Topic::RegisterThingRejected("t", PayloadFormat::Json);
    let b = Topic::CreateKeysAndCertificateAccepted(PayloadFormat::Cbor);
    let c = Topic::RegisterThingAccepted("t", PayloadFormat::Json);
    let set = Subscribe::<8>::new()
        .topic(a, QoS::AtMostOnce)
        .topic(Topic::RegisterThing("t", PayloadFormat::Json), QoS::AtLeastOnce)
        .topic(b, QoS::AtLeastOnce)
        .topic(a, QoS::ExactlyOnce)
        .topic(c, QoS::ExactlyOnce);
    assert_eq!(
        listed(&set),
        vec![(a, QoS::AtMostOnce), (b, QoS::AtLeastOnce), (c, QoS::ExactlyOnce)]
    );
}

#[test]
fn builder_holds_no_more_than_its_limit() {
    let mut set = Subscribe::<3>::new();
    for topic in incoming("t") {
        set = set.topic(topic, QoS::AtLeastOnce);
    }
    assert_eq!(set.len(), 3);
    let first: Vec<Topic<'_>> = incoming("t").into_iter().take(3).collect();
    let held: Vec<Topic<'_>> = listed(&set).into_iter().map(|(t, _)| t).collect();
    assert_eq!(held, first);

    let none = Subscribe::<0>::new().topic(first[0], QoS::AtLeastOnce);
    assert_eq!(none.len(), 0);
}

#[test]
fn builder_never_holds_a_topic_twice() {
    let mut set = Subscribe::<16>::new();
    let qos = [QoS::AtMostOnce, QoS::AtLeastOnce, QoS::ExactlyOnce];
    for round in 0..3 {
        for (i, topic) in incoming("t").into_iter().enumerate() {
            set = set.topic(topic, qos[(i + round) % 3]);
        }
    }
    let held = listed(&set);
    assert_eq!(held.len(), 12);
    for i in 0..held.len() {
        assert_eq!(held[i].0.direction(), Direction::Incoming);
        assert_eq!(held[i].1, qos[i % 3]);
        for j in 0..i {
            assert!(held[i].0 != held[j].0);
        }
    }
}

#[test]
fn default_builder_is_empty() {
    let set: Subscribe<'_, 4> = Default::default();
    assert_eq!(set.len(), 0);
}

#[test]
fn topics_formats_each_entry_with_its_qos() {
    let set = Subscribe::<4>::new()
        .topic(Topic::RegisterThingAccepted("t", PayloadFormat::Json), QoS::AtLeastOnce)
        .topic(Topic::CreateKeysAndCertificateRejected(PayloadFormat::Cbor), QoS::AtMostOnce);
    let paths: Vec<(BoundedString<64>, QoS)> = set.topics::<64>().unwrap();
    let plain: Vec<(&str, QoS)> = paths.iter().map(|(p, q)| (p.as_str(), *q)).collect();
    assert_eq!(
        plain,
        vec![
            ("$aws/provisioning-templates/t/provision/json/accepted", QoS::AtLeastOnce),
            ("$aws/certificates/create/cbor/rejected", QoS::AtMostOnce),
        ]
    );
}

#[test]
fn topics_fails_if_one_path_overflows() {
    let set = Subscribe::<4>::new()
        .topic(Topic::CreateKeysAndCertificateRejected(PayloadFormat::Cbor), QoS::AtMostOnce)
        .topic(Topic::RegisterThingAccepted("t", PayloadFormat::Json), QoS::AtLeastOnce);
    // the first path has 38 bytes, the second 53
    assert_eq!(set.topics::<52>().err(), Some(Error::Overflow));

    let empty = Subscribe::<4>::new();
    assert_eq!(empty.topics::<0>().map(|v| v.len()), Ok(0));
}
