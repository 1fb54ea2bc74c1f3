use aws_iot_topics::jobs::topics::{JobTopic, Topics, ALL_BITS, CATEGORIES, JOB_SCOPED_BITS};

const ORDERED: [(JobTopic, u64); 10] = [
    (JobTopic::Notify, 0x0001),
    (JobTopic::NotifyNext, 0x0002),
    (JobTopic::GetAccepted, 0x0004),
    (JobTopic::GetRejected, 0x0008),
    (JobTopic::StartNextAccepted, 0x0010),
    (JobTopic::StartNextRejected, 0x0020),
    (JobTopic::DescribeSuccess, 0x0040),
    (JobTopic::DescribeFailed, 0x0080),
    (JobTopic::UpdateSuccess, 0x0100),
    (JobTopic::UpdateFailed, 0x0200),
];

#[test]
fn each_category_has_its_bit() {
    assert_eq!(CATEGORIES, 10);
    for (topic, bit) in ORDERED {
        assert_eq!(topic.flag(), bit);
        assert_eq!(Topics::only(topic).bits(), bit);
    }
}

#[test]
fn four_categories_are_job_scoped() {
    for (topic, bit) in ORDERED {
        assert_eq!(topic.is_job_scoped(), bit >= 0x40);
        assert_eq!(Topics::job_scoped().has(topic), bit >= 0x40);
    }
    assert_eq!(Topics::job_scoped().bits(), JOB_SCOPED_BITS);
    assert_eq!(JOB_SCOPED_BITS, 0x03C0);
}

#[test]
fn all_and_empty() {
    assert_eq!(Topics::all().bits(), 0x03FF);
    assert_eq!(ALL_BITS, 0x03FF);
    assert_eq!(Topics::empty().bits(), 0);
    assert!(Topics::empty().is_empty());
    assert!(!Topics::all().is_empty());
    for (topic, _) in ORDERED {
        assert!(Topics::all().has(topic));
        assert!(!Topics::empty().has(topic));
        assert!(!Topics::only(topic).is_empty());
    }
}

#[test]
fn union_and_intersection() {
    let a = Topics::only(JobTopic::Notify).union(Topics::only(JobTopic::GetAccepted));
    let b = Topics::only(JobTopic::GetAccepted).union(Topics::only(JobTopic::UpdateFailed));
    assert_eq!(a.bits(), 0x0005);
    assert_eq!(b.bits(), 0x0204);
    assert_eq!(a.union(b).bits(), 0x0205);
    assert_eq!(a.intersection(b).bits(), 0x0004);
    assert_eq!(a.intersection(b), Topics::only(JobTopic::GetAccepted));
    assert_eq!(a.union(Topics::empty()), a);
    assert_eq!(a.intersection(Topics::all()), a);
}

#[test]
fn contains_and_intersects() {
    let a = Topics::only(JobTopic::Notify).union(Topics::only(JobTopic::GetAccepted));
    let b = Topics::only(JobTopic::GetAccepted).union(Topics::only(JobTopic::UpdateFailed));
    assert!(a.contains(Topics::only(JobTopic::Notify)));
    assert!(a.contains(a));
    assert!(a.contains(Topics::empty()));
    assert!(!a.contains(b));
    assert!(Topics::all().contains(b));
    assert!(a.intersects(b));
    assert!(!a.intersects(Topics::only(JobTopic::UpdateFailed)));
    assert!(!a.intersects(Topics::empty()));
    assert!(Topics::all().intersects(Topics::job_scoped()));
    assert!(!a.intersects(Topics::job_scoped()));
    assert!(b.intersects(Topics::job_scoped()));
}

#[test]
fn from_bits_refuses_unknown_bits() {
    assert_eq!(Topics::from_bits(0x0400), None);
    assert_eq!(Topics::from_bits(0x8000_0000_0000_0001), None);
    assert_eq!(Topics::from_bits(0x0203).map(|m| m.bits()), Some(0x0203));
    assert_eq!(Topics::from_bits(0), Some(Topics::empty()));
    assert_eq!(Topics::from_bits(0x03FF), Some(Topics::all()));
}

#[test]
fn from_bits_truncate_drops_unknown_bits() {
    assert_eq!(Topics::from_bits_truncate(0xFFFF_FFFF_FFFF_FFFF), Topics::all());
    assert_eq!(Topics::from_bits_truncate(0x0C01).bits(), 0x0001);
    assert_eq!(Topics::from_bits_truncate(0x0400), Topics::empty());
}

#[test]
fn set_operations_agree_with_membership() {
    for x in 0u64..0x400 {
        let a = Topics::from_bits(x).unwrap();
        let b = Topics::from_bits((x * 37 + 11) & 0x3FF).unwrap();
        assert_eq!(a.is_empty(), ORDERED.iter().all(|(t, _)| !a.has(*t)));
        assert_eq!(a.contains(b), ORDERED.iter().all(|(t, _)| !b.has(*t) || a.has(*t)));
        assert_eq!(a.intersects(b), ORDERED.iter().any(|(t, _)| b.has(*t) && a.has(*t)));
        for (t, bit) in ORDERED {
            assert_eq!(a.has(t), x & bit != 0);
            assert_eq!(a.union(b).has(t), a.has(t) || b.has(t));
            assert_eq!(a.intersection(b).has(t), a.has(t) && b.has(t));
        }
    }
}
