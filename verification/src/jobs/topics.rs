//! The ten categories of Jobs topics that a device can subscribe to, and sets
//! of them.

use vstd::prelude::*;

verus! {

/// One category of cloud-to-device Jobs topics.
#[derive(Debug, Clone, Copy, PartialEq, Eq, Structural)]
pub enum JobTopic {
    /// `.../jobs/notify`
    Notify,
    /// `.../jobs/notify-next`
    NotifyNext,
    /// `.../jobs/get/accepted`
    GetAccepted,
    /// `.../jobs/get/rejected`
    GetRejected,
    /// `.../jobs/start-next/accepted`
    StartNextAccepted,
    /// `.../jobs/start-next/rejected`
    StartNextRejected,
    /// `.../jobs/<jobId>/get/accepted`
    DescribeSuccess,
    /// `.../jobs/<jobId>/get/rejected`
    DescribeFailed,
    /// `.../jobs/<jobId>/update/accepted`
    UpdateSuccess,
    /// `.../jobs/<jobId>/update/rejected`
    UpdateFailed,
}

/// How many categories there are.
pub const CATEGORIES: usize = 10;

/// Every bit that stands for a category.
pub const ALL_BITS: u64 = 0x03FF;

/// The bits of the categories that are tied to one job.
pub const JOB_SCOPED_BITS: u64 = 0x03C0;

impl JobTopic {
    /// The category at position `k` of the order in which a mask is expanded.
    pub open spec fn at(k: int) -> JobTopic {
        if k == 0 {
            JobTopic::Notify
        } else if k == 1 {
            JobTopic::NotifyNext
        } else if k == 2 {
            JobTopic::GetAccepted
        } else if k == 3 {
            JobTopic::GetRejected
        } else if k == 4 {
            JobTopic::StartNextAccepted
        } else if k == 5 {
            JobTopic::StartNextRejected
        } else if k == 6 {
            JobTopic::DescribeSuccess
        } else if k == 7 {
            JobTopic::DescribeFailed
        } else if k == 8 {
            JobTopic::UpdateSuccess
        } else {
            JobTopic::UpdateFailed
        }
    }

    /// Position of this category in the expansion order.
    pub open spec fn position(self) -> int {
        match self {
            JobTopic::Notify => 0,
            JobTopic::NotifyNext => 1,
            JobTopic::GetAccepted => 2,
            JobTopic::GetRejected => 3,
            JobTopic::StartNextAccepted => 4,
            JobTopic::StartNextRejected => 5,
            JobTopic::DescribeSuccess => 6,
            JobTopic::DescribeFailed => 7,
            JobTopic::UpdateSuccess => 8,
            JobTopic::UpdateFailed => 9,
        }
    }

    /// The bit that stands for this category in a mask.
    pub open spec fn bit(self) -> u64 {
        match self {
            JobTopic::Notify => 0x0001,
            JobTopic::NotifyNext => 0x0002,
            JobTopic::GetAccepted => 0x0004,
            JobTopic::GetRejected => 0x0008,
            JobTopic::StartNextAccepted => 0x0010,
            JobTopic::StartNextRejected => 0x0020,
            JobTopic::DescribeSuccess => 0x0040,
            JobTopic::DescribeFailed => 0x0080,
            JobTopic::UpdateSuccess => 0x0100,
            JobTopic::UpdateFailed => 0x0200,
        }
    }

    /// Whether the category only has a meaning together with a job id.
    pub open spec fn job_scoped(self) -> bool {
        self.position() >= 6
    }

    /// The category at position `k` of the expansion order, if there is one.
    pub fn nth(k: usize) -> (r: Option<JobTopic>)
        ensures
            r == if k < CATEGORIES {
                Some(JobTopic::at(k as int))
            } else {
                None
            },
            r matches Some(t) ==> t.position() == k,
    {
        if k == 0 {
            Some(JobTopic::Notify)
        } else if k == 1 {
            Some(JobTopic::NotifyNext)
        } else if k == 2 {
            Some(JobTopic::GetAccepted)
        } else if k == 3 {
            Some(JobTopic::GetRejected)
        } else if k == 4 {
            Some(JobTopic::StartNextAccepted)
        } else if k == 5 {
            Some(JobTopic::StartNextRejected)
        } else if k == 6 {
            Some(JobTopic::DescribeSuccess)
        } else if k == 7 {
            Some(JobTopic::DescribeFailed)
        } else if k == 8 {
            Some(JobTopic::UpdateSuccess)
        } else if k == 9 {
            Some(JobTopic::UpdateFailed)
        } else {
            None
        }
    }

    /// The bit that stands for this category in a mask.
    pub fn flag(self) -> (b: u64)
        ensures
            b == self.bit(),
    {
        match self {
            JobTopic::Notify => 0x0001,
            JobTopic::NotifyNext => 0x0002,
            JobTopic::GetAccepted => 0x0004,
            JobTopic::GetRejected => 0x0008,
            JobTopic::StartNextAccepted => 0x0010,
            JobTopic::StartNextRejected => 0x0020,
            JobTopic::DescribeSuccess => 0x0040,
            JobTopic::DescribeFailed => 0x0080,
            JobTopic::UpdateSuccess => 0x0100,
            JobTopic::UpdateFailed => 0x0200,
        }
    }

    /// Whether the category only has a meaning together with a job id.
    pub fn is_job_scoped(self) -> (b: bool)
        ensures
            b == self.job_scoped(),
    {
        match self {
            JobTopic::DescribeSuccess
            | JobTopic::DescribeFailed
            | JobTopic::UpdateSuccess
            | JobTopic::UpdateFailed => true,
            _ => false,
        }
    }
}

/// A set of Jobs topic categories, held as one bit per category.
#[derive(Debug, Clone, Copy, PartialEq, Eq, Structural)]
pub struct Topics {
    bits: u64,
}

impl View for Topics {
    type V = Set<JobTopic>;

    closed spec fn view(&self) -> Set<JobTopic> {
        Set::new(|t: JobTopic| self.bits & t.bit() != 0)
    }
}

/// What the ten category bits of `a` say about those of `b`, bit by bit.
proof fn lemma_bits_of(a: u64, b: u64)
    requires
        b & !ALL_BITS == 0,
    ensures
        b == 0 <==> (forall|t: JobTopic| b & #[trigger] t.bit() == 0),
        a & b == b <==> (forall|t: JobTopic| b & #[trigger] t.bit() != 0 ==> a & t.bit() != 0),
        a & b != 0 <==> (exists|t: JobTopic| b & #[trigger] t.bit() != 0 && a & t.bit() != 0),
        forall|t: JobTopic| (a | b) & #[trigger] t.bit() != 0 <==> (a & t.bit() != 0 || b & t.bit() != 0),
        forall|t: JobTopic| (a & b) & #[trigger] t.bit() != 0 <==> (a & t.bit() != 0 && b & t.bit() != 0),
{
    assert(b & !0x03FFu64 == 0 ==> (b == 0 <==> (b & 0x1 == 0 && b & 0x2 == 0 && b & 0x4 == 0 && b
        & 0x8 == 0 && b & 0x10 == 0 && b & 0x20 == 0 && b & 0x40 == 0 && b & 0x80 == 0 && b & 0x100
        == 0 && b & 0x200 == 0))) by (bit_vector);
    assert(b & !0x03FFu64 == 0 ==> (a & b == b <==> ((b & 0x1 != 0 ==> a & 0x1 != 0) && (b & 0x2
        != 0 ==> a & 0x2 != 0) && (b & 0x4 != 0 ==> a & 0x4 != 0) && (b & 0x8 != 0 ==> a & 0x8
        != 0) && (b & 0x10 != 0 ==> a & 0x10 != 0) && (b & 0x20 != 0 ==> a & 0x20 != 0) && (b
        & 0x40 != 0 ==> a & 0x40 != 0) && (b & 0x80 != 0 ==> a & 0x80 != 0) && (b & 0x100 != 0
        ==> a & 0x100 != 0) && (b & 0x200 != 0 ==> a & 0x200 != 0)))) by (bit_vector);
    assert(b & !0x03FFu64 == 0 ==> (a & b != 0 <==> ((b & 0x1 != 0 && a & 0x1 != 0) || (b & 0x2
        != 0 && a & 0x2 != 0) || (b & 0x4 != 0 && a & 0x4 != 0) || (b & 0x8 != 0 && a & 0x8
        != 0) || (b & 0x10 != 0 && a & 0x10 != 0) || (b & 0x20 != 0 && a & 0x20 != 0) || (b
        & 0x40 != 0 && a & 0x40 != 0) || (b & 0x80 != 0 && a & 0x80 != 0) || (b & 0x100 != 0
        && a & 0x100 != 0) || (b & 0x200 != 0 && a & 0x200 != 0)))) by (bit_vector);
    assert forall|t: JobTopic| (a | b) & #[trigger] t.bit() != 0 <==> (a & t.bit() != 0 || b
        & t.bit() != 0) by {
        let c = t.bit();
        assert((a | b) & c != 0 <==> (a & c != 0 || b & c != 0)) by (bit_vector);
    }
    assert forall|t: JobTopic| (a & b) & #[trigger] t.bit() != 0 <==> (a & t.bit() != 0 && b
        & t.bit() != 0) by {
        let c = t.bit();
        assert(c == 0x1 || c == 0x2 || c == 0x4 || c == 0x8 || c == 0x10 || c == 0x20 || c == 0x40
            || c == 0x80 || c == 0x100 || c == 0x200);
        assert((c == 0x1 || c == 0x2 || c == 0x4 || c == 0x8 || c == 0x10 || c == 0x20 || c == 0x40
            || c == 0x80 || c == 0x100 || c == 0x200) ==> ((a & b) & c != 0 <==> (a & c != 0 && b
            & c != 0))) by (bit_vector);
    }
    if b == 0 {
        assert forall|t: JobTopic| b & #[trigger] t.bit() == 0 by {
            let c = t.bit();
            assert(0u64 & c == 0) by (bit_vector);
        }
    }
    let t0 = JobTopic::Notify;
    let t1 = JobTopic::NotifyNext;
    let t2 = JobTopic::GetAccepted;
    let t3 = JobTopic::GetRejected;
    let t4 = JobTopic::StartNextAccepted;
    let t5 = JobTopic::StartNextRejected;
    let t6 = JobTopic::DescribeSuccess;
    let t7 = JobTopic::DescribeFailed;
    let t8 = JobTopic::UpdateSuccess;
    let t9 = JobTopic::UpdateFailed;
    assert(t0.bit() == 0x1 && t1.bit() == 0x2 && t2.bit() == 0x4 && t3.bit() == 0x8 && t4.bit()
        == 0x10 && t5.bit() == 0x20 && t6.bit() == 0x40 && t7.bit() == 0x80 && t8.bit() == 0x100
        && t9.bit() == 0x200);
    if a & b != 0 {
        let w = if b & 0x1 != 0 && a & 0x1 != 0 {
            t0
        } else if b & 0x2 != 0 && a & 0x2 != 0 {
            t1
        } else if b & 0x4 != 0 && a & 0x4 != 0 {
            t2
        } else if b & 0x8 != 0 && a & 0x8 != 0 {
            t3
        } else if b & 0x10 != 0 && a & 0x10 != 0 {
            t4
        } else if b & 0x20 != 0 && a & 0x20 != 0 {
            t5
        } else if b & 0x40 != 0 && a & 0x40 != 0 {
            t6
        } else if b & 0x80 != 0 && a & 0x80 != 0 {
            t7
        } else if b & 0x100 != 0 && a & 0x100 != 0 {
            t8
        } else {
            t9
        };
        assert(b & w.bit() != 0 && a & w.bit() != 0);
    }
    if forall|t: JobTopic| b & #[trigger] t.bit() != 0 ==> a & t.bit() != 0 {
        assert(b & t0.bit() != 0 ==> a & t0.bit() != 0);
        assert(b & t1.bit() != 0 ==> a & t1.bit() != 0);
        assert(b & t2.bit() != 0 ==> a & t2.bit() != 0);
        assert(b & t3.bit() != 0 ==> a & t3.bit() != 0);
        assert(b & t4.bit() != 0 ==> a & t4.bit() != 0);
        assert(b & t5.bit() != 0 ==> a & t5.bit() != 0);
        assert(b & t6.bit() != 0 ==> a & t6.bit() != 0);
        assert(b & t7.bit() != 0 ==> a & t7.bit() != 0);
        assert(b & t8.bit() != 0 ==> a & t8.bit() != 0);
        assert(b & t9.bit() != 0 ==> a & t9.bit() != 0);
    }
    if forall|t: JobTopic| b & #[trigger] t.bit() == 0 {
        assert(b & t0.bit() == 0);
        assert(b & t1.bit() == 0);
        assert(b & t2.bit() == 0);
        assert(b & t3.bit() == 0);
        assert(b & t4.bit() == 0);
        assert(b & t5.bit() == 0);
        assert(b & t6.bit() == 0);
        assert(b & t7.bit() == 0);
        assert(b & t8.bit() == 0);
        assert(b & t9.bit() == 0);
    }
}

impl Topics {
    #[verifier::type_invariant]
    spec fn only_category_bits(&self) -> bool {
        self.bits & !ALL_BITS == 0
    }

    /// The set without any category.
    pub fn empty() -> (r: Topics)
        ensures
            r@ == Set::<JobTopic>::empty(),
    {
        proof {
            assert(0u64 & !0x03FFu64 == 0) by (bit_vector);
            lemma_bits_of(0, 0);
        }
        let r = Topics { bits: 0 };
        assert(r@ =~= Set::<JobTopic>::empty());
        r
    }

    /// The set of all ten categories.
    pub fn all() -> (r: Topics)
        ensures
            forall|t: JobTopic| r@.contains(t),
    {
        proof {
            assert(0x03FFu64 & !0x03FFu64 == 0) by (bit_vector);
            assert(0x03FFu64 & 0x1 != 0 && 0x03FFu64 & 0x2 != 0 && 0x03FFu64 & 0x4 != 0 && 0x03FFu64
                & 0x8 != 0 && 0x03FFu64 & 0x10 != 0 && 0x03FFu64 & 0x20 != 0 && 0x03FFu64 & 0x40
                != 0 && 0x03FFu64 & 0x80 != 0 && 0x03FFu64 & 0x100 != 0 && 0x03FFu64 & 0x200 != 0)
                by (bit_vector);
        }
        Topics { bits: ALL_BITS }
    }

    /// The set that holds `topic` and nothing else.
    pub fn only(topic: JobTopic) -> (r: Topics)
        ensures
            r@ == set![topic],
    {
        let bits: u64 = topic.flag();
        proof {
            assert(bits == 0x1 || bits == 0x2 || bits == 0x4 || bits == 0x8 || bits == 0x10 || bits
                == 0x20 || bits == 0x40 || bits == 0x80 || bits == 0x100 || bits == 0x200);
            assert((bits == 0x1 || bits == 0x2 || bits == 0x4 || bits == 0x8 || bits == 0x10 || bits
                == 0x20 || bits == 0x40 || bits == 0x80 || bits == 0x100 || bits == 0x200) ==> (bits
                & !0x03FFu64 == 0 && bits & bits != 0)) by (bit_vector);
            assert forall|t: JobTopic| t != topic implies bits & #[trigger] t.bit() == 0 by {
                let c = t.bit();
                assert(c == 0x1 || c == 0x2 || c == 0x4 || c == 0x8 || c == 0x10 || c == 0x20 || c
                    == 0x40 || c == 0x80 || c == 0x100 || c == 0x200);
                assert(c != bits);
                assert((bits == 0x1 || bits == 0x2 || bits == 0x4 || bits == 0x8 || bits == 0x10
                    || bits == 0x20 || bits == 0x40 || bits == 0x80 || bits == 0x100 || bits
                    == 0x200) && (c == 0x1 || c == 0x2 || c == 0x4 || c == 0x8 || c == 0x10 || c
                    == 0x20 || c == 0x40 || c == 0x80 || c == 0x100 || c == 0x200) && c != bits
                    ==> bits & c == 0) by (bit_vector);
            }
        }
        let r = Topics { bits };
        assert(r@ =~= set![topic]);
        r
    }

    /// The set as bits: bit `t.bit()` is set exactly for the categories `t`
    /// of the set, and no other bit is.
    pub fn bits(&self) -> (b: u64)
        ensures
            b & !ALL_BITS == 0,
            forall|t: JobTopic| self@.contains(t) <==> b & #[trigger] t.bit() != 0,
    {
        proof {
            use_type_invariant(self);
        }
        self.bits
    }

    /// The set that `bits` stands for, unless a bit is set that stands for no
    /// category.
    pub fn from_bits(bits: u64) -> (r: Option<Topics>)
        ensures
            r is Some <==> bits & !ALL_BITS == 0,
            r matches Some(m) ==> forall|t: JobTopic|
                m@.contains(t) <==> bits & #[trigger] t.bit() != 0,
    {
        if bits & !ALL_BITS == 0 {
            Some(Topics { bits })
        } else {
            None
        }
    }

    /// The set that `bits` stands for, bits that stand for no category left
    /// aside.
    pub fn from_bits_truncate(bits: u64) -> (r: Topics)
        ensures
            forall|t: JobTopic| r@.contains(t) <==> bits & #[trigger] t.bit() != 0,
    {
        let kept: u64 = bits & ALL_BITS;
        proof {
            assert((bits & 0x03FFu64) & !0x03FFu64 == 0) by (bit_vector);
            assert(0x03FFu64 & !0x03FFu64 == 0) by (bit_vector);
            lemma_bits_of(bits, ALL_BITS);
            assert forall|t: JobTopic| 0x03FFu64 & #[trigger] t.bit() != 0 by {
                let c = t.bit();
                assert(c == 0x1 || c == 0x2 || c == 0x4 || c == 0x8 || c == 0x10 || c == 0x20 || c
                    == 0x40 || c == 0x80 || c == 0x100 || c == 0x200);
                assert((c == 0x1 || c == 0x2 || c == 0x4 || c == 0x8 || c == 0x10 || c == 0x20 || c
                    == 0x40 || c == 0x80 || c == 0x100 || c == 0x200) ==> 0x03FFu64 & c != 0)
                    by (bit_vector);
            }
        }
        Topics { bits: kept }
    }

    /// Whether the set holds no category.
    pub fn is_empty(&self) -> (b: bool)
        ensures
            b <==> self@ == Set::<JobTopic>::empty(),
    {
        proof {
            use_type_invariant(self);
            lemma_bits_of(0, self.bits);
            if self.bits == 0 {
                assert(self@ =~= Set::<JobTopic>::empty());
            }
            if self@ == Set::<JobTopic>::empty() {
                assert forall|t: JobTopic| self.bits & #[trigger] t.bit() == 0 by {
                    assert(!self@.contains(t));
                }
            }
        }
        self.bits == 0
    }

    /// Whether `topic` is in the set.
    pub fn has(&self, topic: JobTopic) -> (b: bool)
        ensures
            b == self@.contains(topic),
    {
        self.bits & topic.flag() != 0
    }

    /// Whether every category of `other` is in this set.
    pub fn contains(&self, other: Topics) -> (b: bool)
        ensures
            b == other@.subset_of(self@),
    {
        proof {
            use_type_invariant(&other);
            lemma_bits_of(self.bits, other.bits);
            if other@.subset_of(self@) {
                assert forall|t: JobTopic| other.bits & #[trigger] t.bit() != 0 implies self.bits
                    & t.bit() != 0 by {
                    assert(other@.contains(t));
                    assert(self@.contains(t));
                }
            }
        }
        self.bits & other.bits == other.bits
    }

    /// Whether the two sets have a category in common.
    pub fn intersects(&self, other: Topics) -> (b: bool)
        ensures
            b == !self@.disjoint(other@),
    {
        proof {
            use_type_invariant(&other);
            lemma_bits_of(self.bits, other.bits);
            if self.bits & other.bits != 0 {
                let t = choose|t: JobTopic|
                    other.bits & #[trigger] t.bit() != 0 && self.bits & t.bit() != 0;
                assert(self@.contains(t) && other@.contains(t));
            }
            if !self@.disjoint(other@) {
                let t = choose|t: JobTopic| self@.contains(t) && other@.contains(t);
                assert(other.bits & t.bit() != 0 && self.bits & t.bit() != 0);
            }
        }
        self.bits & other.bits != 0
    }

    /// The categories that are in either set.
    pub fn union(self, other: Topics) -> (r: Topics)
        ensures
            r@ == self@.union(other@),
    {
        let bits: u64 = self.bits | other.bits;
        proof {
            use_type_invariant(&self);
            use_type_invariant(&other);
            lemma_bits_of(self.bits, other.bits);
            let (a, b) = (self.bits, other.bits);
            assert(a & !0x03FFu64 == 0 && b & !0x03FFu64 == 0 ==> (a | b) & !0x03FFu64 == 0)
                by (bit_vector);
        }
        let r = Topics { bits };
        assert(r@ =~= self@.union(other@));
        r
    }

    /// The categories that are in both sets.
    pub fn intersection(self, other: Topics) -> (r: Topics)
        ensures
            r@ == self@.intersect(other@),
    {
        let bits: u64 = self.bits & other.bits;
        proof {
            use_type_invariant(&self);
            use_type_invariant(&other);
            lemma_bits_of(self.bits, other.bits);
            let (a, b) = (self.bits, other.bits);
            assert(a & !0x03FFu64 == 0 && b & !0x03FFu64 == 0 ==> (a & b) & !0x03FFu64 == 0)
                by (bit_vector);
        }
        let r = Topics { bits };
        assert(r@ =~= self@.intersect(other@));
        r
    }

    /// The four categories that are tied to one job.
    pub fn job_scoped() -> (r: Topics)
        ensures
            forall|t: JobTopic| r@.contains(t) <==> t.job_scoped(),
    {
        proof {
            assert(0x03C0u64 & !0x03FFu64 == 0) by (bit_vector);
            assert(0x03C0u64 & 0x1 == 0 && 0x03C0u64 & 0x2 == 0 && 0x03C0u64 & 0x4 == 0 && 0x03C0u64
                & 0x8 == 0 && 0x03C0u64 & 0x10 == 0 && 0x03C0u64 & 0x20 == 0 && 0x03C0u64 & 0x40
                != 0 && 0x03C0u64 & 0x80 != 0 && 0x03C0u64 & 0x100 != 0 && 0x03C0u64 & 0x200 != 0)
                by (bit_vector);
        }
        Topics { bits: JOB_SCOPED_BITS }
    }
}

} // verus!
