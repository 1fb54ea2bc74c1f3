//! The reserved topics of Fleet Provisioning: which way each goes, how it
//! is written as a path, and how a path is recognised.

use crate::bounded::{byte_len, lemma_byte_len_concat, BoundedString};
use crate::provisioning::Error;
use crate::qos::QoS;
use crate::text::{
    lemma_segments_cons, lemma_segments_last, no_slash, same_text, segments, split, starts_with,
    texts,
};
use vstd::prelude::*;

verus! {

/// Which way the messages of a topic travel.
#[derive(Debug, Clone, Copy, PartialEq, Eq, Structural)]
pub enum Direction {
    /// From the cloud to the device: a topic to subscribe to.
    Incoming,
    /// From the device to the cloud: a topic to publish on.
    Outgoing,
}

/// The encoding of the payloads on a topic.
#[derive(Debug, Clone, Copy, PartialEq, Eq, Structural)]
pub enum PayloadFormat {
    Cbor,
    Json,
}

impl PayloadFormat {
    /// The name of the format as it stands in a topic path.
    pub open spec fn text(self) -> Seq<char> {
        match self {
            PayloadFormat::Cbor => "cbor"@,
            PayloadFormat::Json => "json"@,
        }
    }

    /// The format that `name` stands for in a topic path, if any.
    pub open spec fn named(name: Seq<char>) -> Option<PayloadFormat> {
        if name == "cbor"@ {
            Some(PayloadFormat::Cbor)
        } else if name == "json"@ {
            Some(PayloadFormat::Json)
        } else {
            None
        }
    }

    /// The name of the format as it stands in a topic path.
    pub fn as_str(&self) -> (s: &'static str)
        ensures
            s@ == self.text(),
    {
        match self {
            PayloadFormat::Cbor => "cbor",
            PayloadFormat::Json => "json",
        }
    }

    /// Reads the name of a format; any other string is an error.
    pub fn from_str(s: &str) -> (r: Result<PayloadFormat, ()>)
        ensures
            r is Ok <==> PayloadFormat::named(s@) is Some,
            r matches Ok(format) ==> PayloadFormat::named(s@) == Some(format),
    {
        if same_text(s, "cbor") {
            Ok(PayloadFormat::Cbor)
        } else if same_text(s, "json") {
            Ok(PayloadFormat::Json)
        } else {
            Err(())
        }
    }
}

/// What the path of every certificate topic begins with.
pub const CERT_PREFIX: &'static str = "$aws/certificates";

/// What the path of every topic of a provisioning template begins with.
pub const PROVISIONING_PREFIX: &'static str = "$aws/provisioning-templates";

/// A reserved topic of Fleet Provisioning.
#[derive(Debug, Clone, Copy, PartialEq)]
pub enum Topic<'a> {
    /// `$aws/provisioning-templates/<templateName>/provision/<payloadFormat>`
    RegisterThing(&'a str, PayloadFormat),
    /// `$aws/certificates/create/<payloadFormat>`
    CreateKeysAndCertificate(PayloadFormat),
    /// `$aws/certificates/create-from-csr/<payloadFormat>`
    CreateCertificateFromCsr(PayloadFormat),
    /// `$aws/provisioning-templates/<templateName>/provision/<payloadFormat>/accepted`
    RegisterThingAccepted(&'a str, PayloadFormat),
    /// `$aws/provisioning-templates/<templateName>/provision/<payloadFormat>/rejected`
    RegisterThingRejected(&'a str, PayloadFormat),
    /// `$aws/certificates/create/<payloadFormat>/accepted`
    CreateKeysAndCertificateAccepted(PayloadFormat),
    /// `$aws/certificates/create/<payloadFormat>/rejected`
    CreateKeysAndCertificateRejected(PayloadFormat),
    /// `$aws/certificates/create-from-csr/<payloadFormat>/accepted`
    CreateCertificateFromCsrAccepted(PayloadFormat),
    /// `$aws/certificates/create-from-csr/<payloadFormat>/rejected`
    CreateCertificateFromCsrRejected(PayloadFormat),
}

/// A topic as a value: the template name is its text.
pub enum TopicView {
    RegisterThing(Seq<char>, PayloadFormat),
    CreateKeysAndCertificate(PayloadFormat),
    CreateCertificateFromCsr(PayloadFormat),
    RegisterThingAccepted(Seq<char>, PayloadFormat),
    RegisterThingRejected(Seq<char>, PayloadFormat),
    CreateKeysAndCertificateAccepted(PayloadFormat),
    CreateKeysAndCertificateRejected(PayloadFormat),
    CreateCertificateFromCsrAccepted(PayloadFormat),
    CreateCertificateFromCsrRejected(PayloadFormat),
}

impl<'a> View for Topic<'a> {
    type V = TopicView;

    open spec fn view(&self) -> TopicView {
        match *self {
            Topic::RegisterThing(name, format) => TopicView::RegisterThing(name@, format),
            Topic::CreateKeysAndCertificate(format) => TopicView::CreateKeysAndCertificate(format),
            Topic::CreateCertificateFromCsr(format) => TopicView::CreateCertificateFromCsr(format),
            Topic::RegisterThingAccepted(name, format) => TopicView::RegisterThingAccepted(
                name@,
                format,
            ),
            Topic::RegisterThingRejected(name, format) => TopicView::RegisterThingRejected(
                name@,
                format,
            ),
            Topic::CreateKeysAndCertificateAccepted(format) => {
                TopicView::CreateKeysAndCertificateAccepted(format)
            },
            Topic::CreateKeysAndCertificateRejected(format) => {
                TopicView::CreateKeysAndCertificateRejected(format)
            },
            Topic::CreateCertificateFromCsrAccepted(format) => {
                TopicView::CreateCertificateFromCsrAccepted(format)
            },
            Topic::CreateCertificateFromCsrRejected(format) => {
                TopicView::CreateCertificateFromCsrRejected(format)
            },
        }
    }
}

impl TopicView {
    /// Requests go out; the answers to them come in.
    pub open spec fn direction(self) -> Direction {
        match self {
            TopicView::RegisterThing(_, _) => Direction::Outgoing,
            TopicView::CreateKeysAndCertificate(_) => Direction::Outgoing,
            TopicView::CreateCertificateFromCsr(_) => Direction::Outgoing,
            _ => Direction::Incoming,
        }
    }

    /// The topic written as a path.
    pub open spec fn path(self) -> Seq<char> {
        match self {
            TopicView::RegisterThing(name, format) => PROVISIONING_PREFIX@ + "/"@ + name
                + "/provision/"@ + format.text(),
            TopicView::RegisterThingAccepted(name, format) => PROVISIONING_PREFIX@ + "/"@ + name
                + "/provision/"@ + format.text() + "/accepted"@,
            TopicView::RegisterThingRejected(name, format) => PROVISIONING_PREFIX@ + "/"@ + name
                + "/provision/"@ + format.text() + "/rejected"@,
            TopicView::CreateKeysAndCertificate(format) => CERT_PREFIX@ + "/create/"@
                + format.text(),
            TopicView::CreateKeysAndCertificateAccepted(format) => CERT_PREFIX@ + "/create/"@
                + format.text() + "/accepted"@,
            TopicView::CreateKeysAndCertificateRejected(format) => CERT_PREFIX@ + "/create/"@
                + format.text() + "/rejected"@,
            TopicView::CreateCertificateFromCsr(format) => CERT_PREFIX@ + "/create-from-csr/"@
                + format.text(),
            TopicView::CreateCertificateFromCsrAccepted(format) => CERT_PREFIX@
                + "/create-from-csr/"@ + format.text() + "/accepted"@,
            TopicView::CreateCertificateFromCsrRejected(format) => CERT_PREFIX@
                + "/create-from-csr/"@ + format.text() + "/rejected"@,
        }
    }

    /// The topic that the path `s` names, if any. The path is cut at its
    /// first five slashes into segments.
    ///
    /// Under `$aws/provisioning-templates` a request has five segments and
    /// an answer six, the sixth being the word `accepted` or `rejected` and
    /// nothing more. Under `$aws/certificates` a request has four segments;
    /// an answer has the word as its fifth, and whatever follows the word
    /// is ignored.
    pub open spec fn parse(s: Seq<char>) -> Option<TopicView> {
        let tt = segments(s, 0, 6);
        if tt.len() >= 2 && tt[0] == "$aws"@ && tt[1] == "provisioning-templates"@ {
            if tt.len() == 5 && tt[3] == "provision"@ {
                match PayloadFormat::named(tt[4]) {
                    Some(format) => Some(TopicView::RegisterThing(tt[2], format)),
                    None => None,
                }
            } else if tt.len() == 6 && tt[3] == "provision"@ && tt[5] == "accepted"@ {
                match PayloadFormat::named(tt[4]) {
                    Some(format) => Some(TopicView::RegisterThingAccepted(tt[2], format)),
                    None => None,
                }
            } else if tt.len() == 6 && tt[3] == "provision"@ && tt[5] == "rejected"@ {
                match PayloadFormat::named(tt[4]) {
                    Some(format) => Some(TopicView::RegisterThingRejected(tt[2], format)),
                    None => None,
                }
            } else {
                None
            }
        } else if tt.len() >= 2 && tt[0] == "$aws"@ && tt[1] == "certificates"@ {
            if tt.len() == 4 && tt[2] == "create"@ {
                match PayloadFormat::named(tt[3]) {
                    Some(format) => Some(TopicView::CreateKeysAndCertificate(format)),
                    None => None,
                }
            } else if tt.len() == 4 && tt[2] == "create-from-csr"@ {
                match PayloadFormat::named(tt[3]) {
                    Some(format) => Some(TopicView::CreateCertificateFromCsr(format)),
                    None => None,
                }
            } else if tt.len() >= 5 && tt[2] == "create"@ && tt[4] == "accepted"@ {
                match PayloadFormat::named(tt[3]) {
                    Some(format) => Some(TopicView::CreateKeysAndCertificateAccepted(format)),
                    None => None,
                }
            } else if tt.len() >= 5 && tt[2] == "create"@ && tt[4] == "rejected"@ {
                match PayloadFormat::named(tt[3]) {
                    Some(format) => Some(TopicView::CreateKeysAndCertificateRejected(format)),
                    None => None,
                }
            } else if tt.len() >= 5 && tt[2] == "create-from-csr"@ && tt[4] == "accepted"@ {
                match PayloadFormat::named(tt[3]) {
                    Some(format) => Some(TopicView::CreateCertificateFromCsrAccepted(format)),
                    None => None,
                }
            } else if tt.len() >= 5 && tt[2] == "create-from-csr"@ && tt[4] == "rejected"@ {
                match PayloadFormat::named(tt[3]) {
                    Some(format) => Some(TopicView::CreateCertificateFromCsrRejected(format)),
                    None => None,
                }
            } else {
                None
            }
        } else {
            None
        }
    }
}

/// The topic that a parse found, as a value.
pub open spec fn found(r: Option<Topic<'_>>) -> Option<TopicView> {
    match r {
        Some(topic) => Some(topic@),
        None => None,
    }
}

impl<'a> Topic<'a> {
    /// A cheap test before a full parse: whether `s` begins like a
    /// provisioning topic.
    pub fn check(s: &'a str) -> (b: bool)
        ensures
            b == (CERT_PREFIX@.is_prefix_of(s@) || PROVISIONING_PREFIX@.is_prefix_of(s@)),
    {
        starts_with(s, CERT_PREFIX) || starts_with(s, PROVISIONING_PREFIX)
    }

    /// Recognises the path of a topic. A path that names none is no error:
    /// the answer is `None`.
    pub fn from_str(s: &'a str) -> (r: Option<Topic<'a>>)
        ensures
            found(r) == TopicView::parse(s@),
    {
        let tt = split(s, 6);
        proof {
            assert(forall|i: int| 0 <= i < tt@.len() ==> tt@[i]@ == texts(tt@)[i]);
        }
        if tt.len() < 2 || !same_text(tt[0], "$aws") {
            return None;
        }
        if same_text(tt[1], "provisioning-templates") {
            if tt.len() < 5 || !same_text(tt[3], "provision") {
                return None;
            }
            let format = match PayloadFormat::from_str(tt[4]) {
                Ok(format) => format,
                Err(_) => {
                    return None;
                },
            };
            if tt.len() == 5 {
                Some(Topic::RegisterThing(tt[2], format))
            } else if same_text(tt[5], "accepted") {
                Some(Topic::RegisterThingAccepted(tt[2], format))
            } else if same_text(tt[5], "rejected") {
                Some(Topic::RegisterThingRejected(tt[2], format))
            } else {
                None
            }
        } else if same_text(tt[1], "certificates") {
            if tt.len() < 4 {
                return None;
            }
            let create = same_text(tt[2], "create");
            let from_csr = same_text(tt[2], "create-from-csr");
            if !create && !from_csr {
                return None;
            }
            let format = match PayloadFormat::from_str(tt[3]) {
                Ok(format) => format,
                Err(_) => {
                    return None;
                },
            };
            if tt.len() == 4 {
                if create {
                    Some(Topic::CreateKeysAndCertificate(format))
                } else {
                    Some(Topic::CreateCertificateFromCsr(format))
                }
            } else if same_text(tt[4], "accepted") {
                if create {
                    Some(Topic::CreateKeysAndCertificateAccepted(format))
                } else {
                    Some(Topic::CreateCertificateFromCsrAccepted(format))
                }
            } else if same_text(tt[4], "rejected") {
                if create {
                    Some(Topic::CreateKeysAndCertificateRejected(format))
                } else {
                    Some(Topic::CreateCertificateFromCsrRejected(format))
                }
            } else {
                None
            }
        } else {
            None
        }
    }

    /// Which way the messages of this topic travel.
    pub fn direction(&self) -> (d: Direction)
        ensures
            d == self@.direction(),
    {
        match self {
            Topic::RegisterThing(_, _)
            | Topic::CreateKeysAndCertificate(_)
            | Topic::CreateCertificateFromCsr(_) => Direction::Outgoing,
            _ => Direction::Incoming,
        }
    }

    /// Whether the two are the same topic: the same kind, template name and
    /// payload format.
    pub fn same(&self, other: &Topic<'_>) -> (b: bool)
        ensures
            b == (self@ == other@),
    {
        match (*self, *other) {
            (Topic::RegisterThing(a, f), Topic::RegisterThing(b, g)) => f == g && same_text(a, b),
            (Topic::CreateKeysAndCertificate(f), Topic::CreateKeysAndCertificate(g)) => f == g,
            (Topic::CreateCertificateFromCsr(f), Topic::CreateCertificateFromCsr(g)) => f == g,
            (Topic::RegisterThingAccepted(a, f), Topic::RegisterThingAccepted(b, g)) => f == g
                && same_text(a, b),
            (Topic::RegisterThingRejected(a, f), Topic::RegisterThingRejected(b, g)) => f == g
                && same_text(a, b),
            (
                Topic::CreateKeysAndCertificateAccepted(f),
                Topic::CreateKeysAndCertificateAccepted(g),
            ) => f == g,
            (
                Topic::CreateKeysAndCertificateRejected(f),
                Topic::CreateKeysAndCertificateRejected(g),
            ) => f == g,
            (
                Topic::CreateCertificateFromCsrAccepted(f),
                Topic::CreateCertificateFromCsrAccepted(g),
            ) => f == g,
            (
                Topic::CreateCertificateFromCsrRejected(f),
                Topic::CreateCertificateFromCsrRejected(g),
            ) => f == g,
            _ => false,
        }
    }
}

impl<'a> Topic<'a> {
    /// Writes the topic as a path into a buffer of `L` bytes. A path that is
    /// longer than that is an overflow; a shortened path is never returned.
    pub fn format<const L: usize>(&self) -> (r: Result<BoundedString<L>, Error>)
        ensures
            r is Ok <==> byte_len(self@.path()) <= L,
            r matches Ok(path) ==> path@ == self@.path(),
            r matches Err(e) ==> e == Error::Overflow,
    {
        let (name, action, format, tail): (Option<&str>, &str, PayloadFormat, &str) = match *self {
            Topic::RegisterThing(name, format) => (Some(name), "/provision/", format, ""),
            Topic::RegisterThingAccepted(name, format) => (
                Some(name),
                "/provision/",
                format,
                "/accepted",
            ),
            Topic::RegisterThingRejected(name, format) => (
                Some(name),
                "/provision/",
                format,
                "/rejected",
            ),
            Topic::CreateKeysAndCertificate(format) => (None, "/create/", format, ""),
            Topic::CreateKeysAndCertificateAccepted(format) => (
                None,
                "/create/",
                format,
                "/accepted",
            ),
            Topic::CreateKeysAndCertificateRejected(format) => (
                None,
                "/create/",
                format,
                "/rejected",
            ),
            Topic::CreateCertificateFromCsr(format) => (None, "/create-from-csr/", format, ""),
            Topic::CreateCertificateFromCsrAccepted(format) => (
                None,
                "/create-from-csr/",
                format,
                "/accepted",
            ),
            Topic::CreateCertificateFromCsrRejected(format) => (
                None,
                "/create-from-csr/",
                format,
                "/rejected",
            ),
        };
        let ghost empty = Seq::<char>::empty();
        let ghost head = match name {
            Some(name) => PROVISIONING_PREFIX@ + "/"@ + name@,
            None => CERT_PREFIX@,
        };
        let ghost a = head + action@;
        let ghost b = a + format.text();
        proof {
            reveal_strlit("");
            assert(b + ""@ =~= b);
            assert(self@.path() == b + tail@);
            assert(empty + PROVISIONING_PREFIX@ =~= PROVISIONING_PREFIX@);
            assert(empty + CERT_PREFIX@ =~= CERT_PREFIX@);
            lemma_byte_len_concat(empty, PROVISIONING_PREFIX@);
            lemma_byte_len_concat(empty, CERT_PREFIX@);
            lemma_byte_len_concat(PROVISIONING_PREFIX@, "/"@);
            if name is Some {
                lemma_byte_len_concat(PROVISIONING_PREFIX@ + "/"@, name->0@);
            }
            lemma_byte_len_concat(head, action@);
            lemma_byte_len_concat(a, format.text());
            lemma_byte_len_concat(b, tail@);
        }
        let mut path = BoundedString::<L>::new();
        match name {
            Some(name) => {
                if path.push_str(PROVISIONING_PREFIX).is_err() {
                    return Err(Error::Overflow);
                }
                if path.push_str("/").is_err() {
                    return Err(Error::Overflow);
                }
                if path.push_str(name).is_err() {
                    return Err(Error::Overflow);
                }
            },
            None => {
                if path.push_str(CERT_PREFIX).is_err() {
                    return Err(Error::Overflow);
                }
            },
        }
        if path.push_str(action).is_err() {
            return Err(Error::Overflow);
        }
        if path.push_str(format.as_str()).is_err() {
            return Err(Error::Overflow);
        }
        if path.push_str(tail).is_err() {
            return Err(Error::Overflow);
        }
        Ok(path)
    }
}

/// A set of incoming topics to subscribe to, each with its quality of
/// service, in the order in which they were added. It holds at most `N`.
pub struct Subscribe<'a, const N: usize> {
    topics: Vec<(Topic<'a>, QoS)>,
}

/// The entries as values.
pub open spec fn entries(topics: Seq<(Topic<'_>, QoS)>) -> Seq<(TopicView, QoS)> {
    Seq::new(topics.len(), |i: int| (topics[i].0@, topics[i].1))
}

/// Whether `list` holds `topic`, with whatever quality of service.
pub open spec fn holds(list: Seq<(TopicView, QoS)>, topic: TopicView) -> bool {
    exists|i: int| 0 <= i < list.len() && (#[trigger] list[i]).0 == topic
}

/// What every set of subscriptions keeps to: at most `limit` entries, each
/// an incoming topic, no topic twice.
pub open spec fn well_formed(list: Seq<(TopicView, QoS)>, limit: usize) -> bool {
    &&& list.len() <= limit
    &&& forall|i: int| 0 <= i < list.len() ==> (#[trigger] list[i]).0.direction() == Direction::Incoming
    &&& forall|i: int, j: int|
        0 <= i < j < list.len() ==> (#[trigger] list[i]).0 != (#[trigger] list[j]).0
}

/// Whether adding `topic` to `list` adds anything: it is incoming, it is
/// not there yet, and there is room.
pub open spec fn admits(list: Seq<(TopicView, QoS)>, topic: TopicView, limit: usize) -> bool {
    topic.direction() == Direction::Incoming && !holds(list, topic) && list.len() < limit
}

/// The set after an attempt to add `topic` with `qos`: the entry goes to
/// the end where it is admitted, and nothing changes where it is not.
pub open spec fn added(
    list: Seq<(TopicView, QoS)>,
    topic: TopicView,
    qos: QoS,
    limit: usize,
) -> Seq<(TopicView, QoS)> {
    if admits(list, topic, limit) {
        list.push((topic, qos))
    } else {
        list
    }
}

/// Adding keeps a set well formed: it never comes to hold an outgoing
/// topic, a topic twice, or more entries than its limit.
pub proof fn lemma_added_is_well_formed(
    list: Seq<(TopicView, QoS)>,
    topic: TopicView,
    qos: QoS,
    limit: usize,
)
    requires
        well_formed(list, limit),
    ensures
        well_formed(added(list, topic, qos, limit), limit),
{
    if admits(list, topic, limit) {
        let longer = list.push((topic, qos));
        assert forall|i: int, j: int| 0 <= i < j < longer.len() implies (#[trigger] longer[i]).0 != (
        #[trigger] longer[j]).0 by {
            if j == list.len() {
                assert(list[i] == longer[i]);
            } else {
                assert(list[i] == longer[i] && list[j] == longer[j]);
            }
        }
        assert forall|i: int| 0 <= i < longer.len() implies (#[trigger] longer[i]).0.direction()
            == Direction::Incoming by {
            if i < list.len() {
                assert(list[i] == longer[i]);
            }
        }
    }
}

/// Adding a topic a second time changes nothing, whatever quality of
/// service the second attempt asks for: the first entry stays.
pub proof fn lemma_first_addition_wins(
    list: Seq<(TopicView, QoS)>,
    topic: TopicView,
    first: QoS,
    second: QoS,
    limit: usize,
)
    ensures
        added(added(list, topic, first, limit), topic, second, limit) == added(
            list,
            topic,
            first,
            limit,
        ),
{
    let once = added(list, topic, first, limit);
    if admits(list, topic, limit) {
        assert(once[list.len() as int].0 == topic);
        assert(holds(once, topic));
    } else if topic.direction() == Direction::Incoming && list.len() < limit {
        assert(holds(once, topic));
    }
}

/// An outgoing topic is never added.
pub proof fn lemma_outgoing_is_left_out(
    list: Seq<(TopicView, QoS)>,
    topic: TopicView,
    qos: QoS,
    limit: usize,
)
    requires
        topic.direction() == Direction::Outgoing,
    ensures
        added(list, topic, qos, limit) == list,
{
}

impl<'a, const N: usize> View for Subscribe<'a, N> {
    type V = Seq<(TopicView, QoS)>;

    closed spec fn view(&self) -> Seq<(TopicView, QoS)> {
        entries(self.topics@)
    }
}

impl<'a, const N: usize> Subscribe<'a, N> {
    #[verifier::type_invariant]
    spec fn kept(&self) -> bool {
        well_formed(entries(self.topics@), N)
    }

    /// The empty set.
    pub fn new() -> (r: Self)
        ensures
            r@ == Seq::<(TopicView, QoS)>::empty(),
            well_formed(r@, N),
    {
        let r = Subscribe { topics: Vec::new() };
        assert(r@ =~= Seq::<(TopicView, QoS)>::empty());
        r
    }

    /// Adds `topic` with `qos`, unless `topic` is outgoing, is in the set
    /// already (the first entry stays, with its quality of service), or
    /// the set is full. None of these is an error.
    pub fn topic(self, topic: Topic<'a>, qos: QoS) -> (r: Self)
        ensures
            r@ == added(self@, topic@, qos, N),
            well_formed(r@, N),
    {
        proof {
            use_type_invariant(&self);
        }
        if topic.direction() != Direction::Incoming {
            return self;
        }
        let mut i: usize = 0;
        while i < self.topics.len()
            invariant
                i <= self.topics.len(),
                well_formed(self@, N),
                forall|j: int| 0 <= j < i ==> (#[trigger] self@[j]).0 != topic@,
            decreases self.topics.len() - i,
        {
            if self.topics[i].0.same(&topic) {
                assert(self@[i as int].0 == topic@);
                return self;
            }
            i += 1;
        }
        if self.topics.len() >= N {
            return self;
        }
        let ghost before = self@;
        let mut topics = self.topics;
        topics.push((topic, qos));
        proof {
            assert(entries(topics@) =~= before.push((topic@, qos)));
        }
        Subscribe { topics }
    }

    /// How many topics the set holds.
    pub fn len(&self) -> (n: usize)
        ensures
            n == self@.len(),
            n <= N,
    {
        proof {
            use_type_invariant(self);
        }
        self.topics.len()
    }

    /// The topics of the set, in the order in which they were added.
    pub fn iter(&self) -> (list: &[(Topic<'a>, QoS)])
        ensures
            entries(list@) == self@,
            well_formed(self@, N),
    {
        proof {
            use_type_invariant(self);
        }
        self.topics.as_slice()
    }

    /// The paths of the topics, each in a buffer of `MAX_LEN` bytes and with
    /// its quality of service, in the order in which the topics were added.
    /// If one path is longer than `MAX_LEN` bytes, the whole is an overflow.
    pub fn topics<const MAX_LEN: usize>(self) -> (r: Result<
        Vec<(BoundedString<MAX_LEN>, QoS)>,
        Error,
    >)
        ensures
            r is Ok <==> forall|i: int|
                0 <= i < self@.len() ==> byte_len((#[trigger] self@[i]).0.path()) <= MAX_LEN,
            r matches Ok(paths) ==> {
                &&& paths@.len() == self@.len()
                &&& forall|i: int|
                    0 <= i < paths@.len() ==> (#[trigger] paths@[i]).0@ == self@[i].0.path()
                        && paths@[i].1 == self@[i].1
            },
            r matches Err(e) ==> e == Error::Overflow,
    {
        let mut paths: Vec<(BoundedString<MAX_LEN>, QoS)> = Vec::new();
        let mut i: usize = 0;
        while i < self.topics.len()
            invariant
                i <= self.topics.len(),
                paths@.len() == i,
                forall|j: int|
                    0 <= j < i ==> byte_len((#[trigger] self@[j]).0.path()) <= MAX_LEN,
                forall|j: int|
                    0 <= j < i ==> (#[trigger] paths@[j]).0@ == self@[j].0.path() && paths@[j].1
                        == self@[j].1,
            decreases self.topics.len() - i,
        {
            let (topic, qos) = self.topics[i];
            match topic.format::<MAX_LEN>() {
                Ok(path) => {
                    paths.push((path, qos));
                },
                Err(e) => {
                    assert(byte_len(self@[i as int].0.path()) > MAX_LEN);
                    return Err(e);
                },
            }
            i += 1;
        }
        Ok(paths)
    }
}

impl<'a, const N: usize> Default for Subscribe<'a, N> {
    fn default() -> (r: Self)
        ensures
            r@ == Seq::<(TopicView, QoS)>::empty(),
    {
        Subscribe::new()
    }
}

impl TopicView {
    /// Whether the template name, where the topic has one, is free of
    /// slashes.
    pub open spec fn plain_name(self) -> bool {
        match self {
            TopicView::RegisterThing(name, _) => no_slash(name),
            TopicView::RegisterThingAccepted(name, _) => no_slash(name),
            TopicView::RegisterThingRejected(name, _) => no_slash(name),
            _ => true,
        }
    }
}

/// The segments of four pieces without slashes, joined by slashes.
proof fn lemma_four_segments(a: Seq<char>, b: Seq<char>, c: Seq<char>, d: Seq<char>)
    requires
        no_slash(a),
        no_slash(b),
        no_slash(c),
        no_slash(d),
    ensures
        segments(a + seq!['/'] + (b + seq!['/'] + (c + seq!['/'] + d)), 0, 6) == seq![a, b, c, d],
{
    let s2 = c + seq!['/'] + d;
    let s1 = b + seq!['/'] + s2;
    lemma_segments_cons(a, s1, 6);
    lemma_segments_cons(b, s2, 5);
    lemma_segments_cons(c, d, 4);
    lemma_segments_last(d, 3);
    assert(seq![a] + (seq![b] + (seq![c] + seq![d])) =~= seq![a, b, c, d]);
}

/// The segments of five pieces without slashes, joined by slashes.
proof fn lemma_five_segments(
    a: Seq<char>,
    b: Seq<char>,
    c: Seq<char>,
    d: Seq<char>,
    e: Seq<char>,
)
    requires
        no_slash(a),
        no_slash(b),
        no_slash(c),
        no_slash(d),
        no_slash(e),
    ensures
        segments(
            a + seq!['/'] + (b + seq!['/'] + (c + seq!['/'] + (d + seq!['/'] + e))),
            0,
            6,
        ) == seq![a, b, c, d, e],
{
    let s3 = d + seq!['/'] + e;
    let s2 = c + seq!['/'] + s3;
    let s1 = b + seq!['/'] + s2;
    lemma_segments_cons(a, s1, 6);
    lemma_segments_cons(b, s2, 5);
    lemma_segments_cons(c, s3, 4);
    lemma_segments_cons(d, e, 3);
    lemma_segments_last(e, 2);
    assert(seq![a] + (seq![b] + (seq![c] + (seq![d] + seq![e]))) =~= seq![a, b, c, d, e]);
}

/// The segments of six pieces joined by slashes, the first five without
/// slashes.
proof fn lemma_six_segments(
    a: Seq<char>,
    b: Seq<char>,
    c: Seq<char>,
    d: Seq<char>,
    e: Seq<char>,
    f: Seq<char>,
)
    requires
        no_slash(a),
        no_slash(b),
        no_slash(c),
        no_slash(d),
        no_slash(e),
    ensures
        segments(
            a + seq!['/'] + (b + seq!['/'] + (c + seq!['/'] + (d + seq!['/'] + (e + seq!['/']
                + f)))),
            0,
            6,
        ) == seq![a, b, c, d, e, f],
{
    let s4 = e + seq!['/'] + f;
    let s3 = d + seq!['/'] + s4;
    let s2 = c + seq!['/'] + s3;
    let s1 = b + seq!['/'] + s2;
    lemma_segments_cons(a, s1, 6);
    lemma_segments_cons(b, s2, 5);
    lemma_segments_cons(c, s3, 4);
    lemma_segments_cons(d, s4, 3);
    lemma_segments_cons(e, f, 2);
    lemma_segments_last(f, 1);
    assert(seq![a] + (seq![b] + (seq![c] + (seq![d] + (seq![e] + seq![f])))) =~= seq![
        a,
        b,
        c,
        d,
        e,
        f,
    ]);
}

/// The words of the paths hold no slash.
proof fn lemma_plain_words()
    ensures
        no_slash("$aws"@),
        no_slash("provisioning-templates"@),
        no_slash("certificates"@),
        no_slash("provision"@),
        no_slash("create"@),
        no_slash("create-from-csr"@),
        no_slash("accepted"@),
        no_slash("rejected"@),
        no_slash("cbor"@),
        no_slash("json"@),
{
    reveal_strlit("$aws");
    reveal_strlit("provisioning-templates");
    reveal_strlit("certificates");
    reveal_strlit("provision");
    reveal_strlit("create");
    reveal_strlit("create-from-csr");
    reveal_strlit("accepted");
    reveal_strlit("rejected");
    reveal_strlit("cbor");
    reveal_strlit("json");
}

/// The words that a parse tells apart are different words.
proof fn lemma_distinct_words()
    ensures
        "cbor"@ != "json"@,
        "accepted"@ != "rejected"@,
        "create"@ != "create-from-csr"@,
        "provisioning-templates"@ != "certificates"@,
{
    reveal_strlit("provisioning-templates");
    reveal_strlit("certificates");
    reveal_strlit("create");
    reveal_strlit("create-from-csr");
    reveal_strlit("accepted");
    reveal_strlit("rejected");
    reveal_strlit("cbor");
    reveal_strlit("json");
    assert("cbor"@[0] != "json"@[0]);
    assert("accepted"@[0] != "rejected"@[0]);
    assert("create"@.len() != "create-from-csr"@.len());
    assert("provisioning-templates"@.len() != "certificates"@.len());
}

/// How the fixed parts of the paths are made of words and slashes.
proof fn lemma_fixed_parts()
    ensures
        PROVISIONING_PREFIX@ == "$aws"@ + seq!['/'] + "provisioning-templates"@,
        CERT_PREFIX@ == "$aws"@ + seq!['/'] + "certificates"@,
        "/"@ == seq!['/'],
        "/provision/"@ == seq!['/'] + "provision"@ + seq!['/'],
        "/create/"@ == seq!['/'] + "create"@ + seq!['/'],
        "/create-from-csr/"@ == seq!['/'] + "create-from-csr"@ + seq!['/'],
        "/accepted"@ == seq!['/'] + "accepted"@,
        "/rejected"@ == seq!['/'] + "rejected"@,
{
    reveal_strlit("$aws");
    reveal_strlit("provisioning-templates");
    reveal_strlit("certificates");
    reveal_strlit("provision");
    reveal_strlit("create");
    reveal_strlit("create-from-csr");
    reveal_strlit("accepted");
    reveal_strlit("rejected");
    reveal_strlit("$aws/provisioning-templates");
    reveal_strlit("$aws/certificates");
    reveal_strlit("/");
    reveal_strlit("/provision/");
    reveal_strlit("/create/");
    reveal_strlit("/create-from-csr/");
    reveal_strlit("/accepted");
    reveal_strlit("/rejected");
    assert(PROVISIONING_PREFIX@ =~= "$aws"@ + seq!['/'] + "provisioning-templates"@);
    assert(CERT_PREFIX@ =~= "$aws"@ + seq!['/'] + "certificates"@);
    assert("/"@ =~= seq!['/']);
    assert("/provision/"@ =~= seq!['/'] + "provision"@ + seq!['/']);
    assert("/create/"@ =~= seq!['/'] + "create"@ + seq!['/']);
    assert("/create-from-csr/"@ =~= seq!['/'] + "create-from-csr"@ + seq!['/']);
    assert("/accepted"@ =~= seq!['/'] + "accepted"@);
    assert("/rejected"@ =~= seq!['/'] + "rejected"@);
}

/// Six pieces and the slashes between them, grouped as a path is written
/// and as it is read.
proof fn lemma_regroup_six(
    a: Seq<char>,
    b: Seq<char>,
    c: Seq<char>,
    d: Seq<char>,
    e: Seq<char>,
    f: Seq<char>,
    s: Seq<char>,
)
    ensures
        (a + s + b) + s + c + (s + d + s) + e + (s + f) == a + s + (b + s + (c + s + (d + s + (e
            + s + f)))),
{
    assert((a + s + b) + s + c + (s + d + s) + e + (s + f) =~= a + s + (b + s + (c + s + (d + s
        + (e + s + f)))));
}

/// Five pieces and the slashes between them, grouped as a path is written
/// and as it is read.
proof fn lemma_regroup_five(
    a: Seq<char>,
    b: Seq<char>,
    c: Seq<char>,
    d: Seq<char>,
    e: Seq<char>,
    s: Seq<char>,
)
    ensures
        (a + s + b) + (s + c + s) + d + (s + e) == a + s + (b + s + (c + s + (d + s + e))),
{
    assert((a + s + b) + (s + c + s) + d + (s + e) =~= a + s + (b + s + (c + s + (d + s + e))));
}

/// Five pieces and the slashes between them, grouped as the path of a
/// template request is written and as it is read.
proof fn lemma_regroup_template_request(
    a: Seq<char>,
    b: Seq<char>,
    c: Seq<char>,
    d: Seq<char>,
    e: Seq<char>,
    s: Seq<char>,
)
    ensures
        (a + s + b) + s + c + (s + d + s) + e == a + s + (b + s + (c + s + (d + s + e))),
{
    assert((a + s + b) + s + c + (s + d + s) + e =~= a + s + (b + s + (c + s + (d + s + e))));
}

/// Four pieces and the slashes between them, grouped as the path of a
/// certificate request is written and as it is read.
proof fn lemma_regroup_four(a: Seq<char>, b: Seq<char>, c: Seq<char>, d: Seq<char>, s: Seq<char>)
    ensures
        (a + s + b) + (s + c + s) + d == a + s + (b + s + (c + s + d)),
{
    assert((a + s + b) + (s + c + s) + d =~= a + s + (b + s + (c + s + d)));
}

/// The segments of the path of a template request.
proof fn lemma_template_request_segments(name: Seq<char>, format: PayloadFormat)
    requires
        no_slash(name),
    ensures
        segments(PROVISIONING_PREFIX@ + "/"@ + name + "/provision/"@ + format.text(), 0, 6)
            == seq!["$aws"@, "provisioning-templates"@, name, "provision"@, format.text()],
{
    lemma_plain_words();
    lemma_fixed_parts();
    lemma_five_segments("$aws"@, "provisioning-templates"@, name, "provision"@, format.text());
    lemma_regroup_template_request(
        "$aws"@,
        "provisioning-templates"@,
        name,
        "provision"@,
        format.text(),
        seq!['/'],
    );
}

/// The segments of the path of a certificate request, `action` being
/// `create` or `create-from-csr`.
proof fn lemma_certificate_request_segments(action: Seq<char>, format: PayloadFormat)
    requires
        no_slash(action),
    ensures
        segments(CERT_PREFIX@ + (seq!['/'] + action + seq!['/']) + format.text(), 0, 6) == seq![
            "$aws"@,
            "certificates"@,
            action,
            format.text(),
        ],
{
    lemma_plain_words();
    lemma_fixed_parts();
    lemma_four_segments("$aws"@, "certificates"@, action, format.text());
    lemma_regroup_four("$aws"@, "certificates"@, action, format.text(), seq!['/']);
}

/// The segments of the path of an answer to a template request, `word`
/// being `accepted` or `rejected`.
proof fn lemma_template_segments(name: Seq<char>, format: PayloadFormat, word: Seq<char>)
    requires
        no_slash(name),
    ensures
        segments(
            PROVISIONING_PREFIX@ + "/"@ + name + "/provision/"@ + format.text() + (seq!['/']
                + word),
            0,
            6,
        ) == seq![
            "$aws"@,
            "provisioning-templates"@,
            name,
            "provision"@,
            format.text(),
            word,
        ],
{
    lemma_plain_words();
    lemma_fixed_parts();
    lemma_six_segments(
        "$aws"@,
        "provisioning-templates"@,
        name,
        "provision"@,
        format.text(),
        word,
    );
    lemma_regroup_six(
        "$aws"@,
        "provisioning-templates"@,
        name,
        "provision"@,
        format.text(),
        word,
        seq!['/'],
    );
}

/// The segments of the path of an answer to a certificate request,
/// `action` being `create` or `create-from-csr` and `word` being `accepted`
/// or `rejected`.
proof fn lemma_certificate_segments(action: Seq<char>, format: PayloadFormat, word: Seq<char>)
    requires
        no_slash(action),
        no_slash(word),
    ensures
        segments(
            CERT_PREFIX@ + (seq!['/'] + action + seq!['/']) + format.text() + (seq!['/'] + word),
            0,
            6,
        ) == seq!["$aws"@, "certificates"@, action, format.text(), word],
{
    lemma_plain_words();
    lemma_fixed_parts();
    lemma_five_segments("$aws"@, "certificates"@, action, format.text(), word);
    lemma_regroup_five("$aws"@, "certificates"@, action, format.text(), word, seq!['/']);
}

/// Reading the path of a topic gives the topic back, provided that its
/// template name, if it has one, holds no slash.
pub proof fn lemma_parse_inverts_path(topic: TopicView)
    requires
        topic.plain_name(),
    ensures
        TopicView::parse(topic.path()) == Some(topic),
{
    lemma_distinct_words();
    lemma_fixed_parts();
    match topic {
        TopicView::RegisterThing(name, format) => {
            lemma_template_request_segments(name, format);
        },
        TopicView::RegisterThingAccepted(name, format) => {
            lemma_template_segments(name, format, "accepted"@);
        },
        TopicView::RegisterThingRejected(name, format) => {
            lemma_template_segments(name, format, "rejected"@);
        },
        TopicView::CreateKeysAndCertificate(format) => {
            lemma_plain_words();
            lemma_certificate_request_segments("create"@, format);
        },
        TopicView::CreateKeysAndCertificateAccepted(format) => {
            lemma_plain_words();
            lemma_certificate_segments("create"@, format, "accepted"@);
        },
        TopicView::CreateKeysAndCertificateRejected(format) => {
            lemma_plain_words();
            lemma_certificate_segments("create"@, format, "rejected"@);
        },
        TopicView::CreateCertificateFromCsr(format) => {
            lemma_plain_words();
            lemma_certificate_request_segments("create-from-csr"@, format);
        },
        TopicView::CreateCertificateFromCsrAccepted(format) => {
            lemma_plain_words();
            lemma_certificate_segments("create-from-csr"@, format, "accepted"@);
        },
        TopicView::CreateCertificateFromCsrRejected(format) => {
            lemma_plain_words();
            lemma_certificate_segments("create-from-csr"@, format, "rejected"@);
        },
    }
}

} // verus!
