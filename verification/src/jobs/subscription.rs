//! Expanding a set of topic categories into topic paths, and laying the paths
//! out in batches of at most five, one batch per transport call.

use crate::bounded::{byte_len, lemma_byte_len_ascii, lemma_byte_len_concat};
use crate::jobs::batch::{
    batch_paths, new_batch, new_path, path_text, push_path, push_text, Batch, BATCH_CAPACITY,
    MAX_TOPIC_LEN,
};
use crate::jobs::data_types::{MAX_JOB_ID_LEN, MAX_THING_NAME_LEN};
use crate::jobs::topics::{JobTopic, Topics, CATEGORIES};
use crate::jobs::Jobs;
use crate::qos::QoS;
use crate::text::text_of;
use vstd::prelude::*;

verus! {

impl JobTopic {
    /// What follows `$aws/things/<thing>/jobs/` in the topic path, or, for a
    /// category that is tied to a job, what follows the job id.
    pub open spec fn suffix(self) -> Seq<char> {
        match self {
            JobTopic::Notify => "notify"@,
            JobTopic::NotifyNext => "notify-next"@,
            JobTopic::GetAccepted => "get/accepted"@,
            JobTopic::GetRejected => "get/rejected"@,
            JobTopic::StartNextAccepted => "start-next/accepted"@,
            JobTopic::StartNextRejected => "start-next/rejected"@,
            JobTopic::DescribeSuccess => "/get/accepted"@,
            JobTopic::DescribeFailed => "/get/rejected"@,
            JobTopic::UpdateSuccess => "/update/accepted"@,
            JobTopic::UpdateFailed => "/update/rejected"@,
        }
    }

    /// The topic path of this category for the thing `thing` and, where the
    /// category is tied to a job, the job `job`.
    pub open spec fn path(self, thing: Seq<char>, job: Seq<char>) -> Seq<char> {
        if self.job_scoped() {
            "$aws/things/"@ + thing + "/jobs/"@ + job + self.suffix()
        } else {
            "$aws/things/"@ + thing + "/jobs/"@ + self.suffix()
        }
    }

    /// What follows `$aws/things/<thing>/jobs/` in the topic path, or, for a
    /// category that is tied to a job, what follows the job id.
    pub fn suffix_str(self) -> (s: &'static str)
        ensures
            s@ == self.suffix(),
    {
        match self {
            JobTopic::Notify => "notify",
            JobTopic::NotifyNext => "notify-next",
            JobTopic::GetAccepted => "get/accepted",
            JobTopic::GetRejected => "get/rejected",
            JobTopic::StartNextAccepted => "start-next/accepted",
            JobTopic::StartNextRejected => "start-next/rejected",
            JobTopic::DescribeSuccess => "/get/accepted",
            JobTopic::DescribeFailed => "/get/rejected",
            JobTopic::UpdateSuccess => "/update/accepted",
            JobTopic::UpdateFailed => "/update/rejected",
        }
    }

    /// Builds the topic path of this category in a buffer of 256 bytes.
    /// Fails when the path is longer than that; no shortened path is ever
    /// returned.
    pub fn format(self, thing: &str, job: &str) -> (r: Result<heapless::String<256>, ()>)
        ensures
            r is Ok <==> byte_len(self.path(thing@, job@)) <= MAX_TOPIC_LEN,
            r matches Ok(p) ==> path_text(p) == self.path(thing@, job@),
    {
        let suffix = self.suffix_str();
        let ghost empty = Seq::<char>::empty();
        let ghost a = "$aws/things/"@;
        let ghost b = a + thing@;
        let ghost c = b + "/jobs/"@;
        let ghost d = if self.job_scoped() {
            c + job@
        } else {
            c
        };
        proof {
            assert(empty + a =~= a);
            lemma_byte_len_concat(empty, a);
            lemma_byte_len_concat(a, thing@);
            lemma_byte_len_concat(b, "/jobs/"@);
            lemma_byte_len_concat(c, job@);
            lemma_byte_len_concat(d, suffix@);
        }
        let mut path = new_path();
        if push_text(&mut path, "$aws/things/").is_err() {
            return Err(());
        }
        if push_text(&mut path, thing).is_err() {
            return Err(());
        }
        if push_text(&mut path, "/jobs/").is_err() {
            return Err(());
        }
        if self.is_job_scoped() {
            if push_text(&mut path, job).is_err() {
                return Err(());
            }
        }
        if push_text(&mut path, suffix).is_err() {
            return Err(());
        }
        Ok(path)
    }
}

/// The categories of `mask` among the first `upto` of the expansion order,
/// in that order. Those that are tied to a job count only with a job id.
pub open spec fn expansion(mask: Set<JobTopic>, with_job: bool, upto: int) -> Seq<JobTopic>
    decreases upto,
{
    if upto <= 0 {
        Seq::empty()
    } else {
        let before = expansion(mask, with_job, upto - 1);
        let topic = JobTopic::at(upto - 1);
        if mask.contains(topic) && (with_job || !topic.job_scoped()) {
            before.push(topic)
        } else {
            before
        }
    }
}

/// The text of a job id, where one is given.
pub open spec fn job_text(job: Option<Seq<char>>) -> Seq<char> {
    match job {
        Some(id) => id,
        None => ""@,
    }
}

/// The topic paths of `topics`, one for one.
pub open spec fn paths_of(topics: Seq<JobTopic>, thing: Seq<char>, job: Seq<char>) -> Seq<
    Seq<char>,
> {
    Seq::new(topics.len(), |i: int| topics[i].path(thing, job))
}

/// The topic paths that `mask` stands for, in expansion order.
pub open spec fn topic_paths(thing: Seq<char>, mask: Set<JobTopic>, job: Option<Seq<char>>) -> Seq<
    Seq<char>,
> {
    paths_of(expansion(mask, job is Some, CATEGORIES as int), thing, job_text(job))
}

/// A category that is tied to a job was asked for without a job id.
pub open spec fn missing_job_id(mask: Set<JobTopic>, job: Option<Seq<char>>) -> bool {
    job is None && exists|t: JobTopic| mask.contains(t) && t.job_scoped()
}

/// The position at or after `from` of the first path that does not fit in a
/// topic buffer, or the number of paths where all from `from` on fit.
pub open spec fn first_unfit(paths: Seq<Seq<char>>, from: int) -> int
    decreases paths.len() - from,
{
    if from < 0 || from >= paths.len() {
        paths.len() as int
    } else if byte_len(paths[from]) > MAX_TOPIC_LEN {
        from
    } else {
        first_unfit(paths, from + 1)
    }
}

/// How many batches have been handed over by the time `n` paths are placed:
/// a batch is handed over only when a further path arrives and finds it full.
pub open spec fn flushed(n: int) -> int {
    if n <= 0 {
        0
    } else {
        (n - 1) / (BATCH_CAPACITY as int)
    }
}

/// How many paths get placed in a batch: none when the job id is missing,
/// else all up to the first that does not fit in a topic buffer.
pub open spec fn placed(thing: Seq<char>, mask: Set<JobTopic>, job: Option<Seq<char>>) -> int {
    if missing_job_id(mask, job) {
        0
    } else {
        first_unfit(topic_paths(thing, mask, job), 0)
    }
}

/// The request is valid and every path fits.
pub open spec fn complete(thing: Seq<char>, mask: Set<JobTopic>, job: Option<Seq<char>>) -> bool {
    !missing_job_id(mask, job) && placed(thing, mask, job) == topic_paths(thing, mask, job).len()
}

/// How many transport calls are made. A complete run ends with the call
/// that carries the open batch, even if that batch is empty.
pub open spec fn batch_count(thing: Seq<char>, mask: Set<JobTopic>, job: Option<Seq<char>>) -> int {
    if complete(thing, mask, job) {
        flushed(placed(thing, mask, job)) + 1
    } else {
        flushed(placed(thing, mask, job))
    }
}

/// The paths of transport call number `i`, counted from 0.
pub open spec fn batch_at(
    thing: Seq<char>,
    mask: Set<JobTopic>,
    job: Option<Seq<char>>,
    i: int,
) -> Seq<Seq<char>> {
    let first = BATCH_CAPACITY * i;
    let end = if first + BATCH_CAPACITY <= placed(thing, mask, job) {
        first + BATCH_CAPACITY
    } else {
        placed(thing, mask, job)
    };
    topic_paths(thing, mask, job).subrange(first, end)
}

/// `batches` and the batch that is still open hold `placed`, five to a
/// batch, in order.
pub open spec fn laid_out(batches: Seq<Batch>, open: Batch, placed: Seq<Seq<char>>) -> bool {
    &&& batches.len() == flushed(placed.len() as int)
    &&& forall|i: int|
        0 <= i < batches.len() ==> batch_paths(#[trigger] batches[i]) == placed.subrange(
            BATCH_CAPACITY * i,
            BATCH_CAPACITY * i + BATCH_CAPACITY,
        )
    &&& batch_paths(open) == placed.subrange(
        BATCH_CAPACITY * batches.len(),
        placed.len() as int,
    )
}

/// Puts `path` into the open batch. If the batch is full, it is handed over
/// and the path opens the next one.
fn place(
    batches: &mut Vec<Batch>,
    open: Batch,
    path: heapless::String<256>,
    Ghost(placed): Ghost<Seq<Seq<char>>>,
) -> (next: Batch)
    requires
        laid_out(old(batches)@, open, placed),
    ensures
        laid_out(final(batches)@, next, placed.push(path_text(path))),
{
    let mut open = open;
    let ghost before = batches@;
    let ghost after = placed.push(path_text(path));
    match push_path(&mut open, path) {
        Ok(()) => {
            proof {
                assert(batch_paths(open) =~= after.subrange(
                    BATCH_CAPACITY * before.len(),
                    after.len() as int,
                ));
                assert forall|i: int| 0 <= i < before.len() implies batch_paths(
                    #[trigger] before[i],
                ) == after.subrange(BATCH_CAPACITY * i, BATCH_CAPACITY * i + BATCH_CAPACITY) by {
                    assert(placed.subrange(BATCH_CAPACITY * i, BATCH_CAPACITY * i + BATCH_CAPACITY)
                        =~= after.subrange(BATCH_CAPACITY * i, BATCH_CAPACITY * i + BATCH_CAPACITY));
                }
            }
            open
        },
        Err(back) => {
            batches.push(open);
            let mut fresh = new_batch();
            let again = push_path(&mut fresh, back);
            proof {
                assert(again is Ok);
                assert(batch_paths(fresh) =~= after.subrange(
                    BATCH_CAPACITY * batches@.len(),
                    after.len() as int,
                ));
                assert forall|i: int| 0 <= i < batches@.len() implies batch_paths(
                    #[trigger] batches@[i],
                ) == after.subrange(BATCH_CAPACITY * i, BATCH_CAPACITY * i + BATCH_CAPACITY) by {
                    assert(placed.subrange(BATCH_CAPACITY * i, BATCH_CAPACITY * i + BATCH_CAPACITY)
                        =~= after.subrange(BATCH_CAPACITY * i, BATCH_CAPACITY * i + BATCH_CAPACITY));
                }
            }
            fresh
        },
    }
}

/// The expansion up to `upto` is the beginning of every longer expansion.
proof fn lemma_expansion_prefix(mask: Set<JobTopic>, with_job: bool, upto: int, longer: int)
    requires
        0 <= upto <= longer,
    ensures
        expansion(mask, with_job, upto).len() <= expansion(mask, with_job, longer).len(),
        forall|i: int|
            0 <= i < expansion(mask, with_job, upto).len() ==> expansion(mask, with_job, longer)[i]
                == expansion(mask, with_job, upto)[i],
    decreases longer - upto,
{
    if upto < longer {
        lemma_expansion_prefix(mask, with_job, upto, longer - 1);
    }
}

/// Where all paths before `j` fit and the one at `j`, if there is one, does
/// not, `j` is the first that does not fit.
proof fn lemma_first_unfit(paths: Seq<Seq<char>>, from: int, j: int)
    requires
        0 <= from <= j <= paths.len(),
        forall|i: int| from <= i < j ==> byte_len(#[trigger] paths[i]) <= MAX_TOPIC_LEN,
        j < paths.len() ==> byte_len(paths[j]) > MAX_TOPIC_LEN,
    ensures
        first_unfit(paths, from) == j,
    decreases j - from,
{
    if from < j {
        lemma_first_unfit(paths, from + 1, j);
    }
}

/// Expands `mask` into topic paths and lays them out in batches, in the
/// order in which the transport is to be called with them.
fn split(thing: &str, mask: Topics, job_id: Option<&str>) -> (r: (Vec<Batch>, Result<(), ()>))
    ensures
        r.1 is Ok <==> complete(thing@, mask@, text_of(job_id)),
        r.0@.len() == batch_count(thing@, mask@, text_of(job_id)),
        forall|i: int|
            0 <= i < r.0@.len() ==> batch_paths(#[trigger] r.0@[i]) == batch_at(
                thing@,
                mask@,
                text_of(job_id),
                i,
            ),
{
    let mut batches: Vec<Batch> = Vec::new();
    let scoped = Topics::job_scoped();
    if mask.intersects(scoped) && job_id.is_none() {
        proof {
            let t = choose|t: JobTopic| mask@.contains(t) && scoped@.contains(t);
            assert(mask@.contains(t) && t.job_scoped());
        }
        return (batches, Err(()));
    }
    let with_job = job_id.is_some();
    let job: &str = match job_id {
        Some(id) => id,
        None => "",
    };
    let ghost all = topic_paths(thing@, mask@, text_of(job_id));
    proof {
        if job_id is None {
            assert forall|t: JobTopic| mask@.contains(t) implies !t.job_scoped() by {
                if t.job_scoped() {
                    assert(mask@.contains(t) && scoped@.contains(t));
                }
            }
        }
        assert(job@ == job_text(text_of(job_id)));
        assert(!missing_job_id(mask@, text_of(job_id)));
    }
    let mut open = new_batch();
    let ghost mut done: Seq<Seq<char>> = Seq::empty();
    proof {
        assert(batch_paths(open) =~= done.subrange(0, 0));
        assert(done =~= paths_of(expansion(mask@, with_job, 0), thing@, job@));
    }
    let mut k: usize = 0;
    while k < CATEGORIES
        invariant
            k <= CATEGORIES,
            with_job == (job_id is Some),
            job@ == job_text(text_of(job_id)),
            all == topic_paths(thing@, mask@, text_of(job_id)),
            !missing_job_id(mask@, text_of(job_id)),
            done == paths_of(expansion(mask@, with_job, k as int), thing@, job@),
            forall|i: int| 0 <= i < done.len() ==> byte_len(#[trigger] done[i]) <= MAX_TOPIC_LEN,
            laid_out(batches@, open, done),
        decreases CATEGORIES - k,
    {
        let wanted = match JobTopic::nth(k) {
            Some(topic) if mask.has(topic) && (with_job || !topic.is_job_scoped()) => Some(topic),
            _ => None,
        };
        if let Some(topic) = wanted {
            proof {
                lemma_expansion_prefix(mask@, with_job, k + 1, CATEGORIES as int);
                assert(expansion(mask@, with_job, k + 1) == expansion(mask@, with_job, k as int).push(
                    topic,
                ));
            }
            match topic.format(thing, job) {
                Ok(path) => {
                    open = place(&mut batches, open, path, Ghost(done));
                    proof {
                        done = done.push(path_text(path));
                        assert(done =~= paths_of(
                            expansion(mask@, with_job, k + 1),
                            thing@,
                            job@,
                        ));
                    }
                },
                Err(_) => {
                    proof {
                        let j = done.len() as int;
                        assert(all[j] == topic.path(thing@, job@));
                        assert forall|i: int| 0 <= i < j implies byte_len(#[trigger] all[i])
                            <= MAX_TOPIC_LEN by {
                            assert(all[i] == done[i]);
                        }
                        lemma_first_unfit(all, 0, j);
                        assert forall|i: int| 0 <= i < batches@.len() implies batch_paths(
                            #[trigger] batches@[i],
                        ) == batch_at(thing@, mask@, text_of(job_id), i) by {
                            assert(done.subrange(
                                BATCH_CAPACITY * i,
                                BATCH_CAPACITY * i + BATCH_CAPACITY,
                            ) =~= all.subrange(
                                BATCH_CAPACITY * i,
                                BATCH_CAPACITY * i + BATCH_CAPACITY,
                            ));
                        }
                    }
                    return (batches, Err(()));
                },
            }
        }
        k += 1;
    }
    batches.push(open);
    proof {
        let n = done.len() as int;
        assert(done =~= all);
        lemma_first_unfit(all, 0, n);
        assert forall|i: int| 0 <= i < batches@.len() implies batch_paths(#[trigger] batches@[i])
            == batch_at(thing@, mask@, text_of(job_id), i) by {
            if i < batches@.len() - 1 {
                assert(done.subrange(BATCH_CAPACITY * i, BATCH_CAPACITY * i + BATCH_CAPACITY)
                    =~= all.subrange(BATCH_CAPACITY * i, BATCH_CAPACITY * i + BATCH_CAPACITY));
            }
        }
    }
    (batches, Ok(()))
}

/// The transport calls that a subscription makes, and how it ends.
pub struct SubscribeCalls {
    /// The batches to subscribe to, one transport call each, in this order.
    pub batches: Vec<Batch>,
    /// The quality of service that every topic is subscribed with.
    pub qos: QoS,
    /// What the operation returns once every batch has gone through.
    pub result: Result<(), ()>,
}

/// The transport calls that an unsubscription makes, and how it ends.
pub struct UnsubscribeCalls {
    /// The batches to unsubscribe from, one transport call each, in this
    /// order.
    pub batches: Vec<Batch>,
    /// What the operation returns once every batch has gone through.
    pub result: Result<(), ()>,
}

/// What [`Jobs::subscribe`] promises of its result.
pub open spec fn subscribes(
    calls: SubscribeCalls,
    thing: Seq<char>,
    mask: Set<JobTopic>,
    job: Option<Seq<char>>,
) -> bool {
    &&& calls.qos == QoS::AtLeastOnce
    &&& calls.result is Ok <==> complete(thing, mask, job)
    &&& calls.batches@.len() == batch_count(thing, mask, job)
    &&& forall|i: int|
        0 <= i < calls.batches@.len() ==> batch_paths(#[trigger] calls.batches@[i]) == batch_at(
            thing,
            mask,
            job,
            i,
        )
}

/// What [`Jobs::unsubscribe`] promises of its result.
pub open spec fn unsubscribes(
    calls: UnsubscribeCalls,
    thing: Seq<char>,
    mask: Set<JobTopic>,
    job: Option<Seq<char>>,
) -> bool {
    &&& calls.result is Ok <==> complete(thing, mask, job)
    &&& calls.batches@.len() == batch_count(thing, mask, job)
    &&& forall|i: int|
        0 <= i < calls.batches@.len() ==> batch_paths(#[trigger] calls.batches@[i]) == batch_at(
            thing,
            mask,
            job,
            i,
        )
}

impl Jobs {
    /// Works out the subscribe calls for the categories of `topic_mask`.
    ///
    /// A category that is tied to a job needs `job_id`: without it nothing
    /// is subscribed and the result is an error. Otherwise the topic paths
    /// are taken in expansion order, five to a call. A path that does not
    /// fit in a topic buffer ends the run with an error; the batches that
    /// were already full by then are still sent. A run without error ends
    /// with the call for the batch that is still open, even if it is empty.
    ///
    /// The caller makes the calls in order and stops at the first that the
    /// transport refuses: [`Jobs::first_call`] and [`Jobs::next_call`] say
    /// which call is next and when the operation has ended.
    pub fn subscribe(thing: &str, topic_mask: Topics, job_id: Option<&str>) -> (calls:
        SubscribeCalls)
        ensures
            subscribes(calls, thing@, topic_mask@, text_of(job_id)),
    {
        let (batches, result) = split(thing, topic_mask, job_id);
        SubscribeCalls { batches, qos: QoS::AtLeastOnce, result }
    }

    /// Works out the unsubscribe calls for the categories of `topic_mask`:
    /// the same topic paths in the same batches as [`Jobs::subscribe`].
    pub fn unsubscribe(thing: &str, topic_mask: Topics, job_id: Option<&str>) -> (calls:
        UnsubscribeCalls)
        ensures
            unsubscribes(calls, thing@, topic_mask@, text_of(job_id)),
    {
        let (batches, result) = split(thing, topic_mask, job_id);
        UnsubscribeCalls { batches, result }
    }
}

/// Which categories an expansion holds: those of the mask that come early
/// enough, each once.
proof fn lemma_expansion_members(mask: Set<JobTopic>, with_job: bool, upto: int)
    requires
        0 <= upto <= CATEGORIES,
    ensures
        expansion(mask, with_job, upto).no_duplicates(),
        forall|t: JobTopic|
            #[trigger] expansion(mask, with_job, upto).contains(t) <==> (t.position() < upto
                && mask.contains(t) && (with_job || !t.job_scoped())),
    decreases upto,
{
    if upto > 0 {
        lemma_expansion_members(mask, with_job, upto - 1);
        let before = expansion(mask, with_job, upto - 1);
        let now = expansion(mask, with_job, upto);
        let last = JobTopic::at(upto - 1);
        let wanted = mask.contains(last) && (with_job || !last.job_scoped());
        assert(last.position() == upto - 1);
        assert(!before.contains(last));
        assert(now == if wanted {
            before.push(last)
        } else {
            before
        });
        assert forall|t: JobTopic| #[trigger]
            now.contains(t) <==> (t.position() < upto && mask.contains(t) && (with_job
                || !t.job_scoped())) by {
            assert(JobTopic::at(t.position()) == t);
            if now.contains(t) {
                let i = choose|i: int| 0 <= i < now.len() && now[i] == t;
                if i < before.len() {
                    assert(before[i] == t);
                    assert(before.contains(t));
                } else {
                    assert(wanted && t == last);
                }
            }
            if t.position() < upto && mask.contains(t) && (with_job || !t.job_scoped()) {
                if t.position() < upto - 1 {
                    assert(before.contains(t));
                    let i = choose|i: int| 0 <= i < before.len() && before[i] == t;
                    assert(now[i] == t);
                } else {
                    assert(t == last);
                    assert(now[now.len() - 1] == t);
                }
            }
        }
        assert forall|i: int, j: int| 0 <= i < now.len() && 0 <= j < now.len() && i != j implies now[i]
            != now[j] by {
            if i == before.len() {
                assert(before[j] == now[j]);
                assert(before.contains(now[j]));
            } else if j == before.len() {
                assert(before[i] == now[i]);
                assert(before.contains(now[i]));
            } else {
                assert(before[i] == now[i] && before[j] == now[j]);
            }
        }
    } else {
        assert forall|t: JobTopic| !(#[trigger] expansion(mask, with_job, upto).contains(t)) by {}
    }
}

/// A request that names no job asks for nothing that is tied to a job, or it
/// is refused: either way a category of the mask is selected exactly when
/// the request is not refused, and then there are as many paths as the mask
/// has categories.
pub proof fn lemma_every_category_selected(
    thing: Seq<char>,
    mask: Set<JobTopic>,
    job: Option<Seq<char>>,
)
    requires
        !missing_job_id(mask, job),
    ensures
        mask.finite(),
        topic_paths(thing, mask, job).len() == mask.len(),
{
    let chosen = expansion(mask, job is Some, CATEGORIES as int);
    lemma_expansion_members(mask, job is Some, CATEGORIES as int);
    assert(chosen.to_set() =~= mask) by {
        assert forall|t: JobTopic| chosen.to_set().contains(t) <==> mask.contains(t) by {
            assert(chosen.to_set().contains(t) <==> chosen.contains(t));
            assert(t.position() < CATEGORIES);
            if job is None && mask.contains(t) && t.job_scoped() {
                assert(missing_job_id(mask, job));
            }
        }
    }
    vstd::seq_lib::seq_to_set_is_finite(chosen);
    chosen.unique_seq_to_set();
}

/// A run that is complete makes as many transport calls as it takes to
/// carry the paths of the mask five at a time: the number of its categories
/// divided by five, rounded up. Call `i` carries the paths from position
/// `5 * i` on, in expansion order. The one exception is the mask without
/// any category: it makes one call, with an empty batch.
pub proof fn lemma_batches_of_complete_run(
    thing: Seq<char>,
    mask: Set<JobTopic>,
    job: Option<Seq<char>>,
)
    requires
        complete(thing, mask, job),
    ensures
        mask.finite(),
        batch_count(thing, mask, job) == if mask.len() == 0 {
            1
        } else {
            (mask.len() + BATCH_CAPACITY - 1) / (BATCH_CAPACITY as int)
        },
        forall|i: int|
            0 <= i < batch_count(thing, mask, job) ==> #[trigger] batch_at(thing, mask, job, i)
                == topic_paths(thing, mask, job).subrange(
                BATCH_CAPACITY * i,
                if BATCH_CAPACITY * i + BATCH_CAPACITY <= mask.len() {
                    BATCH_CAPACITY * i + BATCH_CAPACITY
                } else {
                    mask.len() as int
                },
            ),
{
    lemma_every_category_selected(thing, mask, job);
}

/// Without the job id that its mask calls for, a request makes no transport
/// call and ends in an error.
pub proof fn lemma_missing_job_id_calls_nothing(
    thing: Seq<char>,
    mask: Set<JobTopic>,
    job: Option<Seq<char>>,
)
    requires
        missing_job_id(mask, job),
    ensures
        !complete(thing, mask, job),
        batch_count(thing, mask, job) == 0,
{
}

/// No transport call carries more than five topics, and only the last call
/// of a run without error can carry fewer.
pub proof fn lemma_batch_sizes(
    thing: Seq<char>,
    mask: Set<JobTopic>,
    job: Option<Seq<char>>,
    i: int,
)
    requires
        0 <= i < batch_count(thing, mask, job),
    ensures
        batch_at(thing, mask, job, i).len() <= BATCH_CAPACITY,
        i < batch_count(thing, mask, job) - 1 || !complete(thing, mask, job) ==> batch_at(
            thing,
            mask,
            job,
            i,
        ).len() == BATCH_CAPACITY,
{
    let paths = topic_paths(thing, mask, job);
    if !missing_job_id(mask, job) {
        lemma_first_unfit_bounds(paths, 0);
    }
}

/// `first_unfit` lies between `from` and the number of paths.
proof fn lemma_first_unfit_bounds(paths: Seq<Seq<char>>, from: int)
    requires
        0 <= from <= paths.len(),
    ensures
        from <= first_unfit(paths, from) <= paths.len(),
    decreases paths.len() - from,
{
    if from < paths.len() && byte_len(paths[from]) <= MAX_TOPIC_LEN {
        lemma_first_unfit_bounds(paths, from + 1);
    }
}

/// For the same thing, mask and job id, unsubscribing makes as many
/// transport calls as subscribing, with the same topic paths in each, and
/// ends the same way.
pub proof fn lemma_unsubscribe_mirrors_subscribe(
    thing: Seq<char>,
    mask: Set<JobTopic>,
    job: Option<Seq<char>>,
    subscribed: SubscribeCalls,
    unsubscribed: UnsubscribeCalls,
)
    requires
        subscribes(subscribed, thing, mask, job),
        unsubscribes(unsubscribed, thing, mask, job),
    ensures
        subscribed.batches@.len() == unsubscribed.batches@.len(),
        forall|i: int|
            0 <= i < subscribed.batches@.len() ==> batch_paths(#[trigger] subscribed.batches@[i])
                == batch_paths(unsubscribed.batches@[i]),
        subscribed.result is Ok <==> unsubscribed.result is Ok,
{
}

/// With a thing name and a job id within their limits, the path of every
/// category fits in a topic buffer.
pub proof fn lemma_paths_fit(thing: Seq<char>, job: Seq<char>, topic: JobTopic)
    requires
        byte_len(thing) <= MAX_THING_NAME_LEN,
        byte_len(job) <= MAX_JOB_ID_LEN,
    ensures
        byte_len(topic.path(thing, job)) <= MAX_TOPIC_LEN,
{
    reveal_strlit("$aws/things/");
    reveal_strlit("/jobs/");
    reveal_strlit("notify");
    reveal_strlit("notify-next");
    reveal_strlit("get/accepted");
    reveal_strlit("get/rejected");
    reveal_strlit("start-next/accepted");
    reveal_strlit("start-next/rejected");
    reveal_strlit("/get/accepted");
    reveal_strlit("/get/rejected");
    reveal_strlit("/update/accepted");
    reveal_strlit("/update/rejected");
    lemma_byte_len_ascii("$aws/things/"@);
    lemma_byte_len_ascii("/jobs/"@);
    lemma_byte_len_ascii(topic.suffix());
    let a = "$aws/things/"@ + thing;
    let b = a + "/jobs/"@;
    lemma_byte_len_concat("$aws/things/"@, thing);
    lemma_byte_len_concat(a, "/jobs/"@);
    lemma_byte_len_concat(b, job);
    lemma_byte_len_concat(b, topic.suffix());
    lemma_byte_len_concat(b + job, topic.suffix());
}

/// With a thing name and a job id within their limits, a valid request
/// runs to its end: no path overflows.
pub proof fn lemma_names_within_limits_complete(
    thing: Seq<char>,
    mask: Set<JobTopic>,
    job: Option<Seq<char>>,
)
    requires
        !missing_job_id(mask, job),
        byte_len(thing) <= MAX_THING_NAME_LEN,
        byte_len(job_text(job)) <= MAX_JOB_ID_LEN,
    ensures
        complete(thing, mask, job),
{
    let paths = topic_paths(thing, mask, job);
    let chosen = expansion(mask, job is Some, CATEGORIES as int);
    assert forall|i: int| 0 <= i < paths.len() implies byte_len(#[trigger] paths[i])
        <= MAX_TOPIC_LEN by {
        lemma_paths_fit(thing, job_text(job), chosen[i]);
    }
    lemma_first_unfit(paths, 0, paths.len() as int);
}

} // verus!
