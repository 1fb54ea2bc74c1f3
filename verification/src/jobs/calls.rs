//! Making the transport calls of a subscription one after the other: what
//! to do first, and what to do after each answer of the transport.

use crate::jobs::Jobs;
use vstd::prelude::*;

verus! {

/// What the caller of the transport does next.
#[derive(Debug, Clone, Copy, PartialEq, Eq)]
pub enum Next {
    /// Make the transport call for the batch at this position.
    Call(usize),
    /// Make no further call: the operation ends with this result.
    Done(Result<(), ()>),
}

/// What to do when `made` calls have been made and the last of them, if
/// there was one, was accepted or not. A refusal ends the operation with an
/// error at once. Otherwise the next of the `batches` calls is made, and
/// after the last the operation ends with `result`.
pub open spec fn step(batches: usize, result: Result<(), ()>, made: usize, accepted: bool) -> Next {
    if !accepted {
        Next::Done(Err(()))
    } else if made < batches {
        Next::Call(made)
    } else {
        Next::Done(result)
    }
}

/// How an operation goes from the point where `made` calls have been made,
/// where the transport accepts call `i` exactly if `answers[i]`: the number
/// of calls made in all, and the result.
pub open spec fn run(
    batches: usize,
    result: Result<(), ()>,
    answers: Seq<bool>,
    made: usize,
    accepted: bool,
) -> (usize, Result<(), ()>)
    decreases batches - made,
{
    match step(batches, result, made, accepted) {
        Next::Done(r) => (made, r),
        Next::Call(_) => if made < batches {
            run(batches, result, answers, (made + 1) as usize, answers[made as int])
        } else {
            (made, result)
        },
    }
}

impl Jobs {
    /// What to do before any transport call has been made: the first of
    /// `batches` calls, or nothing where there is none.
    pub fn first_call(batches: usize, result: Result<(), ()>) -> (n: Next)
        ensures
            n == step(batches, result, 0, true),
    {
        if batches > 0 {
            Next::Call(0)
        } else {
            Next::Done(result)
        }
    }

    /// What to do when `made` calls have been made and the transport has
    /// given `answer` to the last of them.
    pub fn next_call(
        batches: usize,
        result: Result<(), ()>,
        made: usize,
        answer: Result<(), ()>,
    ) -> (n: Next)
        ensures
            n == step(batches, result, made, answer is Ok),
    {
        if answer.is_err() {
            Next::Done(Err(()))
        } else if made < batches {
            Next::Call(made)
        } else {
            Next::Done(result)
        }
    }
}

/// From the point where `made` calls have been made and accepted, an
/// operation goes on to the first call that the transport refuses.
proof fn lemma_run_from(
    batches: usize,
    result: Result<(), ()>,
    answers: Seq<bool>,
    made: usize,
    refused: int,
)
    requires
        answers.len() == batches,
        made <= refused <= batches,
        forall|i: int| made <= i < refused ==> answers[i],
        refused < batches ==> !answers[refused],
    ensures
        run(batches, result, answers, made, true) == if refused < batches {
            ((refused + 1) as usize, Err::<(), ()>(()))
        } else {
            (batches, result)
        },
    decreases batches - made,
{
    if made < batches {
        if made < refused {
            lemma_run_from(batches, result, answers, (made + 1) as usize, refused);
        } else {
            assert(run(batches, result, answers, (made + 1) as usize, false) == (
                (made + 1) as usize,
                Err::<(), ()>(()),
            ));
        }
    }
}

/// The calls are made in order, and the first that the transport refuses is
/// the last: the operation ends there with an error, whatever was still to
/// come. Where the transport accepts every call, all are made and the
/// operation ends with `result`.
pub proof fn lemma_run_stops_at_first_refusal(
    batches: usize,
    result: Result<(), ()>,
    answers: Seq<bool>,
    refused: int,
)
    requires
        answers.len() == batches,
        0 <= refused <= batches,
        forall|i: int| 0 <= i < refused ==> answers[i],
        refused < batches ==> !answers[refused],
    ensures
        run(batches, result, answers, 0, true) == if refused < batches {
            ((refused + 1) as usize, Err::<(), ()>(()))
        } else {
            (batches, result)
        },
{
    lemma_run_from(batches, result, answers, 0, refused);
}

} // verus!
