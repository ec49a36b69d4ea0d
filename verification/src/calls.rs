//! The four calls that a synchronisation run makes to the remote service,
//! and how each of them ends under the retry policy.

use crate::decode::{RemoteError, RemoteErrorView};
use crate::retry::{course, follow, Outcome, MAX_RETRIES};
use vstd::prelude::*;

verus! {

/// The calls of a run.
#[derive(Debug, PartialEq, Eq, Clone, Copy, Structural)]
pub enum Operation {
    /// The call for a page of the series listing.
    Listing,
    /// The call for the scores of a series.
    Scores,
    /// The call for the game summary of a series.
    Summary,
    /// The call for the event log of a series.
    EventLog,
}

/// The error of a call that was given up: that of the event log names the
/// event log.
pub open spec fn given_up_view(operation: Operation) -> RemoteErrorView {
    match operation {
        Operation::EventLog => RemoteErrorView::EventLogMaxRetries,
        _ => RemoteErrorView::MaxRetries,
    }
}

/// How a call ends when its successive attempts would end as `outcomes`
/// say: with the number of the attempt that was delivered, counted from
/// one, or with the error of a call given up.
pub open spec fn call_end(operation: Operation, outcomes: Seq<Outcome>) -> Result<
    u32,
    RemoteErrorView,
> {
    if course(outcomes).delivered {
        Ok(course(outcomes).attempts)
    } else {
        Err(given_up_view(operation))
    }
}

/// The error of a call that was given up.
pub fn given_up(operation: Operation) -> (r: RemoteError)
    ensures
        r@ == given_up_view(operation),
{
    match operation {
        Operation::EventLog => RemoteError::EventLogMaxRetries,
        _ => RemoteError::MaxRetries,
    }
}

/// Follows the retry policy through a call whose successive attempts end as
/// `outcomes` say, and says how the call ends.
pub fn end_call(operation: Operation, outcomes: &Vec<Outcome>) -> (r: Result<u32, RemoteError>)
    ensures
        match r {
            Ok(attempts) => call_end(operation, outcomes@) == Ok::<u32, RemoteErrorView>(attempts),
            Err(error) => call_end(operation, outcomes@) == Err::<u32, RemoteErrorView>(error@),
        },
{
    let followed = follow(outcomes);
    if followed.delivered {
        Ok(followed.attempts)
    } else {
        Err(given_up(operation))
    }
}

/// A call whose first `MAX_RETRIES` attempts all fail ends in the error of
/// a call given up. For the event log its message is the one that names the
/// event log; for every other call it is the plain one.
pub proof fn law_exhausted_call_is_given_up(operation: Operation, outcomes: Seq<Outcome>)
    requires
        outcomes.len() >= MAX_RETRIES,
        forall|i: int| 0 <= i < MAX_RETRIES ==> outcomes[i] != Outcome::Success,
    ensures
        call_end(operation, outcomes) == Err::<u32, RemoteErrorView>(given_up_view(operation)),
        course(outcomes).attempts == MAX_RETRIES,
        operation == Operation::EventLog ==> given_up_view(operation).message()
            == "Max retries reached for event log"@,
        operation != Operation::EventLog ==> given_up_view(operation).message()
            == "Max retries reached"@,
{
    crate::retry::law_exhaustion(outcomes);
}

} // verus!
