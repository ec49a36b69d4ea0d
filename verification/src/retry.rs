//! The retry policy for calls to the remote service.
//!
//! Each call is attempted at most `MAX_RETRIES` times. After an attempt that
//! fails, for whatever reason, the caller waits two to the power of the
//! attempt's number in seconds, counting attempts from zero.

use vstd::prelude::*;

verus! {

/// The largest number of attempts made for one call.
pub const MAX_RETRIES: u32 = 5;

/// The status code of a rate-limited response.
pub const TOO_MANY_REQUESTS: u16 = 429;

/// How an attempt ended.
#[derive(Debug, PartialEq, Eq, Clone, Copy, Structural)]
pub enum Outcome {
    /// A response with a success status.
    Success,
    /// A response that says the caller is rate-limited.
    RateLimited,
    /// A network error, or a response with any other status.
    Failed,
}

/// What the caller does after an attempt.
#[derive(Debug, PartialEq, Eq, Clone, Copy, Structural)]
pub enum Decision {
    /// The response is delivered: the call is done.
    Deliver,
    /// The caller waits `seconds` and makes the attempt numbered `attempt`.
    Retry { seconds: u64, attempt: u32 },
    /// The caller waits `seconds` and gives the call up.
    GiveUp { seconds: u64 },
}

/// Two to the power of `n`.
pub open spec fn pow2(n: nat) -> nat
    decreases n,
{
    if n == 0 {
        1
    } else {
        2 * pow2((n - 1) as nat)
    }
}

/// How an attempt ended, by the status of its response; `None` stands for a
/// network error.
pub open spec fn outcome_of(status: Option<u16>) -> Outcome {
    match status {
        Some(code) => if 200 <= code < 300 {
            Outcome::Success
        } else if code == TOO_MANY_REQUESTS {
            Outcome::RateLimited
        } else {
            Outcome::Failed
        },
        None => Outcome::Failed,
    }
}

/// What the policy decides after the attempt numbered `attempt` ended in
/// `outcome`.
pub open spec fn decision(attempt: u32, outcome: Outcome) -> Decision {
    if outcome == Outcome::Success {
        Decision::Deliver
    } else if attempt + 1 < MAX_RETRIES {
        Decision::Retry { seconds: pow2(attempt as nat) as u64, attempt: (attempt + 1) as u32 }
    } else {
        Decision::GiveUp { seconds: pow2(attempt as nat) as u64 }
    }
}

/// What a call comes to when its successive attempts would end as
/// `outcomes` say: how many attempts are made, whether a response is
/// delivered, and how many seconds are waited in all.
#[derive(Debug, PartialEq, Eq, Clone, Copy, Structural)]
pub struct Course {
    pub attempts: u32,
    pub delivered: bool,
    pub waited: u64,
}

/// The course of a call from the attempt numbered `attempt` on, after
/// `waited` seconds. An attempt for which `outcomes` has no entry is not
/// made.
pub open spec fn course_from(outcomes: Seq<Outcome>, attempt: u32, waited: u64) -> Course
    decreases MAX_RETRIES - attempt,
{
    if attempt >= MAX_RETRIES || attempt >= outcomes.len() {
        Course { attempts: attempt, delivered: false, waited }
    } else {
        match decision(attempt, outcomes[attempt as int]) {
            Decision::Deliver => Course {
                attempts: (attempt + 1) as u32,
                delivered: true,
                waited,
            },
            Decision::Retry { seconds, attempt: next } => course_from(
                outcomes,
                next,
                (waited + seconds) as u64,
            ),
            Decision::GiveUp { seconds } => Course {
                attempts: (attempt + 1) as u32,
                delivered: false,
                waited: (waited + seconds) as u64,
            },
        }
    }
}

/// The course of a call from its first attempt.
pub open spec fn course(outcomes: Seq<Outcome>) -> Course {
    course_from(outcomes, 0, 0)
}

/// The powers of two that the policy uses.
pub proof fn lemma_pow2_small()
    ensures
        pow2(0) == 1,
        pow2(1) == 2,
        pow2(2) == 4,
        pow2(3) == 8,
        pow2(4) == 16,
{
    reveal_with_fuel(pow2, 6);
}

/// How an attempt ended, by the status of its response; `None` stands for a
/// network error.
pub fn classify(status: Option<u16>) -> (r: Outcome)
    ensures
        r == outcome_of(status),
{
    match status {
        Some(code) => if 200 <= code && code < 300 {
            Outcome::Success
        } else if code == TOO_MANY_REQUESTS {
            Outcome::RateLimited
        } else {
            Outcome::Failed
        },
        None => Outcome::Failed,
    }
}

/// The seconds to wait after the attempt numbered `attempt` failed.
pub fn backoff_seconds(attempt: u32) -> (r: u64)
    requires
        attempt < MAX_RETRIES,
    ensures
        r == pow2(attempt as nat),
{
    proof {
        lemma_pow2_small();
    }
    let mut seconds: u64 = 1;
    let mut i: u32 = 0;
    while i < attempt
        invariant
            i <= attempt < MAX_RETRIES,
            seconds == pow2(i as nat),
            seconds <= 16,
        decreases attempt - i,
    {
        proof {
            lemma_pow2_small();
        }
        seconds = seconds * 2;
        i += 1;
    }
    seconds
}

/// Decides what follows the attempt numbered `attempt`, which ended in
/// `outcome`.
pub fn decide(attempt: u32, outcome: Outcome) -> (r: Decision)
    requires
        attempt < MAX_RETRIES,
    ensures
        r == decision(attempt, outcome),
{
    match outcome {
        Outcome::Success => Decision::Deliver,
        _ => {
            let seconds = backoff_seconds(attempt);
            if attempt + 1 < MAX_RETRIES {
                Decision::Retry { seconds, attempt: attempt + 1 }
            } else {
                Decision::GiveUp { seconds }
            }
        },
    }
}

/// Follows the policy through a call whose successive attempts end as
/// `outcomes` say.
pub fn follow(outcomes: &Vec<Outcome>) -> (r: Course)
    ensures
        r == course(outcomes@),
{
    let mut attempt: u32 = 0;
    let mut waited: u64 = 0;
    while attempt < MAX_RETRIES && (attempt as usize) < outcomes.len()
        invariant
            attempt <= MAX_RETRIES,
            waited <= 16 * attempt,
            course(outcomes@) == course_from(outcomes@, attempt, waited),
        decreases MAX_RETRIES - attempt,
    {
        proof {
            lemma_pow2_small();
        }
        match decide(attempt, outcomes[attempt as usize]) {
            Decision::Deliver => {
                return Course { attempts: attempt + 1, delivered: true, waited };
            },
            Decision::Retry { seconds, attempt: next } => {
                waited = waited + seconds;
                attempt = next;
            },
            Decision::GiveUp { seconds } => {
                return Course { attempts: attempt + 1, delivered: false, waited: waited + seconds };
            },
        }
    }
    Course { attempts: attempt, delivered: false, waited }
}

/// No call is attempted more than `MAX_RETRIES` times, nor more often than
/// `outcomes` has entries.
pub proof fn law_attempts_bounded(outcomes: Seq<Outcome>)
    ensures
        course(outcomes).attempts <= MAX_RETRIES,
        course(outcomes).attempts <= outcomes.len(),
{
    lemma_course_bounded(outcomes, 0, 0);
}

/// The attempts of a course from `attempt` on are bounded as those of a
/// whole course are.
pub proof fn lemma_course_bounded(outcomes: Seq<Outcome>, attempt: u32, waited: u64)
    requires
        attempt <= MAX_RETRIES,
        attempt <= outcomes.len(),
    ensures
        attempt <= course_from(outcomes, attempt, waited).attempts <= MAX_RETRIES,
        course_from(outcomes, attempt, waited).attempts <= outcomes.len(),
    decreases MAX_RETRIES - attempt,
{
    if attempt < MAX_RETRIES && attempt < outcomes.len() {
        match decision(attempt, outcomes[attempt as int]) {
            Decision::Retry { seconds, attempt: next } => {
                lemma_course_bounded(outcomes, next, (waited + seconds) as u64);
            },
            _ => {},
        }
    }
}

/// A call whose first `MAX_RETRIES` attempts all fail is given up after
/// exactly that many attempts, with nothing delivered, whatever further
/// outcomes stand behind them. The waits are 1, 2, 4, 8 and 16 seconds.
pub proof fn law_exhaustion(outcomes: Seq<Outcome>)
    requires
        outcomes.len() >= MAX_RETRIES,
        forall|i: int| 0 <= i < MAX_RETRIES ==> outcomes[i] != Outcome::Success,
    ensures
        course(outcomes).attempts == MAX_RETRIES,
        !course(outcomes).delivered,
        course(outcomes).waited == 31,
{
    lemma_pow2_small();
    reveal_with_fuel(course_from, 6);
}

/// A call is delivered at the first attempt that succeeds, if that is one
/// of the first `MAX_RETRIES`, and after no further attempt.
pub proof fn law_first_success(outcomes: Seq<Outcome>, k: int)
    requires
        0 <= k < MAX_RETRIES,
        k < outcomes.len(),
        outcomes[k] == Outcome::Success,
        forall|i: int| 0 <= i < k ==> outcomes[i] != Outcome::Success,
    ensures
        course(outcomes).delivered,
        course(outcomes).attempts == k + 1,
{
    lemma_pow2_small();
    reveal_with_fuel(course_from, 6);
}

} // verus!
