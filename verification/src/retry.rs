//! How often a request is made, and how long to wait before it is made again.
use crate::error;
use crate::error::{DlError, DlErrorView};
use vstd::arithmetic::power2::*;
use vstd::prelude::*;

verus! {

/// How often a segment is asked for.
pub const MAX_ATTEMPTS: usize = 6;

/// How often a single stream is asked for.
pub const MAX_SINGLE_STREAM_ATTEMPTS: usize = 5;

/// The longest wait, in milliseconds, before a rate-limited single stream is asked for again.
pub const MAX_RATE_LIMIT_WAIT_MS: u64 = 30000;

/// A number below 500 drawn from the clock: one step of a linear congruential generator on the
/// low 64 bits of the nanoseconds.
pub open spec fn jitter(nanos: int) -> int {
    (((nanos % 0x1_0000_0000_0000_0000) * 6364136223846793005 + 1) % 0x1_0000_0000_0000_0000) % 500
}

/// The jitter in milliseconds at a moment, given in nanoseconds since 1970.
pub fn get_jitter_ms(nanos: u128) -> (r: u64)
    ensures
        r == jitter(nanos as int),
        r < 500,
{
    let seed: u128 = nanos % 0x1_0000_0000_0000_0000;
    proof {
        assert(seed * 6364136223846793005 + 1 <= u128::MAX) by (nonlinear_arith)
            requires
                0 <= seed < 0x1_0000_0000_0000_0000,
        ;
    }
    let next: u128 = (seed * 6364136223846793005 + 1) % 0x1_0000_0000_0000_0000;
    (next % 500) as u64
}

/// A wait that doubles with each attempt, from `base` on.
pub open spec fn backoff(base: int, attempt: int) -> int {
    base * pow2((attempt - 1) as nat)
}

/// The wait in milliseconds after the failed attempt `attempt` at a segment.
pub open spec fn segment_wait(error: DlErrorView, attempt: int, jitter_ms: int) -> int {
    match error {
        DlErrorView::RateLimited { message, retry_after } => match retry_after {
            Some(seconds) => seconds * 1000,
            None => (2 + attempt) * 1000,
        },
        _ => backoff(1000, attempt) + jitter_ms,
    }
}

/// The wait in milliseconds after the failed attempt `attempt` at a single stream.
pub open spec fn single_stream_wait(error: DlErrorView, attempt: int, jitter_ms: int) -> int {
    match error {
        DlErrorView::RateLimited { message, retry_after } => {
            let wait = match retry_after {
                Some(seconds) => seconds * 1000,
                None => backoff(2000, attempt) + jitter_ms,
            };
            if wait > MAX_RATE_LIMIT_WAIT_MS {
                MAX_RATE_LIMIT_WAIT_MS as int
            } else {
                wait
            }
        },
        _ => backoff(1000, attempt) + jitter_ms,
    }
}

/// What comes after an attempt.
#[derive(Debug, PartialEq, Eq)]
pub enum AttemptStep {
    Done,
    /// Try again after this many milliseconds.
    Retry { wait_ms: u128 },
    Failed(DlError),
}

pub enum AttemptStepView {
    Done,
    Retry { wait_ms: int },
    Failed(DlErrorView),
}

impl View for AttemptStep {
    type V = AttemptStepView;

    open spec fn view(&self) -> AttemptStepView {
        match *self {
            AttemptStep::Done => AttemptStepView::Done,
            AttemptStep::Retry { wait_ms } => AttemptStepView::Retry { wait_ms: wait_ms as int },
            AttemptStep::Failed(error) => AttemptStepView::Failed(error@),
        }
    }
}

/// What comes after attempt `attempt` at a segment.
pub open spec fn segment_next(
    outcome: Result<(), DlErrorView>,
    attempt: int,
    jitter_ms: int,
) -> AttemptStepView {
    match outcome {
        Ok(()) => AttemptStepView::Done,
        Err(error) => if attempt < MAX_ATTEMPTS && error::retryable(error) {
            AttemptStepView::Retry { wait_ms: segment_wait(error, attempt, jitter_ms) }
        } else {
            AttemptStepView::Failed(error)
        },
    }
}

/// The wait in milliseconds before the attempt that follows the failed attempt `attempt` at a
/// single stream, if one follows.
pub open spec fn single_stream_retry(
    error: DlErrorView,
    attempt: int,
    jitter_ms: int,
) -> Option<int> {
    if attempt < MAX_SINGLE_STREAM_ATTEMPTS && error::retryable(error) {
        Some(single_stream_wait(error, attempt, jitter_ms))
    } else {
        None
    }
}

pub open spec fn outcome_view(outcome: Result<(), DlError>) -> Result<(), DlErrorView> {
    match outcome {
        Ok(()) => Ok(()),
        Err(error) => Err(error@),
    }
}

fn backoff_ms(base: u64, attempt: usize) -> (r: u128)
    requires
        1 <= attempt <= 6,
    ensures
        r == backoff(base as int, attempt as int),
        r <= base * 32,
{
    proof {
        lemma2_to64();
    }
    let factor: u128 = match attempt {
        1 => 1,
        2 => 2,
        3 => 4,
        4 => 8,
        5 => 16,
        _ => 32,
    };
    base as u128 * factor
}

/// What comes after attempt `attempt` at a segment, with `jitter_ms` to spread the waits.
pub fn download_segment(
    outcome: Result<(), DlError>,
    attempt: usize,
    jitter_ms: u64,
) -> (r: AttemptStep)
    requires
        1 <= attempt <= MAX_ATTEMPTS,
    ensures
        r@ == segment_next(outcome_view(outcome), attempt as int, jitter_ms as int),
{
    match outcome {
        Ok(()) => AttemptStep::Done,
        Err(error) => {
            if attempt < MAX_ATTEMPTS && error::is_error_retryable(&error) {
                let wait_ms: u128 = match &error {
                    DlError::RateLimited { retry_after, .. } => match retry_after {
                        Some(seconds) => *seconds as u128 * 1000,
                        None => (2 + attempt as u128) * 1000,
                    },
                    _ => backoff_ms(1000, attempt) + jitter_ms as u128,
                };
                AttemptStep::Retry { wait_ms }
            } else {
                AttemptStep::Failed(error)
            }
        },
    }
}

/// The wait in milliseconds before a single stream is asked for again after the failed attempt
/// `attempt`; none if it is not.
pub fn retry_single_stream(error: &DlError, attempt: usize, jitter_ms: u64) -> (r: Option<u128>)
    requires
        1 <= attempt <= MAX_SINGLE_STREAM_ATTEMPTS,
    ensures
        match single_stream_retry(error@, attempt as int, jitter_ms as int) {
            Some(wait_ms) => r is Some && r->Some_0 == wait_ms,
            None => r is None,
        },
{
    if attempt < MAX_SINGLE_STREAM_ATTEMPTS && error::is_error_retryable(error) {
        let wait_ms: u128 = match error {
            DlError::RateLimited { retry_after, .. } => {
                let wait: u128 = match retry_after {
                    Some(seconds) => *seconds as u128 * 1000,
                    None => backoff_ms(2000, attempt) + jitter_ms as u128,
                };
                if wait > MAX_RATE_LIMIT_WAIT_MS as u128 {
                    MAX_RATE_LIMIT_WAIT_MS as u128
                } else {
                    wait
                }
            },
            _ => backoff_ms(1000, attempt) + jitter_ms as u128,
        };
        Some(wait_ms)
    } else {
        None
    }
}

/// The last attempt is never followed by another, whatever came of it.
pub proof fn law_attempts_are_bounded(outcome: Result<(), DlErrorView>, jitter_ms: u64)
    ensures
        segment_next(outcome, MAX_ATTEMPTS as int, jitter_ms as int) !is Retry,
        outcome is Err ==> single_stream_retry(
            outcome->Err_0,
            MAX_SINGLE_STREAM_ATTEMPTS as int,
            jitter_ms as int,
        ) is None,
{
}

/// An error that is not worth another try ends the request at once and is handed on as it is.
pub proof fn law_final_errors_are_handed_on(error: DlErrorView, attempt: usize, jitter_ms: u64)
    requires
        !error::retryable(error),
    ensures
        segment_next(Err(error), attempt as int, jitter_ms as int) == AttemptStepView::Failed(
            error,
        ),
        single_stream_retry(error, attempt as int, jitter_ms as int) is None,
{
}

/// Without a rate limit, the wait after each attempt, jitter aside, is twice the wait before.
pub proof fn law_waits_double(error: DlErrorView, attempt: usize, jitter_ms: u64)
    requires
        1 <= attempt < usize::MAX,
        error !is RateLimited,
    ensures
        segment_wait(error, attempt + 1, 0) == 2 * segment_wait(error, attempt as int, 0),
        single_stream_wait(error, attempt + 1, 0) == 2 * single_stream_wait(
            error,
            attempt as int,
            0,
        ),
        segment_wait(error, attempt as int, jitter_ms as int) == segment_wait(
            error,
            attempt as int,
            0,
        ) + jitter_ms,
{
    lemma_pow2_unfold(attempt as nat);
}

/// The wait that the server asks for is kept: to the second for a segment, and up to half a
/// minute for a single stream.
pub proof fn law_requested_wait_is_kept(
    message: Seq<char>,
    seconds: u64,
    attempt: usize,
    jitter_ms: u64,
)
    ensures
        ({
            let error = DlErrorView::RateLimited { message, retry_after: Some(seconds) };
            &&& segment_wait(error, attempt as int, jitter_ms as int) == seconds * 1000
            &&& single_stream_wait(error, attempt as int, jitter_ms as int) == if seconds > 30 {
                30000
            } else {
                seconds * 1000
            }
        }),
{
}

/// A single stream that is rate limited never waits longer than half a minute.
pub proof fn law_rate_limit_wait_is_capped(error: DlErrorView, attempt: usize, jitter_ms: u64)
    requires
        error is RateLimited,
    ensures
        single_stream_wait(error, attempt as int, jitter_ms as int) <= 30000,
{
}

/// A success is the end of it, and what a rate limit, the server or the transport failed is asked
/// for again: a segment after each of its first five attempts, a single stream after each of its
/// first four, and never more.
pub proof fn law_passing_failures_are_tried_again(
    error: DlErrorView,
    attempt: usize,
    jitter_ms: u64,
)
    requires
        error is RateLimited || error is ServerError || error is Http,
        attempt >= 1,
    ensures
        segment_next(Ok(()), attempt as int, jitter_ms as int) is Done,
        segment_next(Err(error), attempt as int, jitter_ms as int) is Retry <==> attempt <= 5,
        segment_next(Err(error), attempt as int, jitter_ms as int) is Failed <==> attempt >= 6,
        single_stream_retry(error, attempt as int, jitter_ms as int) is Some <==> attempt <= 4,
{
}

/// The waits in milliseconds: one second, doubled with each attempt, and the jitter; after a rate
/// limit without a wait, a second more each time from three on for a segment, and two seconds
/// doubled, up to half a minute, for a single stream.
pub proof fn law_waits_are_known(error: DlErrorView, attempt: usize, jitter_ms: u64)
    requires
        1 <= attempt <= 5,
    ensures
        ({
            let factor: int = if attempt == 1 {
                1
            } else if attempt == 2 {
                2
            } else if attempt == 3 {
                4
            } else if attempt == 4 {
                8
            } else {
                16
            };
            let segment = segment_next(Err(error), attempt as int, jitter_ms as int);
            let stream = single_stream_retry(error, attempt as int, jitter_ms as int);
            let limited = 2000 * factor + jitter_ms;
            &&& error !is RateLimited && segment is Retry ==> segment->wait_ms == 1000 * factor
                + jitter_ms
            &&& error !is RateLimited && stream is Some ==> stream->Some_0 == 1000 * factor
                + jitter_ms
            &&& error is RateLimited && error->retry_after is None && segment is Retry
                ==> segment->wait_ms == 2000 + attempt * 1000
            &&& error is RateLimited && error->retry_after is None && stream is Some
                ==> stream->Some_0 == if limited < 30000 {
                limited
            } else {
                30000
            }
            &&& error is RateLimited && error->retry_after is Some && segment is Retry
                ==> segment->wait_ms == error->retry_after->Some_0 * 1000
            &&& error is RateLimited && error->retry_after is Some && stream is Some
                ==> stream->Some_0 == if error->retry_after->Some_0 < 30 {
                error->retry_after->Some_0 * 1000
            } else {
                30000
            }
        }),
{
    lemma2_to64();
}

/// The jitter is below half a second; it is the low 64 bits of one step of the generator, taken
/// modulo 500, and only the low 64 bits of the clock count.
pub proof fn law_jitter_is_one_step(nanos: u128, turns: int)
    requires
        nanos <= u64::MAX,
        0 <= nanos * 6364136223846793005 + 1 - turns * 0x1_0000_0000_0000_0000
            < 0x1_0000_0000_0000_0000,
    ensures
        0 <= jitter(nanos as int) < 500,
        jitter(nanos as int) == (nanos * 6364136223846793005 + 1 - turns
            * 0x1_0000_0000_0000_0000) % 500,
        jitter(nanos + 0x1_0000_0000_0000_0000) == jitter(nanos as int),
{
    let bits = 0x1_0000_0000_0000_0000int;
    let step = nanos * 6364136223846793005 + 1;
    vstd::arithmetic::div_mod::lemma_small_mod(nanos as nat, bits as nat);
    vstd::arithmetic::div_mod::lemma_mod_add_multiples_vanish(nanos as int, bits);
    vstd::arithmetic::div_mod::lemma_fundamental_div_mod_converse(
        step,
        bits,
        turns,
        step - turns * bits,
    );
}

} // verus!
