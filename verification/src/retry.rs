//! Deciding, after each answer, whether a batch is sent again.
use vstd::prelude::*;
use vstd::string::*;
use crate::request::{build_request, encode_batch, framed_request, joined};
use crate::text::{line_texts, same_bytes};
use crate::response::{error_fields, parse_error};

verus! {

/// The pause before a batch is sent again, in seconds.
pub const BACKOFF_SECONDS: u64 = 1;

/// The error type that marks a failure on the server's side, worth another try.
pub open spec fn transient_type() -> Seq<u8> {
    "server_error".spec_bytes()
}

/// Where the handling of one batch stands.
#[derive(Debug, Clone, Copy, PartialEq, Eq)]
pub enum Phase {
    /// The batch is to be sent.
    Attempting,
    /// The last answer reported a transient error: pause, then send again.
    RecoverableFailure,
    /// The last answer reported no error.
    Succeeded,
    /// The last answer reported an error that is not retried, or the budget is spent.
    GivenUp,
}

/// The phase and the number of resubmissions still allowed.
#[derive(Debug, Clone, Copy, PartialEq, Eq)]
pub struct RetryState {
    pub phase: Phase,
    pub remaining: usize,
}

/// What the caller is to do next.
#[derive(Debug, Clone, Copy, PartialEq, Eq)]
pub enum Action {
    /// Send the request and report the answer.
    Send,
    /// Wait this many seconds and report that the pause is over.
    Pause(u64),
    /// Stop sending and interpret the last answer.
    Interpret,
}

/// The state after an answer that reported `error` (message and type), or none.
pub open spec fn after_answer(state: RetryState, error: Option<(Seq<u8>, Seq<u8>)>) -> RetryState {
    if state.phase != Phase::Attempting {
        state
    } else {
        match error {
            None => RetryState { phase: Phase::Succeeded, remaining: state.remaining },
            Some((_, kind)) => if kind == transient_type() && state.remaining > 0 {
                RetryState {
                    phase: Phase::RecoverableFailure,
                    remaining: (state.remaining - 1) as usize,
                }
            } else {
                RetryState { phase: Phase::GivenUp, remaining: state.remaining }
            },
        }
    }
}

/// The state after a pause.
pub open spec fn after_pause(state: RetryState) -> RetryState {
    if state.phase == Phase::RecoverableFailure {
        RetryState { phase: Phase::Attempting, remaining: state.remaining }
    } else {
        state
    }
}

/// The number of times a batch is sent from `state` on, when every answer
/// reports a transient error.
pub open spec fn sends_while_failing(state: RetryState) -> nat
    decreases
        state.remaining,
        (match state.phase {
            Phase::RecoverableFailure => 2nat,
            Phase::Attempting => 1nat,
            _ => 0nat,
        }),
{
    match state.phase {
        Phase::Attempting => {
            let next = after_answer(state, Some((Seq::empty(), transient_type())));
            1 + sends_while_failing(next)
        },
        Phase::RecoverableFailure => sends_while_failing(after_pause(state)),
        _ => 0,
    }
}

/// An error of this type is worth another try.
pub fn is_transient(error_type: &[u8]) -> (r: bool)
    ensures
        r == (error_type@ == transient_type()),
{
    same_bytes(error_type, "server_error".as_bytes())
}

impl RetryState {
    /// The state in which a batch starts, with `budget` resubmissions allowed.
    pub fn start(budget: usize) -> (r: RetryState)
        ensures
            r == (RetryState { phase: Phase::Attempting, remaining: budget }),
    {
        RetryState { phase: Phase::Attempting, remaining: budget }
    }

    /// What the caller is to do in this state.
    pub fn action(&self) -> (r: Action)
        ensures
            r == match self.phase {
                Phase::Attempting => Action::Send,
                Phase::RecoverableFailure => Action::Pause(BACKOFF_SECONDS),
                Phase::Succeeded => Action::Interpret,
                Phase::GivenUp => Action::Interpret,
            },
    {
        match self.phase {
            Phase::Attempting => Action::Send,
            Phase::RecoverableFailure => Action::Pause(BACKOFF_SECONDS),
            Phase::Succeeded => Action::Interpret,
            Phase::GivenUp => Action::Interpret,
        }
    }

    /// The batch was sent and `response` came back. Also hands out the
    /// error that the response reports, for the caller to log.
    pub fn on_response(self, response: &[u8]) -> (r: (RetryState, Option<(Vec<u8>, Vec<u8>)>))
        ensures
            r.0 == after_answer(self, error_fields(response@)),
            r.0.remaining <= self.remaining,
            match r.1 {
                Some((m, t)) => error_fields(response@) == Some((m@, t@)),
                None => error_fields(response@) is None,
            },
    {
        let error = parse_error(response);
        let next = match self.phase {
            Phase::Attempting => match &error {
                None => RetryState { phase: Phase::Succeeded, remaining: self.remaining },
                Some(fields) => {
                    if is_transient(fields.1.as_slice()) && self.remaining > 0 {
                        RetryState {
                            phase: Phase::RecoverableFailure,
                            remaining: self.remaining - 1,
                        }
                    } else {
                        RetryState { phase: Phase::GivenUp, remaining: self.remaining }
                    }
                },
            },
            _ => self,
        };
        (next, error)
    }

    /// The pause is over.
    pub fn on_pause_over(self) -> (r: RetryState)
        ensures
            r == after_pause(self),
    {
        match self.phase {
            Phase::RecoverableFailure => RetryState {
                phase: Phase::Attempting,
                remaining: self.remaining,
            },
            _ => self,
        }
    }
}

/// The request for one batch: its lines escaped, quoted and listed in order.
pub fn batch_request(api_key: &[u8], lines: &[Vec<u8>]) -> (r: Vec<u8>)
    ensures
        r@ == framed_request(api_key@, joined(line_texts(lines@))),
{
    let chunk = encode_batch(lines);
    build_request(api_key, chunk.as_slice())
}

/// An error of any other type ends the sending at once and leaves the
/// budget as it was; so does an answer without an error.
pub proof fn lemma_only_transient_errors_are_retried(
    state: RetryState,
    error: Option<(Seq<u8>, Seq<u8>)>,
)
    requires
        state.phase == Phase::Attempting,
        error matches Some((_, kind)) ==> kind != transient_type(),
    ensures
        after_answer(state, error).remaining == state.remaining,
        after_answer(state, error).phase == if error is Some {
            Phase::GivenUp
        } else {
            Phase::Succeeded
        },
{
}

/// A batch whose every answer reports a transient error is sent once, and
/// once more for each resubmission that the budget allows.
pub proof fn lemma_sends_while_failing(budget: usize)
    ensures
        sends_while_failing(RetryState { phase: Phase::Attempting, remaining: budget }) == budget
            + 1,
    decreases budget,
{
    let state = RetryState { phase: Phase::Attempting, remaining: budget };
    let next = after_answer(state, Some((Seq::empty(), transient_type())));
    assert(sends_while_failing(state) == 1 + sends_while_failing(next));
    if budget > 0 {
        lemma_sends_while_failing((budget - 1) as usize);
        assert(after_pause(next) == RetryState {
            phase: Phase::Attempting,
            remaining: (budget - 1) as usize,
        });
        assert(sends_while_failing(next) == sends_while_failing(after_pause(next)));
    } else {
        assert(next.phase == Phase::GivenUp);
        assert(sends_while_failing(next) == 0);
    }
}

} // verus!
