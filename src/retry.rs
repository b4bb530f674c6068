//! The retry and backoff machine for upstream calls. The caller acquires the
//! global gate once, sends the request, and hands each reply to the machine,
//! which answers with a wait before the same request is sent again, or with
//! the outcome.
use vstd::prelude::*;
use crate::document::{is_document, json_accepts};

verus! {

/// Retries after the first attempt before a throttled call gives up.
pub const MAX_RETRIES: u32 = 3;

/// The wait before the first retry, in milliseconds; each later one doubles.
pub const FIRST_BACKOFF_MS: u64 = 1000;

/// The HTTP status with which the provider throttles a caller.
pub const TOO_MANY_REQUESTS: u16 = 429;

/// What an attempt came back with.
#[derive(Clone, Debug, PartialEq, Eq)]
pub enum UpstreamReply {
    /// The provider throttled the call.
    Throttled,
    /// Any other reply, with its body.
    Body(String),
    /// No reply: the connection failed or timed out.
    TransportFailed(String),
}

/// Why a fetch failed.
#[derive(Clone, Debug, PartialEq, Eq)]
pub enum FetchError {
    /// Still throttled after every retry.
    Throttled,
    /// The call did not get through.
    Transport(String),
    /// The body is no JSON document.
    Parse,
}

/// What the caller does next.
#[derive(Debug, PartialEq, Eq)]
pub enum RetryStep {
    /// Sleep this many milliseconds, then send the same request again.
    Wait(u64),
    /// Stop with this outcome; a success carries the body verbatim.
    Finished(Result<String, FetchError>),
}

/// The wait before retry number `n + 1`.
pub open spec fn backoff_for(n: nat) -> nat
    decreases n,
{
    if n == 0 {
        FIRST_BACKOFF_MS as nat
    } else {
        2 * backoff_for((n - 1) as nat)
    }
}

/// Whether an HTTP status is the provider's throttling signal.
pub fn is_throttled_status(status: u16) -> (r: bool)
    ensures
        r == (status == TOO_MANY_REQUESTS),
{
    status == TOO_MANY_REQUESTS
}

/// The machine's state: retries spent and the next wait.
pub struct RetryState {
    retries: u32,
    backoff_ms: u64,
}

impl RetryState {
    pub closed spec fn retries_spent(&self) -> nat {
        self.retries as nat
    }

    pub closed spec fn wf(&self) -> bool {
        &&& self.retries <= MAX_RETRIES
        &&& self.backoff_ms == backoff_for(self.retries as nat)
    }

    /// The state before the first attempt.
    pub fn start() -> (s: RetryState)
        ensures
            s.wf(),
            s.retries_spent() == 0,
    {
        RetryState { retries: 0, backoff_ms: FIRST_BACKOFF_MS }
    }

    /// Decide on the reply to the latest attempt. A throttled attempt is
    /// retried after `backoff_for(retries)` until `MAX_RETRIES` retries are
    /// spent; a transport failure ends at once; any other reply ends with its
    /// body, or with a parse error where the body is no JSON document.
    pub fn on_reply(&mut self, reply: UpstreamReply) -> (step: RetryStep)
        requires
            old(self).wf(),
        ensures
            final(self).wf(),
            match reply {
                UpstreamReply::Throttled => if old(self).retries_spent() < MAX_RETRIES {
                    &&& step == RetryStep::Wait(backoff_for(old(self).retries_spent()) as u64)
                    &&& final(self).retries_spent() == old(self).retries_spent() + 1
                } else {
                    &&& step == RetryStep::Finished(Err(FetchError::Throttled))
                    &&& final(self).retries_spent() == old(self).retries_spent()
                },
                UpstreamReply::Body(b) => {
                    &&& step == if json_accepts(b@) {
                        RetryStep::Finished(Ok(b))
                    } else {
                        RetryStep::Finished(Err(FetchError::Parse))
                    }
                    &&& final(self).retries_spent() == old(self).retries_spent()
                },
                UpstreamReply::TransportFailed(m) => {
                    &&& step == RetryStep::Finished(Err(FetchError::Transport(m)))
                    &&& final(self).retries_spent() == old(self).retries_spent()
                },
            },
    {
        match reply {
            UpstreamReply::Throttled => {
                if self.retries >= MAX_RETRIES {
                    RetryStep::Finished(Err(FetchError::Throttled))
                } else {
                    let wait = self.backoff_ms;
                    proof {
                        assert(backoff_for((self.retries + 1) as nat) == 2 * backoff_for(
                            self.retries as nat,
                        ));
                        assert(backoff_for(0) == 1000);
                        assert(backoff_for(1) == 2000);
                        assert(backoff_for(2) == 4000);
                    }
                    self.retries = self.retries + 1;
                    self.backoff_ms = wait * 2;
                    RetryStep::Wait(wait)
                }
            },
            UpstreamReply::Body(b) => {
                if is_document(b.as_str()) {
                    RetryStep::Finished(Ok(b))
                } else {
                    RetryStep::Finished(Err(FetchError::Parse))
                }
            },
            UpstreamReply::TransportFailed(m) => RetryStep::Finished(Err(FetchError::Transport(m))),
        }
    }
}

} // verus!
