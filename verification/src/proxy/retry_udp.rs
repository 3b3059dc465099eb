//! The retry outbound for datagrams: up to `attempts` ordered passes over
//! the inner handlers, delegating to each in turn and answering with the
//! first success.
//!
//! A failure of the framework's dial (`connect_*_outbound`) propagates
//! immediately and is never retried — it means the remote cannot be
//! reached; only a failure of the inner handler's own handshake lets the
//! traversal continue. After the last pass the retry fails with
//! `AllAttemptsFailed`.
use vstd::prelude::*;

use vstd::arithmetic::div_mod::{lemma_mod_multiples_vanish, lemma_small_mod};

use crate::proxy::{DatagramTransportType, HandlerError, OutboundConnect};

verus! {

/// How one delegation step ended, as reported by the caller.
#[derive(Clone, Copy, PartialEq, Eq, Structural, Debug)]
pub enum AttemptOutcome {
    /// The framework's dial for the inner handler failed.
    ConnectFailed,
    /// The inner handler's handshake failed.
    HandleFailed,
    /// The inner handler produced the upstream channel.
    HandleSucceeded,
}

/// What the retry traversal does next.
#[derive(Clone, Copy, PartialEq, Eq, Structural, Debug)]
pub enum RetryVerdict {
    /// Delegate to the inner handler with this index.
    Invoke(usize),
    /// Propagate the dial failure unchanged; dial failures are not retried.
    FailConnect,
    /// Answer with the inner handler's success.
    Succeed,
    /// Every pass failed: answer `AllAttemptsFailed`.
    FailExhausted,
}

/// The retry handler: the tags of its inner handlers, in traversal order,
/// and the number of passes.
pub struct Handler {
    pub actors: Vec<String>,
    pub attempts: usize,
}

impl Handler {
    /// The total number of delegation steps a full traversal makes.
    pub open spec fn total_steps(&self) -> int {
        self.attempts * self.actors@.len()
    }

    /// The inner handler a step targets: the steps walk the handlers in
    /// order, pass after pass.
    pub open spec fn target(&self, step: int) -> int {
        step % (self.actors@.len() as int)
    }

    /// A composed handler dials through its inner handlers, so it asks the
    /// framework to pre-dial nothing.
    pub fn connect_addr(&self) -> (r: Option<OutboundConnect>)
        ensures
            r is None,
    {
        None
    }

    /// A composed handler does not constrain its lower transport.
    pub fn transport_type(&self) -> (r: DatagramTransportType)
        ensures
            r == DatagramTransportType::Undefined,
    {
        DatagramTransportType::Undefined
    }

    /// The error a traversal that ran out of passes answers with.
    pub fn exhausted_error(&self) -> (r: HandlerError)
        ensures
            r == HandlerError::AllAttemptsFailed,
    {
        HandlerError::AllAttemptsFailed
    }

    /// Opens a traversal: the first step targets the first inner handler;
    /// with no pass or no inner handler to try, the traversal is exhausted
    /// at once.
    pub fn start(&self) -> (r: RetryVerdict)
        ensures
            self.attempts > 0 && self.actors@.len() > 0 ==> r == RetryVerdict::Invoke(0usize),
            self.attempts == 0 || self.actors@.len() == 0 ==> r == RetryVerdict::FailExhausted,
    {
        if self.attempts > 0 && self.actors.len() > 0 {
            RetryVerdict::Invoke(0)
        } else {
            RetryVerdict::FailExhausted
        }
    }

    /// Decides after step `step` ended with `outcome`: success answers,
    /// a dial failure propagates, and a handshake failure moves to the next
    /// step in order — or exhausts the traversal after the last one.
    pub fn next(&self, step: usize, outcome: AttemptOutcome) -> (r: RetryVerdict)
        requires
            self.actors@.len() > 0,
            self.total_steps() <= usize::MAX,
            step < self.total_steps(),
        ensures
            outcome is HandleSucceeded ==> r == RetryVerdict::Succeed,
            outcome is ConnectFailed ==> r == RetryVerdict::FailConnect,
            outcome is HandleFailed && step + 1 < self.total_steps() ==> r
                == RetryVerdict::Invoke(((step + 1) as int % (self.actors@.len() as int)) as usize),
            outcome is HandleFailed && step + 1 == self.total_steps() ==> r
                == RetryVerdict::FailExhausted,
            r matches RetryVerdict::Invoke(i) ==> i < self.actors@.len() && i == self.target(
                step + 1,
            ),
    {
        match outcome {
            AttemptOutcome::HandleSucceeded => RetryVerdict::Succeed,
            AttemptOutcome::ConnectFailed => RetryVerdict::FailConnect,
            AttemptOutcome::HandleFailed => {
                if step + 1 < self.attempts * self.actors.len() {
                    RetryVerdict::Invoke((step + 1) % self.actors.len())
                } else {
                    RetryVerdict::FailExhausted
                }
            },
        }
    }

    /// Retry order: a traversal in which every step fails at the handshake
    /// walks the inner handlers in order, pass after pass — the step number
    /// `pass * n + i` targets inner handler `i`. In particular each inner
    /// handler is targeted exactly once per pass, so a traversal of
    /// `attempts` passes targets each handler `attempts` times.
    pub proof fn lemma_retry_schedule(&self, pass: int, i: int)
        requires
            self.actors@.len() > 0,
            0 <= pass,
            0 <= i < self.actors@.len(),
        ensures
            self.target(pass * (self.actors@.len() as int) + i) == i,
    {
        let n = self.actors@.len() as int;
        lemma_mod_multiples_vanish(pass, i, n);
        lemma_small_mod(i as nat, n as nat);
    }
}

} // verus!
