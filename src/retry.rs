//! The retry policy around the encrypted transport. The driver performs each
//! action (a call, a handshake) and reports its outcome; the policy decides
//! what comes next. A failure that is neither unclassified (-1) nor a server
//! error (500 and above) is retried over a freshly established session, up
//! to three calls in all; handshake failures are terminal.
use vstd::prelude::*;

verus! {

/// Calls of one logical request at most.
pub const MAX_ATTEMPTS: u32 = 3;

/// The outcome of what the driver did last.
#[derive(Clone, Copy, Debug, PartialEq, Eq, Structural)]
pub enum Outcome {
    /// The encrypted call returned a response.
    Delivered,
    /// The encrypted call failed with `status`; -1 where the failure could
    /// not be classified.
    Failed { status: i16 },
    /// A fresh handshake established a new session.
    Reestablished,
    /// A fresh handshake failed, a 401 from the proxy included.
    HandshakeFailed,
}

/// What the driver does next.
#[derive(Clone, Copy, Debug, PartialEq, Eq, Structural)]
pub enum Action {
    /// Hand the response to the caller.
    Deliver,
    /// Hand the last error to the caller; nothing more is attempted.
    Surface,
    /// Run the whole handshake again for a fresh session.
    Rehandshake,
    /// Make the same logical call again over the fresh session.
    Retry,
}

/// Whether a call that failed with `status` is worth retrying.
pub open spec fn is_retryable(status: i16) -> bool {
    status != -1 && status < 500
}

/// The action that follows `outcome` after `attempts` calls.
pub open spec fn next_action(attempts: nat, outcome: Outcome) -> Action {
    match outcome {
        Outcome::Delivered => Action::Deliver,
        Outcome::Failed { status } => if is_retryable(status) && attempts < MAX_ATTEMPTS {
            Action::Rehandshake
        } else {
            Action::Surface
        },
        Outcome::Reestablished => if attempts < MAX_ATTEMPTS {
            Action::Retry
        } else {
            Action::Surface
        },
        Outcome::HandshakeFailed => Action::Surface,
    }
}

/// The state of the policy for one logical request: how many calls have
/// been made.
pub struct RetryPolicy {
    attempts: u32,
}

impl RetryPolicy {
    /// The number of calls made so far.
    pub closed spec fn made(&self) -> nat {
        self.attempts as nat
    }

    /// The state is reachable: at least the first call and at most
    /// `MAX_ATTEMPTS` calls.
    pub open spec fn wf(&self) -> bool {
        1 <= self.made() <= MAX_ATTEMPTS
    }

    /// The policy as the first call is made.
    pub fn new() -> (r: RetryPolicy)
        ensures
            r.made() == 1,
            r.wf(),
    {
        RetryPolicy { attempts: 1 }
    }

    /// The number of calls made so far.
    pub fn attempts(&self) -> (r: u32)
        ensures
            r == self.made(),
    {
        self.attempts
    }

    /// Decides what follows `outcome`. A retry counts one more call; no
    /// state allows more than `MAX_ATTEMPTS` calls.
    pub fn step(&mut self, outcome: Outcome) -> (r: Action)
        requires
            old(self).wf(),
        ensures
            r == next_action(old(self).made(), outcome),
            final(self).made() == if r == Action::Retry { old(self).made() + 1 } else { old(self).made() },
            final(self).wf(),
    {
        match outcome {
            Outcome::Delivered => Action::Deliver,
            Outcome::Failed { status } => {
                if status != -1 && status < 500 && self.attempts < MAX_ATTEMPTS {
                    Action::Rehandshake
                } else {
                    Action::Surface
                }
            },
            Outcome::Reestablished => {
                if self.attempts < MAX_ATTEMPTS {
                    self.attempts = self.attempts + 1;
                    Action::Retry
                } else {
                    Action::Surface
                }
            },
            Outcome::HandshakeFailed => Action::Surface,
        }
    }
}

/// The calls that `outcomes`, reported one after another from a state with
/// `attempts` calls made, add.
pub open spec fn added_calls(attempts: nat, outcomes: Seq<Outcome>) -> nat
    decreases outcomes.len(),
{
    if outcomes.len() == 0 {
        0
    } else if next_action(attempts, outcomes[0]) == Action::Retry {
        1 + added_calls(attempts + 1, outcomes.subrange(1, outcomes.len() as int))
    } else {
        added_calls(attempts, outcomes.subrange(1, outcomes.len() as int))
    }
}

/// However the outcomes fall, one logical request makes at most
/// `MAX_ATTEMPTS` calls.
pub proof fn lemma_calls_bounded(attempts: nat, outcomes: Seq<Outcome>)
    requires
        1 <= attempts <= MAX_ATTEMPTS,
    ensures
        attempts + added_calls(attempts, outcomes) <= MAX_ATTEMPTS,
    decreases outcomes.len(),
{
    if outcomes.len() > 0 {
        let rest = outcomes.subrange(1, outcomes.len() as int);
        if next_action(attempts, outcomes[0]) == Action::Retry {
            lemma_calls_bounded(attempts + 1, rest);
        } else {
            lemma_calls_bounded(attempts, rest);
        }
    }
}

/// A failure that is unclassified (-1) or a server error (500 and above)
/// is surfaced at once, whatever the number of calls made; any other
/// failure before the last allowed call leads to a fresh handshake, and the
/// handshake's success to another call.
pub proof fn lemma_retry_boundary(attempts: nat, status: i16)
    ensures
        (status == -1 || status >= 500) ==> next_action(attempts, Outcome::Failed { status }) == Action::Surface,
        (status != -1 && status < 500 && attempts < MAX_ATTEMPTS) ==> next_action(attempts, Outcome::Failed { status }) == Action::Rehandshake && next_action(attempts, Outcome::Reestablished) == Action::Retry,
        attempts >= MAX_ATTEMPTS ==> next_action(attempts, Outcome::Failed { status }) == Action::Surface,
{
}

/// A failed handshake, a 401 from the proxy included, never leads to
/// another call or handshake.
pub proof fn lemma_handshake_failure_terminal(attempts: nat)
    ensures
        next_action(attempts, Outcome::HandshakeFailed) == Action::Surface,
{
}

} // verus!
