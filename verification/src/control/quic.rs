//! What can go wrong on the control transport, and how often it is tried again.

use super::framing::FrameError;
use crate::engine::recovery::RecoveryPolicy;
use crate::text::joined;
use vstd::prelude::*;
use vstd::string::StringExecFns;

verus! {

/// Five seconds, in milliseconds.
pub const DEFAULT_CONNECT_TIMEOUT: u64 = 5_000;

/// Five seconds, in milliseconds.
pub const DEFAULT_IO_TIMEOUT: u64 = 5_000;

/// Fifteen seconds, in milliseconds.
pub const DEFAULT_QUIC_IDLE_TIMEOUT: u64 = 15_000;

/// Four seconds, in milliseconds.
pub const DEFAULT_QUIC_KEEPALIVE: u64 = 4_000;

pub const MAX_CONTROL_BIDI_STREAMS: u32 = 4;

/// How often a control connection is tried.
#[must_use]
pub fn default_reconnect_policy() -> (policy: RecoveryPolicy)
    ensures
        policy == (RecoveryPolicy {
            max_attempts: 8,
            base_backoff_ms: 200,
            max_backoff_ms: 5_000,
        }),
        spec_policy_fault(policy) is None,
{
    RecoveryPolicy { max_attempts: 8, base_backoff_ms: 200, max_backoff_ms: 5_000 }
}

#[derive(Debug)]
pub enum ControlTransportError {
    Frame(FrameError),
    Timeout { operation: &'static str },
    Configuration(String),
    Transport(String),
    EndpointClosed,
}

impl ControlTransportError {
    /// What the error says.
    pub open spec fn spec_message(self) -> Seq<char> {
        match self {
            ControlTransportError::Frame(error) => error.spec_message(),
            ControlTransportError::Timeout { operation } => operation@ + " timed out"@,
            ControlTransportError::Configuration(error) => "control transport configuration: "@
                + error@,
            ControlTransportError::Transport(error) => "control transport: "@ + error@,
            ControlTransportError::EndpointClosed => "control QUIC endpoint closed"@,
        }
    }

    /// The text for people.
    #[must_use]
    pub fn message(&self) -> (text: String)
        ensures
            text@ == self.spec_message(),
    {
        match self {
            ControlTransportError::Frame(error) => error.message(),
            ControlTransportError::Timeout { operation } => joined(operation, " timed out"),
            ControlTransportError::Configuration(error) => joined(
                "control transport configuration: ",
                error.as_str(),
            ),
            ControlTransportError::Transport(error) => joined(
                "control transport: ",
                error.as_str(),
            ),
            ControlTransportError::EndpointClosed => "control QUIC endpoint closed".to_owned(),
        }
    }
}

impl From<FrameError> for ControlTransportError {
    fn from(error: FrameError) -> (mapped: Self) {
        ControlTransportError::Frame(error)
    }
}

impl vstd::std_specs::convert::FromSpecImpl<FrameError> for ControlTransportError {
    open spec fn obeys_from_spec() -> bool {
        true
    }

    open spec fn from_spec(error: FrameError) -> Self {
        ControlTransportError::Frame(error)
    }
}

/// What is wrong with a policy for reconnecting, if anything is.
pub open spec fn spec_policy_fault(policy: RecoveryPolicy) -> Option<Seq<char>> {
    if policy.max_attempts == 0 {
        Some("reconnect policy must allow at least one attempt"@)
    } else if policy.base_backoff_ms == 0 {
        Some("reconnect base backoff must be greater than zero"@)
    } else if policy.max_backoff_ms == 0 {
        Some("reconnect maximum backoff must be greater than zero"@)
    } else if policy.base_backoff_ms > policy.max_backoff_ms {
        Some("reconnect base backoff must not exceed maximum backoff"@)
    } else {
        None
    }
}

pub fn validate_reconnect_policy(policy: RecoveryPolicy) -> (result: Result<
    (),
    ControlTransportError,
>)
    ensures
        match result {
            Ok(()) => spec_policy_fault(policy) is None,
            Err(ControlTransportError::Configuration(text)) => spec_policy_fault(policy) == Some(
                text@,
            ),
            Err(_) => false,
        },
{
    if policy.max_attempts == 0 {
        return Err(
            ControlTransportError::Configuration(
                "reconnect policy must allow at least one attempt".to_owned(),
            ),
        );
    }
    if policy.base_backoff_ms == 0 {
        return Err(
            ControlTransportError::Configuration(
                "reconnect base backoff must be greater than zero".to_owned(),
            ),
        );
    }
    if policy.max_backoff_ms == 0 {
        return Err(
            ControlTransportError::Configuration(
                "reconnect maximum backoff must be greater than zero".to_owned(),
            ),
        );
    }
    if policy.base_backoff_ms > policy.max_backoff_ms {
        return Err(
            ControlTransportError::Configuration(
                "reconnect base backoff must not exceed maximum backoff".to_owned(),
            ),
        );
    }
    Ok(())
}

/// Refuses a time of zero for reading and writing. The time is in nanoseconds.
pub fn validate_io_timeout(io_timeout: u128) -> (result: Result<(), ControlTransportError>)
    ensures
        match result {
            Ok(()) => io_timeout != 0,
            Err(ControlTransportError::Configuration(text)) => io_timeout == 0 && text@
                == "control I/O timeout must be greater than zero"@,
            Err(_) => false,
        },
{
    if io_timeout == 0 {
        return Err(
            ControlTransportError::Configuration(
                "control I/O timeout must be greater than zero".to_owned(),
            ),
        );
    }
    Ok(())
}

/// What follows a failed attempt to connect.
#[derive(Debug, Clone, Copy, PartialEq, Eq, Structural)]
pub enum ReconnectStep {
    /// Wait so many milliseconds and try again.
    RetryAfter(u64),
    /// There are no attempts left.
    GiveUp,
}

/// The attempts to connect under a policy.
#[derive(Debug)]
pub struct ReconnectAttempts {
    policy: RecoveryPolicy,
    attempt: u8,
}

/// A policy, and the number of the attempt under way.
pub struct ReconnectView {
    pub policy: RecoveryPolicy,
    pub attempt: u8,
}

impl View for ReconnectAttempts {
    type V = ReconnectView;

    closed spec fn view(&self) -> ReconnectView {
        ReconnectView { policy: self.policy, attempt: self.attempt }
    }
}

impl ReconnectView {
    /// The attempt is one that the policy allows.
    pub open spec fn is_sound(self) -> bool {
        1 <= self.attempt <= self.policy.max_attempts && spec_policy_fault(self.policy) is None
    }

    /// What follows if the attempt fails.
    pub open spec fn spec_failed(self) -> ReconnectStep {
        if self.attempt < self.policy.max_attempts {
            ReconnectStep::RetryAfter(self.policy.spec_backoff(self.attempt))
        } else {
            ReconnectStep::GiveUp
        }
    }

    /// The next attempt, if there is one.
    pub open spec fn spec_next(self) -> Self {
        if self.attempt < self.policy.max_attempts {
            ReconnectView { attempt: (self.attempt + 1) as u8, ..self }
        } else {
            self
        }
    }
}

impl ReconnectAttempts {
    /// The attempt is one that the policy allows.
    pub closed spec fn wf(self) -> bool {
        self@.is_sound()
    }

    /// The first attempt.
    pub fn new(policy: RecoveryPolicy) -> (result: Result<Self, ControlTransportError>)
        ensures
            match result {
                Ok(attempts) => spec_policy_fault(policy) is None && attempts.wf() && attempts@
                    == (ReconnectView { policy, attempt: 1 }),
                Err(ControlTransportError::Configuration(text)) => spec_policy_fault(policy)
                    == Some(text@),
                Err(_) => false,
            },
    {
        match validate_reconnect_policy(policy) {
            Ok(()) => Ok(ReconnectAttempts { policy, attempt: 1 }),
            Err(error) => Err(error),
        }
    }

    /// The number of the attempt under way.
    #[must_use]
    pub fn attempt(&self) -> (attempt: u8)
        ensures
            attempt == self@.attempt,
    {
        self.attempt
    }

    /// Records that the attempt failed.
    pub fn failed(&mut self) -> (step: ReconnectStep)
        requires
            old(self).wf(),
        ensures
            final(self).wf(),
            step == old(self)@.spec_failed(),
            final(self)@ == old(self)@.spec_next(),
    {
        if self.attempt < self.policy.max_attempts {
            let wait: u64 = self.policy.backoff_ms(self.attempt);
            self.attempt = self.attempt + 1;
            ReconnectStep::RetryAfter(wait)
        } else {
            ReconnectStep::GiveUp
        }
    }
}

/// The attempts after a number of failures.
pub open spec fn after_failed_attempts(attempts: ReconnectView, failures: nat) -> ReconnectView
    decreases failures,
{
    if failures == 0 {
        attempts
    } else {
        after_failed_attempts(attempts, (failures - 1) as nat).spec_next()
    }
}

/// Connecting is given up exactly when as many attempts have failed as the policy allows, and
/// no wait is longer than the policy's maximum.
pub proof fn law_reconnecting_is_bounded(policy: RecoveryPolicy, failures: nat)
    requires
        spec_policy_fault(policy) is None,
        failures < policy.max_attempts,
    ensures
        ({
            let attempts = after_failed_attempts(
                ReconnectView { policy, attempt: 1 },
                failures,
            );
            &&& attempts == ReconnectView { policy, attempt: (failures + 1) as u8 }
            &&& attempts.spec_failed() == ReconnectStep::GiveUp <==> failures + 1
                == policy.max_attempts
            &&& attempts.spec_failed() matches ReconnectStep::RetryAfter(wait) ==> wait
                <= policy.max_backoff_ms
        }),
    decreases failures,
{
    if failures > 0 {
        law_reconnecting_is_bounded(policy, (failures - 1) as nat);
    }
}

/// A policy is sound if and only if it allows an attempt and its waits are there and in order.
pub proof fn law_sound_reconnect_policies(policy: RecoveryPolicy)
    ensures
        spec_policy_fault(policy) is None <==> policy.max_attempts >= 1 && 1
            <= policy.base_backoff_ms <= policy.max_backoff_ms,
{
}

/// Every failure but the last is followed by another attempt, after the wait that belongs to the
/// one that failed.
pub proof fn law_failures_lead_to_the_next_attempt(attempts: ReconnectView)
    ensures
        attempts.attempt < attempts.policy.max_attempts ==> attempts.spec_failed()
            == ReconnectStep::RetryAfter(attempts.policy.spec_backoff(attempts.attempt))
            && attempts.spec_next().attempt == attempts.attempt + 1,
        attempts.attempt >= attempts.policy.max_attempts ==> attempts.spec_failed()
            == ReconnectStep::GiveUp && attempts.spec_next() == attempts,
        attempts.spec_next().policy == attempts.policy,
{
}

} // verus!
