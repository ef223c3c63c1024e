//! How a client keeps trying to get a session.

use super::handshake::HandshakeError;
use super::quic::{
    validate_io_timeout, ControlTransportError, ReconnectAttempts, ReconnectStep, ReconnectView,
};
use crate::engine::recovery::RecoveryPolicy;
use vstd::prelude::*;

verus! {

/// What a client does after an attempt to get a session has failed.
#[derive(Debug)]
pub enum SessionStep {
    /// Wait so many milliseconds and try again.
    RetryAfter(u64),
    /// Give up with this error.
    Fail(HandshakeError),
}

/// The attempts to get a session.
///
/// Retries are limited to transport failures. Authentication, authorization and protocol
/// rejection are terminal so ClassMesh does not hammer a peer with requests that cannot
/// succeed without configuration or administrative change.
#[derive(Debug)]
pub struct SessionAttempts {
    attempts: ReconnectAttempts,
}

impl View for SessionAttempts {
    type V = ReconnectView;

    closed spec fn view(&self) -> ReconnectView {
        self.attempts@
    }
}

/// What follows a failed attempt.
pub open spec fn spec_session_step(attempts: ReconnectView, error: HandshakeError) -> SessionStep {
    match (error, attempts.spec_failed()) {
        (HandshakeError::Transport(_), ReconnectStep::RetryAfter(wait)) => SessionStep::RetryAfter(
            wait,
        ),
        _ => SessionStep::Fail(error),
    }
}

impl SessionAttempts {
    /// The attempt is one that the policy allows.
    pub closed spec fn wf(self) -> bool {
        self.attempts.wf()
    }

    /// The first attempt. `io_timeout` is in nanoseconds.
    pub fn new(policy: RecoveryPolicy, io_timeout: u128) -> (result: Result<Self, HandshakeError>)
        ensures
            match result {
                Ok(attempts) => super::quic::spec_policy_fault(policy) is None && io_timeout != 0
                    && attempts.wf() && attempts@ == (ReconnectView { policy, attempt: 1 }),
                Err(
                    HandshakeError::Transport(ControlTransportError::Configuration(text)),
                ) => match super::quic::spec_policy_fault(policy) {
                    Some(fault) => text@ == fault,
                    None => io_timeout == 0 && text@
                        == "control I/O timeout must be greater than zero"@,
                },
                Err(_) => false,
            },
    {
        let attempts = match ReconnectAttempts::new(policy) {
            Ok(attempts) => attempts,
            Err(error) => return Err(HandshakeError::Transport(error)),
        };
        match validate_io_timeout(io_timeout) {
            Ok(()) => Ok(SessionAttempts { attempts }),
            Err(error) => Err(HandshakeError::Transport(error)),
        }
    }

    /// Records that the attempt failed.
    pub fn failed(&mut self, error: HandshakeError) -> (step: SessionStep)
        requires
            old(self).wf(),
        ensures
            final(self).wf(),
            step == spec_session_step(old(self)@, error),
            final(self)@ == if step is RetryAfter {
                old(self)@.spec_next()
            } else {
                old(self)@
            },
    {
        match error {
            HandshakeError::Transport(cause) => match self.attempts.failed() {
                ReconnectStep::RetryAfter(wait) => SessionStep::RetryAfter(wait),
                ReconnectStep::GiveUp => SessionStep::Fail(HandshakeError::Transport(cause)),
            },
            error => SessionStep::Fail(error),
        }
    }
}

/// Whatever is wrong but the transport is not tried again.
pub proof fn law_only_transport_failures_are_retried(
    attempts: ReconnectView,
    error: HandshakeError,
)
    ensures
        spec_session_step(attempts, error) is RetryAfter ==> error is Transport,
        error !is Transport ==> spec_session_step(attempts, error) == SessionStep::Fail(error),
{
}

/// A transport failure is retried as long as attempts are left, after the wait that the attempts
/// ask for; when they are used up, it is what is told.
pub proof fn law_transport_failures_are_retried(attempts: ReconnectView, error: HandshakeError)
    requires
        error is Transport,
    ensures
        attempts.spec_failed() matches ReconnectStep::RetryAfter(wait) ==> spec_session_step(
            attempts,
            error,
        ) == SessionStep::RetryAfter(wait),
        !(attempts.spec_failed() is RetryAfter) ==> spec_session_step(attempts, error)
            == SessionStep::Fail(error),
{
}

} // verus!
