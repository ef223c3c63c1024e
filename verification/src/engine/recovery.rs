//! Bounded retries with exponential backoff.

use vstd::prelude::*;

verus! {

#[derive(Debug, Clone, Copy, PartialEq, Eq, Structural)]
pub enum RecoveryReason {
    AccessLost,
    DeviceRemoved,
    DeviceReset,
    DisplayChanged,
    MonitorHotPlug,
    SessionChanged,
    SecureDesktop,
    EncoderFailure,
    DecoderFailure,
    NetworkFailure,
}

#[derive(Debug, Clone, Copy, PartialEq, Eq, Structural)]
pub enum RecoveryState {
    Idle,
    Starting,
    Healthy,
    Suspended,
    Recovering { attempt: u8, reason: RecoveryReason },
    Failed { reason: RecoveryReason },
}

#[derive(Debug, Clone, Copy, PartialEq, Eq, Structural)]
pub struct RecoveryPolicy {
    pub max_attempts: u8,
    pub base_backoff_ms: u64,
    pub max_backoff_ms: u64,
}

impl Default for RecoveryPolicy {
    fn default() -> (policy: Self)
        ensures
            policy == (RecoveryPolicy {
                max_attempts: 8,
                base_backoff_ms: 100,
                max_backoff_ms: 5_000,
            }),
    {
        RecoveryPolicy { max_attempts: 8, base_backoff_ms: 100, max_backoff_ms: 5_000 }
    }
}

/// How often the base is doubled before an attempt: once for every attempt before it, but not
/// more than sixteen times.
pub open spec fn doublings(attempt: u8) -> nat {
    if attempt <= 1 {
        0
    } else if attempt > 17 {
        16
    } else {
        (attempt - 1) as nat
    }
}

impl RecoveryPolicy {
    /// The wait before an attempt.
    pub open spec fn spec_backoff(self, attempt: u8) -> u64 {
        let doubled = self.base_backoff_ms * vstd::arithmetic::power2::pow2(doublings(attempt));
        if doubled < self.max_backoff_ms {
            doubled as u64
        } else {
            self.max_backoff_ms
        }
    }

    #[must_use]
    pub fn backoff_ms(self, attempt: u8) -> (wait: u64)
        ensures
            wait == self.spec_backoff(attempt),
    {
        let exponent: u8 = if attempt <= 1 {
            0
        } else if attempt > 17 {
            16
        } else {
            attempt - 1
        };
        let mut factor: u64 = 1;
        let mut i: u8 = 0;
        proof {
            vstd::arithmetic::power2::lemma2_to64();
        }
        while i < exponent
            invariant
                i <= exponent <= 16,
                factor == vstd::arithmetic::power2::pow2(i as nat),
            decreases exponent - i,
        {
            proof {
                vstd::arithmetic::power2::lemma2_to64();
                vstd::arithmetic::power2::lemma_pow2_unfold((i + 1) as nat);
                lemma_pow2_small(i as nat);
            }
            factor = factor * 2;
            i += 1;
        }
        let doubled: u64 = match self.base_backoff_ms.checked_mul(factor) {
            Some(product) => product,
            None => u64::MAX,
        };
        if doubled < self.max_backoff_ms {
            doubled
        } else {
            self.max_backoff_ms
        }
    }
}

/// Small powers of two are small.
proof fn lemma_pow2_small(n: nat)
    requires
        n <= 16,
    ensures
        vstd::arithmetic::power2::pow2(n) <= 65536,
{
    vstd::arithmetic::power2::lemma2_to64();
    if n < 16 {
        vstd::arithmetic::power2::lemma_pow2_strictly_increases(n, 16);
    }
}

/// Tries again after a failure, each time after a longer wait, and gives up after a number of
/// attempts.
#[derive(Debug)]
pub struct RecoveryController {
    state: RecoveryState,
    policy: RecoveryPolicy,
}

/// A controller: its state and its policy.
pub struct RecoveryView {
    pub state: RecoveryState,
    pub policy: RecoveryPolicy,
}

impl View for RecoveryController {
    type V = RecoveryView;

    closed spec fn view(&self) -> RecoveryView {
        RecoveryView { state: self.state, policy: self.policy }
    }
}

impl RecoveryView {
    /// The state after a failed attempt.
    pub open spec fn spec_after_failure(self) -> RecoveryState {
        match self.state {
            RecoveryState::Recovering { attempt, reason } => if attempt
                >= self.policy.max_attempts {
                RecoveryState::Failed { reason }
            } else {
                RecoveryState::Recovering { attempt: (attempt + 1) as u8, reason }
            },
            state => state,
        }
    }
}

impl RecoveryController {
    #[must_use]
    pub fn new(policy: RecoveryPolicy) -> (controller: Self)
        ensures
            controller@ == (RecoveryView { state: RecoveryState::Idle, policy }),
    {
        RecoveryController { state: RecoveryState::Idle, policy }
    }

    #[must_use]
    pub fn state(&self) -> (state: RecoveryState)
        ensures
            state == self@.state,
    {
        self.state
    }

    pub fn mark_starting(&mut self)
        ensures
            final(self)@ == (RecoveryView { state: RecoveryState::Starting, ..old(self)@ }),
    {
        self.state = RecoveryState::Starting;
    }

    pub fn mark_healthy(&mut self)
        ensures
            final(self)@ == (RecoveryView { state: RecoveryState::Healthy, ..old(self)@ }),
    {
        self.state = RecoveryState::Healthy;
    }

    pub fn suspend(&mut self)
        ensures
            final(self)@ == (RecoveryView { state: RecoveryState::Suspended, ..old(self)@ }),
    {
        self.state = RecoveryState::Suspended;
    }

    /// Starts a new recovery sequence and returns the delay before the first retry.
    pub fn begin(&mut self, reason: RecoveryReason) -> (wait: u64)
        ensures
            final(self)@ == (RecoveryView {
                state: RecoveryState::Recovering { attempt: 1, reason },
                ..old(self)@
            }),
            wait == old(self)@.policy.spec_backoff(1),
    {
        self.state = RecoveryState::Recovering { attempt: 1, reason };
        self.policy.backoff_ms(1)
    }

    /// Records a failed recovery attempt.
    ///
    /// Returns the delay before another attempt, or `None` after the policy limit is reached.
    pub fn retry_failed(&mut self) -> (wait: Option<u64>)
        ensures
            final(self)@ == (RecoveryView {
                state: old(self)@.spec_after_failure(),
                ..old(self)@
            }),
            wait == match old(self)@.state {
                RecoveryState::Recovering { attempt, reason } => if attempt
                    >= old(self)@.policy.max_attempts {
                    None
                } else {
                    Some(old(self)@.policy.spec_backoff((attempt + 1) as u8))
                },
                _ => None,
            },
    {
        match self.state {
            RecoveryState::Recovering { attempt, reason } => {
                if attempt >= self.policy.max_attempts {
                    self.state = RecoveryState::Failed { reason };
                    return None;
                }
                let next_attempt: u8 = attempt + 1;
                self.state = RecoveryState::Recovering { attempt: next_attempt, reason };
                Some(self.policy.backoff_ms(next_attempt))
            },
            _ => None,
        }
    }
}

/// Waits grow from attempt to attempt, and never exceed the policy's maximum.
pub proof fn law_backoff_grows_within_bounds(policy: RecoveryPolicy, earlier: u8, later: u8)
    requires
        earlier <= later,
    ensures
        policy.spec_backoff(earlier) <= policy.spec_backoff(later) <= policy.max_backoff_ms,
{
    if doublings(earlier) < doublings(later) {
        vstd::arithmetic::power2::lemma_pow2_strictly_increases(
            doublings(earlier),
            doublings(later),
        );
    }
    vstd::arithmetic::power2::lemma_pow2_pos(doublings(earlier));
    vstd::arithmetic::power2::lemma_pow2_pos(doublings(later));
    vstd::arithmetic::mul::lemma_mul_inequality(
        vstd::arithmetic::power2::pow2(doublings(earlier)) as int,
        vstd::arithmetic::power2::pow2(doublings(later)) as int,
        policy.base_backoff_ms as int,
    );
    vstd::arithmetic::mul::lemma_mul_is_commutative(
        vstd::arithmetic::power2::pow2(doublings(earlier)) as int,
        policy.base_backoff_ms as int,
    );
    vstd::arithmetic::mul::lemma_mul_is_commutative(
        vstd::arithmetic::power2::pow2(doublings(later)) as int,
        policy.base_backoff_ms as int,
    );
}

/// The state after a number of failures in a row.
pub open spec fn after_failures(controller: RecoveryView, failures: nat) -> RecoveryView
    decreases failures,
{
    if failures == 0 {
        controller
    } else {
        let before = after_failures(controller, (failures - 1) as nat);
        RecoveryView { state: before.spec_after_failure(), ..before }
    }
}

/// Where every attempt fails, the controller gives up after exactly as many attempts as the
/// policy allows, and one attempt at least.
pub proof fn law_controller_gives_up(policy: RecoveryPolicy, reason: RecoveryReason, failures: nat)
    ensures
        ({
            let begun = RecoveryView {
                state: RecoveryState::Recovering { attempt: 1, reason },
                policy,
            };
            let limit: nat = if policy.max_attempts == 0 {
                1
            } else {
                policy.max_attempts as nat
            };
            &&& after_failures(begun, failures).policy == policy
            &&& after_failures(begun, failures).state == if failures >= limit {
                RecoveryState::Failed { reason }
            } else {
                RecoveryState::Recovering { attempt: (failures + 1) as u8, reason }
            }
        }),
    decreases failures,
{
    if failures > 0 {
        law_controller_gives_up(policy, reason, (failures - 1) as nat);
    }
}

/// The first wait is the base, and each further one is twice as long as the one before, up to the
/// sixteenth doubling, as far as the maximum allows.
pub proof fn law_waits_double(policy: RecoveryPolicy, attempt: u8)
    ensures
        ({
            let capped = |wait: int|
                if wait < policy.max_backoff_ms {
                    wait
                } else {
                    policy.max_backoff_ms as int
                };
            &&& policy.spec_backoff(0) == capped(policy.base_backoff_ms as int)
            &&& policy.spec_backoff(1) == capped(policy.base_backoff_ms as int)
            &&& 1 <= attempt < 17 ==> policy.spec_backoff((attempt + 1) as u8) == capped(
                2 * policy.spec_backoff(attempt),
            )
            &&& attempt >= 17 ==> policy.spec_backoff(attempt) == policy.spec_backoff(17)
        }),
{
    vstd::arithmetic::power2::lemma2_to64();
    let base = policy.base_backoff_ms as int;
    assert(base * 1 == base);
    if 1 <= attempt < 17 {
        let n = (attempt - 1) as nat;
        vstd::arithmetic::power2::lemma_pow2_unfold(n + 1);
        assert(doublings(attempt) == n);
        assert(doublings((attempt + 1) as u8) == n + 1);
        let p = vstd::arithmetic::power2::pow2(n) as int;
        assert(base * (2 * p) == 2 * (base * p)) by (nonlinear_arith);
        vstd::arithmetic::power2::lemma_pow2_pos(n);
        assert(base * p >= 0) by (nonlinear_arith)
            requires
                base >= 0,
                p >= 0,
        ;
    }
}

/// A failure moves only what is being recovered: on to the next attempt of the same recovery, or
/// to the end of it for the same reason.
pub proof fn law_failures_keep_their_reason(controller: RecoveryView)
    ensures
        ({
            let after = controller.spec_after_failure();
            &&& !(controller.state is Recovering) ==> after == controller.state
            &&& controller.state matches RecoveryState::Recovering { attempt, reason } ==> {
                &&& attempt < controller.policy.max_attempts ==> after
                    == RecoveryState::Recovering { attempt: (attempt + 1) as u8, reason }
                &&& attempt >= controller.policy.max_attempts ==> after == RecoveryState::Failed {
                    reason,
                }
            }
        }),
{
}

} // verus!
