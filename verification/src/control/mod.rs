//! The control plane: who talks to whom, under which agreement, and what they may do.

use crate::ordered::OrderedSet;
use crate::protocol::{Capability, ControlRole, MediaHealth, ProtocolVersion};
use crate::security::PrincipalId;
use vstd::prelude::*;
use vstd::string::StringExecFns;

pub mod authorization;
pub mod bootstrap;
pub mod client_session;
pub mod csr;
pub mod diagnostics;
pub mod dispatch;
pub mod enrollment;
pub mod enrollment_result;
pub mod framing;
pub mod group_media_key;
pub mod group_media_session;
pub mod handshake;
pub mod issuance;
pub mod peer_identity;
pub mod presentation_state;
pub mod quic;
pub mod session_policy;
pub mod stream;
pub mod x509_issuance;

verus! {

/// Two seconds, in nanoseconds.
pub const DEFAULT_HEARTBEAT_INTERVAL: u128 = 2_000_000_000;

/// Six seconds, in nanoseconds.
pub const DEFAULT_SUSPECT_AFTER: u128 = 6_000_000_000;

/// Ten seconds, in nanoseconds.
pub const DEFAULT_OFFLINE_AFTER: u128 = 10_000_000_000;

#[derive(Debug, Clone, PartialEq, Eq)]
pub struct ControlHello {
    pub principal_id: PrincipalId,
    pub role: ControlRole,
    pub version: ProtocolVersion,
    pub capabilities: OrderedSet<Capability>,
    pub hostname: String,
    pub app_version: String,
}

#[derive(Debug, Clone, PartialEq, Eq)]
pub struct NegotiatedHello {
    pub principal_id: PrincipalId,
    pub role: ControlRole,
    pub version: ProtocolVersion,
    pub capabilities: OrderedSet<Capability>,
}

/// What was negotiated, with the capabilities as a set.
#[verifier::ext_equal]
pub struct NegotiatedView {
    pub principal_id: PrincipalId,
    pub role: ControlRole,
    pub version: ProtocolVersion,
    pub capabilities: Set<Capability>,
}

impl View for NegotiatedHello {
    type V = NegotiatedView;

    open spec fn view(&self) -> NegotiatedView {
        NegotiatedView {
            principal_id: self.principal_id,
            role: self.role,
            version: self.version,
            capabilities: self.capabilities@,
        }
    }
}

#[derive(Debug, Clone, Copy, PartialEq, Eq, Structural)]
pub enum NegotiationError {
    IncompatibleProtocol { local: ProtocolVersion, peer: ProtocolVersion },
}

impl NegotiationError {
    /// The value as it is written for developers.
    pub open spec fn spec_debug(self) -> Seq<char> {
        match self {
            NegotiationError::IncompatibleProtocol { local, peer } => {
                "IncompatibleProtocol { local: "@ + local.spec_debug() + ", peer: "@
                    + peer.spec_debug() + " }"@
            },
        }
    }

    /// Appends the value as it is written for developers.
    pub fn push_debug(&self, text: &mut String)
        ensures
            final(text)@ == old(text)@ + self.spec_debug(),
    {
        match self {
            NegotiationError::IncompatibleProtocol { local, peer } => {
                text.append("IncompatibleProtocol { local: ");
                local.push_debug(text);
                text.append(", peer: ");
                peer.push_debug(text);
                text.append(" }");
            },
        }
        proof {
            assert(text@ =~= old(text)@ + self.spec_debug());
        }
    }
}

/// What two peers agree on: the newest version that both speak, and what both are able to do.
pub open spec fn spec_negotiate_hello(
    local_version: ProtocolVersion,
    local_capabilities: Set<Capability>,
    peer: ControlHello,
) -> Result<NegotiatedView, NegotiationError> {
    match local_version.spec_negotiate(peer.version) {
        Some(version) => Ok(
            NegotiatedView {
                principal_id: peer.principal_id,
                role: peer.role,
                version,
                capabilities: local_capabilities.intersect(peer.capabilities@),
            },
        ),
        None => Err(
            NegotiationError::IncompatibleProtocol { local: local_version, peer: peer.version },
        ),
    }
}

pub fn negotiate_hello(
    local_version: ProtocolVersion,
    local_capabilities: &OrderedSet<Capability>,
    peer: &ControlHello,
) -> (result: Result<NegotiatedHello, NegotiationError>)
    requires
        local_capabilities.wf(),
        peer.capabilities.wf(),
    ensures
        match result {
            Ok(negotiated) => negotiated.capabilities.wf() && spec_negotiate_hello(
                local_version,
                local_capabilities@,
                *peer,
            ) == Ok::<NegotiatedView, NegotiationError>(negotiated@),
            Err(error) => spec_negotiate_hello(local_version, local_capabilities@, *peer) == Err::<
                NegotiatedView,
                NegotiationError,
            >(error),
        },
{
    match local_version.negotiate(peer.version) {
        Some(version) => Ok(
            NegotiatedHello {
                principal_id: peer.principal_id,
                role: peer.role,
                version,
                capabilities: local_capabilities.intersection(&peer.capabilities),
            },
        ),
        None => Err(
            NegotiationError::IncompatibleProtocol { local: local_version, peer: peer.version },
        ),
    }
}

/// How long a peer may be silent. The times are in nanoseconds.
#[derive(Debug, Clone, Copy, PartialEq, Eq, Structural)]
pub struct HeartbeatPolicy {
    pub interval: u128,
    pub suspect_after: u128,
    pub offline_after: u128,
}

impl Default for HeartbeatPolicy {
    fn default() -> (policy: Self)
        ensures
            policy == (HeartbeatPolicy {
                interval: DEFAULT_HEARTBEAT_INTERVAL,
                suspect_after: DEFAULT_SUSPECT_AFTER,
                offline_after: DEFAULT_OFFLINE_AFTER,
            }),
    {
        HeartbeatPolicy {
            interval: DEFAULT_HEARTBEAT_INTERVAL,
            suspect_after: DEFAULT_SUSPECT_AFTER,
            offline_after: DEFAULT_OFFLINE_AFTER,
        }
    }
}

#[derive(Debug, Clone, Copy, PartialEq, Eq, Structural)]
pub enum HeartbeatPolicyError {
    ZeroInterval,
    SuspectBeforeInterval,
    OfflineNotAfterSuspect,
}

impl HeartbeatPolicy {
    /// The first rule that the policy breaks, in the order in which they are tested.
    pub open spec fn spec_validate(self) -> Result<(), HeartbeatPolicyError> {
        if self.interval == 0 {
            Err(HeartbeatPolicyError::ZeroInterval)
        } else if self.suspect_after < self.interval {
            Err(HeartbeatPolicyError::SuspectBeforeInterval)
        } else if self.offline_after <= self.suspect_after {
            Err(HeartbeatPolicyError::OfflineNotAfterSuspect)
        } else {
            Ok(())
        }
    }

    pub fn validate(self) -> (result: Result<(), HeartbeatPolicyError>)
        ensures
            result == self.spec_validate(),
    {
        if self.interval == 0 {
            return Err(HeartbeatPolicyError::ZeroInterval);
        }
        if self.suspect_after < self.interval {
            return Err(HeartbeatPolicyError::SuspectBeforeInterval);
        }
        if self.offline_after <= self.suspect_after {
            return Err(HeartbeatPolicyError::OfflineNotAfterSuspect);
        }
        Ok(())
    }
}

#[derive(Debug, Clone, Copy, PartialEq, Eq, Structural)]
pub struct HeartbeatSample {
    pub control_session_id: u64,
    pub sequence: u64,
    pub media_health: MediaHealth,
}

#[derive(Debug, Clone, Copy, PartialEq, Eq, Structural)]
pub enum HeartbeatError {
    SessionMismatch { expected: u64, received: u64 },
    NonIncreasingSequence { previous: u64, received: u64 },
}

#[derive(Debug, Clone, Copy, PartialEq, Eq, Structural)]
pub enum PeerLiveness {
    WaitingForFirstHeartbeat,
    Online,
    Suspect,
    Offline,
}

/// Follows the heartbeats of one control session.
#[derive(Debug, Clone)]
pub struct HeartbeatTracker {
    control_session_id: u64,
    last_sequence: Option<u64>,
    last_seen_at: Option<u128>,
    media_health: MediaHealth,
}

/// A session, the number and time of its last heartbeat, and how its media were then.
pub struct HeartbeatView {
    pub control_session_id: u64,
    pub last_sequence: Option<u64>,
    pub last_seen_at: Option<u128>,
    pub media_health: MediaHealth,
}

impl View for HeartbeatTracker {
    type V = HeartbeatView;

    closed spec fn view(&self) -> HeartbeatView {
        HeartbeatView {
            control_session_id: self.control_session_id,
            last_sequence: self.last_sequence,
            last_seen_at: self.last_seen_at,
            media_health: self.media_health,
        }
    }
}

impl HeartbeatView {
    /// What observing a heartbeat leads to.
    pub open spec fn spec_observe(self, sample: HeartbeatSample) -> Result<(), HeartbeatError> {
        if sample.control_session_id != self.control_session_id {
            Err(
                HeartbeatError::SessionMismatch {
                    expected: self.control_session_id,
                    received: sample.control_session_id,
                },
            )
        } else {
            match self.last_sequence {
                Some(previous) => if sample.sequence <= previous {
                    Err(
                        HeartbeatError::NonIncreasingSequence {
                            previous,
                            received: sample.sequence,
                        },
                    )
                } else {
                    Ok(())
                },
                None => Ok(()),
            }
        }
    }

    /// The tracker after a heartbeat was accepted.
    pub open spec fn spec_observed(self, now: u128, sample: HeartbeatSample) -> Self {
        HeartbeatView {
            last_sequence: Some(sample.sequence),
            last_seen_at: Some(now),
            media_health: sample.media_health,
            ..self
        }
    }

    /// Whether the peer is there, by the time since its last heartbeat.
    pub open spec fn spec_liveness(self, now: u128, policy: HeartbeatPolicy) -> PeerLiveness {
        match self.last_seen_at {
            None => PeerLiveness::WaitingForFirstHeartbeat,
            Some(last) => {
                let silence = if now >= last {
                    now - last
                } else {
                    0
                };
                if silence >= policy.offline_after {
                    PeerLiveness::Offline
                } else if silence >= policy.suspect_after {
                    PeerLiveness::Suspect
                } else {
                    PeerLiveness::Online
                }
            },
        }
    }
}

impl HeartbeatTracker {
    #[must_use]
    pub fn new(control_session_id: u64, initial_media_health: MediaHealth) -> (tracker: Self)
        ensures
            tracker@ == (HeartbeatView {
                control_session_id,
                last_sequence: None,
                last_seen_at: None,
                media_health: initial_media_health,
            }),
    {
        HeartbeatTracker {
            control_session_id,
            last_sequence: None,
            last_seen_at: None,
            media_health: initial_media_health,
        }
    }

    /// Takes a heartbeat in. `now` is in nanoseconds.
    pub fn observe(&mut self, now: u128, sample: HeartbeatSample) -> (result: Result<
        (),
        HeartbeatError,
    >)
        ensures
            result == old(self)@.spec_observe(sample),
            final(self)@ == if result is Ok {
                old(self)@.spec_observed(now, sample)
            } else {
                old(self)@
            },
    {
        if sample.control_session_id != self.control_session_id {
            return Err(
                HeartbeatError::SessionMismatch {
                    expected: self.control_session_id,
                    received: sample.control_session_id,
                },
            );
        }
        if let Some(previous) = self.last_sequence {
            if sample.sequence <= previous {
                return Err(
                    HeartbeatError::NonIncreasingSequence { previous, received: sample.sequence },
                );
            }
        }
        self.last_sequence = Some(sample.sequence);
        self.last_seen_at = Some(now);
        self.media_health = sample.media_health;
        Ok(())
    }

    #[must_use]
    pub fn liveness(&self, now: u128, policy: HeartbeatPolicy) -> (liveness: PeerLiveness)
        ensures
            liveness == self@.spec_liveness(now, policy),
    {
        let last_seen_at: u128 = match self.last_seen_at {
            Some(last) => last,
            None => return PeerLiveness::WaitingForFirstHeartbeat,
        };
        let elapsed: u128 = if now >= last_seen_at {
            now - last_seen_at
        } else {
            0
        };
        if elapsed >= policy.offline_after {
            PeerLiveness::Offline
        } else if elapsed >= policy.suspect_after {
            PeerLiveness::Suspect
        } else {
            PeerLiveness::Online
        }
    }

    #[must_use]
    pub fn media_health(&self) -> (health: MediaHealth)
        ensures
            health == self@.media_health,
    {
        self.media_health
    }

    #[must_use]
    pub fn last_sequence(&self) -> (sequence: Option<u64>)
        ensures
            sequence == self@.last_sequence,
    {
        self.last_sequence
    }
}

/// Both sides agree on the same version and capabilities, and on none that one of them does
/// not have.
pub proof fn law_negotiation_is_mutual(a: ControlHello, b: ControlHello)
    ensures
        ({
            let left = spec_negotiate_hello(a.version, a.capabilities@, b);
            let right = spec_negotiate_hello(b.version, b.capabilities@, a);
            &&& left is Ok <==> right is Ok
            &&& left is Ok ==> left->Ok_0.version == right->Ok_0.version
                && left->Ok_0.capabilities == right->Ok_0.capabilities
            &&& left is Ok ==> left->Ok_0.capabilities.subset_of(a.capabilities@)
                && left->Ok_0.capabilities.subset_of(b.capabilities@)
            &&& left is Ok <==> a.version.major == b.version.major
        }),
{
    assert(a.capabilities@.intersect(b.capabilities@) =~= b.capabilities@.intersect(
        a.capabilities@,
    ));
}

/// How a peer's media are has no bearing on whether it is there.
pub proof fn law_liveness_is_independent_of_media(
    tracker: HeartbeatView,
    media_health: MediaHealth,
    now: u128,
    policy: HeartbeatPolicy,
)
    ensures
        (HeartbeatView { media_health, ..tracker }).spec_liveness(now, policy)
            == tracker.spec_liveness(now, policy),
{
}

impl HeartbeatView {
    /// The tracker after any heartbeats in turn, each with its time.
    pub open spec fn spec_after_all(self, samples: Seq<(u128, HeartbeatSample)>) -> Self
        decreases samples.len(),
    {
        if samples.len() == 0 {
            self
        } else {
            let before = self.spec_after_all(samples.drop_last());
            if before.spec_observe(samples.last().1) is Ok {
                before.spec_observed(samples.last().0, samples.last().1)
            } else {
                before
            }
        }
    }
}

/// A heartbeat that was accepted is not accepted again, nor is any earlier one, whatever has
/// come in between.
pub proof fn law_heartbeat_is_accepted_once(
    tracker: HeartbeatView,
    now: u128,
    sample: HeartbeatSample,
    between: Seq<(u128, HeartbeatSample)>,
    replayed: HeartbeatSample,
)
    requires
        tracker.spec_observe(sample) is Ok,
        replayed.sequence <= sample.sequence,
    ensures
        tracker.spec_observed(now, sample).spec_after_all(between).spec_observe(replayed) is Err,
{
    lemma_last_heartbeat_grows(tracker.spec_observed(now, sample), sample.sequence, between);
}

/// The number of the last heartbeat never goes back.
proof fn lemma_last_heartbeat_grows(
    tracker: HeartbeatView,
    reached: u64,
    samples: Seq<(u128, HeartbeatSample)>,
)
    requires
        tracker.last_sequence == Some(reached),
    ensures
        tracker.spec_after_all(samples).last_sequence matches Some(last) && last >= reached,
    decreases samples.len(),
{
    if samples.len() > 0 {
        lemma_last_heartbeat_grows(tracker, reached, samples.drop_last());
    }
}

/// Both sides keep every capability that both have and no other, and the session is that of the
/// peer that said hello.
pub proof fn law_shared_capabilities_are_kept(
    local_version: ProtocolVersion,
    local_capabilities: Set<Capability>,
    peer: ControlHello,
    capability: Capability,
)
    requires
        local_version.major == peer.version.major,
    ensures
        ({
            let result = spec_negotiate_hello(local_version, local_capabilities, peer);
            &&& result is Ok
            &&& result->Ok_0.capabilities.contains(capability) <==> local_capabilities.contains(
                capability,
            ) && peer.capabilities@.contains(capability)
            &&& result->Ok_0.principal_id == peer.principal_id
            &&& result->Ok_0.role == peer.role
            &&& result->Ok_0.version.major == peer.version.major
            &&& result->Ok_0.version.minor <= peer.version.minor
            &&& result->Ok_0.version.minor <= local_version.minor
        }),
{
}

/// A policy is sound if and only if heartbeats come at all, no earlier silence is suspicious than
/// between two of them, and suspicion precedes the end.
pub proof fn law_sound_heartbeat_policies(policy: HeartbeatPolicy)
    ensures
        policy.spec_validate() is Ok <==> 0 < policy.interval <= policy.suspect_after
            < policy.offline_after,
        policy.interval == 0 ==> policy.spec_validate() == Err::<(), _>(
            HeartbeatPolicyError::ZeroInterval,
        ),
        0 < policy.interval && policy.suspect_after < policy.interval ==> policy.spec_validate()
            == Err::<(), _>(HeartbeatPolicyError::SuspectBeforeInterval),
        0 < policy.interval <= policy.suspect_after && policy.offline_after <= policy.suspect_after
            ==> policy.spec_validate() == Err::<(), _>(
            HeartbeatPolicyError::OfflineNotAfterSuspect,
        ),
{
}

/// Every heartbeat of the session with a number above the last is taken, and what it says is kept;
/// one of another session or with an old number is refused.
pub proof fn law_new_heartbeats_are_taken(
    tracker: HeartbeatView,
    now: u128,
    sample: HeartbeatSample,
)
    ensures
        ({
            let result = tracker.spec_observe(sample);
            let after = tracker.spec_observed(now, sample);
            let ours = sample.control_session_id == tracker.control_session_id;
            let newer = tracker.last_sequence is None || sample.sequence
                > tracker.last_sequence->Some_0;
            &&& ours && newer ==> result is Ok
            &&& !ours ==> result == Err::<(), _>(
                HeartbeatError::SessionMismatch {
                    expected: tracker.control_session_id,
                    received: sample.control_session_id,
                },
            )
            &&& ours && !newer ==> result == Err::<(), _>(
                HeartbeatError::NonIncreasingSequence {
                    previous: tracker.last_sequence->Some_0,
                    received: sample.sequence,
                },
            )
            &&& after.last_sequence == Some(sample.sequence)
            &&& after.last_seen_at == Some(now)
            &&& after.media_health == sample.media_health
            &&& after.control_session_id == tracker.control_session_id
        }),
{
}

/// A peer is online from a heartbeat on until the first limit of silence, under suspicion until the
/// second, and offline from then on; before the first heartbeat it is waited for.
pub proof fn law_liveness_follows_the_silence(
    tracker: HeartbeatView,
    policy: HeartbeatPolicy,
    seen: u128,
    now: u128,
)
    requires
        policy.spec_validate() is Ok,
    ensures
        tracker.last_seen_at is None ==> tracker.spec_liveness(now, policy)
            == PeerLiveness::WaitingForFirstHeartbeat,
        tracker.last_seen_at == Some(seen) ==> {
            let liveness = tracker.spec_liveness(now, policy);
            &&& now < seen + policy.suspect_after ==> liveness == PeerLiveness::Online
            &&& seen + policy.suspect_after <= now < seen + policy.offline_after ==> liveness
                == PeerLiveness::Suspect
            &&& now >= seen + policy.offline_after ==> liveness == PeerLiveness::Offline
        },
{
}

} // verus!
