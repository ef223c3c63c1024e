//! Multicast group memberships and the evidence that multicast works.

use super::address::Ipv4Address;
use crate::ordered::{OrderedKey, OrderedSet};
use vstd::prelude::*;

verus! {

pub const DEFAULT_MAX_MULTICAST_MEMBERSHIPS: usize = 8;

pub const MAX_MULTICAST_MEMBERSHIPS: usize = 64;

/// Membership in a multicast group on an interface.
#[derive(Debug, Clone, Copy, PartialEq, Eq, PartialOrd, Ord, Hash, Structural)]
pub struct MulticastMembership {
    group: Ipv4Address,
    interface: Ipv4Address,
}

impl OrderedKey for MulticastMembership {
    /// By the group, and by the interface where the groups are the same.
    open spec fn rank(self) -> int {
        self.spec_group().number() * 0x1_0000_0000 + self.spec_interface().number()
    }

    proof fn lemma_rank_injective(a: Self, b: Self) {
        Ipv4Address::lemma_number_injective(a.group, b.group);
        Ipv4Address::lemma_number_injective(a.interface, b.interface);
    }

    fn precedes(&self, other: &Self) -> (before: bool) {
        if self.group.precedes(other.group) {
            true
        } else if other.group.precedes(self.group) {
            false
        } else {
            self.interface.precedes(other.interface)
        }
    }
}

#[derive(Debug, Clone, Copy, PartialEq, Eq, Structural)]
pub enum MulticastContractError {
    InvalidGroup,
    InvalidInterface,
    InvalidMaxMemberships,
    MaxMembershipsExceeded,
    MembershipLimitReached,
}

impl MulticastMembership {
    pub closed spec fn spec_group(self) -> Ipv4Address {
        self.group
    }

    pub closed spec fn spec_interface(self) -> Ipv4Address {
        self.interface
    }

    pub fn new(group: Ipv4Address, interface: Ipv4Address) -> (result: Result<
        Self,
        MulticastContractError,
    >)
        ensures
            match result {
                Ok(membership) => group.spec_is_multicast() && !interface.spec_is_multicast()
                    && membership.spec_group() == group && membership.spec_interface()
                    == interface,
                Err(MulticastContractError::InvalidGroup) => !group.spec_is_multicast(),
                Err(MulticastContractError::InvalidInterface) => group.spec_is_multicast()
                    && interface.spec_is_multicast(),
                Err(_) => false,
            },
    {
        if !group.is_multicast() {
            return Err(MulticastContractError::InvalidGroup);
        }
        if interface.is_multicast() {
            return Err(MulticastContractError::InvalidInterface);
        }
        Ok(MulticastMembership { group, interface })
    }

    #[must_use]
    pub fn group(self) -> (group: Ipv4Address)
        ensures
            group == self.spec_group(),
    {
        self.group
    }

    #[must_use]
    pub fn interface(self) -> (interface: Ipv4Address)
        ensures
            interface == self.spec_interface(),
    {
        self.interface
    }
}

#[derive(Debug, Clone, Copy, PartialEq, Eq, Structural)]
pub enum MembershipChange {
    Joined,
    AlreadyJoined,
    Left,
    NotJoined,
}

/// The memberships that are held, up to a limit.
#[derive(Debug)]
pub struct MulticastMembershipRegistry {
    memberships: OrderedSet<MulticastMembership>,
    max_memberships: usize,
}

/// What a registry holds.
#[verifier::ext_equal]
pub struct RegistryView {
    pub memberships: Set<MulticastMembership>,
    pub max_memberships: usize,
}

impl View for MulticastMembershipRegistry {
    type V = RegistryView;

    closed spec fn view(&self) -> RegistryView {
        RegistryView { memberships: self.memberships@, max_memberships: self.max_memberships }
    }
}

impl RegistryView {
    /// What a request to join is answered: joining again is free, and the limit holds.
    pub open spec fn spec_join(self, membership: MulticastMembership) -> Result<
        MembershipChange,
        MulticastContractError,
    > {
        if self.memberships.contains(membership) {
            Ok(MembershipChange::AlreadyJoined)
        } else if self.memberships.len() >= self.max_memberships {
            Err(MulticastContractError::MembershipLimitReached)
        } else {
            Ok(MembershipChange::Joined)
        }
    }

    /// The registry after a request to join.
    pub open spec fn spec_joined(self, membership: MulticastMembership) -> Self {
        if self.spec_join(membership) is Ok {
            RegistryView { memberships: self.memberships.insert(membership), ..self }
        } else {
            self
        }
    }

    /// What a request to leave is answered.
    pub open spec fn spec_leave(self, membership: MulticastMembership) -> MembershipChange {
        if self.memberships.contains(membership) {
            MembershipChange::Left
        } else {
            MembershipChange::NotJoined
        }
    }

    /// The registry after a request to leave.
    pub open spec fn spec_left(self, membership: MulticastMembership) -> Self {
        RegistryView { memberships: self.memberships.remove(membership), ..self }
    }
}

impl Default for MulticastMembershipRegistry {
    fn default() -> (registry: Self)
        ensures
            registry.wf(),
            registry@ == (RegistryView {
                memberships: Set::empty(),
                max_memberships: DEFAULT_MAX_MULTICAST_MEMBERSHIPS,
            }),
    {
        MulticastMembershipRegistry {
            memberships: OrderedSet::new(),
            max_memberships: DEFAULT_MAX_MULTICAST_MEMBERSHIPS,
        }
    }
}

impl MulticastMembershipRegistry {
    /// The limit is between 1 and 64, and there are no more memberships than it allows.
    pub closed spec fn wf(self) -> bool {
        &&& self.memberships.wf()
        &&& 1 <= self.max_memberships <= MAX_MULTICAST_MEMBERSHIPS
        &&& self.memberships@.len() <= self.max_memberships
    }

    /// A registry is bounded.
    pub proof fn lemma_bounded(self)
        requires
            self.wf(),
        ensures
            self@.memberships.finite(),
            self@.memberships.len() <= self@.max_memberships <= MAX_MULTICAST_MEMBERSHIPS,
    {
        self.memberships.lemma_view();
    }

    pub fn with_limit(max_memberships: usize) -> (result: Result<Self, MulticastContractError>)
        ensures
            match result {
                Ok(registry) => 1 <= max_memberships <= MAX_MULTICAST_MEMBERSHIPS && registry.wf()
                    && registry@ == (RegistryView {
                    memberships: Set::empty(),
                    max_memberships,
                }),
                Err(MulticastContractError::InvalidMaxMemberships) => max_memberships == 0,
                Err(MulticastContractError::MaxMembershipsExceeded) => max_memberships
                    > MAX_MULTICAST_MEMBERSHIPS,
                Err(_) => false,
            },
    {
        if max_memberships == 0 {
            return Err(MulticastContractError::InvalidMaxMemberships);
        }
        if max_memberships > MAX_MULTICAST_MEMBERSHIPS {
            return Err(MulticastContractError::MaxMembershipsExceeded);
        }
        Ok(MulticastMembershipRegistry { memberships: OrderedSet::new(), max_memberships })
    }

    pub fn join(&mut self, membership: MulticastMembership) -> (result: Result<
        MembershipChange,
        MulticastContractError,
    >)
        requires
            old(self).wf(),
        ensures
            final(self).wf(),
            result == old(self)@.spec_join(membership),
            final(self)@ == old(self)@.spec_joined(membership),
    {
        proof {
            self.memberships.lemma_view();
        }
        if self.memberships.contains(&membership) {
            proof {
                assert(self@.memberships.insert(membership) =~= self@.memberships);
            }
            return Ok(MembershipChange::AlreadyJoined);
        }
        if self.memberships.len() >= self.max_memberships {
            return Err(MulticastContractError::MembershipLimitReached);
        }
        self.memberships.insert(membership);
        Ok(MembershipChange::Joined)
    }

    pub fn leave(&mut self, membership: MulticastMembership) -> (change: MembershipChange)
        requires
            old(self).wf(),
        ensures
            final(self).wf(),
            change == old(self)@.spec_leave(membership),
            final(self)@ == old(self)@.spec_left(membership),
    {
        proof {
            self.memberships.lemma_view();
        }
        if self.memberships.remove(&membership) {
            MembershipChange::Left
        } else {
            MembershipChange::NotJoined
        }
    }

    /// Hands out every membership, in ascending order, and holds none any more.
    pub fn take_all(&mut self) -> (memberships: Vec<MulticastMembership>)
        requires
            old(self).wf(),
        ensures
            final(self).wf(),
            memberships@.to_set() == old(self)@.memberships,
            memberships@.len() == old(self)@.memberships.len(),
            crate::ordered::keys_ascend(memberships@),
            final(self)@ == (RegistryView { memberships: Set::empty(), ..old(self)@ }),
    {
        proof {
            self.memberships.lemma_view();
        }
        let memberships = self.memberships.to_vec();
        self.memberships = OrderedSet::new();
        memberships
    }

    #[must_use]
    pub fn contains(&self, membership: MulticastMembership) -> (contained: bool)
        requires
            self.wf(),
        ensures
            contained == self@.memberships.contains(membership),
    {
        self.memberships.contains(&membership)
    }

    #[must_use]
    pub fn len(&self) -> (len: usize)
        requires
            self.wf(),
        ensures
            len == self@.memberships.len(),
    {
        self.memberships.len()
    }

    #[must_use]
    pub fn is_empty(&self) -> (empty: bool)
        requires
            self.wf(),
        ensures
            empty == (self@.memberships == Set::<MulticastMembership>::empty()),
    {
        self.memberships.is_empty()
    }
}

/// A membership that was joined is left again without a trace. Joining it again, or leaving it
/// again, is answered and changes nothing.
pub proof fn law_leave_undoes_join(registry: RegistryView, membership: MulticastMembership)
    requires
        registry.spec_join(membership) is Ok,
    ensures
        ({
            let joined = registry.spec_joined(membership);
            let left = joined.spec_left(membership);
            &&& joined.memberships.contains(membership)
            &&& joined.spec_join(membership) == Ok::<_, MulticastContractError>(
                MembershipChange::AlreadyJoined,
            )
            &&& joined.spec_joined(membership) == joined
            &&& joined.spec_leave(membership) == MembershipChange::Left
            &&& left == registry.spec_left(membership)
            &&& !registry.memberships.contains(membership) ==> left == registry
            &&& left.spec_leave(membership) == MembershipChange::NotJoined
            &&& left.spec_left(membership) == left
        }),
{
    let joined = registry.spec_joined(membership);
    let left = joined.spec_left(membership);
    assert(joined.spec_joined(membership) =~= joined);
    assert(left =~= registry.spec_left(membership));
    assert(left.spec_left(membership) =~= left);
    if !registry.memberships.contains(membership) {
        assert(left =~= registry);
    }
}

#[derive(Debug, Clone, Copy, PartialEq, Eq, Structural)]
pub enum MulticastProbeFailure {
    JoinFailed,
    ProbeDatagramNotObserved,
    LeaveFailed,
}

#[derive(Debug, Clone, Copy, PartialEq, Eq, Structural)]
pub enum MulticastProbeOutcome {
    Available,
    Unavailable(MulticastProbeFailure),
}

impl MulticastProbeOutcome {
    /// UdpMulticast must not be advertised from API presence alone.
    ///
    /// A runtime may advertise the capability only after a bounded probe has
    /// demonstrated join + probe-datagram reception + clean leave. This is
    /// runtime evidence, not classroom-scale physical qualification.
    #[must_use]
    pub fn can_advertise_udp_multicast(self) -> (can: bool)
        ensures
            can == (self is Available),
    {
        matches!(self, MulticastProbeOutcome::Available)
    }
}

#[derive(Debug, Clone, Copy, PartialEq, Eq, Structural)]
pub struct MulticastProbeObservation {
    pub joined: bool,
    pub probe_datagram_observed: bool,
    pub left_cleanly: bool,
}

/// What a probe proves: only all three steps together make multicast available.
#[must_use]
pub fn evaluate_multicast_probe(observation: MulticastProbeObservation) -> (outcome:
    MulticastProbeOutcome)
    ensures
        outcome == if !observation.joined {
            MulticastProbeOutcome::Unavailable(MulticastProbeFailure::JoinFailed)
        } else if !observation.left_cleanly {
            MulticastProbeOutcome::Unavailable(MulticastProbeFailure::LeaveFailed)
        } else if !observation.probe_datagram_observed {
            MulticastProbeOutcome::Unavailable(MulticastProbeFailure::ProbeDatagramNotObserved)
        } else {
            MulticastProbeOutcome::Available
        },
        outcome is Available <==> observation.joined && observation.probe_datagram_observed
            && observation.left_cleanly,
{
    if !observation.joined {
        return MulticastProbeOutcome::Unavailable(MulticastProbeFailure::JoinFailed);
    }
    if !observation.left_cleanly {
        return MulticastProbeOutcome::Unavailable(MulticastProbeFailure::LeaveFailed);
    }
    if !observation.probe_datagram_observed {
        return MulticastProbeOutcome::Unavailable(MulticastProbeFailure::ProbeDatagramNotObserved);
    }
    MulticastProbeOutcome::Available
}

/// A group is joined as long as there is room, and no other membership is touched by joining or
/// leaving one.
pub proof fn law_memberships_are_independent(
    registry: RegistryView,
    membership: MulticastMembership,
    other: MulticastMembership,
)
    requires
        membership != other,
    ensures
        ({
            let known = registry.memberships.contains(membership);
            let room = registry.memberships.len() < registry.max_memberships;
            let result = registry.spec_join(membership);
            let joined = registry.spec_joined(membership);
            let left = registry.spec_left(membership);
            &&& known ==> result == Ok::<_, MulticastContractError>(MembershipChange::AlreadyJoined)
            &&& !known && room ==> result == Ok::<_, MulticastContractError>(
                MembershipChange::Joined,
            )
            &&& !known && !room ==> result == Err::<MembershipChange, _>(
                MulticastContractError::MembershipLimitReached,
            ) && joined == registry
            &&& result is Ok ==> joined.memberships.contains(membership)
            &&& !left.memberships.contains(membership)
            &&& joined.memberships.contains(other) == registry.memberships.contains(other)
            &&& left.memberships.contains(other) == registry.memberships.contains(other)
            &&& joined.max_memberships == registry.max_memberships && left.max_memberships
                == registry.max_memberships
        }),
{
}

} // verus!
