//! Whether a device is there, apart from how its media are.

use super::{ControlState, MediaState};
use vstd::prelude::*;

verus! {

#[derive(Debug, Clone, Copy, PartialEq, Eq, Structural)]
pub enum PresenceState {
    Offline,
    Connecting,
    Online,
    ControlRecovering,
}

#[derive(Debug, Clone, Copy, PartialEq, Eq, Structural)]
pub struct DeviceHealth {
    pub presence: PresenceState,
    pub media: MediaState,
    pub worker_ready: bool,
    pub service_ready: bool,
}

#[derive(Debug, Clone, Copy, PartialEq, Eq, Structural)]
pub struct HeartbeatPolicy {
    pub suspect_after_us: u64,
    pub offline_after_us: u64,
}

impl Default for HeartbeatPolicy {
    fn default() -> (policy: Self)
        ensures
            policy == (HeartbeatPolicy {
                suspect_after_us: 6_000_000,
                offline_after_us: 10_000_000,
            }),
    {
        HeartbeatPolicy { suspect_after_us: 6_000_000, offline_after_us: 10_000_000 }
    }
}

/// Follows a device by its control connection and its heartbeats.
#[derive(Debug)]
pub struct PresenceTracker {
    control: ControlState,
    media: MediaState,
    service_ready: bool,
    worker_ready: bool,
    last_heartbeat_us: Option<u64>,
    policy: HeartbeatPolicy,
}

/// What is known of a device.
pub struct PresenceView {
    pub control: ControlState,
    pub media: MediaState,
    pub service_ready: bool,
    pub worker_ready: bool,
    pub last_heartbeat_us: Option<u64>,
    pub policy: HeartbeatPolicy,
}

impl View for PresenceTracker {
    type V = PresenceView;

    closed spec fn view(&self) -> PresenceView {
        PresenceView {
            control: self.control,
            media: self.media,
            service_ready: self.service_ready,
            worker_ready: self.worker_ready,
            last_heartbeat_us: self.last_heartbeat_us,
            policy: self.policy,
        }
    }
}

impl PresenceView {
    /// Whether the device is there: as the connection says, and while that is authenticated,
    /// as the time since the last heartbeat says.
    pub open spec fn spec_presence(self, now_us: u64) -> PresenceState {
        match self.control {
            ControlState::Disconnected => PresenceState::Offline,
            ControlState::Connecting => PresenceState::Connecting,
            ControlState::Recovering => PresenceState::ControlRecovering,
            ControlState::Authenticated => match self.last_heartbeat_us {
                None => PresenceState::Connecting,
                Some(last) => {
                    let silence = crate::counting::elapsed(now_us, last);
                    if silence >= self.policy.offline_after_us {
                        PresenceState::Offline
                    } else if silence >= self.policy.suspect_after_us {
                        PresenceState::ControlRecovering
                    } else {
                        PresenceState::Online
                    }
                },
            },
        }
    }
}

impl PresenceTracker {
    #[must_use]
    pub fn new(policy: HeartbeatPolicy) -> (tracker: Self)
        ensures
            tracker@ == (PresenceView {
                control: ControlState::Disconnected,
                media: MediaState::Idle,
                service_ready: false,
                worker_ready: false,
                last_heartbeat_us: None,
                policy,
            }),
    {
        PresenceTracker {
            control: ControlState::Disconnected,
            media: MediaState::Idle,
            service_ready: false,
            worker_ready: false,
            last_heartbeat_us: None,
            policy,
        }
    }

    pub fn set_control_state(&mut self, control: ControlState)
        ensures
            final(self)@ == (PresenceView { control, ..old(self)@ }),
    {
        self.control = control;
    }

    pub fn set_media_state(&mut self, media: MediaState)
        ensures
            final(self)@ == (PresenceView { media, ..old(self)@ }),
    {
        self.media = media;
    }

    pub fn set_service_ready(&mut self, ready: bool)
        ensures
            final(self)@ == (PresenceView { service_ready: ready, ..old(self)@ }),
    {
        self.service_ready = ready;
    }

    pub fn set_worker_ready(&mut self, ready: bool)
        ensures
            final(self)@ == (PresenceView { worker_ready: ready, ..old(self)@ }),
    {
        self.worker_ready = ready;
    }

    pub fn heartbeat(&mut self, now_us: u64)
        ensures
            final(self)@ == (PresenceView {
                last_heartbeat_us: Some(now_us),
                control: ControlState::Authenticated,
                ..old(self)@
            }),
    {
        self.last_heartbeat_us = Some(now_us);
        self.control = ControlState::Authenticated;
    }

    #[must_use]
    pub fn health(&self, now_us: u64) -> (health: DeviceHealth)
        ensures
            health == (DeviceHealth {
                presence: self@.spec_presence(now_us),
                media: self@.media,
                worker_ready: self@.worker_ready,
                service_ready: self@.service_ready,
            }),
    {
        let presence = match self.control {
            ControlState::Disconnected => PresenceState::Offline,
            ControlState::Connecting => PresenceState::Connecting,
            ControlState::Recovering => PresenceState::ControlRecovering,
            ControlState::Authenticated => match self.last_heartbeat_us {
                None => PresenceState::Connecting,
                Some(last) => {
                    let silence: u64 = now_us.saturating_sub(last);
                    if silence >= self.policy.offline_after_us {
                        PresenceState::Offline
                    } else if silence >= self.policy.suspect_after_us {
                        PresenceState::ControlRecovering
                    } else {
                        PresenceState::Online
                    }
                },
            },
        };
        DeviceHealth {
            presence,
            media: self.media,
            worker_ready: self.worker_ready,
            service_ready: self.service_ready,
        }
    }
}

/// How a device's media, service and worker are has no bearing on whether it is there.
pub proof fn law_presence_is_independent_of_media(
    device: PresenceView,
    media: MediaState,
    service_ready: bool,
    worker_ready: bool,
    now_us: u64,
)
    ensures
        (PresenceView { media, service_ready, worker_ready, ..device }).spec_presence(now_us)
            == device.spec_presence(now_us),
{
}

/// A device that falls silent is first suspected and then offline, and stays so until the
/// next heartbeat.
pub proof fn law_silence_ends_offline(device: PresenceView, earlier: u64, later: u64)
    requires
        earlier <= later,
        device.spec_presence(earlier) == PresenceState::Offline,
    ensures
        device.spec_presence(later) == PresenceState::Offline,
{
}

/// A device whose connection is authenticated and whose heartbeat is fresh is online. After the
/// first limit of silence it is suspected, after the second it is offline. The other states of the
/// connection speak for themselves.
pub proof fn law_presence_follows_the_silence(device: PresenceView, last: u64, now_us: u64)
    requires
        now_us >= last,
    ensures
        ({
            let heard = PresenceView {
                control: ControlState::Authenticated,
                last_heartbeat_us: Some(last),
                ..device
            };
            let silence = now_us - last;
            let policy = device.policy;
            &&& silence >= policy.offline_after_us ==> heard.spec_presence(now_us)
                == PresenceState::Offline
            &&& policy.suspect_after_us <= silence < policy.offline_after_us
                ==> heard.spec_presence(now_us) == PresenceState::ControlRecovering
            &&& silence < policy.suspect_after_us && silence < policy.offline_after_us
                ==> heard.spec_presence(now_us) == PresenceState::Online
            &&& heard.spec_presence(0) == heard.spec_presence(last)
        }),
        device.control == ControlState::Disconnected ==> device.spec_presence(now_us)
            == PresenceState::Offline,
        device.control == ControlState::Connecting ==> device.spec_presence(now_us)
            == PresenceState::Connecting,
        device.control == ControlState::Recovering ==> device.spec_presence(now_us)
            == PresenceState::ControlRecovering,
        device.control == ControlState::Authenticated && device.last_heartbeat_us is None
            ==> device.spec_presence(now_us) == PresenceState::Connecting,
{
}

} // verus!
