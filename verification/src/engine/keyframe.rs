//! Keyframe requests from many receivers, let through one at a time.

use vstd::prelude::*;

verus! {

/// Coalesces receiver keyframe requests so one unhealthy client cannot force the encoder to emit an
/// unbounded IDR storm. Time is supplied by the caller in a monotonic microsecond domain.
#[derive(Debug, Clone, Copy, PartialEq, Eq, Structural)]
pub struct KeyframeRequestCoordinator {
    min_interval_us: u64,
    last_granted_us: Option<u64>,
    granted_requests: u64,
    suppressed_requests: u64,
}

/// A coordinator: its interval, when it granted last, and how often it granted and refused.
pub struct KeyframeView {
    pub min_interval_us: u64,
    pub last_granted_us: Option<u64>,
    pub granted_requests: u64,
    pub suppressed_requests: u64,
}

impl View for KeyframeRequestCoordinator {
    type V = KeyframeView;

    closed spec fn view(&self) -> KeyframeView {
        KeyframeView {
            min_interval_us: self.min_interval_us,
            last_granted_us: self.last_granted_us,
            granted_requests: self.granted_requests,
            suppressed_requests: self.suppressed_requests,
        }
    }
}

impl KeyframeView {
    /// A request at `now_us` is granted.
    pub open spec fn spec_grants(self, now_us: u64) -> bool {
        match self.last_granted_us {
            None => true,
            Some(last) => crate::counting::elapsed(now_us, last) >= self.min_interval_us,
        }
    }

    /// The coordinator after a request.
    pub open spec fn spec_requested(self, now_us: u64) -> Self {
        if self.spec_grants(now_us) {
            KeyframeView {
                last_granted_us: Some(now_us),
                granted_requests: crate::counting::saturating_sum(self.granted_requests, 1),
                ..self
            }
        } else {
            KeyframeView {
                suppressed_requests: crate::counting::saturating_sum(self.suppressed_requests, 1),
                ..self
            }
        }
    }
}

impl KeyframeRequestCoordinator {
    #[must_use]
    pub fn new(min_interval_us: u64) -> (coordinator: Self)
        ensures
            coordinator@ == (KeyframeView {
                min_interval_us,
                last_granted_us: None,
                granted_requests: 0,
                suppressed_requests: 0,
            }),
    {
        KeyframeRequestCoordinator {
            min_interval_us,
            last_granted_us: None,
            granted_requests: 0,
            suppressed_requests: 0,
        }
    }

    /// Returns `true` when the caller should ask the encoder for a keyframe now.
    ///
    /// The first request is granted immediately. Subsequent requests inside the configured interval
    /// are coalesced. A request exactly at the boundary is granted.
    pub fn request(&mut self, now_us: u64) -> (granted: bool)
        ensures
            granted == old(self)@.spec_grants(now_us),
            final(self)@ == old(self)@.spec_requested(now_us),
    {
        let allowed = match self.last_granted_us {
            None => true,
            Some(last) => now_us.saturating_sub(last) >= self.min_interval_us,
        };
        if allowed {
            self.last_granted_us = Some(now_us);
            self.granted_requests = self.granted_requests.saturating_add(1);
            true
        } else {
            self.suppressed_requests = self.suppressed_requests.saturating_add(1);
            false
        }
    }

    #[must_use]
    pub fn granted_requests(&self) -> (granted: u64)
        ensures
            granted == self@.granted_requests,
    {
        self.granted_requests
    }

    #[must_use]
    pub fn suppressed_requests(&self) -> (suppressed: u64)
        ensures
            suppressed == self@.suppressed_requests,
    {
        self.suppressed_requests
    }

    #[must_use]
    pub fn min_interval_us(&self) -> (interval: u64)
        ensures
            interval == self@.min_interval_us,
    {
        self.min_interval_us
    }
}

impl Default for KeyframeRequestCoordinator {
    fn default() -> (coordinator: Self)
        ensures
            coordinator@ == (KeyframeView {
                min_interval_us: 250_000,
                last_granted_us: None,
                granted_requests: 0,
                suppressed_requests: 0,
            }),
    {
        Self::new(250_000)
    }
}

/// After a grant, requests are refused until the interval is over, however many there are,
/// and a clock that runs backwards lets none through.
pub proof fn law_grants_keep_their_distance(coordinator: KeyframeView, granted: u64, later: u64)
    requires
        coordinator.spec_grants(granted),
        coordinator.min_interval_us > 0,
        coordinator.spec_requested(granted).spec_grants(later),
    ensures
        later >= granted + coordinator.min_interval_us,
{
}

/// A request is granted where none was granted before, and again as soon as the interval is over.
/// Every request counts once: as granted, which starts the interval anew, or as refused, which
/// changes nothing else.
pub proof fn law_every_request_is_answered(coordinator: KeyframeView, now_us: u64)
    ensures
        ({
            let after = coordinator.spec_requested(now_us);
            &&& coordinator.last_granted_us is None ==> coordinator.spec_grants(now_us)
            &&& coordinator.last_granted_us matches Some(last) ==> (now_us >= last
                + coordinator.min_interval_us ==> coordinator.spec_grants(now_us))
            &&& coordinator.last_granted_us matches Some(last) ==> (now_us < last
                + coordinator.min_interval_us && coordinator.min_interval_us > 0
                ==> !coordinator.spec_grants(now_us))
            &&& after.min_interval_us == coordinator.min_interval_us
            &&& coordinator.spec_grants(now_us) ==> after.last_granted_us == Some(now_us)
                && after.suppressed_requests == coordinator.suppressed_requests
            &&& !coordinator.spec_grants(now_us) ==> after.last_granted_us
                == coordinator.last_granted_us && after.granted_requests
                == coordinator.granted_requests
            &&& coordinator.granted_requests + coordinator.suppressed_requests < u64::MAX
                ==> after.granted_requests + after.suppressed_requests
                == coordinator.granted_requests + coordinator.suppressed_requests + 1
        }),
{
}

} // verus!
