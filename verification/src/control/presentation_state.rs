//! Which session owns the presentation.

use crate::security::PrincipalId;
use vstd::prelude::*;

verus! {

#[derive(Debug, Clone, Copy, PartialEq, Eq)]
pub struct PresentationOwner {
    pub principal_id: PrincipalId,
    pub control_session_id: u64,
    pub presentation_id: u64,
    pub stream_id: u64,
}

#[derive(Debug, Clone, Copy, PartialEq, Eq, Structural)]
pub enum PresentationOwnershipError {
    InvalidControlSession,
    InvalidPresentationId,
    InvalidStreamId,
    Busy,
    NotOwner,
    PresentationMismatch,
}

/// At most one session presents at a time.
#[derive(Debug)]
pub struct PresentationOwnership {
    owner: Option<PresentationOwner>,
}

impl View for PresentationOwnership {
    type V = Option<PresentationOwner>;

    closed spec fn view(&self) -> Option<PresentationOwner> {
        self.owner
    }
}

/// What starting a presentation leads to: an exact retry by the owner succeeds again.
pub open spec fn spec_start(
    owner: Option<PresentationOwner>,
    requested: PresentationOwner,
) -> Result<PresentationOwner, PresentationOwnershipError> {
    if requested.control_session_id == 0 {
        Err(PresentationOwnershipError::InvalidControlSession)
    } else if requested.presentation_id == 0 {
        Err(PresentationOwnershipError::InvalidPresentationId)
    } else if requested.stream_id == 0 {
        Err(PresentationOwnershipError::InvalidStreamId)
    } else if owner is None || owner == Some(requested) {
        Ok(requested)
    } else {
        Err(PresentationOwnershipError::Busy)
    }
}

/// The owner is that session.
pub open spec fn is_owned_by(
    owner: Option<PresentationOwner>,
    principal_id: PrincipalId,
    control_session_id: u64,
) -> bool {
    owner matches Some(current) && current.principal_id == principal_id
        && current.control_session_id == control_session_id
}

/// What stopping a presentation leads to.
pub open spec fn spec_stop(
    owner: Option<PresentationOwner>,
    principal_id: PrincipalId,
    control_session_id: u64,
    presentation_id: u64,
) -> Result<PresentationOwner, PresentationOwnershipError> {
    if !is_owned_by(owner, principal_id, control_session_id) {
        Err(PresentationOwnershipError::NotOwner)
    } else if owner->Some_0.presentation_id != presentation_id {
        Err(PresentationOwnershipError::PresentationMismatch)
    } else {
        Ok(owner->Some_0)
    }
}

impl Default for PresentationOwnership {
    fn default() -> (ownership: Self)
        ensures
            ownership@ is None,
    {
        PresentationOwnership { owner: None }
    }
}

impl PresentationOwnership {
    #[must_use]
    pub fn owner(&self) -> (owner: Option<PresentationOwner>)
        ensures
            owner == self@,
    {
        self.owner
    }

    pub fn start(
        &mut self,
        principal_id: PrincipalId,
        control_session_id: u64,
        presentation_id: u64,
        stream_id: u64,
    ) -> (result: Result<PresentationOwner, PresentationOwnershipError>)
        ensures
            result == spec_start(
                old(self)@,
                (PresentationOwner {
                    principal_id,
                    control_session_id,
                    presentation_id,
                    stream_id,
                }),
            ),
            final(self)@ == match result {
                Ok(owner) => Some(owner),
                Err(_) => old(self)@,
            },
    {
        if control_session_id == 0 {
            return Err(PresentationOwnershipError::InvalidControlSession);
        }
        if presentation_id == 0 {
            return Err(PresentationOwnershipError::InvalidPresentationId);
        }
        if stream_id == 0 {
            return Err(PresentationOwnershipError::InvalidStreamId);
        }
        let requested = PresentationOwner {
            principal_id,
            control_session_id,
            presentation_id,
            stream_id,
        };
        match self.owner {
            None => {
                self.owner = Some(requested);
                Ok(requested)
            },
            Some(current) => {
                if current.principal_id == principal_id && current.control_session_id
                    == control_session_id && current.presentation_id == presentation_id
                    && current.stream_id == stream_id {
                    Ok(current)
                } else {
                    Err(PresentationOwnershipError::Busy)
                }
            },
        }
    }

    pub fn stop(
        &mut self,
        principal_id: PrincipalId,
        control_session_id: u64,
        presentation_id: u64,
    ) -> (result: Result<PresentationOwner, PresentationOwnershipError>)
        ensures
            result == spec_stop(old(self)@, principal_id, control_session_id, presentation_id),
            final(self)@ == if result is Ok {
                None
            } else {
                old(self)@
            },
    {
        let current = match self.owner {
            Some(current) => current,
            None => return Err(PresentationOwnershipError::NotOwner),
        };
        if current.principal_id != principal_id || current.control_session_id
            != control_session_id {
            return Err(PresentationOwnershipError::NotOwner);
        }
        if current.presentation_id != presentation_id {
            return Err(PresentationOwnershipError::PresentationMismatch);
        }
        self.owner = None;
        Ok(current)
    }

    /// Frees the presentation when its owner's session is gone.
    pub fn release_session(&mut self, principal_id: PrincipalId, control_session_id: u64) -> (
        released: Option<PresentationOwner>)
        ensures
            released == if is_owned_by(old(self)@, principal_id, control_session_id) {
                old(self)@
            } else {
                None
            },
            final(self)@ == if is_owned_by(old(self)@, principal_id, control_session_id) {
                None
            } else {
                old(self)@
            },
    {
        let current = match self.owner {
            Some(current) => current,
            None => return None,
        };
        if current.principal_id == principal_id && current.control_session_id
            == control_session_id {
            self.owner = None;
            Some(current)
        } else {
            None
        }
    }
}

/// While a session owns the presentation, no other session can start, stop or release one;
/// the owner can repeat its start.
pub proof fn law_owner_is_exclusive(
    owner: PresentationOwner,
    requested: PresentationOwner,
    presentation_id: u64,
)
    requires
        requested.principal_id != owner.principal_id || requested.control_session_id
            != owner.control_session_id,
    ensures
        spec_start(Some(owner), requested) is Err,
        spec_stop(
            Some(owner),
            requested.principal_id,
            requested.control_session_id,
            presentation_id,
        ) == Err::<PresentationOwner, PresentationOwnershipError>(
            PresentationOwnershipError::NotOwner,
        ),
        !is_owned_by(Some(owner), requested.principal_id, requested.control_session_id),
        spec_start(None, owner) is Ok ==> spec_start(Some(owner), owner) == spec_start(
            None,
            owner,
        ),
{
}

/// A presentation that nobody owns is taken by whoever asks for it soundly, and repeated by its
/// owner; the owner, and nobody else, stops it by its number. Each rule has its own refusal.
pub proof fn law_ownership_is_taken_and_given_back(
    owner: Option<PresentationOwner>,
    requested: PresentationOwner,
)
    ensures
        ({
            let started = spec_start(owner, requested);
            let sound = requested.control_session_id != 0 && requested.presentation_id != 0
                && requested.stream_id != 0;
            let stopped = spec_stop(
                owner,
                requested.principal_id,
                requested.control_session_id,
                requested.presentation_id,
            );
            &&& requested.control_session_id == 0 ==> started == Err::<PresentationOwner, _>(
                PresentationOwnershipError::InvalidControlSession,
            )
            &&& requested.control_session_id != 0 && requested.presentation_id == 0 ==> started
                == Err::<PresentationOwner, _>(PresentationOwnershipError::InvalidPresentationId)
            &&& requested.control_session_id != 0 && requested.presentation_id != 0
                && requested.stream_id == 0 ==> started == Err::<PresentationOwner, _>(
                PresentationOwnershipError::InvalidStreamId,
            )
            &&& sound && owner is None ==> started == Ok::<_, PresentationOwnershipError>(requested)
            &&& sound && owner == Some(requested) ==> started == Ok::<
                _,
                PresentationOwnershipError,
            >(requested)
            &&& sound && owner is Some && owner->Some_0 != requested ==> started == Err::<
                PresentationOwner,
                _,
            >(PresentationOwnershipError::Busy)
            &&& owner == Some(requested) ==> stopped == Ok::<_, PresentationOwnershipError>(
                requested,
            )
            &&& owner is None ==> stopped == Err::<PresentationOwner, _>(
                PresentationOwnershipError::NotOwner,
            )
            &&& owner is Some && owner->Some_0.principal_id != requested.principal_id ==> stopped
                is Err
            &&& owner is Some && owner->Some_0.control_session_id != requested.control_session_id
                ==> stopped is Err
            &&& is_owned_by(owner, requested.principal_id, requested.control_session_id)
                && owner->Some_0.presentation_id != requested.presentation_id ==> stopped == Err::<
                PresentationOwner,
                _,
            >(PresentationOwnershipError::PresentationMismatch)
            &&& owner == Some(requested) ==> is_owned_by(
                owner,
                requested.principal_id,
                requested.control_session_id,
            )
        }),
{
}

} // verus!
