//! Who receives the frames of a group, and under which key.

use super::group_media::{
    GroupMediaEpoch, GroupMediaError, GroupMediaKeyMaterial, GroupMediaSender, MediaSenderView,
};
use super::{AuthorizationStore, Permission, PrincipalId, StoreView};
use crate::ordered::OrderedMap;
use crate::wipe::wipe_array;
use vstd::prelude::*;
use vstd::string::StringExecFns;

verus! {

pub const DEFAULT_MAX_GROUP_MEDIA_RECEIVERS: usize = 64;

pub const MAX_GROUP_MEDIA_RECEIVERS: usize = 64;

#[derive(Debug, Clone, Copy, PartialEq, Eq, Structural)]
pub enum GroupMediaRegistration {
    Added,
    AlreadyRegistered,
}

#[derive(Debug, Clone, Copy, PartialEq, Eq, Structural)]
pub enum GroupMediaReceiverInstallState {
    AwaitingKey,
    KeyIssued(GroupMediaEpoch),
    Installed(GroupMediaEpoch),
}

/// The key of an epoch on its way to one receiver. It is cleared when it is dropped.
pub struct GroupMediaKeyGrant {
    principal: PrincipalId,
    epoch: GroupMediaEpoch,
    key_bytes: [u8; 32],
}

/// To whom a grant goes, for which epoch, and the key.
pub struct KeyGrantView {
    pub principal: PrincipalId,
    pub epoch: GroupMediaEpoch,
    pub material: Seq<u8>,
}

impl View for GroupMediaKeyGrant {
    type V = KeyGrantView;

    closed spec fn view(&self) -> KeyGrantView {
        KeyGrantView {
            principal: self.principal,
            epoch: self.epoch,
            material: self.key_bytes@,
        }
    }
}

impl Drop for GroupMediaKeyGrant {
    fn drop(&mut self)
        opens_invariants none
        no_unwind
    {
        wipe_array(&mut self.key_bytes);
    }
}

impl GroupMediaKeyGrant {
    #[must_use]
    pub fn principal(&self) -> (principal: PrincipalId)
        ensures
            principal == self@.principal,
    {
        self.principal
    }

    #[must_use]
    pub fn epoch(&self) -> (epoch: GroupMediaEpoch)
        ensures
            epoch == self@.epoch,
    {
        self.epoch
    }

    /// A copy of the key, for the message that delivers it.
    #[must_use]
    pub fn copy_key_material_for_delivery(&self) -> (bytes: [u8; 32])
        ensures
            bytes@ == self@.material,
    {
        self.key_bytes
    }
}

#[derive(Debug)]
pub enum GroupMediaCoordinatorError {
    InvalidReceiverLimit,
    ReceiverLimitExceeded,
    UnauthorizedReceiver,
    ReceiverNotRegistered,
    NoActiveEpoch,
    RotationRequired,
    KeyNotIssued,
    StaleEpoch,
    EpochExhausted,
    Crypto(GroupMediaError),
}

impl GroupMediaCoordinatorError {
    /// What the error says.
    pub open spec fn spec_message(self) -> Seq<char> {
        match self {
            GroupMediaCoordinatorError::InvalidReceiverLimit => {
                "invalid group-media receiver limit"@
            },
            GroupMediaCoordinatorError::ReceiverLimitExceeded => {
                "group-media receiver limit exceeded"@
            },
            GroupMediaCoordinatorError::UnauthorizedReceiver => {
                "group-media receiver is unauthorized"@
            },
            GroupMediaCoordinatorError::ReceiverNotRegistered => {
                "group-media receiver is not registered"@
            },
            GroupMediaCoordinatorError::NoActiveEpoch => "no active group-media epoch"@,
            GroupMediaCoordinatorError::RotationRequired => {
                "group-media epoch rotation is required"@
            },
            GroupMediaCoordinatorError::KeyNotIssued => {
                "group-media key was not issued to receiver"@
            },
            GroupMediaCoordinatorError::StaleEpoch => "group-media epoch is stale"@,
            GroupMediaCoordinatorError::EpochExhausted => "group-media epoch space is exhausted"@,
            GroupMediaCoordinatorError::Crypto(error) => "group-media crypto failure: "@
                + error.spec_message(),
        }
    }

    /// The text for people.
    #[must_use]
    pub fn message(&self) -> (text: String)
        ensures
            text@ == self.spec_message(),
    {
        match self {
            GroupMediaCoordinatorError::InvalidReceiverLimit => {
                "invalid group-media receiver limit".to_owned()
            },
            GroupMediaCoordinatorError::ReceiverLimitExceeded => {
                "group-media receiver limit exceeded".to_owned()
            },
            GroupMediaCoordinatorError::UnauthorizedReceiver => {
                "group-media receiver is unauthorized".to_owned()
            },
            GroupMediaCoordinatorError::ReceiverNotRegistered => {
                "group-media receiver is not registered".to_owned()
            },
            GroupMediaCoordinatorError::NoActiveEpoch => "no active group-media epoch".to_owned(),
            GroupMediaCoordinatorError::RotationRequired => {
                "group-media epoch rotation is required".to_owned()
            },
            GroupMediaCoordinatorError::KeyNotIssued => {
                "group-media key was not issued to receiver".to_owned()
            },
            GroupMediaCoordinatorError::StaleEpoch => "group-media epoch is stale".to_owned(),
            GroupMediaCoordinatorError::EpochExhausted => {
                "group-media epoch space is exhausted".to_owned()
            },
            GroupMediaCoordinatorError::Crypto(error) => {
                let mut text: String = "group-media crypto failure: ".to_owned();
                text.append(error.message().as_str());
                text
            },
        }
    }
}

impl From<GroupMediaError> for GroupMediaCoordinatorError {
    fn from(value: GroupMediaError) -> (error: Self) {
        GroupMediaCoordinatorError::Crypto(value)
    }
}

impl vstd::std_specs::convert::FromSpecImpl<GroupMediaError> for GroupMediaCoordinatorError {
    open spec fn obeys_from_spec() -> bool {
        true
    }

    open spec fn from_spec(value: GroupMediaError) -> Self {
        GroupMediaCoordinatorError::Crypto(value)
    }
}

struct ActiveEpoch {
    epoch: GroupMediaEpoch,
    key: GroupMediaKeyMaterial,
    sender: GroupMediaSender,
}

/// Keeps the receivers of a group, hands the epoch's key to each of them, and seals frames as
/// long as the receivers are those that the epoch was begun with.
pub struct GroupMediaCoordinator {
    receivers: OrderedMap<PrincipalId, GroupMediaReceiverInstallState>,
    max_receivers: usize,
    last_epoch: u32,
    active: Option<ActiveEpoch>,
    rotation_required: bool,
}

/// A coordinator: how far each receiver is, the limit on their number, the number of the last
/// epoch, the sender of the one that is active, and whether that one is to be replaced.
#[verifier::ext_equal]
pub struct CoordinatorView {
    pub receivers: Map<PrincipalId, GroupMediaReceiverInstallState>,
    pub max_receivers: int,
    pub last_epoch: u32,
    pub active: Option<MediaSenderView>,
    pub rotation_required: bool,
}

impl View for GroupMediaCoordinator {
    type V = CoordinatorView;

    closed spec fn view(&self) -> CoordinatorView {
        CoordinatorView {
            receivers: self.receivers@,
            max_receivers: self.max_receivers as int,
            last_epoch: self.last_epoch,
            active: match self.active {
                Some(active) => Some(active.sender@),
                None => None,
            },
            rotation_required: self.rotation_required,
        }
    }
}

/// The principal may receive a presentation.
pub open spec fn may_receive(store: StoreView, principal: PrincipalId) -> bool {
    store.spec_authorize(principal, Permission::ReceivePresentation)
}

impl CoordinatorView {
    /// A coordinator without receivers or epochs.
    pub open spec fn fresh(max_receivers: int, last_epoch: u32) -> Self {
        CoordinatorView {
            receivers: Map::empty(),
            max_receivers,
            last_epoch,
            active: None,
            rotation_required: false,
        }
    }

    /// The receivers stay within their limit, and no epoch is ahead of the last one.
    pub open spec fn is_sound(self) -> bool {
        &&& self.receivers.dom().finite()
        &&& self.receivers.dom().len() <= self.max_receivers
        &&& 1 <= self.max_receivers <= MAX_GROUP_MEDIA_RECEIVERS
        &&& self.active matches Some(sender) ==> sender.epoch.spec_get() == self.last_epoch
        &&& self.active is None ==> !self.rotation_required
        &&& forall|p: PrincipalId| #[trigger]
            self.receivers.contains_key(p) ==> match self.receivers[p] {
                GroupMediaReceiverInstallState::AwaitingKey => true,
                GroupMediaReceiverInstallState::KeyIssued(epoch) => self.active matches Some(sender)
                    && epoch == sender.epoch,
                GroupMediaReceiverInstallState::Installed(epoch) => self.active matches Some(sender)
                    && epoch == sender.epoch,
            }
    }

    /// A change of the receivers makes the active epoch unfit.
    pub open spec fn spec_with_receivers(
        self,
        receivers: Map<PrincipalId, GroupMediaReceiverInstallState>,
    ) -> Self {
        CoordinatorView {
            receivers,
            rotation_required: self.rotation_required || self.active is Some,
            ..self
        }
    }

    /// What registering a receiver leads to.
    pub open spec fn spec_register(self, store: StoreView, principal: PrincipalId) -> Result<
        GroupMediaRegistration,
        GroupMediaCoordinatorError,
    > {
        if !may_receive(store, principal) {
            Err(GroupMediaCoordinatorError::UnauthorizedReceiver)
        } else if self.receivers.contains_key(principal) {
            Ok(GroupMediaRegistration::AlreadyRegistered)
        } else if self.receivers.dom().len() >= self.max_receivers {
            Err(GroupMediaCoordinatorError::ReceiverLimitExceeded)
        } else {
            Ok(GroupMediaRegistration::Added)
        }
    }

    /// The coordinator with a new receiver.
    pub open spec fn spec_registered(self, principal: PrincipalId) -> Self {
        self.spec_with_receivers(
            self.receivers.insert(principal, GroupMediaReceiverInstallState::AwaitingKey),
        )
    }

    /// The coordinator without a receiver.
    pub open spec fn spec_removed(self, principal: PrincipalId) -> Self {
        if self.receivers.contains_key(principal) {
            self.spec_with_receivers(self.receivers.remove(principal))
        } else {
            self
        }
    }

    /// Some receiver may not receive any more.
    pub open spec fn spec_has_unauthorized(self, store: StoreView) -> bool {
        exists|p: PrincipalId| #[trigger] self.receivers.contains_key(p) && !may_receive(store, p)
    }

    /// The coordinator without the receivers that may not receive any more.
    pub open spec fn spec_reconciled(self, store: StoreView) -> Self {
        if self.spec_has_unauthorized(store) {
            self.spec_with_receivers(
                self.receivers.restrict(Set::new(|p: PrincipalId| may_receive(store, p))),
            )
        } else {
            self
        }
    }

    /// Every receiver waits for a key.
    pub open spec fn spec_all_waiting(self) -> Map<PrincipalId, GroupMediaReceiverInstallState> {
        self.receivers.map_values(
            |state: GroupMediaReceiverInstallState| GroupMediaReceiverInstallState::AwaitingKey,
        )
    }

    /// The epoch that comes next.
    pub open spec fn is_next_epoch(self, epoch: GroupMediaEpoch) -> bool {
        epoch.spec_get() == self.last_epoch + 1
    }

    /// The coordinator after an epoch was begun.
    pub open spec fn spec_begun(self, sender: MediaSenderView) -> Self {
        CoordinatorView {
            receivers: self.spec_all_waiting(),
            last_epoch: sender.epoch.spec_get(),
            active: Some(sender),
            rotation_required: false,
            ..self
        }
    }

    /// The coordinator after the active epoch, if there is one, was ended.
    pub open spec fn spec_ended(self) -> Self {
        CoordinatorView {
            receivers: if self.active is Some {
                self.spec_all_waiting()
            } else {
                self.receivers
            },
            active: None,
            rotation_required: false,
            ..self
        }
    }

    /// Why a receiver gets no key, if it does not.
    pub open spec fn spec_issue_refusal(self, store: StoreView, principal: PrincipalId) -> Option<
        GroupMediaCoordinatorError,
    > {
        if !may_receive(store, principal) {
            Some(GroupMediaCoordinatorError::UnauthorizedReceiver)
        } else if self.rotation_required {
            Some(GroupMediaCoordinatorError::RotationRequired)
        } else if self.active is None {
            Some(GroupMediaCoordinatorError::NoActiveEpoch)
        } else if !self.receivers.contains_key(principal) {
            Some(GroupMediaCoordinatorError::ReceiverNotRegistered)
        } else {
            None
        }
    }

    /// The coordinator after a receiver's state was set.
    pub open spec fn spec_with_state(
        self,
        principal: PrincipalId,
        state: GroupMediaReceiverInstallState,
    ) -> Self {
        CoordinatorView { receivers: self.receivers.insert(principal, state), ..self }
    }

    /// Why a receiver's report that it has installed a key is refused, if it is.
    pub open spec fn spec_install_refusal(
        self,
        store: StoreView,
        principal: PrincipalId,
        epoch: GroupMediaEpoch,
    ) -> Option<GroupMediaCoordinatorError> {
        if !may_receive(store, principal) {
            Some(GroupMediaCoordinatorError::UnauthorizedReceiver)
        } else if self.rotation_required {
            Some(GroupMediaCoordinatorError::RotationRequired)
        } else {
            match self.active {
                None => Some(GroupMediaCoordinatorError::NoActiveEpoch),
                Some(sender) => if epoch != sender.epoch {
                    Some(GroupMediaCoordinatorError::StaleEpoch)
                } else if !self.receivers.contains_key(principal) {
                    Some(GroupMediaCoordinatorError::ReceiverNotRegistered)
                } else {
                    match self.receivers[principal] {
                        GroupMediaReceiverInstallState::AwaitingKey => Some(
                            GroupMediaCoordinatorError::KeyNotIssued,
                        ),
                        GroupMediaReceiverInstallState::KeyIssued(issued) => if issued == epoch {
                            None
                        } else {
                            Some(GroupMediaCoordinatorError::StaleEpoch)
                        },
                        GroupMediaReceiverInstallState::Installed(installed) => if installed
                            == epoch {
                            None
                        } else {
                            Some(GroupMediaCoordinatorError::StaleEpoch)
                        },
                    }
                },
            }
        }
    }
}

impl Default for GroupMediaCoordinator {
    fn default() -> (coordinator: Self)
        ensures
            coordinator.wf(),
            coordinator@ == CoordinatorView::fresh(DEFAULT_MAX_GROUP_MEDIA_RECEIVERS as int, 0),
    {
        Self::starting_after(DEFAULT_MAX_GROUP_MEDIA_RECEIVERS, 0)
    }
}

impl GroupMediaCoordinator {
    /// The receivers are in order and few enough, and the active epoch's sender has its key.
    pub closed spec fn wf(self) -> bool {
        &&& self.receivers.wf()
        &&& self@.is_sound()
        &&& match self.active {
            Some(active) => active.sender.wf() && active.sender@.epoch == active.epoch
                && active.sender@.material == active.key@,
            None => true,
        }
    }

    /// What soundness means of the view.
    pub proof fn lemma_sound(self)
        requires
            self.wf(),
        ensures
            self@.is_sound(),
    {
    }

    fn starting_after(max_receivers: usize, last_epoch: u32) -> (coordinator: Self)
        requires
            1 <= max_receivers <= MAX_GROUP_MEDIA_RECEIVERS,
        ensures
            coordinator.wf(),
            coordinator@ == CoordinatorView::fresh(max_receivers as int, last_epoch),
    {
        GroupMediaCoordinator {
            receivers: OrderedMap::new(),
            max_receivers,
            last_epoch,
            active: None,
            rotation_required: false,
        }
    }

    pub fn with_limit(max_receivers: usize) -> (result: Result<Self, GroupMediaCoordinatorError>)
        ensures
            match result {
                Ok(coordinator) => 1 <= max_receivers <= MAX_GROUP_MEDIA_RECEIVERS
                    && coordinator.wf() && coordinator@ == CoordinatorView::fresh(
                    max_receivers as int,
                    0,
                ),
                Err(error) => !(1 <= max_receivers <= MAX_GROUP_MEDIA_RECEIVERS) && error
                    is InvalidReceiverLimit,
            },
    {
        if max_receivers == 0 || max_receivers > MAX_GROUP_MEDIA_RECEIVERS {
            return Err(GroupMediaCoordinatorError::InvalidReceiverLimit);
        }
        Ok(Self::starting_after(max_receivers, 0))
    }

    /// A coordinator whose epochs go on after one that was used before, so that no number is
    /// used twice.
    #[must_use]
    pub fn resuming_after(last_epoch: u32) -> (coordinator: Self)
        ensures
            coordinator.wf(),
            coordinator@ == CoordinatorView::fresh(
                DEFAULT_MAX_GROUP_MEDIA_RECEIVERS as int,
                last_epoch,
            ),
    {
        Self::starting_after(DEFAULT_MAX_GROUP_MEDIA_RECEIVERS, last_epoch)
    }

    pub fn register_receiver(
        &mut self,
        authorization: &AuthorizationStore,
        principal: PrincipalId,
    ) -> (result: Result<GroupMediaRegistration, GroupMediaCoordinatorError>)
        requires
            old(self).wf(),
            authorization.wf(),
        ensures
            final(self).wf(),
            result == old(self)@.spec_register(authorization@, principal),
            final(self)@ == if result matches Ok(GroupMediaRegistration::Added) {
                old(self)@.spec_registered(principal)
            } else {
                old(self)@
            },
    {
        if !authorization.authorize(principal, Permission::ReceivePresentation) {
            return Err(GroupMediaCoordinatorError::UnauthorizedReceiver);
        }
        if self.receivers.contains_key(&principal) {
            return Ok(GroupMediaRegistration::AlreadyRegistered);
        }
        if self.receivers.len() >= self.max_receivers {
            return Err(GroupMediaCoordinatorError::ReceiverLimitExceeded);
        }
        let _ = self.receivers.insert(principal, GroupMediaReceiverInstallState::AwaitingKey);
        if self.active.is_some() {
            self.rotation_required = true;
        }
        Ok(GroupMediaRegistration::Added)
    }

    /// Takes a receiver out, and tells whether it was there.
    pub fn remove_receiver(&mut self, principal: PrincipalId) -> (removed: bool)
        requires
            old(self).wf(),
        ensures
            final(self).wf(),
            removed == old(self)@.receivers.contains_key(principal),
            final(self)@ == old(self)@.spec_removed(principal),
    {
        let removed = self.receivers.remove(&principal).is_some();
        if removed && self.active.is_some() {
            self.rotation_required = true;
        }
        proof {
            if !removed {
                assert(self@ =~= old(self)@);
            }
        }
        removed
    }

    /// Lets every receiver wait for a key.
    fn await_keys(&mut self)
        requires
            old(self).receivers.wf(),
        ensures
            final(self).receivers.wf(),
            final(self).receivers@ == old(self)@.spec_all_waiting(),
            *final(self) == (GroupMediaCoordinator {
                receivers: final(self).receivers,
                ..*old(self)
            }),
    {
        let count: usize = self.receivers.len();
        let mut i: usize = 0;
        proof {
            self.receivers.lemma_view();
        }
        while i < count
            invariant
                i <= count,
                self.receivers.wf(),
                count == self.receivers.spec_entries().len(),
                count == old(self).receivers.spec_entries().len(),
                old(self).receivers.wf(),
                self.receivers@.dom() == old(self).receivers@.dom(),
                forall|j: int|
                    0 <= j < i ==> (#[trigger] self.receivers.spec_entries()[j]).1
                        == GroupMediaReceiverInstallState::AwaitingKey,
                *self == (GroupMediaCoordinator { receivers: self.receivers, ..*old(self) }),
            decreases count - i,
        {
            let ghost before = self.receivers;
            proof {
                before.lemma_view();
            }
            let state = self.receivers.value_at_mut(i);
            *state = GroupMediaReceiverInstallState::AwaitingKey;
            i += 1;
            proof {
                assert(self.receivers@.dom() =~= before@.dom());
            }
        }
        proof {
            self.receivers.lemma_view();
            assert(self.receivers@ =~= old(self)@.spec_all_waiting());
        }
    }

    /// Begins an epoch with a new key, which is drawn at random.
    pub fn begin_epoch(&mut self) -> (result: Result<GroupMediaEpoch, GroupMediaCoordinatorError>)
        requires
            old(self).wf(),
        ensures
            final(self).wf(),
            match result {
                Ok(epoch) => exists|material: Seq<u8>|
                    material.len() == 32 && old(self)@.is_next_epoch(epoch) && final(self)@ == old(
                        self,
                    )@.spec_begun((#[trigger] first_sender(epoch, material))),
                Err(error) => final(self)@ == old(self)@ && match error {
                    GroupMediaCoordinatorError::EpochExhausted => old(self)@.last_epoch
                        == u32::MAX,
                    GroupMediaCoordinatorError::Crypto(inner) => inner is RandomUnavailable && old(
                        self,
                    )@.last_epoch < u32::MAX,
                    _ => false,
                },
            },
    {
        if self.last_epoch == u32::MAX {
            return Err(GroupMediaCoordinatorError::EpochExhausted);
        }
        let key = match GroupMediaKeyMaterial::generate() {
            Ok(key) => key,
            Err(error) => return Err(GroupMediaCoordinatorError::from(error)),
        };
        self.begin_epoch_with(key)
    }

    /// Begins an epoch with a given key.
    pub fn begin_epoch_with(&mut self, key: GroupMediaKeyMaterial) -> (result: Result<
        GroupMediaEpoch,
        GroupMediaCoordinatorError,
    >)
        requires
            old(self).wf(),
        ensures
            final(self).wf(),
            match result {
                Ok(epoch) => old(self)@.is_next_epoch(epoch) && final(self)@ == old(
                    self,
                )@.spec_begun(first_sender(epoch, key@)),
                Err(error) => old(self)@.last_epoch == u32::MAX && error is EpochExhausted
                    && final(self)@ == old(self)@,
            },
    {
        if self.last_epoch == u32::MAX {
            return Err(GroupMediaCoordinatorError::EpochExhausted);
        }
        let next: u32 = self.last_epoch + 1;
        let epoch = match GroupMediaEpoch::new(next) {
            Ok(epoch) => epoch,
            Err(error) => return Err(GroupMediaCoordinatorError::from(error)),
        };
        let sender = match GroupMediaSender::new(epoch, &key) {
            Ok(sender) => sender,
            Err(error) => return Err(GroupMediaCoordinatorError::from(error)),
        };
        self.await_keys();
        self.active = Some(ActiveEpoch { epoch, key, sender });
        self.last_epoch = next;
        self.rotation_required = false;
        proof {
            assert(self.receivers@.dom() =~= old(self).receivers@.dom());
            assert(self@ =~= old(self)@.spec_begun(first_sender(epoch, key@)));
        }
        Ok(epoch)
    }

    /// Ends the active epoch, if there is one, and names it.
    pub fn end_epoch(&mut self) -> (ended: Option<GroupMediaEpoch>)
        requires
            old(self).wf(),
        ensures
            final(self).wf(),
            final(self)@ == old(self)@.spec_ended(),
            ended == match old(self)@.active {
                Some(sender) => Some(sender.epoch),
                None => None,
            },
    {
        let ended = self.active_epoch();
        if ended.is_some() {
            self.await_keys();
        }
        self.active = None;
        self.rotation_required = false;
        proof {
            assert(self.receivers@.dom() =~= old(self).receivers@.dom());
            assert(self@ =~= old(self)@.spec_ended());
        }
        ended
    }

    /// Hands the active epoch's key to a receiver.
    pub fn issue_key(
        &mut self,
        authorization: &AuthorizationStore,
        principal: PrincipalId,
    ) -> (result: Result<GroupMediaKeyGrant, GroupMediaCoordinatorError>)
        requires
            old(self).wf(),
            authorization.wf(),
        ensures
            final(self).wf(),
            ({
                let reconciled = old(self)@.spec_reconciled(authorization@);
                match result {
                    Ok(grant) => {
                        &&& reconciled.spec_issue_refusal(authorization@, principal) is None
                        &&& reconciled.active matches Some(sender)
                        &&& grant@ == (KeyGrantView {
                            principal,
                            epoch: sender.epoch,
                            material: sender.material,
                        })
                        &&& final(self)@ == reconciled.spec_with_state(
                            principal,
                            GroupMediaReceiverInstallState::KeyIssued(sender.epoch),
                        )
                    },
                    Err(error) => reconciled.spec_issue_refusal(authorization@, principal) == Some(
                        error,
                    ) && final(self)@ == reconciled,
                }
            }),
    {
        self.reconcile_authorization(authorization);
        if !authorization.authorize(principal, Permission::ReceivePresentation) {
            return Err(GroupMediaCoordinatorError::UnauthorizedReceiver);
        }
        if self.rotation_required {
            return Err(GroupMediaCoordinatorError::RotationRequired);
        }
        let active = match &self.active {
            Some(active) => active,
            None => return Err(GroupMediaCoordinatorError::NoActiveEpoch),
        };
        let epoch = active.epoch;
        if !self.receivers.contains_key(&principal) {
            return Err(GroupMediaCoordinatorError::ReceiverNotRegistered);
        }
        let key_bytes = active.key.copy_bytes();
        let ghost before = self.receivers@;
        let _ = self.receivers.insert(
            principal,
            GroupMediaReceiverInstallState::KeyIssued(epoch),
        );
        proof {
            assert(before.insert(
                principal,
                GroupMediaReceiverInstallState::KeyIssued(epoch),
            ).dom() =~= before.dom());
        }
        Ok(GroupMediaKeyGrant { principal, epoch, key_bytes })
    }

    /// Notes that a receiver has installed the key of an epoch.
    pub fn mark_installed(
        &mut self,
        authorization: &AuthorizationStore,
        principal: PrincipalId,
        epoch: GroupMediaEpoch,
    ) -> (result: Result<(), GroupMediaCoordinatorError>)
        requires
            old(self).wf(),
            authorization.wf(),
        ensures
            final(self).wf(),
            ({
                let reconciled = old(self)@.spec_reconciled(authorization@);
                match result {
                    Ok(()) => reconciled.spec_install_refusal(authorization@, principal, epoch)
                        is None && final(self)@ == reconciled.spec_with_state(
                        principal,
                        GroupMediaReceiverInstallState::Installed(epoch),
                    ),
                    Err(error) => reconciled.spec_install_refusal(authorization@, principal, epoch)
                        == Some(error) && final(self)@ == reconciled,
                }
            }),
    {
        self.reconcile_authorization(authorization);
        if !authorization.authorize(principal, Permission::ReceivePresentation) {
            return Err(GroupMediaCoordinatorError::UnauthorizedReceiver);
        }
        if self.rotation_required {
            return Err(GroupMediaCoordinatorError::RotationRequired);
        }
        match &self.active {
            Some(active) => if epoch != active.epoch {
                return Err(GroupMediaCoordinatorError::StaleEpoch);
            },
            None => return Err(GroupMediaCoordinatorError::NoActiveEpoch),
        }
        let state = match self.receivers.get(&principal) {
            Some(state) => *state,
            None => return Err(GroupMediaCoordinatorError::ReceiverNotRegistered),
        };
        let ghost before = self@;
        match state {
            GroupMediaReceiverInstallState::AwaitingKey => {
                Err(GroupMediaCoordinatorError::KeyNotIssued)
            },
            GroupMediaReceiverInstallState::KeyIssued(issued) => if issued == epoch {
                let _ = self.receivers.insert(
                    principal,
                    GroupMediaReceiverInstallState::Installed(epoch),
                );
                proof {
                    assert(self.receivers@.dom() =~= before.receivers.dom());
                }
                Ok(())
            } else {
                Err(GroupMediaCoordinatorError::StaleEpoch)
            },
            GroupMediaReceiverInstallState::Installed(installed) => if installed == epoch {
                proof {
                    assert(before.spec_with_state(
                        principal,
                        GroupMediaReceiverInstallState::Installed(epoch),
                    ) =~= before);
                }
                Ok(())
            } else {
                Err(GroupMediaCoordinatorError::StaleEpoch)
            },
        }
    }

    /// Seals a frame for the receivers of the active epoch.
    pub fn seal_frame(
        &mut self,
        authorization: &AuthorizationStore,
        plaintext: &[u8],
        associated_data: &[u8],
    ) -> (result: Result<Vec<u8>, GroupMediaCoordinatorError>)
        requires
            old(self).wf(),
            authorization.wf(),
        ensures
            final(self).wf(),
            ({
                let reconciled = old(self)@.spec_reconciled(authorization@);
                match result {
                    Ok(sealed) => {
                        &&& !reconciled.rotation_required
                        &&& reconciled.active matches Some(sender)
                        &&& !sender.counter.exhausted
                        &&& super::group_media::is_sealed_by(
                            sender,
                            plaintext@,
                            associated_data@,
                            sealed@,
                        )
                        &&& final(self)@ == (CoordinatorView {
                            active: Some(
                                MediaSenderView {
                                    counter: sender.counter.spec_advanced(),
                                    ..sender
                                },
                            ),
                            ..reconciled
                        })
                    },
                    Err(error) => final(self)@ == reconciled && match error {
                        GroupMediaCoordinatorError::RotationRequired =>
                            reconciled.rotation_required,
                        GroupMediaCoordinatorError::NoActiveEpoch => !reconciled.rotation_required
                            && reconciled.active is None,
                        GroupMediaCoordinatorError::Crypto(inner) => {
                            &&& !reconciled.rotation_required
                            &&& reconciled.active matches Some(sender)
                            &&& super::group_media::is_seal_refusal(
                                sender,
                                plaintext@,
                                associated_data@,
                                inner,
                            )
                        },
                        _ => false,
                    },
                }
            }),
    {
        self.reconcile_authorization(authorization);
        if self.rotation_required {
            return Err(GroupMediaCoordinatorError::RotationRequired);
        }
        let mut active = match self.active.take() {
            Some(active) => active,
            None => return Err(GroupMediaCoordinatorError::NoActiveEpoch),
        };
        let result = active.sender.seal_frame(plaintext, associated_data);
        self.active = Some(active);
        match result {
            Ok(sealed) => Ok(sealed),
            Err(error) => Err(GroupMediaCoordinatorError::from(error)),
        }
    }

    /// Takes out the receivers that may not receive any more.
    fn reconcile_authorization(&mut self, authorization: &AuthorizationStore)
        requires
            old(self).wf(),
            authorization.wf(),
        ensures
            final(self).wf(),
            final(self)@ == old(self)@.spec_reconciled(authorization@),
            final(self).active == old(self).active,
    {
        let ghost start = self@;
        let ghost allowed = Set::new(|p: PrincipalId| may_receive(authorization@, p));
        let mut changed = false;
        let mut i: usize = 0;
        proof {
            self.receivers.lemma_view();
        }
        while i < self.receivers.len()
            invariant
                i <= self.receivers.spec_entries().len(),
                self.receivers.wf(),
                authorization.wf(),
                start == old(self)@,
                *self == (GroupMediaCoordinator { receivers: self.receivers, ..*old(self) }),
                allowed == Set::new(|p: PrincipalId| may_receive(authorization@, p)),
                forall|j: int|
                    0 <= j < i ==> allowed.contains(
                        (#[trigger] self.receivers.spec_entries()[j]).0,
                    ),
                forall|p: PrincipalId|
                    allowed.contains(p) ==> (#[trigger] self.receivers@.contains_key(p)
                        <==> start.receivers.contains_key(p)),
                self.receivers@.submap_of(start.receivers),
                changed <==> self.receivers@ != start.receivers,
                changed ==> start.spec_has_unauthorized(authorization@),
            decreases self.receivers.spec_entries().len() - i,
        {
            let principal = self.receivers.key_at(i);
            let ghost before = self.receivers;
            if authorization.authorize(principal, Permission::ReceivePresentation) {
                i += 1;
            } else {
                let _ = self.receivers.remove_at(i);
                changed = true;
                proof {
                    assert(start.receivers.contains_key(principal));
                    assert(!self.receivers@.contains_key(principal));
                    assert forall|j: int| 0 <= j < i implies allowed.contains(
                        (#[trigger] self.receivers.spec_entries()[j]).0,
                    ) by {
                        assert(self.receivers.spec_entries()[j] == before.spec_entries()[j]);
                    }
                }
            }
        }
        if changed && self.active.is_some() {
            self.rotation_required = true;
        }
        proof {
            self.receivers.lemma_view();
            assert forall|p: PrincipalId| #[trigger]
                self.receivers@.contains_key(p) implies allowed.contains(p) by {
                let j = choose|j: int|
                    0 <= j < self.receivers.spec_entries().len() && (
                    #[trigger] self.receivers.spec_entries()[j]).0 == p;
                assert(allowed.contains(self.receivers.spec_entries()[j].0));
            }
            assert(self.receivers@ =~= start.receivers.restrict(allowed));
            if start.spec_has_unauthorized(authorization@) {
                let p = choose|p: PrincipalId| #[trigger]
                    start.receivers.contains_key(p) && !may_receive(authorization@, p);
                assert(!self.receivers@.contains_key(p));
                assert(changed);
            }
            assert(self.receivers@.dom().subset_of(start.receivers.dom()));
            vstd::set_lib::lemma_len_subset(self.receivers@.dom(), start.receivers.dom());
            assert(self@ =~= start.spec_reconciled(authorization@));
        }
    }

    #[must_use]
    pub fn receiver_count(&self) -> (count: usize)
        requires
            self.wf(),
        ensures
            count == self@.receivers.dom().len(),
    {
        self.receivers.len()
    }

    #[must_use]
    pub fn active_epoch(&self) -> (epoch: Option<GroupMediaEpoch>)
        requires
            self.wf(),
        ensures
            epoch == match self@.active {
                Some(sender) => Some(sender.epoch),
                None => None,
            },
    {
        match &self.active {
            Some(active) => Some(active.epoch),
            None => None,
        }
    }

    #[must_use]
    pub fn rotation_required(&self) -> (required: bool)
        ensures
            required == self@.rotation_required,
    {
        self.rotation_required
    }

    #[must_use]
    pub fn receiver_state(&self, principal: PrincipalId) -> (state: Option<
        GroupMediaReceiverInstallState,
    >)
        requires
            self.wf(),
        ensures
            state == if self@.receivers.contains_key(principal) {
                Some(self@.receivers[principal])
            } else {
                None
            },
    {
        match self.receivers.get(&principal) {
            Some(state) => Some(*state),
            None => None,
        }
    }
}

/// A sender that has sealed nothing yet.
pub open spec fn first_sender(epoch: GroupMediaEpoch, material: Seq<u8>) -> MediaSenderView {
    MediaSenderView {
        epoch,
        material,
        counter: super::group_media::CounterView { next: 0, limit: u64::MAX, exhausted: false },
    }
}

/// Epoch numbers only grow: beginning an epoch takes the next number, and nothing else that
/// happens to a coordinator brings an earlier one back.
pub proof fn law_epoch_numbers_grow(
    coordinator: CoordinatorView,
    store: StoreView,
    principal: PrincipalId,
    state: GroupMediaReceiverInstallState,
    sender: MediaSenderView,
)
    requires
        coordinator.is_next_epoch(sender.epoch),
    ensures
        coordinator.spec_begun(sender).last_epoch == coordinator.last_epoch + 1,
        coordinator.spec_ended().last_epoch == coordinator.last_epoch,
        coordinator.spec_registered(principal).last_epoch == coordinator.last_epoch,
        coordinator.spec_removed(principal).last_epoch == coordinator.last_epoch,
        coordinator.spec_reconciled(store).last_epoch == coordinator.last_epoch,
        coordinator.spec_with_state(principal, state).last_epoch == coordinator.last_epoch,
{
}

/// While an epoch is active, a receiver that is added, is removed or loses its right makes a
/// rotation necessary; without a rotation no key is issued and no installation is accepted.
pub proof fn law_membership_change_requires_rotation(
    coordinator: CoordinatorView,
    store: StoreView,
    principal: PrincipalId,
    other: PrincipalId,
    epoch: GroupMediaEpoch,
)
    requires
        coordinator.active is Some,
    ensures
        coordinator.spec_registered(principal).rotation_required,
        coordinator.receivers.contains_key(principal) ==> coordinator.spec_removed(
            principal,
        ).rotation_required,
        coordinator.receivers.contains_key(principal) && !may_receive(store, principal)
            ==> coordinator.spec_reconciled(store).rotation_required
            && !coordinator.spec_reconciled(store).receivers.contains_key(principal),
        coordinator.rotation_required ==> coordinator.spec_issue_refusal(store, other) is Some
            && coordinator.spec_install_refusal(store, other, epoch) is Some,
{
}

/// A rotation lifts the block and lets every receiver wait for the new key.
pub proof fn law_rotation_resets_every_receiver(
    coordinator: CoordinatorView,
    sender: MediaSenderView,
    principal: PrincipalId,
)
    requires
        coordinator.receivers.contains_key(principal),
    ensures
        ({
            let begun = coordinator.spec_begun(sender);
            &&& !begun.rotation_required
            &&& begun.receivers.contains_key(principal)
            &&& begun.receivers[principal] == GroupMediaReceiverInstallState::AwaitingKey
        }),
{
}

/// A receiver to which the key was issued can report its installation, once or again; one to
/// which it was not cannot.
pub proof fn law_install_follows_issue(
    coordinator: CoordinatorView,
    store: StoreView,
    principal: PrincipalId,
)
    requires
        coordinator.spec_issue_refusal(store, principal) is None,
    ensures
        ({
            let epoch = coordinator.active->Some_0.epoch;
            let issued = coordinator.spec_with_state(
                principal,
                GroupMediaReceiverInstallState::KeyIssued(epoch),
            );
            let installed = issued.spec_with_state(
                principal,
                GroupMediaReceiverInstallState::Installed(epoch),
            );
            let waiting = coordinator.spec_with_state(
                principal,
                GroupMediaReceiverInstallState::AwaitingKey,
            );
            &&& issued.spec_install_refusal(store, principal, epoch) is None
            &&& installed.spec_install_refusal(store, principal, epoch) is None
            &&& waiting.spec_install_refusal(store, principal, epoch) == Some(
                GroupMediaCoordinatorError::KeyNotIssued,
            )
        }),
{
}

/// A receiver that is registered and still may receive stays registered, as far as it was,
/// whatever the others lose; one that may not receive any more is taken out, and nobody comes in.
/// Where nobody lost the right, nothing changes.
pub proof fn law_authorized_receivers_stay(
    coordinator: CoordinatorView,
    store: StoreView,
    principal: PrincipalId,
)
    ensures
        ({
            let after = coordinator.spec_reconciled(store);
            let may = store.spec_authorize(principal, Permission::ReceivePresentation);
            &&& coordinator.receivers.contains_key(principal) && may
                ==> after.receivers.contains_key(principal) && after.receivers[principal]
                == coordinator.receivers[principal]
            &&& after.receivers.contains_key(principal)
                ==> coordinator.receivers.contains_key(principal) && may
            &&& coordinator.receivers.contains_key(principal) && !may && coordinator.active is Some
                ==> after.rotation_required
            &&& coordinator.rotation_required ==> after.rotation_required
            &&& coordinator.active is None ==> after.rotation_required
                == coordinator.rotation_required
            &&& (forall|p: PrincipalId| #[trigger]
                coordinator.receivers.contains_key(p) ==> store.spec_authorize(
                    p,
                    Permission::ReceivePresentation,
                )) ==> after == coordinator
            &&& after.active == coordinator.active
            &&& after.max_receivers == coordinator.max_receivers
            &&& after.last_epoch == coordinator.last_epoch
        }),
{
}

/// Whoever may receive is registered as long as there is room, and waits for a key; whoever is
/// registered stays so. Nobody else is touched, and a removal touches only whom it names.
pub proof fn law_registration_touches_one_receiver(
    coordinator: CoordinatorView,
    store: StoreView,
    principal: PrincipalId,
    other: PrincipalId,
)
    requires
        principal != other,
    ensures
        ({
            let may = store.spec_authorize(principal, Permission::ReceivePresentation);
            let known = coordinator.receivers.contains_key(principal);
            let room = coordinator.receivers.dom().len() < coordinator.max_receivers;
            let result = coordinator.spec_register(store, principal);
            let added = coordinator.spec_registered(principal);
            let removed = coordinator.spec_removed(principal);
            &&& !may ==> result == Err::<GroupMediaRegistration, _>(
                GroupMediaCoordinatorError::UnauthorizedReceiver,
            )
            &&& may && known ==> result == Ok::<_, GroupMediaCoordinatorError>(
                GroupMediaRegistration::AlreadyRegistered,
            )
            &&& may && !known && room ==> result == Ok::<_, GroupMediaCoordinatorError>(
                GroupMediaRegistration::Added,
            )
            &&& may && !known && !room ==> result == Err::<GroupMediaRegistration, _>(
                GroupMediaCoordinatorError::ReceiverLimitExceeded,
            )
            &&& added.receivers.contains_key(principal) && added.receivers[principal]
                == GroupMediaReceiverInstallState::AwaitingKey
            &&& !removed.receivers.contains_key(principal)
            &&& !known ==> removed == coordinator
            &&& added.receivers.contains_key(other) == coordinator.receivers.contains_key(other)
            &&& removed.receivers.contains_key(other) == coordinator.receivers.contains_key(other)
            &&& coordinator.receivers.contains_key(other) ==> added.receivers[other]
                == coordinator.receivers[other] && removed.receivers[other]
                == coordinator.receivers[other]
            &&& coordinator.active is None ==> added.rotation_required
                == coordinator.rotation_required && removed.rotation_required
                == coordinator.rotation_required
            &&& added.max_receivers == coordinator.max_receivers && removed.max_receivers
                == coordinator.max_receivers
            &&& added.active == coordinator.active && removed.active == coordinator.active
        }),
{
}

/// A registered receiver that may receive gets the key of the active epoch unless a rotation is
/// due, and can report that it is installed, for this epoch only. Noting how far one receiver is
/// leaves the others as they are.
pub proof fn law_key_goes_to_registered_receivers(
    coordinator: CoordinatorView,
    store: StoreView,
    principal: PrincipalId,
    other: PrincipalId,
    epoch: GroupMediaEpoch,
    state: GroupMediaReceiverInstallState,
)
    requires
        principal != other,
    ensures
        ({
            let may = store.spec_authorize(principal, Permission::ReceivePresentation);
            let known = coordinator.receivers.contains_key(principal);
            let rotate = coordinator.rotation_required;
            let issue = coordinator.spec_issue_refusal(store, principal);
            let install = coordinator.spec_install_refusal(store, principal, epoch);
            let after = coordinator.spec_with_state(principal, state);
            &&& may && known && coordinator.active is Some && !rotate ==> issue is None
            &&& issue is None ==> may && known && coordinator.active is Some && !rotate
            &&& !may ==> issue == Some(GroupMediaCoordinatorError::UnauthorizedReceiver)
                && install == Some(GroupMediaCoordinatorError::UnauthorizedReceiver)
            &&& may && rotate ==> issue == Some(GroupMediaCoordinatorError::RotationRequired)
                && install == Some(GroupMediaCoordinatorError::RotationRequired)
            &&& may && !rotate && coordinator.active is None ==> issue == Some(
                GroupMediaCoordinatorError::NoActiveEpoch,
            ) && install == Some(GroupMediaCoordinatorError::NoActiveEpoch)
            &&& may && !rotate && coordinator.active is Some && !known ==> issue == Some(
                GroupMediaCoordinatorError::ReceiverNotRegistered,
            )
            &&& may && !rotate && coordinator.active is Some && coordinator.active->Some_0.epoch
                != epoch ==> install == Some(GroupMediaCoordinatorError::StaleEpoch)
            &&& install is None ==> known && coordinator.active is Some
                && coordinator.active->Some_0.epoch == epoch
            &&& after.receivers.contains_key(principal) && after.receivers[principal] == state
            &&& after.receivers.contains_key(other) == coordinator.receivers.contains_key(other)
            &&& coordinator.receivers.contains_key(other) ==> after.receivers[other]
                == coordinator.receivers[other]
            &&& after.rotation_required == rotate && after.active == coordinator.active
                && after.max_receivers == coordinator.max_receivers
        }),
{
}

/// Beginning and ending an epoch keep the receivers and their limit. An epoch that begins is
/// the active one; after one has ended there is none, and every receiver waits for a key.
pub proof fn law_epochs_keep_the_receivers(
    coordinator: CoordinatorView,
    sender: MediaSenderView,
    principal: PrincipalId,
)
    ensures
        ({
            let begun = coordinator.spec_begun(sender);
            let ended = coordinator.spec_ended();
            &&& begun.receivers.contains_key(principal) == coordinator.receivers.contains_key(
                principal,
            )
            &&& ended.receivers.contains_key(principal) == coordinator.receivers.contains_key(
                principal,
            )
            &&& begun.max_receivers == coordinator.max_receivers && ended.max_receivers
                == coordinator.max_receivers
            &&& begun.active == Some(sender) && !begun.rotation_required
            &&& ended.active is None && !ended.rotation_required
            &&& coordinator.is_sound() && coordinator.receivers.contains_key(principal)
                ==> ended.receivers[principal] == GroupMediaReceiverInstallState::AwaitingKey
        }),
{
}

} // verus!
