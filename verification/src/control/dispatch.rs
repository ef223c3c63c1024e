//! Which permission a command needs, and what becomes of it.

use super::authorization::{AuthenticatedControlGuard, CommandAuthorizationError, GuardView};
use crate::protocol::clipboard::{validate_text, ClipboardTextError};
use crate::protocol::control_wire::{
    ClipboardReadRequest, ClipboardWrite, ControlEnvelope, InputEvent, Payload,
};
use crate::security::{AuthorizationStore, Permission, StoreView};
use vstd::prelude::*;

verus! {

#[derive(Debug, Clone, PartialEq, Eq)]
pub enum PrivilegedControlCommand {
    InputEvent(InputEvent),
    ClipboardReadRequest(ClipboardReadRequest),
    ClipboardWrite(ClipboardWrite),
}

#[derive(Debug, Clone, Copy, PartialEq, Eq, Structural)]
pub enum PrivilegedDispatchError {
    UnsupportedPayload,
    MalformedInputEvent,
    InputSequenceMismatch { envelope: u64, input: u64 },
    ClipboardReadRequestMissingId,
    InvalidClipboardText(ClipboardTextError),
    Authorization(CommandAuthorizationError),
}

impl From<CommandAuthorizationError> for PrivilegedDispatchError {
    fn from(value: CommandAuthorizationError) -> (error: Self) {
        PrivilegedDispatchError::Authorization(value)
    }
}

impl vstd::std_specs::convert::FromSpecImpl<CommandAuthorizationError> for PrivilegedDispatchError {
    open spec fn obeys_from_spec() -> bool {
        true
    }

    open spec fn from_spec(value: CommandAuthorizationError) -> Self {
        PrivilegedDispatchError::Authorization(value)
    }
}

/// The permission that an envelope's command needs, and the command, where there is one that
/// is well-formed.
pub open spec fn spec_classify(envelope: ControlEnvelope) -> Result<
    (Permission, PrivilegedControlCommand),
    PrivilegedDispatchError,
> {
    match envelope.payload {
        None => Err(
            PrivilegedDispatchError::Authorization(CommandAuthorizationError::MissingPayload),
        ),
        Some(Payload::InputEvent(input)) => if input.event is None {
            Err(PrivilegedDispatchError::MalformedInputEvent)
        } else if input.sequence != envelope.sequence {
            Err(
                PrivilegedDispatchError::InputSequenceMismatch {
                    envelope: envelope.sequence,
                    input: input.sequence,
                },
            )
        } else {
            Ok((Permission::ControlInput, PrivilegedControlCommand::InputEvent(input)))
        },
        Some(Payload::ClipboardReadRequest(request)) => if envelope.request_id == 0 {
            Err(PrivilegedDispatchError::ClipboardReadRequestMissingId)
        } else {
            Ok((Permission::ReadClipboard, PrivilegedControlCommand::ClipboardReadRequest(request)))
        },
        Some(Payload::ClipboardWrite(write)) =>
            match crate::protocol::clipboard::spec_validate_text(write.text_utf8@) {
            Err(error) => Err(PrivilegedDispatchError::InvalidClipboardText(error)),
            Ok(()) => Ok(
                (Permission::WriteClipboard, PrivilegedControlCommand::ClipboardWrite(write)),
            ),
        },
        Some(_) => Err(PrivilegedDispatchError::UnsupportedPayload),
    }
}

/// What dispatching an envelope leads to.
pub open spec fn spec_dispatch(
    guard: GuardView,
    store: StoreView,
    envelope: ControlEnvelope,
    now_unix_ms: u64,
) -> Result<PrivilegedControlCommand, PrivilegedDispatchError> {
    match spec_classify(envelope) {
        Err(error) => Err(error),
        Ok((permission, command)) => match guard.spec_authorize(
            store,
            envelope,
            permission,
            now_unix_ms,
        ) {
            Ok(()) => Ok(command),
            Err(error) => Err(PrivilegedDispatchError::Authorization(error)),
        },
    }
}

/// Classifies and authorizes privileged post-handshake commands.
///
/// Only wire payloads with a defined production permission mapping belong here.
/// New privileged payloads must be added explicitly instead of inheriting a
/// permission implicitly from connection-level authentication.
pub fn dispatch_privileged_command(
    guard: &mut AuthenticatedControlGuard,
    authorization: &AuthorizationStore,
    envelope: &ControlEnvelope,
    now_unix_ms: u64,
) -> (result: Result<PrivilegedControlCommand, PrivilegedDispatchError>)
    requires
        authorization.wf(),
    ensures
        result == spec_dispatch(old(guard)@, authorization@, *envelope, now_unix_ms),
        final(guard)@ == if spec_classify(*envelope) is Ok {
            old(guard)@.spec_after(*envelope)
        } else {
            old(guard)@
        },
{
    let payload = match &envelope.payload {
        Some(payload) => payload,
        None => return Err(
            PrivilegedDispatchError::from(CommandAuthorizationError::MissingPayload),
        ),
    };
    match payload {
        Payload::InputEvent(input) => {
            if input.event.is_none() {
                return Err(PrivilegedDispatchError::MalformedInputEvent);
            }
            if input.sequence != envelope.sequence {
                return Err(
                    PrivilegedDispatchError::InputSequenceMismatch {
                        envelope: envelope.sequence,
                        input: input.sequence,
                    },
                );
            }
            match guard.authorize(
                authorization,
                envelope,
                Permission::ControlInput,
                now_unix_ms,
            ) {
                Ok(()) => Ok(PrivilegedControlCommand::InputEvent(*input)),
                Err(error) => Err(PrivilegedDispatchError::from(error)),
            }
        },
        Payload::ClipboardReadRequest(request) => {
            if envelope.request_id == 0 {
                return Err(PrivilegedDispatchError::ClipboardReadRequestMissingId);
            }
            match guard.authorize(
                authorization,
                envelope,
                Permission::ReadClipboard,
                now_unix_ms,
            ) {
                Ok(()) => Ok(PrivilegedControlCommand::ClipboardReadRequest(*request)),
                Err(error) => Err(PrivilegedDispatchError::from(error)),
            }
        },
        Payload::ClipboardWrite(write) => {
            match validate_text(write.text_utf8.as_str()) {
                Ok(()) => {},
                Err(error) => return Err(PrivilegedDispatchError::InvalidClipboardText(error)),
            }
            match guard.authorize(
                authorization,
                envelope,
                Permission::WriteClipboard,
                now_unix_ms,
            ) {
                Ok(()) => Ok(
                    PrivilegedControlCommand::ClipboardWrite(
                        ClipboardWrite { text_utf8: write.text_utf8.clone() },
                    ),
                ),
                Err(error) => Err(PrivilegedDispatchError::from(error)),
            }
        },
        _ => Err(PrivilegedDispatchError::UnsupportedPayload),
    }
}

/// A command comes out only where the peer has the permission that this kind of command
/// needs, and only of an envelope that the session accepts.
pub proof fn law_commands_need_their_permission(
    guard: GuardView,
    store: StoreView,
    envelope: ControlEnvelope,
    now_unix_ms: u64,
)
    requires
        spec_dispatch(guard, store, envelope, now_unix_ms) is Ok,
    ensures
        guard.spec_validate(envelope) is Ok,
        store.spec_authorize(
            guard.peer.principal_id,
            match spec_dispatch(guard, store, envelope, now_unix_ms)->Ok_0 {
                PrivilegedControlCommand::InputEvent(_) => Permission::ControlInput,
                PrivilegedControlCommand::ClipboardReadRequest(_) => Permission::ReadClipboard,
                PrivilegedControlCommand::ClipboardWrite(_) => Permission::WriteClipboard,
            },
        ),
{
}

/// Completeness of acceptance: input with an event and the command's own number, a request to read
/// the clipboard with an identifier and a text for it that is not too long each become the command
/// that they are, unchanged, for a peer that may do just that.
pub proof fn law_sound_commands_are_dispatched(
    guard: GuardView,
    store: StoreView,
    envelope: ControlEnvelope,
    now_unix_ms: u64,
)
    ensures
        ({
            let result = spec_dispatch(guard, store, envelope, now_unix_ms);
            let may = |permission: Permission|
                guard.spec_authorize(store, envelope, permission, now_unix_ms) is Ok;
            &&& envelope.payload matches Some(Payload::InputEvent(input)) ==> {
                &&& input.event is Some && input.sequence == envelope.sequence && may(
                    Permission::ControlInput,
                ) ==> result == Ok::<_, PrivilegedDispatchError>(
                    PrivilegedControlCommand::InputEvent(input),
                )
                &&& input.event is None ==> result == Err::<PrivilegedControlCommand, _>(
                    PrivilegedDispatchError::MalformedInputEvent,
                )
                &&& input.sequence != envelope.sequence ==> result is Err
                &&& !may(Permission::ControlInput) ==> result is Err
            }
            &&& envelope.payload matches Some(Payload::ClipboardReadRequest(request)) ==> {
                &&& envelope.request_id != 0 && may(Permission::ReadClipboard) ==> result == Ok::<
                    _,
                    PrivilegedDispatchError,
                >(PrivilegedControlCommand::ClipboardReadRequest(request))
                &&& envelope.request_id == 0 ==> result == Err::<PrivilegedControlCommand, _>(
                    PrivilegedDispatchError::ClipboardReadRequestMissingId,
                )
                &&& !may(Permission::ReadClipboard) ==> result is Err
            }
            &&& envelope.payload matches Some(Payload::ClipboardWrite(write)) ==> {
                &&& vstd::utf8::encode_utf8(write.text_utf8@).len() <= 65_536 && may(
                    Permission::WriteClipboard,
                ) ==> result == Ok::<_, PrivilegedDispatchError>(
                    PrivilegedControlCommand::ClipboardWrite(write),
                )
                &&& vstd::utf8::encode_utf8(write.text_utf8@).len() > 65_536 ==> result is Err
                &&& !may(Permission::WriteClipboard) ==> result is Err
            }
            &&& envelope.payload is Some && !(envelope.payload->Some_0 is InputEvent)
                && !(envelope.payload->Some_0 is ClipboardReadRequest)
                && !(envelope.payload->Some_0 is ClipboardWrite) ==> result == Err::<
                PrivilegedControlCommand,
                _,
            >(PrivilegedDispatchError::UnsupportedPayload)
            &&& envelope.payload is None ==> result is Err
        }),
{
}

} // verus!
