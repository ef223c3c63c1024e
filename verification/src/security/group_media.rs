//! Sealing and opening the frames of a group: one key per epoch, shared by all members.

use crate::bytes::array32;
use crate::wipe::{wipe_array, wipe_vec};
use sframe::error::SframeError;
use sframe::frame::validation::{ReplayAttackProtection, ReplayAttackProtectionError, Tolerance};
use sframe::frame::{EncryptedFrameView, MediaFrame, MonotonicCounter};
use sframe::key::{DecryptionKey, EncryptionKey};
use sframe::CipherSuite;
use vstd::prelude::*;
use vstd::string::StringExecFns;

verus! {

pub const GROUP_MEDIA_KEY_BYTES: usize = 32;

pub const DEFAULT_GROUP_MEDIA_REPLAY_TOLERANCE_FRAMES: usize = 64;

pub const MAX_GROUP_MEDIA_REPLAY_TOLERANCE_FRAMES: usize = 512;

pub const MAX_GROUP_MEDIA_AAD_BYTES: usize = 256;

pub const MAX_GROUP_MEDIA_FRAME_BYTES: usize = 8_388_608;

pub const MAX_GROUP_MEDIA_SEALED_BYTES: usize = 8_388_672;

/// The number of a key's time of use. It is never zero.
#[derive(Debug, Clone, Copy, PartialEq, Eq, PartialOrd, Ord, Hash, Structural)]
pub struct GroupMediaEpoch {
    value: u32,
}

impl GroupMediaEpoch {
    pub closed spec fn spec_get(self) -> u32 {
        self.value
    }

    pub fn new(value: u32) -> (result: Result<Self, GroupMediaError>)
        ensures
            match result {
                Ok(epoch) => value != 0 && epoch.spec_get() == value,
                Err(error) => value == 0 && error is InvalidEpoch,
            },
    {
        if value == 0 {
            return Err(GroupMediaError::InvalidEpoch);
        }
        Ok(GroupMediaEpoch { value })
    }

    #[must_use]
    pub fn get(self) -> (value: u32)
        ensures
            value == self.spec_get(),
    {
        self.value
    }

    /// The identifier under which the epoch's key is known in sealed frames.
    #[must_use]
    pub fn sframe_key_id(self) -> (id: u64)
        ensures
            id == self.spec_get(),
    {
        self.value as u64
    }
}

impl GroupMediaEpoch {
    /// The epoch as it is written for developers.
    pub open spec fn spec_debug(self) -> Seq<char> {
        "GroupMediaEpoch("@ + crate::text::decimal(self.spec_get() as nat) + ")"@
    }

    /// Appends the epoch as it is written for developers.
    pub fn push_debug(&self, text: &mut String)
        ensures
            final(text)@ == old(text)@ + self.spec_debug(),
    {
        text.append("GroupMediaEpoch(");
        crate::text::push_decimal(text, self.value as u64);
        text.append(")");
        proof {
            assert(text@ =~= old(text)@ + self.spec_debug());
        }
    }
}

/// The secret from which an epoch's keys are derived. It is cleared when it is dropped.
pub struct GroupMediaKeyMaterial {
    bytes: [u8; 32],
}

impl View for GroupMediaKeyMaterial {
    type V = Seq<u8>;

    closed spec fn view(&self) -> Seq<u8> {
        self.bytes@
    }
}

impl Drop for GroupMediaKeyMaterial {
    fn drop(&mut self)
        opens_invariants none
        no_unwind
    {
        wipe_array(&mut self.bytes);
    }
}

/// Calls `fill` of the random source of rustls' ring provider. On success the bytes are
/// random: nothing is stated of them.
#[verifier::external_body]
fn random_key() -> (bytes: Result<[u8; 32], rustls::crypto::GetRandomFailed>) {
    let mut bytes = [0u8; 32];
    rustls::crypto::ring::default_provider().secure_random.fill(&mut bytes)?;
    Ok(bytes)
}

#[verifier::external_type_specification]
#[verifier::external_body]
pub struct ExGetRandomFailed(rustls::crypto::GetRandomFailed);

impl GroupMediaKeyMaterial {
    #[must_use]
    pub fn new(bytes: [u8; GROUP_MEDIA_KEY_BYTES]) -> (material: Self)
        ensures
            material@ == bytes@,
    {
        GroupMediaKeyMaterial { bytes }
    }

    /// Draws new random key material. It is random, so nothing is stated of its bytes but
    /// their number.
    pub fn generate() -> (result: Result<Self, GroupMediaError>)
        ensures
            match result {
                Ok(material) => material@.len() == GROUP_MEDIA_KEY_BYTES,
                Err(error) => error is RandomUnavailable,
            },
    {
        Self::from_drawn(random_key())
    }

    /// Makes key material of what the random source gave, byte for byte, where it gave any.
    pub fn from_drawn(drawn: Result<[u8; 32], rustls::crypto::GetRandomFailed>) -> (result: Result<
        Self,
        GroupMediaError,
    >)
        ensures
            match result {
                Ok(material) => drawn matches Ok(bytes) && material@ == bytes@,
                Err(error) => drawn is Err && error is RandomUnavailable,
            },
    {
        match drawn {
            Ok(bytes) => Ok(GroupMediaKeyMaterial { bytes }),
            Err(_) => Err(GroupMediaError::RandomUnavailable),
        }
    }

    /// Takes key material out of a received message and clears it there, whether it is
    /// accepted or not.
    pub fn import_received_wire(wire: &mut Vec<u8>) -> (result: Result<Self, GroupMediaError>)
        ensures
            final(wire)@ == Seq::<u8>::empty(),
            match result {
                Ok(material) => old(wire)@.len() == GROUP_MEDIA_KEY_BYTES && material@ == old(
                    wire,
                )@,
                Err(error) => old(wire)@.len() != GROUP_MEDIA_KEY_BYTES && error
                    is InvalidKeyLength,
            },
    {
        if wire.len() != GROUP_MEDIA_KEY_BYTES {
            wipe_vec(wire);
            return Err(GroupMediaError::InvalidKeyLength);
        }
        let bytes = array32(wire.as_slice());
        wipe_vec(wire);
        Ok(GroupMediaKeyMaterial { bytes })
    }

    /// A copy of the bytes.
    #[must_use]
    pub(crate) fn copy_bytes(&self) -> (bytes: [u8; 32])
        ensures
            bytes@ == self@,
    {
        self.bytes
    }
}

#[derive(Debug, Clone, Copy, PartialEq, Eq, Structural)]
pub enum GroupMediaReplayError {
    UnexpectedEpoch,
    Duplicate,
    TooOld,
}

impl GroupMediaReplayError {
    /// The value as it is written for developers.
    pub open spec fn spec_debug(self) -> Seq<char> {
        match self {
            GroupMediaReplayError::UnexpectedEpoch => "UnexpectedEpoch"@,
            GroupMediaReplayError::Duplicate => "Duplicate"@,
            GroupMediaReplayError::TooOld => "TooOld"@,
        }
    }

    /// Appends the value as it is written for developers.
    pub fn push_debug(&self, text: &mut String)
        ensures
            final(text)@ == old(text)@ + self.spec_debug(),
    {
        match self {
            GroupMediaReplayError::UnexpectedEpoch => text.append("UnexpectedEpoch"),
            GroupMediaReplayError::Duplicate => text.append("Duplicate"),
            GroupMediaReplayError::TooOld => text.append("TooOld"),
        }
    }
}

#[verifier::external_type_specification]
#[verifier::external_body]
pub struct ExSframeError(SframeError);

#[derive(Debug)]
pub enum GroupMediaError {
    InvalidEpoch,
    InvalidReplayTolerance,
    InvalidKeyLength,
    MissingAssociatedData,
    AadTooLarge,
    FrameTooLarge,
    SealedFrameTooLarge,
    RandomUnavailable,
    Replay(GroupMediaReplayError),
    Crypto(SframeError),
}

/// What an error of the frame encryption says.
pub uninterp spec fn sframe_error_text(error: SframeError) -> Seq<char>;

/// Formats an `SframeError` with its `Display`: the text is a function of the error.
#[verifier::external_body]
fn sframe_error_message(error: &SframeError) -> (text: String)
    ensures
        text@ == sframe_error_text(*error),
{
    format!("{error}")
}

impl GroupMediaError {
    /// What the error says.
    pub open spec fn spec_message(self) -> Seq<char> {
        match self {
            GroupMediaError::InvalidEpoch => "group-media epoch must be non-zero"@,
            GroupMediaError::InvalidReplayTolerance => {
                "group-media replay tolerance is outside the bounded range"@
            },
            GroupMediaError::InvalidKeyLength => "group-media key has the wrong length"@,
            GroupMediaError::MissingAssociatedData => "group-media associated data is required"@,
            GroupMediaError::AadTooLarge => "group-media associated data is too large"@,
            GroupMediaError::FrameTooLarge => "group-media plaintext frame is too large"@,
            GroupMediaError::SealedFrameTooLarge => "group-media sealed frame is too large"@,
            GroupMediaError::RandomUnavailable => "no random bytes are available"@,
            GroupMediaError::Replay(reason) => "group-media replay rejected: "@
                + reason.spec_debug(),
            GroupMediaError::Crypto(error) => "group-media SFrame error: "@
                + sframe_error_text(error),
        }
    }

    /// The text for people.
    #[must_use]
    pub fn message(&self) -> (text: String)
        ensures
            text@ == self.spec_message(),
    {
        match self {
            GroupMediaError::InvalidEpoch => "group-media epoch must be non-zero".to_owned(),
            GroupMediaError::InvalidReplayTolerance => {
                "group-media replay tolerance is outside the bounded range".to_owned()
            },
            GroupMediaError::InvalidKeyLength => "group-media key has the wrong length".to_owned(),
            GroupMediaError::MissingAssociatedData => {
                "group-media associated data is required".to_owned()
            },
            GroupMediaError::AadTooLarge => "group-media associated data is too large".to_owned(),
            GroupMediaError::FrameTooLarge => "group-media plaintext frame is too large".to_owned(),
            GroupMediaError::SealedFrameTooLarge => {
                "group-media sealed frame is too large".to_owned()
            },
            GroupMediaError::RandomUnavailable => "no random bytes are available".to_owned(),
            GroupMediaError::Replay(reason) => {
                let mut text: String = "group-media replay rejected: ".to_owned();
                reason.push_debug(&mut text);
                text
            },
            GroupMediaError::Crypto(error) => {
                let mut text: String = "group-media SFrame error: ".to_owned();
                text.append(sframe_error_message(error).as_str());
                text
            },
        }
    }
}

/// Why the replay protection refused a frame, if it is what an error is about.
pub uninterp spec fn replay_reason(error: SframeError) -> Option<GroupMediaReplayError>;

/// Calls `SframeError::source_as::<ReplayAttackProtectionError>`: gives the reason a name of
/// this library's, one for each of the outside enum's variants.
#[verifier::external_body]
fn replay_reason_of(error: &SframeError) -> (reason: Option<GroupMediaReplayError>)
    ensures
        reason == replay_reason(*error),
{
    error.source_as::<ReplayAttackProtectionError>().map(
        |reason|
            match reason {
                ReplayAttackProtectionError::KeyIdMismatch { .. } =>
                    GroupMediaReplayError::UnexpectedEpoch,
                ReplayAttackProtectionError::DuplicatedFrame { .. } =>
                    GroupMediaReplayError::Duplicate,
                ReplayAttackProtectionError::CounterTooOld { .. } => GroupMediaReplayError::TooOld,
            },
    )
}

impl GroupMediaError {
    fn from_sframe(error: SframeError) -> (mapped: Self)
        ensures
            mapped == match replay_reason(error) {
                Some(reason) => GroupMediaError::Replay(reason),
                None => GroupMediaError::Crypto(error),
            },
    {
        match replay_reason_of(&error) {
            Some(reason) => GroupMediaError::Replay(reason),
            None => GroupMediaError::Crypto(error),
        }
    }
}

/// Holds an `sframe::key::EncryptionKey`, whose type parameters are bound by outside traits.
#[verifier::external_body]
pub struct SealingKey {
    key: EncryptionKey,
}

/// Holds an `sframe::key::DecryptionKey`, whose type parameters are bound by outside traits.
#[verifier::external_body]
pub struct OpeningKey {
    key: DecryptionKey,
}

#[verifier::external_type_specification]
#[verifier::external_body]
pub struct ExMonotonicCounter(MonotonicCounter);

#[verifier::external_type_specification]
#[verifier::external_body]
pub struct ExReplayAttackProtection(ReplayAttackProtection);

/// What a key was derived from: its identifier and the key material.
pub struct KeySource {
    pub key_id: u64,
    pub material: Seq<u8>,
}

/// What a sealing key was derived from.
pub uninterp spec fn sealing_source(key: SealingKey) -> KeySource;

/// What an opening key was derived from.
pub uninterp spec fn opening_source(key: OpeningKey) -> KeySource;

/// A frame counter: the number that comes next, the last number, and whether there is none
/// any more.
pub struct CounterView {
    pub next: u64,
    pub limit: u64,
    pub exhausted: bool,
}

impl CounterView {
    /// The counter after its next number was handed out. It does not wrap.
    pub open spec fn spec_advanced(self) -> Self {
        if self.next >= self.limit {
            CounterView { exhausted: true, ..self }
        } else {
            CounterView { next: (self.next + 1) as u64, ..self }
        }
    }
}

/// The state of a frame counter.
pub uninterp spec fn counter_view(counter: MonotonicCounter) -> CounterView;

/// What was seen of the frames under a key: the newest counter, and which counters within
/// the window that ends with it.
#[verifier::ext_equal]
pub struct ReplayProtectionView {
    pub key_id: u64,
    pub span: int,
    pub newest: Option<u64>,
    pub seen: Set<u64>,
}

/// How far `counter` is ahead of `from`, where the largest number is followed by zero.
pub open spec fn counter_distance(counter: u64, from: u64) -> int {
    (counter - from) % 0x1_0000_0000_0000_0000
}

impl ReplayProtectionView {
    /// The counter is ahead of every counter so far: it lies in the half of the range that
    /// follows the newest.
    pub open spec fn is_newer(self, counter: u64) -> bool {
        match self.newest {
            None => true,
            Some(newest) => 0 < counter_distance(counter, newest) <= u64::MAX / 2,
        }
    }

    /// The counter is the newest or one of those before it that are still told apart.
    pub open spec fn is_in_window(self, counter: u64) -> bool {
        self.newest matches Some(newest) && counter_distance(newest, counter) < self.span
    }

    /// Why a frame is refused, if it is.
    pub open spec fn spec_screen(self, key_id: u64, counter: u64) -> Option<
        GroupMediaReplayError,
    > {
        if key_id != self.key_id {
            Some(GroupMediaReplayError::UnexpectedEpoch)
        } else if self.is_newer(counter) {
            None
        } else if !self.is_in_window(counter) {
            Some(GroupMediaReplayError::TooOld)
        } else if self.seen.contains(counter) {
            Some(GroupMediaReplayError::Duplicate)
        } else {
            None
        }
    }

    /// The protection after a frame was accepted.
    pub open spec fn spec_record(self, counter: u64) -> Self {
        if self.is_newer(counter) {
            ReplayProtectionView {
                newest: Some(counter),
                seen: Set::new(
                    |c: u64|
                        c == counter || (self.seen.contains(c) && counter_distance(counter, c)
                            < self.span),
                ),
                ..self
            }
        } else {
            ReplayProtectionView { seen: self.seen.insert(counter), ..self }
        }
    }
}

/// The state of a replay protection.
pub uninterp spec fn replay_view(replay: ReplayAttackProtection) -> ReplayProtectionView;

/// What a frame is sealed as.
pub uninterp spec fn sframe_sealed(
    key_id: u64,
    material: Seq<u8>,
    counter: u64,
    plaintext: Seq<u8>,
    associated_data: Seq<u8>,
) -> Seq<u8>;

/// The key identifier and the counter in a sealed frame's header, if it has one.
pub uninterp spec fn sframe_header(sealed: Seq<u8>) -> Option<(u64, u64)>;

/// What a sealed frame is opened as, if it is authentic.
pub uninterp spec fn sframe_opened(
    key_id: u64,
    material: Seq<u8>,
    sealed: Seq<u8>,
    associated_data: Seq<u8>,
) -> Option<Seq<u8>>;

/// Calls `EncryptionKey::derive_from` for AES-256-GCM with SHA-512, which that suite does not
/// let fail: the key is the one of that identifier and that material.
#[verifier::external_body]
fn derive_sealing_key(key_id: u64, material: &[u8]) -> (result: Result<SealingKey, SframeError>)
    ensures
        result is Ok,
        sealing_source(result->Ok_0) == (KeySource { key_id, material: material@ }),
{
    EncryptionKey::derive_from(CipherSuite::AesGcm256Sha512, key_id, material).map(
        |key| SealingKey { key },
    )
}

/// Calls `DecryptionKey::derive_from` for AES-256-GCM with SHA-512, which that suite does not
/// let fail: the key is the one of that identifier and that material.
#[verifier::external_body]
fn derive_opening_key(key_id: u64, material: &[u8]) -> (result: Result<OpeningKey, SframeError>)
    ensures
        result is Ok,
        opening_source(result->Ok_0) == (KeySource { key_id, material: material@ }),
{
    DecryptionKey::derive_from(CipherSuite::AesGcm256Sha512, key_id, material).map(
        |key| OpeningKey { key },
    )
}

/// Calls `MonotonicCounter::default`: the counter starts at zero.
#[verifier::external_body]
fn new_counter() -> (counter: MonotonicCounter)
    ensures
        counter_view(counter) == (CounterView { next: 0, limit: u64::MAX, exhausted: false }),
{
    MonotonicCounter::default()
}

/// Calls `ReplayAttackProtection::new` with `Tolerance::new`: nothing was seen yet. A
/// tolerance of zero makes `Tolerance::new` panic.
#[verifier::external_body]
fn new_replay_protection(key_id: u64, tolerance: usize) -> (replay: ReplayAttackProtection)
    requires
        1 <= tolerance <= MAX_GROUP_MEDIA_REPLAY_TOLERANCE_FRAMES,
    ensures
        replay_view(replay) == (ReplayProtectionView {
            key_id,
            span: tolerance as int,
            newest: None,
            seen: Set::empty(),
        }),
{
    ReplayAttackProtection::new(key_id, Tolerance::new(tolerance))
}

/// Calls `MediaFrame::try_with_meta_data` and `MediaFrame::encrypt`. Sealing fails exactly
/// where the counter is exhausted, and uses up one number otherwise. The sealed frame names
/// the key and that number, is between 17 and 33 bytes longer than the plaintext, and is
/// opened as the plaintext by the key of the same source with the same associated data.
#[verifier::external_body]
fn sframe_seal(
    key: &SealingKey,
    counter: &mut MonotonicCounter,
    plaintext: &[u8],
    associated_data: &[u8],
) -> (result: Result<Vec<u8>, SframeError>)
    requires
        plaintext@.len() <= MAX_GROUP_MEDIA_FRAME_BYTES,
        associated_data@.len() <= MAX_GROUP_MEDIA_AAD_BYTES,
    ensures
        match result {
            Ok(sealed) => {
                let source = sealing_source(*key);
                let number = counter_view(*old(counter)).next;
                &&& !counter_view(*old(counter)).exhausted
                &&& counter_view(*final(counter)) == counter_view(*old(counter)).spec_advanced()
                &&& sealed@ == sframe_sealed(
                    source.key_id,
                    source.material,
                    number,
                    plaintext@,
                    associated_data@,
                )
                &&& plaintext@.len() + 17 <= sealed@.len() <= plaintext@.len() + 33
                &&& sframe_header(sealed@) == Some((source.key_id, number))
                &&& sframe_opened(source.key_id, source.material, sealed@, associated_data@)
                    == Some(plaintext@)
            },
            Err(error) => counter_view(*old(counter)).exhausted && counter_view(*final(counter))
                == counter_view(*old(counter)) && replay_reason(error) is None,
        },
{
    let frame = MediaFrame::try_with_meta_data(counter, plaintext, associated_data)?;
    let encrypted = frame.encrypt(&key.key)?;
    Ok(encrypted.sframe_cipher_text().to_vec())
}

/// Calls `EncryptedFrameView::try_with_meta_data` and `EncryptedFrameView::validated_decrypt`.
/// A frame without a header, one that the protection refuses and one that is not authentic
/// leave the protection as it is; only the second error is about the protection. An
/// authentic frame is recorded.
#[verifier::external_body]
fn sframe_open(
    key: &OpeningKey,
    replay: &mut ReplayAttackProtection,
    sealed: &[u8],
    associated_data: &[u8],
) -> (result: Result<Vec<u8>, SframeError>)
    requires
        sealed@.len() <= MAX_GROUP_MEDIA_SEALED_BYTES,
        associated_data@.len() <= MAX_GROUP_MEDIA_AAD_BYTES,
        opening_source(*key).key_id == replay_view(*old(replay)).key_id,
    ensures
        match result {
            Ok(plaintext) => {
                let source = opening_source(*key);
                &&& sframe_header(sealed@) matches Some((key_id, counter)) && replay_view(
                    *old(replay),
                ).spec_screen(key_id, counter) is None && replay_view(*final(replay))
                    == replay_view(*old(replay)).spec_record(counter)
                &&& sframe_opened(source.key_id, source.material, sealed@, associated_data@)
                    == Some(plaintext@)
            },
            Err(error) => {
                let source = opening_source(*key);
                &&& replay_view(*final(replay)) == replay_view(*old(replay))
                &&& match sframe_header(sealed@) {
                    None => replay_reason(error) is None,
                    Some((key_id, counter)) => replay_reason(error) == replay_view(
                        *old(replay),
                    ).spec_screen(key_id, counter) && (replay_reason(error) is Some
                        || sframe_opened(
                        source.key_id,
                        source.material,
                        sealed@,
                        associated_data@,
                    ) is None),
                }
            },
        },
{
    let encrypted = EncryptedFrameView::try_with_meta_data(sealed, associated_data)?;
    let plaintext = encrypted.validated_decrypt(&key.key, replay)?;
    Ok(plaintext.payload().to_vec())
}

/// Refuses a frame that is too large to be sealed.
pub fn validate_plaintext_len(len: usize) -> (result: Result<(), GroupMediaError>)
    ensures
        match result {
            Ok(()) => len <= MAX_GROUP_MEDIA_FRAME_BYTES,
            Err(error) => len > MAX_GROUP_MEDIA_FRAME_BYTES && error is FrameTooLarge,
        },
{
    if len > MAX_GROUP_MEDIA_FRAME_BYTES {
        return Err(GroupMediaError::FrameTooLarge);
    }
    Ok(())
}

/// Refuses associated data that are missing or too large.
pub fn validate_aad_len(len: usize) -> (result: Result<(), GroupMediaError>)
    ensures
        match result {
            Ok(()) => 0 < len <= MAX_GROUP_MEDIA_AAD_BYTES,
            Err(GroupMediaError::MissingAssociatedData) => len == 0,
            Err(GroupMediaError::AadTooLarge) => len > MAX_GROUP_MEDIA_AAD_BYTES,
            Err(_) => false,
        },
{
    if len == 0 {
        return Err(GroupMediaError::MissingAssociatedData);
    }
    if len > MAX_GROUP_MEDIA_AAD_BYTES {
        return Err(GroupMediaError::AadTooLarge);
    }
    Ok(())
}

/// Refuses a sealed frame that is too large.
pub fn validate_sealed_len(len: usize) -> (result: Result<(), GroupMediaError>)
    ensures
        match result {
            Ok(()) => len <= MAX_GROUP_MEDIA_SEALED_BYTES,
            Err(error) => len > MAX_GROUP_MEDIA_SEALED_BYTES && error is SealedFrameTooLarge,
        },
{
    if len > MAX_GROUP_MEDIA_SEALED_BYTES {
        return Err(GroupMediaError::SealedFrameTooLarge);
    }
    Ok(())
}

/// Seals the frames of one epoch.
pub struct GroupMediaSender {
    epoch: GroupMediaEpoch,
    key: SealingKey,
    counter: MonotonicCounter,
}

/// A sender: its epoch, the material of its key, and its counter.
pub struct MediaSenderView {
    pub epoch: GroupMediaEpoch,
    pub material: Seq<u8>,
    pub counter: CounterView,
}

impl View for GroupMediaSender {
    type V = MediaSenderView;

    closed spec fn view(&self) -> MediaSenderView {
        MediaSenderView {
            epoch: self.epoch,
            material: sealing_source(self.key).material,
            counter: counter_view(self.counter),
        }
    }
}

/// `sealed` is what the sender made of a frame with its next number.
pub open spec fn is_sealed_by(
    sender: MediaSenderView,
    plaintext: Seq<u8>,
    associated_data: Seq<u8>,
    sealed: Seq<u8>,
) -> bool {
    let key_id = sender.epoch.spec_get() as u64;
    &&& sealed == sframe_sealed(
        key_id,
        sender.material,
        sender.counter.next,
        plaintext,
        associated_data,
    )
    &&& sealed.len() <= MAX_GROUP_MEDIA_SEALED_BYTES
    &&& plaintext.len() <= MAX_GROUP_MEDIA_FRAME_BYTES
    &&& 0 < associated_data.len() <= MAX_GROUP_MEDIA_AAD_BYTES
    &&& sframe_header(sealed) == Some((key_id, sender.counter.next))
    &&& sframe_opened(key_id, sender.material, sealed, associated_data) == Some(plaintext)
}

/// `error` tells why the sender does not seal a frame.
pub open spec fn is_seal_refusal(
    sender: MediaSenderView,
    plaintext: Seq<u8>,
    associated_data: Seq<u8>,
    error: GroupMediaError,
) -> bool {
    match error {
        GroupMediaError::FrameTooLarge => plaintext.len() > MAX_GROUP_MEDIA_FRAME_BYTES,
        GroupMediaError::MissingAssociatedData => plaintext.len() <= MAX_GROUP_MEDIA_FRAME_BYTES
            && associated_data.len() == 0,
        GroupMediaError::AadTooLarge => plaintext.len() <= MAX_GROUP_MEDIA_FRAME_BYTES
            && associated_data.len() > MAX_GROUP_MEDIA_AAD_BYTES,
        GroupMediaError::Crypto(_) => plaintext.len() <= MAX_GROUP_MEDIA_FRAME_BYTES && 0
            < associated_data.len() <= MAX_GROUP_MEDIA_AAD_BYTES && sender.counter.exhausted,
        _ => false,
    }
}

impl GroupMediaSender {
    /// The key bears the epoch's number.
    pub closed spec fn wf(self) -> bool {
        sealing_source(self.key).key_id == self.epoch.spec_get()
    }

    pub fn new(epoch: GroupMediaEpoch, key_material: &GroupMediaKeyMaterial) -> (result: Result<
        Self,
        GroupMediaError,
    >)
        ensures
            result is Ok,
            result->Ok_0.wf(),
            result->Ok_0@ == (MediaSenderView {
                epoch,
                material: key_material@,
                counter: CounterView { next: 0, limit: u64::MAX, exhausted: false },
            }),
    {
        match derive_sealing_key(epoch.sframe_key_id(), key_material.bytes.as_slice()) {
            Ok(key) => Ok(GroupMediaSender { epoch, key, counter: new_counter() }),
            Err(error) => Err(GroupMediaError::from_sframe(error)),
        }
    }

    #[must_use]
    pub fn epoch(&self) -> (epoch: GroupMediaEpoch)
        ensures
            epoch == self@.epoch,
    {
        self.epoch
    }

    /// Seals a frame. Where its size or that of the associated data is refused, or there is
    /// no number left, nothing changes.
    pub fn seal_frame(&mut self, plaintext: &[u8], associated_data: &[u8]) -> (result: Result<
        Vec<u8>,
        GroupMediaError,
    >)
        requires
            old(self).wf(),
        ensures
            final(self).wf(),
            match result {
                Ok(sealed) => !old(self)@.counter.exhausted && is_sealed_by(
                    old(self)@,
                    plaintext@,
                    associated_data@,
                    sealed@,
                ) && final(self)@ == (MediaSenderView {
                    counter: old(self)@.counter.spec_advanced(),
                    ..old(self)@
                }),
                Err(error) => final(self)@ == old(self)@ && is_seal_refusal(
                    old(self)@,
                    plaintext@,
                    associated_data@,
                    error,
                ),
            },
    {
        match validate_plaintext_len(plaintext.len()) {
            Ok(()) => {},
            Err(error) => return Err(error),
        }
        match validate_aad_len(associated_data.len()) {
            Ok(()) => {},
            Err(error) => return Err(error),
        }
        let sealed = match sframe_seal(&self.key, &mut self.counter, plaintext, associated_data) {
            Ok(sealed) => sealed,
            Err(error) => return Err(GroupMediaError::from_sframe(error)),
        };
        match validate_sealed_len(sealed.len()) {
            Ok(()) => {},
            Err(error) => return Err(error),
        }
        Ok(sealed)
    }
}

/// Opens the frames of one epoch, each once.
pub struct GroupMediaReceiver {
    epoch: GroupMediaEpoch,
    key: OpeningKey,
    replay: ReplayAttackProtection,
}

/// A receiver: its epoch, the material of its key, and what it has seen.
pub struct MediaReceiverView {
    pub epoch: GroupMediaEpoch,
    pub material: Seq<u8>,
    pub replay: ReplayProtectionView,
}

impl View for GroupMediaReceiver {
    type V = MediaReceiverView;

    closed spec fn view(&self) -> MediaReceiverView {
        MediaReceiverView {
            epoch: self.epoch,
            material: opening_source(self.key).material,
            replay: replay_view(self.replay),
        }
    }
}

/// What opening a frame leads to.
pub enum OpenOutcome {
    Refused,
    Replayed(GroupMediaReplayError),
    NotAuthentic,
    /// The frame is authentic, but larger than any that is sealed.
    TooLarge(u64),
    Opened(u64, Seq<u8>),
}

impl MediaReceiverView {
    /// What becomes of a sealed frame.
    pub open spec fn spec_open(self, sealed: Seq<u8>, associated_data: Seq<u8>) -> OpenOutcome {
        if sealed.len() > MAX_GROUP_MEDIA_SEALED_BYTES || associated_data.len() == 0
            || associated_data.len() > MAX_GROUP_MEDIA_AAD_BYTES {
            OpenOutcome::Refused
        } else {
            match sframe_header(sealed) {
                None => OpenOutcome::NotAuthentic,
                Some((key_id, counter)) => match self.replay.spec_screen(key_id, counter) {
                    Some(reason) => OpenOutcome::Replayed(reason),
                    None => match sframe_opened(
                        self.epoch.spec_get() as u64,
                        self.material,
                        sealed,
                        associated_data,
                    ) {
                        None => OpenOutcome::NotAuthentic,
                        Some(plaintext) => if plaintext.len() > MAX_GROUP_MEDIA_FRAME_BYTES {
                            OpenOutcome::TooLarge(counter)
                        } else {
                            OpenOutcome::Opened(counter, plaintext)
                        },
                    },
                },
            }
        }
    }

    /// The receiver after it: only authentic frames are recorded.
    pub open spec fn spec_after_open(self, outcome: OpenOutcome) -> Self {
        match outcome {
            OpenOutcome::Opened(counter, _) => MediaReceiverView {
                replay: self.replay.spec_record(counter),
                ..self
            },
            OpenOutcome::TooLarge(counter) => MediaReceiverView {
                replay: self.replay.spec_record(counter),
                ..self
            },
            _ => self,
        }
    }
}

/// `result` is what a receiver returns for an outcome.
pub open spec fn is_open_result(
    result: Result<Vec<u8>, GroupMediaError>,
    outcome: OpenOutcome,
    sealed: Seq<u8>,
    associated_data: Seq<u8>,
) -> bool {
    match outcome {
        OpenOutcome::Refused => match result {
            Err(GroupMediaError::SealedFrameTooLarge) => sealed.len()
                > MAX_GROUP_MEDIA_SEALED_BYTES,
            Err(GroupMediaError::MissingAssociatedData) => sealed.len()
                <= MAX_GROUP_MEDIA_SEALED_BYTES && associated_data.len() == 0,
            Err(GroupMediaError::AadTooLarge) => sealed.len() <= MAX_GROUP_MEDIA_SEALED_BYTES
                && associated_data.len() > MAX_GROUP_MEDIA_AAD_BYTES,
            _ => false,
        },
        OpenOutcome::Replayed(reason) => result matches Err(GroupMediaError::Replay(r)) && r
            == reason,
        OpenOutcome::NotAuthentic => result matches Err(GroupMediaError::Crypto(_)),
        OpenOutcome::TooLarge(_) => result matches Err(GroupMediaError::FrameTooLarge),
        OpenOutcome::Opened(_, plaintext) => result matches Ok(opened) && opened@ == plaintext,
    }
}

/// A receiver that has seen nothing yet.
pub open spec fn fresh_receiver(
    epoch: GroupMediaEpoch,
    material: Seq<u8>,
    tolerance: int,
) -> MediaReceiverView {
    MediaReceiverView {
        epoch,
        material,
        replay: ReplayProtectionView {
            key_id: epoch.spec_get() as u64,
            span: tolerance,
            newest: None,
            seen: Set::empty(),
        },
    }
}

impl GroupMediaReceiver {
    /// The key and the protection bear the epoch's number.
    pub closed spec fn wf(self) -> bool {
        &&& opening_source(self.key).key_id == self.epoch.spec_get()
        &&& replay_view(self.replay).key_id == self.epoch.spec_get()
    }

    /// A sound receiver's protection is for its epoch.
    pub proof fn lemma_wf(self)
        requires
            self.wf(),
        ensures
            self@.replay.key_id == self@.epoch.spec_get(),
    {
    }

    pub fn new(
        epoch: GroupMediaEpoch,
        key_material: &GroupMediaKeyMaterial,
        replay_tolerance_frames: usize,
    ) -> (result: Result<Self, GroupMediaError>)
        ensures
            match result {
                Ok(receiver) => 1 <= replay_tolerance_frames
                    <= MAX_GROUP_MEDIA_REPLAY_TOLERANCE_FRAMES && receiver.wf() && receiver@
                    == fresh_receiver(epoch, key_material@, replay_tolerance_frames as int),
                Err(error) => !(1 <= replay_tolerance_frames
                    <= MAX_GROUP_MEDIA_REPLAY_TOLERANCE_FRAMES) && error is InvalidReplayTolerance,
            },
    {
        if replay_tolerance_frames < 1 || replay_tolerance_frames
            > MAX_GROUP_MEDIA_REPLAY_TOLERANCE_FRAMES {
            return Err(GroupMediaError::InvalidReplayTolerance);
        }
        let key_id: u64 = epoch.sframe_key_id();
        match derive_opening_key(key_id, key_material.bytes.as_slice()) {
            Ok(key) => Ok(
                GroupMediaReceiver {
                    epoch,
                    key,
                    replay: new_replay_protection(key_id, replay_tolerance_frames),
                },
            ),
            Err(error) => Err(GroupMediaError::from_sframe(error)),
        }
    }

    pub fn with_default_replay_tolerance(
        epoch: GroupMediaEpoch,
        key_material: &GroupMediaKeyMaterial,
    ) -> (result: Result<Self, GroupMediaError>)
        ensures
            result is Ok,
            result->Ok_0.wf(),
            result->Ok_0@ == fresh_receiver(
                epoch,
                key_material@,
                DEFAULT_GROUP_MEDIA_REPLAY_TOLERANCE_FRAMES as int,
            ),
    {
        Self::new(epoch, key_material, DEFAULT_GROUP_MEDIA_REPLAY_TOLERANCE_FRAMES)
    }

    #[must_use]
    pub fn epoch(&self) -> (epoch: GroupMediaEpoch)
        ensures
            epoch == self@.epoch,
    {
        self.epoch
    }

    /// Opens a sealed frame.
    pub fn open_frame(&mut self, sealed: &[u8], associated_data: &[u8]) -> (result: Result<
        Vec<u8>,
        GroupMediaError,
    >)
        requires
            old(self).wf(),
        ensures
            final(self).wf(),
            final(self)@ == old(self)@.spec_after_open(
                old(self)@.spec_open(sealed@, associated_data@),
            ),
            is_open_result(
                result,
                old(self)@.spec_open(sealed@, associated_data@),
                sealed@,
                associated_data@,
            ),
    {
        match validate_sealed_len(sealed.len()) {
            Ok(()) => {},
            Err(error) => return Err(error),
        }
        match validate_aad_len(associated_data.len()) {
            Ok(()) => {},
            Err(error) => return Err(error),
        }
        let plaintext = match sframe_open(&self.key, &mut self.replay, sealed, associated_data) {
            Ok(plaintext) => plaintext,
            Err(error) => return Err(GroupMediaError::from_sframe(error)),
        };
        match validate_plaintext_len(plaintext.len()) {
            Ok(()) => {},
            Err(error) => return Err(error),
        }
        Ok(plaintext)
    }
}

/// What a sender sealed is opened as the frame that it was, by a receiver with the same
/// epoch and key that has not seen the frame's number or left it behind; afterwards the same
/// frame is refused as a duplicate.
pub proof fn law_sealed_frame_is_opened_once(
    sender: MediaSenderView,
    receiver: MediaReceiverView,
    plaintext: Seq<u8>,
    associated_data: Seq<u8>,
    sealed: Seq<u8>,
)
    requires
        is_sealed_by(sender, plaintext, associated_data, sealed),
        receiver.epoch == sender.epoch,
        receiver.material == sender.material,
        receiver.replay.key_id == receiver.epoch.spec_get(),
        receiver.replay.span >= 1,
        receiver.replay.spec_screen(receiver.replay.key_id, sender.counter.next) is None,
    ensures
        ({
            let outcome = receiver.spec_open(sealed, associated_data);
            &&& outcome == OpenOutcome::Opened(sender.counter.next, plaintext)
            &&& receiver.spec_after_open(outcome).spec_open(sealed, associated_data)
                == OpenOutcome::Replayed(GroupMediaReplayError::Duplicate)
        }),
{
    let counter = sender.counter.next;
    let after = receiver.replay.spec_record(counter);
    assert(after.seen.contains(counter));
    assert(counter_distance(counter, counter) == 0);
}

impl ReplayProtectionView {
    /// The protection after frames with these counters came in turn, each of them authentic.
    pub open spec fn spec_after_all(self, counters: Seq<u64>) -> Self
        decreases counters.len(),
    {
        if counters.len() == 0 {
            self
        } else {
            let before = self.spec_after_all(counters.drop_last());
            if before.spec_screen(before.key_id, counters.last()) is None {
                before.spec_record(counters.last())
            } else {
                before
            }
        }
    }

    /// A counter of the first half of the range was seen: it is remembered, or it was left behind.
    pub open spec fn has_passed(self, counter: u64) -> bool {
        self.newest matches Some(newest) && {
            &&& counter <= newest <= u64::MAX / 2
            &&& newest - counter < self.span ==> self.seen.contains(counter)
        }
    }
}

/// A counter that was seen stays so, whatever counters follow.
proof fn lemma_passed_counter_stays(
    replay: ReplayProtectionView,
    counter: u64,
    later: Seq<u64>,
)
    requires
        replay.has_passed(counter),
        forall|i: int| 0 <= i < later.len() ==> #[trigger] later[i] <= u64::MAX / 2,
    ensures
        replay.spec_after_all(later).has_passed(counter),
        replay.spec_after_all(later).key_id == replay.key_id,
        replay.spec_after_all(later).span == replay.span,
    decreases later.len(),
{
    if later.len() > 0 {
        let front = later.drop_last();
        assert forall|i: int| 0 <= i < front.len() implies #[trigger] front[i] <= u64::MAX / 2 by {
            assert(front[i] == later[i]);
        }
        assert(later[later.len() - 1] <= u64::MAX / 2);
        lemma_passed_counter_stays(replay, counter, front);
    }
}

/// A frame that was accepted is refused whenever it comes again, whatever authentic frames have
/// come in between, as long as the sender has used half of its counters at most.
pub proof fn law_accepted_frame_stays_refused(
    replay: ReplayProtectionView,
    counter: u64,
    later: Seq<u64>,
    key_id: u64,
)
    requires
        replay.span >= 1,
        replay.newest matches Some(newest) ==> newest <= u64::MAX / 2,
        counter <= u64::MAX / 2,
        forall|i: int| 0 <= i < later.len() ==> #[trigger] later[i] <= u64::MAX / 2,
        replay.spec_screen(replay.key_id, counter) is None,
    ensures
        replay.spec_record(counter).spec_after_all(later).spec_screen(key_id, counter) is Some,
{
    let recorded = replay.spec_record(counter);
    assert(recorded.has_passed(counter));
    lemma_passed_counter_stays(recorded, counter, later);
}

/// A receiver without a past accepts any frame of its epoch, and refuses those of another.
pub proof fn law_fresh_receiver_accepts_its_epoch_only(
    receiver: MediaReceiverView,
    key_id: u64,
    counter: u64,
)
    requires
        receiver.replay.newest is None,
        receiver.replay.key_id == receiver.epoch.spec_get(),
    ensures
        receiver.replay.spec_screen(key_id, counter) == if key_id == receiver.epoch.spec_get() {
            None::<GroupMediaReplayError>
        } else {
            Some(GroupMediaReplayError::UnexpectedEpoch)
        },
{
}

/// A frame that is not authentic, or that is refused before it is opened, leaves the receiver as
/// it was, so that it does not keep the genuine frame out.
pub proof fn law_forged_frame_leaves_no_trace(
    receiver: MediaReceiverView,
    sealed: Seq<u8>,
    associated_data: Seq<u8>,
)
    requires
        ({
            let outcome = receiver.spec_open(sealed, associated_data);
            outcome is NotAuthentic || outcome is Refused || outcome is Replayed
        }),
    ensures
        receiver.spec_after_open(receiver.spec_open(sealed, associated_data)) == receiver,
{
}

/// Within the window frames may come out of order; behind it they are too old.
pub proof fn law_window_tolerates_reordering(
    replay: ReplayProtectionView,
    newest: u64,
    behind: u64,
)
    requires
        replay.newest == Some(newest),
        behind <= newest,
        1 <= replay.span <= MAX_GROUP_MEDIA_REPLAY_TOLERANCE_FRAMES,
        behind <= u64::MAX / 2,
        !replay.seen.contains((newest - behind) as u64),
        behind > 0,
    ensures
        replay.spec_screen(replay.key_id, (newest - behind) as u64) == if behind < replay.span {
            None::<GroupMediaReplayError>
        } else {
            Some(GroupMediaReplayError::TooOld)
        },
{
}

/// Distances between counters go round, and undo the step.
pub proof fn law_counter_distance(counter: u64, from: u64)
    ensures
        counter >= from ==> counter_distance(counter, from) == counter - from,
        counter < from ==> counter_distance(counter, from) == counter - from
            + 0x1_0000_0000_0000_0000,
{
}

/// A counter is used once: each frame takes the next one until the last is used up, and then none
/// is left.
pub proof fn law_counters_are_used_once(counter: CounterView)
    ensures
        counter.next < counter.limit ==> counter.spec_advanced().next == counter.next + 1
            && counter.spec_advanced().exhausted == counter.exhausted,
        counter.next >= counter.limit ==> counter.spec_advanced().exhausted
            && counter.spec_advanced().next == counter.next,
        counter.spec_advanced().limit == counter.limit,
{
}

/// Another epoch's frame is refused, a newer one of this epoch passes, one that was seen is a
/// duplicate, one within the window that was not seen passes, and one behind it is too old.
pub proof fn law_screening(replay: ReplayProtectionView, key_id: u64, newest: u64, counter: u64)
    requires
        newest <= u64::MAX / 2,
        counter <= u64::MAX / 2,
        replay.span >= 1,
    ensures
        key_id != replay.key_id ==> replay.spec_screen(key_id, counter) == Some(
            GroupMediaReplayError::UnexpectedEpoch,
        ),
        replay.newest == Some(newest) ==> {
            let screened = replay.spec_screen(replay.key_id, counter);
            &&& counter > newest ==> screened is None
            &&& counter <= newest && newest - counter >= replay.span ==> screened == Some(
                GroupMediaReplayError::TooOld,
            )
            &&& counter <= newest && newest - counter < replay.span && replay.seen.contains(counter)
                ==> screened == Some(GroupMediaReplayError::Duplicate)
            &&& counter <= newest && newest - counter < replay.span && !replay.seen.contains(
                counter,
            ) ==> screened is None
        },
{
}

/// A frame that is accepted is remembered. The newest stays the newest of all, and what was seen
/// is forgotten only where it has left the window.
pub proof fn law_accepted_frames_are_remembered(
    replay: ReplayProtectionView,
    newest: u64,
    counter: u64,
    other: u64,
)
    requires
        replay.newest == Some(newest),
        newest <= u64::MAX / 2,
        counter <= u64::MAX / 2,
        other <= newest,
        other != counter,
        replay.span >= 1,
    ensures
        ({
            let after = replay.spec_record(counter);
            &&& after.seen.contains(counter)
            &&& counter > newest ==> after.newest == Some(counter)
            &&& counter <= newest ==> after.newest == Some(newest)
            &&& counter <= newest ==> after.seen.contains(other) == replay.seen.contains(other)
            &&& counter > newest && counter - other < replay.span ==> after.seen.contains(other)
                == replay.seen.contains(other)
            &&& counter > newest && counter - other >= replay.span ==> !after.seen.contains(other)
            &&& after.key_id == replay.key_id && after.span == replay.span
        }),
{
}

/// A frame is opened if and only if it and its associated data have a fitting size, its header can
/// be read, it is no replay and it is authentic under the key of the epoch; what comes out is what
/// was sealed. Each of these binds by itself.
pub proof fn law_authentic_frames_are_opened(
    receiver: MediaReceiverView,
    sealed: Seq<u8>,
    associated_data: Seq<u8>,
)
    ensures
        ({
            let outcome = receiver.spec_open(sealed, associated_data);
            let fits = sealed.len() <= 8_388_672 && 1 <= associated_data.len() <= 256;
            let header = sframe_header(sealed);
            let opened = sframe_opened(
                receiver.epoch.spec_get() as u64,
                receiver.material,
                sealed,
                associated_data,
            );
            &&& !fits ==> outcome is Refused
            &&& fits && header is None ==> outcome is NotAuthentic
            &&& fits && header is Some ==> {
                let screened = receiver.replay.spec_screen(header->Some_0.0, header->Some_0.1);
                &&& screened is Some ==> outcome == OpenOutcome::Replayed(screened->Some_0)
                &&& screened is None && opened is None ==> outcome is NotAuthentic
                &&& screened is None && opened is Some && opened->Some_0.len() <= 8_388_608
                    ==> outcome == OpenOutcome::Opened(header->Some_0.1, opened->Some_0)
                &&& screened is None && opened is Some && opened->Some_0.len() > 8_388_608
                    ==> outcome == OpenOutcome::TooLarge(header->Some_0.1)
            }
        }),
{
}

/// A frame of a fitting size with associated data of a fitting size is sealed as long as counters
/// are left; a refusal names the one thing that is wrong.
pub proof fn law_fitting_frames_are_sealed(
    sender: MediaSenderView,
    plaintext: Seq<u8>,
    associated_data: Seq<u8>,
    error: GroupMediaError,
)
    requires
        is_seal_refusal(sender, plaintext, associated_data, error),
    ensures
        plaintext.len() > 8_388_608 || associated_data.len() == 0 || associated_data.len() > 256
            || sender.counter.exhausted,
        plaintext.len() > 8_388_608 ==> error is FrameTooLarge,
        plaintext.len() <= 8_388_608 && associated_data.len() == 0 ==> error
            is MissingAssociatedData,
        plaintext.len() <= 8_388_608 && associated_data.len() > 256 ==> error is AadTooLarge,
        plaintext.len() <= 8_388_608 && 1 <= associated_data.len() <= 256 ==> error is Crypto,
{
}

/// What was opened is handed out, and nothing else is; a refusal names what is wrong.
pub proof fn law_opened_frames_are_handed_out(
    result: Result<Vec<u8>, GroupMediaError>,
    receiver: MediaReceiverView,
    sealed: Seq<u8>,
    associated_data: Seq<u8>,
)
    requires
        is_open_result(
            result,
            receiver.spec_open(sealed, associated_data),
            sealed,
            associated_data,
        ),
    ensures
        ({
            let outcome = receiver.spec_open(sealed, associated_data);
            &&& result is Ok <==> outcome is Opened
            &&& result matches Ok(opened) ==> sframe_opened(
                receiver.epoch.spec_get() as u64,
                receiver.material,
                sealed,
                associated_data,
            ) == Some(opened@) && opened@.len() <= 8_388_608
            &&& outcome is Replayed ==> result is Err && result->Err_0 is Replay
                && result->Err_0->Replay_0 == outcome->Replayed_0
            &&& sealed.len() > 8_388_672 ==> result is Err && result->Err_0 is SealedFrameTooLarge
            &&& sealed.len() <= 8_388_672 && associated_data.len() == 0 ==> result is Err
                && result->Err_0 is MissingAssociatedData
            &&& sealed.len() <= 8_388_672 && associated_data.len() > 256 ==> result is Err
                && result->Err_0 is AadTooLarge
        }),
{
}

} // verus!
