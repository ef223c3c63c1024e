//! Announcements by which devices find each other. Discovery is never authorization.

use crate::bytes::{bytes_equal, bytes_precede, copy_range, push_all, push_be, read_u16, read_u32, read_u64};
use crate::network::address::IpAddress;
use crate::ordered::{OrderedKey, OrderedMap};
use crate::text::ascii_text;
use vstd::prelude::*;

verus! {

/// "CMD1" in ASCII.
pub const DISCOVERY_MAGIC: u32 = 0x434D_4431;

pub const DISCOVERY_PACKET_LEN: usize = 84;

pub const MAX_HOSTNAME_BYTES: usize = 32;

const FLAG_SERVICE_READY: u16 = 0x01;

const FLAG_WORKER_READY: u16 = 0x02;

const FLAG_WIRED: u16 = 0x04;

const FLAG_WIRELESS: u16 = 0x08;

/// What a device is known by.
#[derive(Debug, Clone, Copy, Eq, PartialOrd, Ord, Hash)]
pub struct DeviceId(pub [u8; 16]);

impl PartialEq for DeviceId {
    fn eq(&self, other: &Self) -> (same: bool) {
        let same = bytes_equal(self.0.as_slice(), other.0.as_slice());
        proof {
            if same {
                assert(self.0 =~= other.0);
            }
        }
        same
    }
}

impl vstd::std_specs::cmp::PartialEqSpecImpl for DeviceId {
    open spec fn obeys_eq_spec() -> bool {
        true
    }

    open spec fn eq_spec(&self, other: &Self) -> bool {
        *self == *other
    }
}

impl OrderedKey for DeviceId {
    open spec fn rank(self) -> int {
        crate::bytes::be_value(self.0@) as int
    }

    proof fn lemma_rank_injective(a: Self, b: Self) {
        crate::bytes::lemma_be_value_injective(a.0@, b.0@);
        assert(a.0 =~= b.0);
    }

    fn precedes(&self, other: &Self) -> (before: bool) {
        bytes_precede(self.0.as_slice(), other.0.as_slice())
    }
}

/// A set of bit flags of an announcement.
#[derive(Debug, Clone, Copy, PartialEq, Eq, Structural)]
pub struct DiscoveryFlags {
    bits: u16,
}

impl DiscoveryFlags {
    /// The flags as a number.
    pub closed spec fn spec_bits(self) -> u16 {
        self.bits
    }

    /// The flags with a given number.
    pub closed spec fn spec_from_bits(bits: u16) -> Self {
        DiscoveryFlags { bits }
    }

    /// Flags and their numbers stand for each other.
    pub broadcast proof fn lemma_bits(flags: Self, bits: u16)
        ensures
            (#[trigger] Self::spec_from_bits(bits)).spec_bits() == bits,
            Self::spec_from_bits(#[trigger] flags.spec_bits()) == flags,
    {
    }

    /// No flag.
    #[must_use]
    pub fn none() -> (flags: Self)
        ensures
            flags.spec_bits() == 0,
    {
        DiscoveryFlags { bits: 0 }
    }

    /// The device's service is ready.
    #[must_use]
    pub fn service_ready() -> (flags: Self)
        ensures
            flags.spec_bits() == 0x01,
    {
        DiscoveryFlags { bits: FLAG_SERVICE_READY }
    }

    /// The device's session worker is ready.
    #[must_use]
    pub fn worker_ready() -> (flags: Self)
        ensures
            flags.spec_bits() == 0x02,
    {
        DiscoveryFlags { bits: FLAG_WORKER_READY }
    }

    /// The device is on a wired network.
    #[must_use]
    pub fn wired() -> (flags: Self)
        ensures
            flags.spec_bits() == 0x04,
    {
        DiscoveryFlags { bits: FLAG_WIRED }
    }

    /// The device is on a wireless network.
    #[must_use]
    pub fn wireless() -> (flags: Self)
        ensures
            flags.spec_bits() == 0x08,
    {
        DiscoveryFlags { bits: FLAG_WIRELESS }
    }

    #[must_use]
    pub fn bits(self) -> (bits: u16)
        ensures
            bits == self.spec_bits(),
    {
        self.bits
    }

    #[must_use]
    pub fn from_bits(bits: u16) -> (flags: Self)
        ensures
            flags == Self::spec_from_bits(bits),
            flags.spec_bits() == bits,
    {
        DiscoveryFlags { bits }
    }

    /// Every bit of `flag` is set in these flags.
    pub open spec fn spec_contains(self, flag: Self) -> bool {
        self.spec_bits() & flag.spec_bits() == flag.spec_bits()
    }

    #[must_use]
    pub fn contains(self, flag: Self) -> (contained: bool)
        ensures
            contained == self.spec_contains(flag),
    {
        self.bits & flag.bits == flag.bits
    }
}

impl core::ops::BitOr for DiscoveryFlags {
    type Output = Self;

    /// The flags that are set on either side.
    fn bitor(self, rhs: Self) -> (both: Self)
        ensures
            both.spec_bits() == self.spec_bits() | rhs.spec_bits(),
    {
        DiscoveryFlags { bits: self.bits | rhs.bits }
    }
}

impl vstd::std_specs::ops::BitOrSpecImpl for DiscoveryFlags {
    open spec fn obeys_bitor_spec() -> bool {
        true
    }

    open spec fn bitor_req(self, rhs: Self) -> bool {
        true
    }

    closed spec fn bitor_spec(self, rhs: Self) -> Self {
        DiscoveryFlags { bits: self.bits | rhs.bits }
    }
}

/// A flag that was joined to others is contained in the result.
pub proof fn law_joined_discovery_flags_are_contained(
    a: DiscoveryFlags,
    b: DiscoveryFlags,
    joined: DiscoveryFlags,
)
    requires
        joined.spec_bits() == a.spec_bits() | b.spec_bits(),
    ensures
        joined.spec_contains(a),
        joined.spec_contains(b),
{
    let x = a.spec_bits();
    let y = b.spec_bits();
    assert((x | y) & x == x && (x | y) & y == y) by (bit_vector);
}

/// What a device tells of itself. There is no secret in it.
#[derive(Debug, Clone, PartialEq, Eq)]
pub struct DiscoveryAnnouncement {
    pub version_major: u8,
    pub version_minor: u8,
    pub flags: DiscoveryFlags,
    pub device_id: DeviceId,
    pub control_port: u16,
    pub boot_id: u64,
    pub capability_bits: u64,
    pub hostname: String,
}

#[derive(Debug, Clone, Copy, PartialEq, Eq, Structural)]
pub enum DiscoveryError {
    Truncated,
    BadMagic,
    InvalidHostname,
    InvalidPort,
}

/// An announcement, with the name as characters.
#[verifier::ext_equal]
pub struct AnnouncementView {
    pub version_major: u8,
    pub version_minor: u8,
    pub flags: DiscoveryFlags,
    pub device_id: Seq<u8>,
    pub control_port: u16,
    pub boot_id: u64,
    pub capability_bits: u64,
    pub hostname: Seq<char>,
}

impl View for DiscoveryAnnouncement {
    type V = AnnouncementView;

    open spec fn view(&self) -> AnnouncementView {
        AnnouncementView {
            version_major: self.version_major,
            version_minor: self.version_minor,
            flags: self.flags,
            device_id: self.device_id.0@,
            control_port: self.control_port,
            boot_id: self.boot_id,
            capability_bits: self.capability_bits,
            hostname: self.hostname@,
        }
    }
}

/// A name of ASCII characters that is neither empty nor too long.
pub open spec fn is_hostname(name: Seq<char>) -> bool {
    0 < crate::text::byte_len(name) <= MAX_HOSTNAME_BYTES && vstd::utf8::is_ascii_chars(name)
}

/// So many zeros.
pub open spec fn zeros(count: int) -> Seq<u8> {
    Seq::new(count as nat, |i: int| 0u8)
}

impl AnnouncementView {
    /// The first rule that the announcement breaks, in the order in which they are tested.
    pub open spec fn spec_validate(self) -> Result<(), DiscoveryError> {
        if self.control_port == 0 {
            Err(DiscoveryError::InvalidPort)
        } else if !is_hostname(self.hostname) {
            Err(DiscoveryError::InvalidHostname)
        } else {
            Ok(())
        }
    }

    /// The announcement on the wire.
    pub open spec fn spec_bytes(self) -> Seq<u8> {
        crate::bytes::be_bytes(DISCOVERY_MAGIC as nat, 4)
            + seq![self.version_major, self.version_minor]
            + crate::bytes::be_bytes(self.flags.spec_bits() as nat, 2) + self.device_id
            + crate::bytes::be_bytes(self.control_port as nat, 2)
            + seq![self.hostname.len() as u8, 0u8]
            + crate::bytes::be_bytes(self.boot_id as nat, 8)
            + crate::bytes::be_bytes(self.capability_bits as nat, 8)
            + crate::text::ascii_bytes(self.hostname)
            + zeros(40 - self.hostname.len())
    }

    /// The fields that stand in the first 84 bytes of `data`.
    pub open spec fn spec_fields(data: Seq<u8>) -> Self {
        AnnouncementView {
            version_major: data[4],
            version_minor: data[5],
            flags: DiscoveryFlags::spec_from_bits(crate::bytes::be_field(data, 6, 2) as u16),
            device_id: data.subrange(8, 24),
            control_port: crate::bytes::be_field(data, 24, 2) as u16,
            boot_id: crate::bytes::be_field(data, 28, 8) as u64,
            capability_bits: crate::bytes::be_field(data, 36, 8) as u64,
            hostname: crate::text::ascii_chars(data.subrange(44, 44 + data[26] as int)),
        }
    }

    /// What `data` is read as.
    pub open spec fn spec_decode(data: Seq<u8>) -> Result<Self, DiscoveryError> {
        if data.len() < DISCOVERY_PACKET_LEN {
            Err(DiscoveryError::Truncated)
        } else if crate::bytes::be_field(data, 0, 4) != DISCOVERY_MAGIC {
            Err(DiscoveryError::BadMagic)
        } else if crate::bytes::be_field(data, 24, 2) == 0 {
            Err(DiscoveryError::InvalidPort)
        } else if data[26] == 0 || data[26] > MAX_HOSTNAME_BYTES || !crate::text::all_ascii(
            data.subrange(44, 44 + data[26] as int),
        ) {
            Err(DiscoveryError::InvalidHostname)
        } else {
            Ok(Self::spec_fields(data))
        }
    }
}

impl DiscoveryAnnouncement {
    /// The announcement's bytes, where it breaks no rule.
    pub fn encode(&self) -> (result: Result<[u8; DISCOVERY_PACKET_LEN], DiscoveryError>)
        ensures
            match result {
                Ok(bytes) => self@.spec_validate() is Ok && bytes@ == self@.spec_bytes(),
                Err(error) => self@.spec_validate() == Err::<(), DiscoveryError>(error),
            },
    {
        if self.control_port == 0 {
            return Err(DiscoveryError::InvalidPort);
        }
        let hostname = self.hostname.as_str().as_bytes();
        let length: usize = hostname.len();
        if length == 0 || length > MAX_HOSTNAME_BYTES || !self.hostname.as_str().is_ascii() {
            return Err(DiscoveryError::InvalidHostname);
        }
        proof {
            vstd::utf8::is_ascii_chars_encode_utf8(self.hostname@);
            assert(hostname@ =~= crate::text::ascii_bytes(self.hostname@));
        }
        let mut out: Vec<u8> = Vec::with_capacity(DISCOVERY_PACKET_LEN);
        push_be(&mut out, DISCOVERY_MAGIC as u64, 4);
        out.push(self.version_major);
        out.push(self.version_minor);
        push_be(&mut out, self.flags.bits() as u64, 2);
        push_all(&mut out, self.device_id.0.as_slice());
        push_be(&mut out, self.control_port as u64, 2);
        out.push(length as u8);
        // The byte behind the name's length is not used.
        out.push(0);
        push_be(&mut out, self.boot_id, 8);
        push_be(&mut out, self.capability_bits, 8);
        push_all(&mut out, hostname);
        let ghost front = out@;
        let mut filled: usize = length;
        while filled < 40
            invariant
                length <= filled <= 40,
                out@ == front + zeros(filled - length),
            decreases 40 - filled,
        {
            out.push(0);
            filled += 1;
            proof {
                assert(out@ =~= front + zeros(filled - length));
            }
        }
        proof {
            broadcast use crate::bytes::lemma_be_bytes_len;

            assert(out@ =~= self@.spec_bytes());
        }
        let mut bytes: [u8; DISCOVERY_PACKET_LEN] = [0u8; 84];
        let mut i: usize = 0;
        while i < DISCOVERY_PACKET_LEN
            invariant
                i <= DISCOVERY_PACKET_LEN == out@.len(),
                forall|j: int| 0 <= j < i ==> bytes@[j] == out@[j],
            decreases DISCOVERY_PACKET_LEN - i,
        {
            bytes[i] = out[i];
            i += 1;
        }
        proof {
            assert(bytes@ =~= out@);
        }
        Ok(bytes)
    }

    /// Reads the announcement in the first 84 bytes of `data`.
    pub fn decode(data: &[u8]) -> (result: Result<Self, DiscoveryError>)
        ensures
            match result {
                Ok(announcement) => AnnouncementView::spec_decode(data@) == Ok::<
                    AnnouncementView,
                    DiscoveryError,
                >(announcement@),
                Err(error) => AnnouncementView::spec_decode(data@) == Err::<
                    AnnouncementView,
                    DiscoveryError,
                >(error),
            },
    {
        if data.len() < DISCOVERY_PACKET_LEN {
            return Err(DiscoveryError::Truncated);
        }
        if read_u32(data, 0) != DISCOVERY_MAGIC {
            return Err(DiscoveryError::BadMagic);
        }
        let control_port: u16 = read_u16(data, 24);
        if control_port == 0 {
            return Err(DiscoveryError::InvalidPort);
        }
        let length: usize = data[26] as usize;
        if length == 0 || length > MAX_HOSTNAME_BYTES {
            return Err(DiscoveryError::InvalidHostname);
        }
        let name = copy_range(data, 44, 44 + length);
        let hostname = match ascii_text(name.as_slice()) {
            Some(hostname) => hostname,
            None => return Err(DiscoveryError::InvalidHostname),
        };
        let mut device_id: [u8; 16] = [0u8; 16];
        let mut i: usize = 0;
        while i < 16
            invariant
                i <= 16,
                data@.len() >= DISCOVERY_PACKET_LEN,
                forall|j: int| 0 <= j < i ==> device_id@[j] == data@[8 + j],
            decreases 16 - i,
        {
            device_id[i] = data[8 + i];
            i += 1;
        }
        proof {
            assert(device_id@ =~= data@.subrange(8, 24));
        }
        Ok(
            DiscoveryAnnouncement {
                version_major: data[4],
                version_minor: data[5],
                flags: DiscoveryFlags::from_bits(read_u16(data, 6)),
                device_id: DeviceId(device_id),
                control_port,
                boot_id: read_u64(data, 28),
                capability_bits: read_u64(data, 36),
                hostname,
            },
        )
    }
}

/// Decoding an encoded announcement, whatever follows it, gives the announcement back.
pub proof fn law_announcement_round_trip(announcement: AnnouncementView, rest: Seq<u8>)
    requires
        announcement.device_id.len() == 16,
        announcement.spec_validate() is Ok,
    ensures
        announcement.spec_bytes().len() == DISCOVERY_PACKET_LEN,
        AnnouncementView::spec_decode(announcement.spec_bytes() + rest) == Ok::<
            AnnouncementView,
            DiscoveryError,
        >(announcement),
{
    broadcast use crate::bytes::lemma_be_bytes_len;
    broadcast use DiscoveryFlags::lemma_bits;

    let name = announcement.hostname;
    vstd::utf8::is_ascii_chars_encode_utf8(name);
    let bytes = announcement.spec_bytes();
    let data = bytes + rest;
    crate::bytes::lemma_pow256_values();
    crate::bytes::lemma_field_read(data, 0, 4, DISCOVERY_MAGIC as nat);
    crate::bytes::lemma_field_read(data, 6, 2, announcement.flags.spec_bits() as nat);
    crate::bytes::lemma_field_read(data, 24, 2, announcement.control_port as nat);
    crate::bytes::lemma_field_read(data, 28, 8, announcement.boot_id as nat);
    crate::bytes::lemma_field_read(data, 36, 8, announcement.capability_bits as nat);
    assert(data.subrange(8, 24) =~= announcement.device_id);
    assert(data[26] == name.len() as u8);
    let read = data.subrange(44, 44 + data[26] as int);
    assert(read =~= crate::text::ascii_bytes(name));
    assert forall|i: int| 0 <= i < read.len() implies (#[trigger] read[i]) < 128 && read[i] as char
        == name[i] by {
        assert('\0' <= name[i] <= '\u{7f}');
        assert(name[i] as int == name[i] as u8 as int);
    }
    assert(crate::text::ascii_chars(read) =~= name);
}

#[derive(Debug, Clone, PartialEq, Eq)]
pub struct DiscoveredDevice {
    pub announcement: DiscoveryAnnouncement,
    pub source_ip: IpAddress,
    pub first_seen_us: u64,
    pub last_seen_us: u64,
}

#[derive(Debug, Clone, Copy, PartialEq, Eq)]
pub enum DiscoveryEvent {
    Added(DeviceId),
    Updated(DeviceId),
    Rebooted(DeviceId),
    Expired(DeviceId),
}

/// Tracks unauthenticated discovery presence only. Discovery is never authorization.
#[derive(Debug)]
pub struct DiscoveryRegistry {
    devices: OrderedMap<DeviceId, DiscoveredDevice>,
    expiry_us: u64,
}

/// A registry: the devices that it knows, and how long it remembers a silent one.
#[verifier::ext_equal]
pub struct RegistryView {
    pub devices: Map<DeviceId, DiscoveredDevice>,
    pub expiry_us: u64,
}

impl View for DiscoveryRegistry {
    type V = RegistryView;

    closed spec fn view(&self) -> RegistryView {
        RegistryView { devices: self.devices@, expiry_us: self.expiry_us }
    }
}

impl RegistryView {
    /// Every device is filed under its own identifier.
    pub open spec fn is_sound(self) -> bool {
        forall|id: DeviceId| #[trigger]
            self.devices.contains_key(id) ==> self.devices[id].announcement.device_id == id
    }

    /// What an announcement means.
    pub open spec fn spec_event(self, announcement: DiscoveryAnnouncement) -> DiscoveryEvent {
        let id = announcement.device_id;
        if !self.devices.contains_key(id) {
            DiscoveryEvent::Added(id)
        } else if self.devices[id].announcement.boot_id != announcement.boot_id {
            DiscoveryEvent::Rebooted(id)
        } else {
            DiscoveryEvent::Updated(id)
        }
    }

    /// The registry after an announcement. A device that was rebooted is seen for the first
    /// time again.
    pub open spec fn spec_observed(
        self,
        now_us: u64,
        source_ip: IpAddress,
        announcement: DiscoveryAnnouncement,
    ) -> Self {
        let id = announcement.device_id;
        let device = DiscoveredDevice {
            announcement,
            source_ip,
            first_seen_us: if self.spec_event(announcement) is Updated {
                self.devices[id].first_seen_us
            } else {
                now_us
            },
            last_seen_us: now_us,
        };
        RegistryView { devices: self.devices.insert(id, device), ..self }
    }

    /// The devices that have been silent for too long.
    pub open spec fn spec_expired(self, now_us: u64) -> Set<DeviceId> {
        Set::new(
            |id: DeviceId|
                self.devices.contains_key(id) && crate::counting::elapsed(
                    now_us,
                    self.devices[id].last_seen_us,
                ) > self.expiry_us,
        )
    }

    /// The registry without them.
    pub open spec fn spec_after_expiry(self, now_us: u64) -> Self {
        RegistryView { devices: self.devices.remove_keys(self.spec_expired(now_us)), ..self }
    }
}

/// The events that tell of expired devices.
pub open spec fn expiry_events(ids: Seq<DeviceId>) -> Seq<DiscoveryEvent> {
    ids.map_values(|id: DeviceId| DiscoveryEvent::Expired(id))
}

impl DiscoveryRegistry {
    /// The devices are in order, each under its own identifier.
    pub closed spec fn wf(self) -> bool {
        self.devices.wf() && self@.is_sound()
    }

    /// An empty registry. The time after which a device is forgotten must not be zero.
    #[must_use]
    pub fn new(expiry_us: u64) -> (registry: Self)
        requires
            expiry_us > 0,
        ensures
            registry.wf(),
            registry@ == (RegistryView { devices: Map::empty(), expiry_us }),
    {
        DiscoveryRegistry { devices: OrderedMap::new(), expiry_us }
    }

    pub fn observe(
        &mut self,
        now_us: u64,
        source_ip: IpAddress,
        announcement: DiscoveryAnnouncement,
    ) -> (event: DiscoveryEvent)
        requires
            old(self).wf(),
        ensures
            final(self).wf(),
            event == old(self)@.spec_event(announcement),
            final(self)@ == old(self)@.spec_observed(now_us, source_ip, announcement),
    {
        let id = announcement.device_id;
        let (event, first_seen_us): (DiscoveryEvent, u64) = match self.devices.get(&id) {
            Some(existing) => {
                if existing.announcement.boot_id != announcement.boot_id {
                    (DiscoveryEvent::Rebooted(id), now_us)
                } else {
                    (DiscoveryEvent::Updated(id), existing.first_seen_us)
                }
            },
            None => (DiscoveryEvent::Added(id), now_us),
        };
        let _ = self.devices.insert(
            id,
            DiscoveredDevice { announcement, source_ip, first_seen_us, last_seen_us: now_us },
        );
        event
    }

    /// Forgets the devices that have been silent for too long, and tells which these are, in
    /// ascending order.
    pub fn expire(&mut self, now_us: u64) -> (events: Vec<DiscoveryEvent>)
        requires
            old(self).wf(),
        ensures
            final(self).wf(),
            final(self)@ == old(self)@.spec_after_expiry(now_us),
            exists|ids: Seq<DeviceId>| #[trigger]
                crate::ordered::lists(ids, old(self)@.spec_expired(now_us)) && events@
                    == expiry_events(ids),
    {
        let mut events: Vec<DiscoveryEvent> = Vec::new();
        let ghost mut ids: Seq<DeviceId> = Seq::empty();
        let ghost start = self@;
        let mut i: usize = 0;
        proof {
            self.devices.lemma_view();
            assert(ids.to_set() =~= Set::<DeviceId>::empty());
            assert(events@ =~= expiry_events(ids));
        }
        while i < self.devices.len()
            invariant
                self.devices.wf(),
                start == old(self)@,
                self.expiry_us == start.expiry_us,
                i <= self.devices.spec_entries().len(),
                events@ == expiry_events(ids),
                crate::ordered::keys_ascend(ids),
                // What is left was there, and what is gone has expired.
                forall|id: DeviceId| #[trigger]
                    self.devices@.contains_key(id) ==> start.devices.contains_key(id)
                        && self.devices@[id] == start.devices[id],
                forall|id: DeviceId| #[trigger]
                    start.devices.contains_key(id) ==> (self.devices@.contains_key(id)
                        <==> !ids.contains(id)),
                forall|id: DeviceId| #[trigger]
                    ids.contains(id) ==> start.spec_expired(now_us).contains(id),
                // What was passed over has not expired, and comes after what is gone.
                forall|j: int|
                    0 <= j < i ==> !start.spec_expired(now_us).contains(
                        (#[trigger] self.devices.spec_entries()[j]).0,
                    ),
                forall|k: int, j: int|
                    #![trigger ids[k], self.devices.spec_entries()[j]]
                    0 <= k < ids.len() && i <= j < self.devices.spec_entries().len()
                        ==> ids[k].rank() < self.devices.spec_entries()[j].0.rank(),
            decreases self.devices.spec_entries().len() - i,
        {
            let id = self.devices.key_at(i);
            let last_seen_us: u64 = self.devices.value_at(i).last_seen_us;
            let ghost before = self.devices;
            let ghost known = ids;
            proof {
                before.lemma_view();
                assert(before@.contains_key(id));
                assert(start.devices.contains_key(id));
                assert(start.devices[id] == before@[id]);
            }
            if now_us.saturating_sub(last_seen_us) > self.expiry_us {
                let _ = self.devices.remove_at(i);
                events.push(DiscoveryEvent::Expired(id));
                proof {
                    ids = ids.push(id);
                    assert(events@ =~= expiry_events(ids));
                    assert forall|other: DeviceId| #[trigger] ids.contains(other) <==> (
                    known.contains(other) || other == id) by {
                        if known.contains(other) {
                            let k = choose|k: int| 0 <= k < known.len() && known[k] == other;
                            assert(ids[k] == other);
                        }
                        if other == id {
                            assert(ids[known.len() as int] == other);
                        }
                        if ids.contains(other) {
                            let k = choose|k: int| 0 <= k < ids.len() && ids[k] == other;
                            if k < known.len() {
                                assert(known[k] == other);
                            }
                        }
                    }
                    let entries = self.devices.spec_entries();
                    assert forall|j: int| 0 <= j < i implies !start.spec_expired(now_us).contains(
                        (#[trigger] entries[j]).0,
                    ) by {
                        assert(entries[j] == before.spec_entries()[j]);
                    }
                    assert forall|k: int, j: int|
                        #![trigger ids[k], entries[j]]
                        0 <= k < ids.len() && i <= j < entries.len() implies ids[k].rank()
                        < entries[j].0.rank() by {
                        assert(entries[j] == before.spec_entries()[j + 1]);
                        if k < known.len() {
                            assert(ids[k] == known[k]);
                        } else {
                            assert(before.spec_entries()[i as int].0.rank()
                                < before.spec_entries()[j + 1].0.rank());
                        }
                    }
                    assert forall|a: int, b: int|
                        #![trigger ids[a], ids[b]]
                        0 <= a < b < ids.len() implies ids[a].rank() < ids[b].rank() by {
                        if b == known.len() {
                            assert(ids[a] == known[a]);
                            assert(known[a].rank() < before.spec_entries()[i as int].0.rank());
                        } else {
                            assert(ids[a] == known[a]);
                            assert(ids[b] == known[b]);
                        }
                    }
                }
            } else {
                i += 1;
            }
        }
        proof {
            self.devices.lemma_view();
            let expired = start.spec_expired(now_us);
            assert forall|id: DeviceId| #[trigger] ids.to_set().contains(id) <==> expired.contains(
                id,
            ) by {
                if expired.contains(id) && !ids.contains(id) {
                    assert(start.devices.contains_key(id));
                    assert(self.devices@.contains_key(id));
                    let j = choose|j: int|
                        0 <= j < self.devices.spec_entries().len() && (
                        #[trigger] self.devices.spec_entries()[j]).0 == id;
                    assert(!expired.contains(self.devices.spec_entries()[j].0));
                }
            }
            assert(ids.to_set() =~= expired);
            assert(crate::ordered::lists(ids, expired));
            assert(self.devices@ =~= start.devices.remove_keys(expired));
            assert(self@ =~= start.spec_after_expiry(now_us));
        }
        events
    }

    #[must_use]
    pub fn get(&self, id: DeviceId) -> (device: Option<&DiscoveredDevice>)
        requires
            self.wf(),
        ensures
            match device {
                Some(device) => self@.devices.contains_key(id) && *device == self@.devices[id],
                None => !self@.devices.contains_key(id),
            },
    {
        self.devices.get(&id)
    }

    #[must_use]
    pub fn len(&self) -> (len: usize)
        requires
            self.wf(),
        ensures
            len == self@.devices.dom().len(),
    {
        self.devices.len()
    }

    #[must_use]
    pub fn is_empty(&self) -> (empty: bool)
        requires
            self.wf(),
        ensures
            empty == (self@.devices.dom().len() == 0),
    {
        self.devices.len() == 0
    }
}

/// A device that announces itself often enough is not forgotten, and one that falls silent is.
pub proof fn law_silent_devices_are_forgotten(
    registry: RegistryView,
    seen_us: u64,
    source_ip: IpAddress,
    announcement: DiscoveryAnnouncement,
    now_us: u64,
)
    ensures
        registry.spec_observed(seen_us, source_ip, announcement).spec_after_expiry(
            now_us,
        ).devices.contains_key(announcement.device_id) <==> crate::counting::elapsed(
            now_us,
            seen_us,
        ) <= registry.expiry_us,
{
}

/// A device that says the same again is only updated, and keeps the time at which it was first
/// seen. One that was booted anew is first seen then.
pub proof fn law_reboot_is_noticed(
    registry: RegistryView,
    first_us: u64,
    first_ip: IpAddress,
    first: DiscoveryAnnouncement,
    second_us: u64,
    second_ip: IpAddress,
    second: DiscoveryAnnouncement,
)
    requires
        first.device_id == second.device_id,
    ensures
        ({
            let id = first.device_id;
            let known = registry.spec_observed(first_us, first_ip, first);
            let after = known.spec_observed(second_us, second_ip, second);
            &&& known.spec_event(second) == if first.boot_id == second.boot_id {
                DiscoveryEvent::Updated(id)
            } else {
                DiscoveryEvent::Rebooted(id)
            }
            &&& after.devices[id].first_seen_us == if first.boot_id == second.boot_id {
                known.devices[id].first_seen_us
            } else {
                second_us
            }
            &&& after.devices[id].last_seen_us == second_us
        }),
{
}

/// Rate-limits local announcements so discovery never turns into a broadcast storm.
#[derive(Debug, Clone, Copy, PartialEq, Eq, Structural)]
pub struct AnnouncementPacer {
    interval_us: u64,
    next_due_us: Option<u64>,
}

/// A pacer: its interval, and when the next announcement is due.
pub struct AnnouncementPacerView {
    pub interval_us: u64,
    pub next_due_us: Option<u64>,
}

impl View for AnnouncementPacer {
    type V = AnnouncementPacerView;

    closed spec fn view(&self) -> AnnouncementPacerView {
        AnnouncementPacerView { interval_us: self.interval_us, next_due_us: self.next_due_us }
    }
}

impl AnnouncementPacerView {
    /// An announcement is due.
    pub open spec fn spec_due(self, now_us: u64) -> bool {
        self.next_due_us matches Some(due) ==> now_us >= due
    }

    /// The pacer after it was asked.
    pub open spec fn spec_asked(self, now_us: u64) -> Self {
        if self.spec_due(now_us) {
            AnnouncementPacerView {
                next_due_us: Some(
                    crate::counting::saturating_sum(now_us, self.interval_us as int),
                ),
                ..self
            }
        } else {
            self
        }
    }
}

impl AnnouncementPacer {
    /// A pacer that lets the first announcement through. The interval must not be zero.
    #[must_use]
    pub fn new(interval_us: u64) -> (pacer: Self)
        requires
            interval_us > 0,
        ensures
            pacer@ == (AnnouncementPacerView { interval_us, next_due_us: None }),
    {
        AnnouncementPacer { interval_us, next_due_us: None }
    }

    pub fn should_announce(&mut self, now_us: u64) -> (due: bool)
        ensures
            due == old(self)@.spec_due(now_us),
            final(self)@ == old(self)@.spec_asked(now_us),
    {
        match self.next_due_us {
            None => {
                self.next_due_us = Some(now_us.saturating_add(self.interval_us));
                true
            },
            Some(due) => {
                if now_us < due {
                    return false;
                }
                self.next_due_us = Some(now_us.saturating_add(self.interval_us));
                true
            },
        }
    }
}

/// Two announcements are at least an interval apart, as far as the clock counts.
pub proof fn law_announcements_keep_their_distance(
    pacer: AnnouncementPacerView,
    first_us: u64,
    second_us: u64,
)
    requires
        pacer.spec_due(first_us),
        pacer.spec_asked(first_us).spec_due(second_us),
    ensures
        second_us >= crate::counting::saturating_sum(first_us, pacer.interval_us as int),
{
}

/// An announcement is read from these bytes, whatever follows it: 84 that begin with the letters
/// CMD1, with a port other than zero and a host name of 1 to 32 characters from ASCII. The fields
/// stand one after the other, the most significant byte first.
pub proof fn law_announcement_layout(data: Seq<u8>, i: int)
    ensures
        ({
            let result = AnnouncementView::spec_decode(data);
            let marked = data[0] == 0x43 && data[1] == 0x4D && data[2] == 0x44 && data[3] == 0x31;
            let port = 256 * data[24] + data[25];
            let len = data[26] as int;
            let plain = forall|k: int| 44 <= k < 44 + len ==> #[trigger] data[k] < 128;
            &&& data.len() < 84 ==> result == Err::<AnnouncementView, _>(DiscoveryError::Truncated)
            &&& data.len() >= 84 && !marked ==> result == Err::<AnnouncementView, _>(
                DiscoveryError::BadMagic,
            )
            &&& data.len() >= 84 && marked && port == 0 ==> result == Err::<AnnouncementView, _>(
                DiscoveryError::InvalidPort,
            )
            &&& data.len() >= 84 && marked && port != 0 && !(1 <= len <= 32 && plain) ==> result
                == Err::<AnnouncementView, _>(DiscoveryError::InvalidHostname)
            &&& data.len() >= 84 && marked && port != 0 && 1 <= len <= 32 && plain ==> {
                &&& result is Ok
                &&& result->Ok_0.version_major == data[4]
                &&& result->Ok_0.version_minor == data[5]
                &&& result->Ok_0.flags.spec_bits() == 256 * data[6] + data[7]
                &&& result->Ok_0.device_id == data.subrange(8, 24)
                &&& result->Ok_0.control_port == port
                &&& result->Ok_0.boot_id == 0x1_0000_0000 * (0x100_0000 * data[28] + 0x1_0000
                    * data[29] + 256 * data[30] + data[31]) + 0x100_0000 * data[32] + 0x1_0000
                    * data[33] + 256 * data[34] + data[35]
                &&& result->Ok_0.capability_bits == 0x1_0000_0000 * (0x100_0000 * data[36]
                    + 0x1_0000 * data[37] + 256 * data[38] + data[39]) + 0x100_0000 * data[40]
                    + 0x1_0000 * data[41] + 256 * data[42] + data[43]
                &&& result->Ok_0.hostname.len() == len
                &&& 0 <= i < len ==> result->Ok_0.hostname[i] as int == data[44 + i]
            }
        }),
{
    broadcast use DiscoveryFlags::lemma_bits;

    if data.len() >= 84 {
        crate::bytes::law_fields_are_big_endian(data, 0);
        crate::bytes::law_fields_are_big_endian(data, 6);
        crate::bytes::law_fields_are_big_endian(data, 24);
        crate::bytes::law_fields_are_big_endian(data, 28);
        crate::bytes::law_fields_are_big_endian(data, 32);
        crate::bytes::law_fields_are_big_endian(data, 36);
        crate::bytes::law_fields_are_big_endian(data, 40);
        let len = data[26] as int;
        if len <= 32 {
            let name = data.subrange(44, 44 + len);
            let plain = forall|k: int| 44 <= k < 44 + len ==> #[trigger] data[k] < 128;
            if plain {
                assert forall|k: int| 0 <= k < name.len() implies #[trigger] name[k] < 128 by {
                    assert(data[44 + k] < 128);
                }
            } else {
                let k = choose|k: int| 44 <= k < 44 + len && #[trigger] data[k] >= 128;
                assert(name[k - 44] >= 128);
            }
        }
    }
}

/// An announcement can be sent if and only if it has a port and a host name; the fault is told.
pub proof fn law_sendable_announcements(announcement: AnnouncementView)
    ensures
        announcement.control_port == 0 ==> announcement.spec_validate() == Err::<(), _>(
            DiscoveryError::InvalidPort,
        ),
        announcement.control_port != 0 && announcement.hostname.len() == 0
            ==> announcement.spec_validate() == Err::<(), _>(DiscoveryError::InvalidHostname),
        announcement.control_port != 0 && announcement.hostname.len() > 32
            ==> announcement.spec_validate() == Err::<(), _>(DiscoveryError::InvalidHostname),
        announcement.control_port != 0 && 1 <= announcement.hostname.len() <= 32
            && vstd::utf8::is_ascii_chars(announcement.hostname) ==> announcement.spec_validate()
            is Ok,
        !vstd::utf8::is_ascii_chars(announcement.hostname) ==> announcement.spec_validate() is Err,
{
    if vstd::utf8::is_ascii_chars(announcement.hostname) {
        vstd::utf8::is_ascii_chars_encode_utf8(announcement.hostname);
    }
}

/// A device is known from its announcement on, under its own number, with what it announced and
/// where it came from, and no other device is touched.
pub proof fn law_observation_touches_one_device(
    registry: RegistryView,
    now_us: u64,
    source_ip: IpAddress,
    announcement: DiscoveryAnnouncement,
    other: DeviceId,
)
    requires
        other != announcement.device_id,
    ensures
        ({
            let id = announcement.device_id;
            let after = registry.spec_observed(now_us, source_ip, announcement);
            &&& after.devices.contains_key(id)
            &&& after.devices[id].announcement == announcement
            &&& after.devices[id].source_ip == source_ip
            &&& after.devices[id].last_seen_us == now_us
            &&& !registry.devices.contains_key(id) ==> after.devices[id].first_seen_us == now_us
                && registry.spec_event(announcement) == DiscoveryEvent::Added(id)
            &&& after.devices.contains_key(other) == registry.devices.contains_key(other)
            &&& registry.devices.contains_key(other) ==> after.devices[other]
                == registry.devices[other]
            &&& after.expiry_us == registry.expiry_us
        }),
{
}

/// A device is forgotten if and only if it was silent for longer than the limit; the others stay
/// as they are.
pub proof fn law_only_silent_devices_are_forgotten(
    registry: RegistryView,
    now_us: u64,
    id: DeviceId,
)
    ensures
        ({
            let after = registry.spec_after_expiry(now_us);
            let silent = now_us - registry.devices[id].last_seen_us > registry.expiry_us;
            &&& registry.devices.contains_key(id) && !silent ==> after.devices.contains_key(id)
                && after.devices[id] == registry.devices[id] && !registry.spec_expired(
                now_us,
            ).contains(id)
            &&& registry.devices.contains_key(id) && silent ==> !after.devices.contains_key(id)
                && registry.spec_expired(now_us).contains(id)
            &&& !registry.devices.contains_key(id) ==> !after.devices.contains_key(id)
                && !registry.spec_expired(now_us).contains(id)
            &&& after.expiry_us == registry.expiry_us
        }),
{
}

/// The first announcement is due at once, and the next one as soon as the interval is over. Asking
/// earlier delays nothing.
pub proof fn law_announcements_come_when_due(pacer: AnnouncementPacerView, now_us: u64, next_us: u64)
    ensures
        pacer.next_due_us is None ==> pacer.spec_due(now_us),
        pacer.spec_due(now_us) && next_us >= now_us + pacer.interval_us ==> pacer.spec_asked(
            now_us,
        ).spec_due(next_us),
        !pacer.spec_due(now_us) ==> pacer.spec_asked(now_us) == pacer,
        pacer.spec_asked(now_us).interval_us == pacer.interval_us,
{
}

} // verus!
