use classmesh::discovery::{
    AnnouncementPacer, DeviceId, DiscoveryAnnouncement, DiscoveryError, DiscoveryEvent,
    DiscoveryFlags, DiscoveryRegistry,
};
use classmesh::network::address::{IpAddress, Ipv4Address};

fn announcement(boot_id: u64) -> DiscoveryAnnouncement {
    DiscoveryAnnouncement {
        version_major: 0,
        version_minor: 1,
        flags: DiscoveryFlags::service_ready() | DiscoveryFlags::wired(),
        device_id: DeviceId([7; 16]),
        control_port: 44_443,
        boot_id,
        capability_bits: 5,
        hostname: "PC-07".into(),
    }
}

#[test]
fn announcement_round_trips_without_secrets() {
    let original = announcement(1);
    let encoded = original.encode().expect("announcement valid");
    let decoded = DiscoveryAnnouncement::decode(&encoded).expect("packet valid");
    assert_eq!(decoded, original);
}

#[test]
fn registry_detects_reboot_and_expiry() {
    let ip = IpAddress::V4(Ipv4Address::new(192, 168, 1, 7));
    let mut registry = DiscoveryRegistry::new(5_000_000);
    assert_eq!(registry.observe(0, ip, announcement(1)), DiscoveryEvent::Added(DeviceId([7; 16])));
    assert_eq!(registry.observe(1_000, ip, announcement(2)), DiscoveryEvent::Rebooted(DeviceId([7; 16])));
    assert!(registry.expire(5_000_000).is_empty());
    assert_eq!(registry.expire(5_002_000), vec![DiscoveryEvent::Expired(DeviceId([7; 16]))]);
}

#[test]
fn announcement_pacer_prevents_bursts() {
    let mut pacer = AnnouncementPacer::new(1_000_000);
    assert!(pacer.should_announce(0));
    assert!(!pacer.should_announce(10));
    assert!(pacer.should_announce(1_000_000));
}

#[test]
fn announcement_has_its_place_for_every_field() {
    let encoded = announcement(0x0102_0304_0506_0708)
        .encode()
        .expect("announcement valid");
    assert_eq!(encoded.len(), 84);
    assert_eq!(&encoded[..4], b"CMD1");
    assert_eq!(&encoded[4..8], &[0, 1, 0, 5]);
    assert_eq!(&encoded[8..24], &[7; 16]);
    assert_eq!(&encoded[24..28], &[0xad, 0x9b, 5, 0]);
    assert_eq!(&encoded[28..36], &[1, 2, 3, 4, 5, 6, 7, 8]);
    assert_eq!(&encoded[36..44], &[0, 0, 0, 0, 0, 0, 0, 5]);
    assert_eq!(&encoded[44..49], b"PC-07");
    assert_eq!(&encoded[49..], &[0; 35]);
}

#[test]
fn announcement_follows_bytes_that_follow_it() {
    let mut bytes = announcement(1).encode().expect("valid").to_vec();
    bytes.push(9);
    assert_eq!(DiscoveryAnnouncement::decode(&bytes), Ok(announcement(1)));
}

#[test]
fn announcement_errors_have_their_inputs() {
    let mut invalid = announcement(1);
    invalid.control_port = 0;
    invalid.hostname = String::new();
    assert_eq!(invalid.encode(), Err(DiscoveryError::InvalidPort));
    for name in ["", "PC-\u{e9}", "abcdefghijklmnopqrstuvwxyz-123456"] {
        let mut invalid = announcement(1);
        invalid.hostname = name.into();
        assert_eq!(invalid.encode(), Err(DiscoveryError::InvalidHostname));
    }
    let mut longest = announcement(1);
    longest.hostname = "a".repeat(32);
    let encoded = longest.encode().expect("32 bytes fit");
    assert_eq!(DiscoveryAnnouncement::decode(&encoded), Ok(longest));

    let valid = announcement(1).encode().expect("valid");
    assert_eq!(
        DiscoveryAnnouncement::decode(&valid[..83]),
        Err(DiscoveryError::Truncated)
    );
    let mut bytes = valid;
    bytes[0] = 0;
    assert_eq!(
        DiscoveryAnnouncement::decode(&bytes),
        Err(DiscoveryError::BadMagic)
    );
    let mut bytes = valid;
    bytes[24] = 0;
    bytes[25] = 0;
    assert_eq!(
        DiscoveryAnnouncement::decode(&bytes),
        Err(DiscoveryError::InvalidPort)
    );
    for (at, value) in [(26, 0), (26, 33), (44, 0x80), (45, 0xff)] {
        let mut bytes = valid;
        bytes[at] = value;
        assert_eq!(
            DiscoveryAnnouncement::decode(&bytes),
            Err(DiscoveryError::InvalidHostname)
        );
    }
}

#[test]
fn registry_keeps_what_was_seen() {
    let ip = IpAddress::V4(Ipv4Address::new(192, 168, 1, 7));
    let moved = IpAddress::V4(Ipv4Address::new(192, 168, 1, 8));
    let mut registry = DiscoveryRegistry::new(10);
    assert!(registry.is_empty());
    registry.observe(5, ip, announcement(1));
    assert_eq!(
        registry.observe(9, moved, announcement(1)),
        DiscoveryEvent::Updated(DeviceId([7; 16]))
    );
    let device = registry.get(DeviceId([7; 16])).expect("known");
    assert_eq!(device.first_seen_us, 5);
    assert_eq!(device.last_seen_us, 9);
    assert_eq!(device.source_ip, moved);
    assert_eq!(device.announcement, announcement(1));
    assert!(registry.get(DeviceId([8; 16])).is_none());
    assert_eq!(registry.len(), 1);
}

#[test]
fn expiry_is_told_in_the_order_of_identifiers() {
    let ip = IpAddress::V4(Ipv4Address::new(192, 168, 1, 7));
    let mut registry = DiscoveryRegistry::new(10);
    for id in [9, 3, 5] {
        let mut other = announcement(1);
        other.device_id = DeviceId([id; 16]);
        registry.observe(u64::from(id), ip, other);
    }
    assert_eq!(
        registry.expire(16),
        vec![
            DiscoveryEvent::Expired(DeviceId([3; 16])),
            DiscoveryEvent::Expired(DeviceId([5; 16]))
        ]
    );
    assert_eq!(registry.len(), 1);
    assert_eq!(
        registry.expire(20),
        vec![DiscoveryEvent::Expired(DeviceId([9; 16]))]
    );
    assert!(registry.is_empty());
}
