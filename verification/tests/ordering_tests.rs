use std::cmp::Ordering;

use lanscanner::identity::{classify_device_identity, DeviceIdentityKind, NeighborEvidence};
use lanscanner::ipv4::is_valid_neighbor_ip;
use lanscanner::order::compare_ip_and_id;
use lanscanner::scanner::{
    compare_devices_by_ip, device_from_identity_evidence, prioritize_ready_devices,
    vendor_name_from_mac_address, DeviceStatus, EvidenceByIp,
};

#[test]
fn neighbor_addresses_exclude_special_blocks() {
    assert!(is_valid_neighbor_ip("192.168.31.8"));
    assert!(is_valid_neighbor_ip("10.0.0.255"));
    assert!(!is_valid_neighbor_ip("127.0.0.1"));
    assert!(!is_valid_neighbor_ip("169.254.10.2"));
    assert!(!is_valid_neighbor_ip("0.0.0.0"));
    assert!(!is_valid_neighbor_ip("192.168.031.8"));
    assert!(!is_valid_neighbor_ip("192.168.31"));
    assert!(!is_valid_neighbor_ip("192.168.31.256"));
    assert!(!is_valid_neighbor_ip("fe80::1"));
}

#[test]
fn addresses_order_by_value_then_by_text() {
    assert_eq!(
        compare_ip_and_id("192.168.31.8", "b", "192.168.31.44", "a"),
        Ordering::Less
    );
    assert_eq!(
        compare_ip_and_id("192.168.31.8", "b", "192.168.31.8", "a"),
        Ordering::Greater
    );
    assert_eq!(compare_ip_and_id("host-b", "x", "host-a", "x"), Ordering::Greater);
    assert_eq!(compare_ip_and_id("10.0.0.1", "10.0.0.1", "10.0.0.1", "10.0.0.1"), Ordering::Equal);
    let a = device_from_identity_evidence(String::from("10.0.0.2"), None);
    let b = device_from_identity_evidence(String::from("10.0.0.10"), None);
    assert_eq!(compare_devices_by_ip(&a, &b), Ordering::Less);
    assert_eq!(compare_devices_by_ip(&b, &a), Ordering::Greater);
}

#[test]
fn ready_devices_move_to_the_front_in_their_order() {
    let mut devices = vec![
        device_from_identity_evidence(String::from("10.0.0.1"), None),
        device_from_identity_evidence(String::from("10.0.0.2"), None),
        device_from_identity_evidence(String::from("10.0.0.3"), None),
        device_from_identity_evidence(String::from("10.0.0.4"), None),
    ];
    devices[1].status = DeviceStatus::Ready;
    devices[2].status = DeviceStatus::Denied;
    devices[3].status = DeviceStatus::Ready;
    prioritize_ready_devices(&mut devices);
    let ips: Vec<_> = devices.iter().map(|d| d.ip.as_str()).collect();
    assert_eq!(ips, vec!["10.0.0.2", "10.0.0.4", "10.0.0.1", "10.0.0.3"]);
}

#[test]
fn vendors_come_from_the_first_six_hex_digits() {
    assert_eq!(vendor_name_from_mac_address("b8:27:eb"), Some("Raspberry Pi Foundation"));
    assert_eq!(
        vendor_name_from_mac_address("DC-A6-32-00-11-22"),
        Some("Raspberry Pi Trading Ltd")
    );
    assert_eq!(vendor_name_from_mac_address("b8:27"), None);
    assert_eq!(vendor_name_from_mac_address("00:11:22:33:44:55"), None);
}

#[test]
fn evidence_maps_hold_one_entry_per_address() {
    let mut map = EvidenceByIp::new();
    assert_eq!(map.len(), 0);
    let first = map.insert(
        String::from("10.0.0.1"),
        NeighborEvidence::new(None, Some(String::from("one")), None),
    );
    assert!(first.is_none());
    let second = map.insert(
        String::from("10.0.0.1"),
        NeighborEvidence::new(None, Some(String::from("uno")), None),
    );
    assert_eq!(second.unwrap().hostname.as_deref(), Some("one"));
    assert_eq!(map.len(), 1);
    assert_eq!(map.get("10.0.0.1").unwrap().hostname.as_deref(), Some("uno"));
    assert!(map.get("10.0.0.2").is_none());
    let copy = map.duplicate();
    assert!(map.remove("10.0.0.1").is_some());
    assert_eq!(map.len(), 0);
    assert_eq!(copy.len(), 1);
}

#[test]
fn table_vendors_classify_board_families() {
    let evidence = NeighborEvidence::new(Some(String::from("b8:27:eb:00:00:01")), None, None);
    let identity = classify_device_identity("10.0.0.5", Some(&evidence));
    assert_eq!(identity.kind, DeviceIdentityKind::RaspberryPi);
    assert_eq!(identity.display_name, "Raspberry Pi");
    let unknown = classify_device_identity("10.0.0.6", None);
    assert_eq!(unknown.kind, DeviceIdentityKind::Unknown);
    assert_eq!(unknown.display_name, "Unknown Device");
}
