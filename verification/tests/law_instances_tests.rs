use lanscanner::identity::{
    classify_device_identity, classify_device_identity_from_vendor, DeviceIdentityKind,
    NeighborEvidence,
};
use lanscanner::scanner::{
    build_layered_scan_devices, device_from_identity_evidence, devices_from_ips, EvidenceByIp,
    LayeredScanDevice, SshPortProbeStatus,
};
use lanscanner::session::{ScanSession, VerifyCredentialInput};

#[test]
fn the_address_never_shows_in_a_named_identity() {
    let evidence = NeighborEvidence::new(None, Some(String::from("node-12")), None);
    let a = classify_device_identity("10.0.0.1", Some(&evidence));
    let b = classify_device_identity("192.168.9.9", Some(&evidence));
    assert_eq!(a.display_name, b.display_name);
    assert_eq!(a.display_name, "Unknown Device (node-12)");
    let bare_a = classify_device_identity("10.0.0.1", None);
    let bare_b = classify_device_identity("10.0.0.2", None);
    assert_eq!(bare_a.display_name, bare_b.display_name);
}

#[test]
fn an_unnamed_vendor_lets_the_address_show() {
    let evidence = NeighborEvidence::new(Some(String::from("12:34:56:78:9A:BC")), None, None);
    let identity = classify_device_identity_from_vendor("10.0.0.9", Some(&evidence), Some(""));
    assert_eq!(identity.kind, DeviceIdentityKind::Unknown);
    assert_eq!(identity.display_name, "Unknown Device (10.0.0.9)");
}

#[test]
fn any_input_order_gives_the_same_device_list() {
    let one = devices_from_ips(vec![
        String::from("10.0.0.30"),
        String::from("10.0.0.4"),
        String::from("10.0.0.200"),
        String::from("10.0.0.4"),
    ]);
    let two = devices_from_ips(vec![
        String::from("10.0.0.4"),
        String::from("10.0.0.200"),
        String::from("10.0.0.4"),
        String::from("10.0.0.30"),
    ]);
    let ips_one: Vec<_> = one.iter().map(|d| d.ip.clone()).collect();
    let ips_two: Vec<_> = two.iter().map(|d| d.ip.clone()).collect();
    assert_eq!(ips_one, ips_two);
    assert_eq!(ips_one, vec!["10.0.0.4", "10.0.0.4", "10.0.0.30", "10.0.0.200"]);
}

#[test]
fn ssh_ready_devices_are_the_open_online_ones_in_order() {
    let layered = build_layered_scan_devices(
        vec![
            String::from("10.0.0.9"),
            String::from("10.0.0.3"),
            String::from("10.0.0.12"),
        ],
        vec![
            String::from("10.0.0.12"),
            String::from("10.0.0.3"),
            String::from("10.0.0.99"),
        ],
        vec![String::from("10.0.0.9")],
        EvidenceByIp::new(),
    );
    let open: Vec<_> = layered
        .online_devices
        .iter()
        .filter(|e| e.ssh_port_status == SshPortProbeStatus::Open)
        .map(|e| e.device.ip.clone())
        .collect();
    let ready: Vec<_> = layered.ssh_ready_devices.iter().map(|d| d.ip.clone()).collect();
    assert_eq!(open, ready);
    assert_eq!(ready, vec!["10.0.0.3", "10.0.0.12"]);
}

#[test]
fn an_address_is_queued_for_verification_once() {
    let mut session = ScanSession::new();
    let input = VerifyCredentialInput::Empty;
    let id = session.handle_start_scan(false, true, &input).unwrap();
    session.handle_scan_device_discovered(
        id,
        LayeredScanDevice {
            device: device_from_identity_evidence(String::from("10.0.0.5"), None),
            ssh_port_status: SshPortProbeStatus::Open,
        },
        false,
        &input,
        false,
    );
    let batch = vec![
        device_from_identity_evidence(String::from("10.0.0.5"), None),
        device_from_identity_evidence(String::from("10.0.0.5"), None),
        device_from_identity_evidence(String::from("10.0.0.6"), None),
    ];
    let queued = session.enqueue_verify_devices(batch, false, true);
    assert_eq!(queued.len(), 1);
    assert_eq!(queued[0].ip, "10.0.0.5");
    assert_eq!(session.verify.verify_enqueued_count, 1);
    let none = session.enqueue_verify_devices(
        vec![device_from_identity_evidence(String::from("10.0.0.5"), None)],
        true,
        false,
    );
    assert!(none.is_empty());
}
