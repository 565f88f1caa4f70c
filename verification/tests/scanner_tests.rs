use lanscanner::identity::{DeviceIdentityKind, NeighborEvidence};
use lanscanner::scanner::{
    build_layered_scan_devices, build_layered_scan_devices_from_probe_report,
    device_from_identity_evidence, devices_from_identity_evidence, devices_from_ips,
    sort_devices_by_ip, DeviceStatus, EvidenceByIp, SshPortProbeStatus, TcpProbeReport,
};

#[test]
fn devices_are_sorted_by_ipv4_value() {
    let devices = devices_from_ips(vec![
        String::from("192.168.31.100"),
        String::from("192.168.31.8"),
        String::from("192.168.31.44"),
    ]);
    let ordered: Vec<_> = devices.into_iter().map(|device| device.ip).collect();
    assert_eq!(
        ordered,
        vec!["192.168.31.8", "192.168.31.44", "192.168.31.100"]
    );
}

#[test]
fn unknown_name_is_not_inferred_from_ip_tail() {
    let devices = devices_from_ips(vec![String::from("192.168.31.12")]);
    assert_eq!(devices[0].name, "Unknown Device");
    assert_eq!(devices[0].identity_kind, DeviceIdentityKind::Unknown);
}

#[test]
fn single_device_builder_honors_unknown_fallback_without_evidence() {
    let device = device_from_identity_evidence(String::from("192.168.31.12"), None);
    assert_eq!(device.id, "192.168.31.12");
    assert_eq!(device.ip, "192.168.31.12");
    assert_eq!(device.name, "Unknown Device");
    assert_eq!(device.identity_kind, DeviceIdentityKind::Unknown);
    assert_eq!(device.status, DeviceStatus::Untested);
}

#[test]
fn sort_helper_keeps_ipv4_numeric_order() {
    let mut devices = vec![
        device_from_identity_evidence(String::from("192.168.31.100"), None),
        device_from_identity_evidence(String::from("192.168.31.8"), None),
        device_from_identity_evidence(String::from("192.168.31.44"), None),
    ];
    sort_devices_by_ip(&mut devices);
    let ordered: Vec<_> = devices.into_iter().map(|device| device.ip).collect();
    assert_eq!(
        ordered,
        vec!["192.168.31.8", "192.168.31.44", "192.168.31.100"]
    );
}

#[test]
fn device_payload_preserves_structured_identity_kind() {
    let mut evidence_by_ip = EvidenceByIp::new();
    evidence_by_ip.insert(
        String::from("192.168.31.8"),
        NeighborEvidence::new(Some(String::from("B8:27:EB:11:22:33")), None, None),
    );
    evidence_by_ip.insert(
        String::from("192.168.31.9"),
        NeighborEvidence::new(Some(String::from("00:04:4B:AA:BB:CC")), None, None),
    );

    let devices = devices_from_identity_evidence(
        vec![String::from("192.168.31.8"), String::from("192.168.31.9")],
        evidence_by_ip,
    );
    assert_eq!(devices[0].identity_kind, DeviceIdentityKind::RaspberryPi);
    assert_eq!(devices[1].identity_kind, DeviceIdentityKind::Jetson);
}

#[test]
fn layered_scan_devices_keep_online_and_ssh_views_split() {
    let mut evidence_by_ip = EvidenceByIp::new();
    evidence_by_ip.insert(
        String::from("192.168.31.44"),
        NeighborEvidence::new(Some(String::from("B8:27:EB:11:22:33")), None, None),
    );
    evidence_by_ip.insert(
        String::from("192.168.31.12"),
        NeighborEvidence::new(None, Some(String::from("desktop-lab")), None),
    );

    let layered = build_layered_scan_devices(
        vec![
            String::from("192.168.31.44"),
            String::from("192.168.31.12"),
            String::from("192.168.31.44"),
        ],
        vec![
            String::from("192.168.31.44"),
            String::from("192.168.31.200"),
        ],
        vec![String::from("192.168.31.12"), String::from("192.168.31.9")],
        evidence_by_ip,
    );

    let online_ips = layered
        .online_devices
        .iter()
        .map(|entry| entry.device.ip.as_str())
        .collect::<Vec<_>>();
    let probe_states = layered
        .online_devices
        .iter()
        .map(|entry| entry.ssh_port_status)
        .collect::<Vec<_>>();
    let ssh_ready_ips = layered
        .ssh_ready_devices
        .iter()
        .map(|device| device.ip.as_str())
        .collect::<Vec<_>>();

    assert_eq!(online_ips, vec!["192.168.31.12", "192.168.31.44"]);
    assert_eq!(
        probe_states,
        vec![SshPortProbeStatus::Closed, SshPortProbeStatus::Open]
    );
    assert_eq!(ssh_ready_ips, vec!["192.168.31.44"]);
}

#[test]
fn layered_scan_devices_mark_unprobed_online_hosts_as_unchecked() {
    let layered = build_layered_scan_devices(
        vec![String::from("192.168.31.12"), String::from("192.168.31.44")],
        vec![String::from("192.168.31.44")],
        Vec::new(),
        EvidenceByIp::new(),
    );

    let probe_states = layered
        .online_devices
        .iter()
        .map(|entry| (entry.device.ip.as_str(), entry.ssh_port_status))
        .collect::<Vec<_>>();

    assert_eq!(
        probe_states,
        vec![
            ("192.168.31.12", SshPortProbeStatus::Unchecked),
            ("192.168.31.44", SshPortProbeStatus::Open),
        ]
    );
}

#[test]
fn layered_scan_devices_from_probe_report_keeps_retry_exhausted_as_unchecked() {
    let probe_report = TcpProbeReport {
        candidate_hosts: vec![
            String::from("192.168.31.12"),
            String::from("192.168.31.44"),
            String::from("192.168.31.50"),
        ],
        open_hosts: vec![String::from("192.168.31.44")],
        closed_hosts: vec![String::from("192.168.31.12"), String::from("192.168.31.50")],
        retry_exhausted_hosts: vec![String::from("192.168.31.12")],
    };
    let layered = build_layered_scan_devices_from_probe_report(
        vec![
            String::from("192.168.31.44"),
            String::from("192.168.31.12"),
            String::from("192.168.31.50"),
        ],
        &probe_report,
        EvidenceByIp::new(),
    );
    let probe_states = layered
        .online_devices
        .iter()
        .map(|entry| (entry.device.ip.as_str(), entry.ssh_port_status))
        .collect::<Vec<_>>();

    assert_eq!(
        probe_states,
        vec![
            ("192.168.31.12", SshPortProbeStatus::Unchecked),
            ("192.168.31.44", SshPortProbeStatus::Open),
            ("192.168.31.50", SshPortProbeStatus::Closed),
        ]
    );
}
