use lanscanner::identity::{
    classify_device_identity_with_vendor_lookup, oui_prefix, DeviceIdentity, DeviceIdentityKind,
    DeviceType, NeighborEvidence,
};

fn lookup_vendor_name(prefix: [u8; 3]) -> Option<&'static str> {
    match prefix {
        [0xB8, 0x27, 0xEB] => Some("Raspberry Pi Trading Ltd"),
        [0xDC, 0xA6, 0x32] => Some("Raspberry Pi Trading Ltd"),
        [0x00, 0x04, 0x4B] => Some("NVIDIA CORPORATION"),
        [0x48, 0xB0, 0x2D] => Some("NVIDIA CORPORATION"),
        [0x10, 0x20, 0x30] => Some("NVIDIA CORPORATION"),
        [0xF0, 0x18, 0x98] => Some("Apple, Inc."),
        [0xA4, 0x5E, 0x60] => Some("Apple, Inc."),
        [0x00, 0x00, 0x1A] => Some("Advanced Micro Devices"),
        [0xAA, 0xBB, 0xCC] => Some("Acme Industrial Systems"),
        _ => None,
    }
}

fn classify_with_lookup(ip: &str, evidence: Option<&NeighborEvidence>) -> DeviceIdentity {
    classify_device_identity_with_vendor_lookup(ip, evidence, lookup_vendor_name)
}

#[test]
fn vendor_lookup_maps_multiple_prefixes_to_same_family() {
    let raspberry = [
        NeighborEvidence::new(Some(String::from("B8:27:EB:10:20:30")), None, None),
        NeighborEvidence::new(Some(String::from("DC:A6:32:10:20:30")), None, None),
    ];
    for evidence in raspberry {
        let identity = classify_with_lookup("192.168.31.8", Some(&evidence));
        assert_eq!(identity.kind, DeviceIdentityKind::RaspberryPi);
        assert_eq!(identity.display_name, "Raspberry Pi");
        assert_eq!(identity.device_type, DeviceType::Server);
    }

    let jetson = [
        NeighborEvidence::new(Some(String::from("00:04:4B:10:20:30")), None, None),
        NeighborEvidence::new(Some(String::from("48:B0:2D:10:20:30")), None, None),
    ];
    for evidence in jetson {
        let identity = classify_with_lookup("192.168.31.9", Some(&evidence));
        assert_eq!(identity.kind, DeviceIdentityKind::Jetson);
        assert_eq!(identity.display_name, "NVIDIA Jetson");
        assert_eq!(identity.device_type, DeviceType::Server);
    }

    let computer = [
        NeighborEvidence::new(Some(String::from("F0:18:98:10:20:30")), None, None),
        NeighborEvidence::new(Some(String::from("A4:5E:60:10:20:30")), None, None),
    ];
    for evidence in computer {
        let identity = classify_with_lookup("192.168.31.10", Some(&evidence));
        assert_eq!(identity.kind, DeviceIdentityKind::Computer);
        assert_eq!(identity.display_name, "Apple Mac");
        assert_eq!(identity.device_type, DeviceType::Desktop);
    }
}

#[test]
fn vendor_known_but_family_unmapped_falls_back_to_vendor_display() {
    let evidence = NeighborEvidence::new(Some(String::from("AA:BB:CC:10:20:30")), None, None);
    let identity = classify_with_lookup("192.168.31.19", Some(&evidence));
    assert_eq!(identity.kind, DeviceIdentityKind::Unknown);
    assert_eq!(identity.display_name, "Acme Industrial Systems");
    assert_eq!(identity.device_type, DeviceType::Desktop);
}

#[test]
fn unknown_oui_falls_back_to_unknown_device() {
    let evidence = NeighborEvidence::new(Some(String::from("DE:AD:BE:EF:01:02")), None, None);
    let identity = classify_with_lookup("192.168.31.12", Some(&evidence));
    assert_eq!(identity.kind, DeviceIdentityKind::Unknown);
    assert_eq!(identity.display_name, "Unknown Device");
}

#[test]
fn plain_nvidia_vendor_without_strong_board_signal_stays_unknown_safe() {
    let evidence = NeighborEvidence::new(Some(String::from("10:20:30:10:20:30")), None, None);
    let identity = classify_with_lookup("192.168.31.120", Some(&evidence));
    assert_eq!(identity.kind, DeviceIdentityKind::Unknown);
    assert_eq!(identity.display_name, "NVIDIA CORPORATION");
}

#[test]
fn board_label_beats_generic_vendor_oui_when_oui_is_not_board_strong() {
    let evidence = NeighborEvidence::new(
        Some(String::from("10:20:30:10:20:30")),
        Some(String::from("jetson-agx")),
        None,
    );
    let identity = classify_with_lookup("192.168.31.121", Some(&evidence));
    assert_eq!(identity.kind, DeviceIdentityKind::Jetson);
    assert_eq!(identity.display_name, "NVIDIA Jetson (jetson-agx)");
}

#[test]
fn mapped_vendor_oui_beats_conflicting_board_label() {
    let evidence = NeighborEvidence::new(
        Some(String::from("F0:18:98:10:20:30")),
        Some(String::from("jetson-agx")),
        None,
    );
    let identity = classify_with_lookup("192.168.31.122", Some(&evidence));
    assert_eq!(identity.kind, DeviceIdentityKind::Computer);
    assert_eq!(identity.display_name, "Apple Mac (jetson-agx)");
}

#[test]
fn amd_vendor_maps_to_computer_family() {
    let evidence = NeighborEvidence::new(Some(String::from("00:00:1A:10:20:30")), None, None);
    let identity = classify_with_lookup("192.168.31.123", Some(&evidence));
    assert_eq!(identity.kind, DeviceIdentityKind::Computer);
    assert_eq!(identity.display_name, "AMD Computer");
}

#[test]
fn strong_board_oui_remains_stronger_than_conflicting_weak_labels() {
    let evidence = NeighborEvidence::new(
        Some(String::from("B8:27:EB:10:20:30")),
        Some(String::from("rdk-workstation")),
        Some(String::from("rdk-x5.local")),
    );
    let identity = classify_with_lookup("192.168.31.88", Some(&evidence));
    assert_eq!(identity.kind, DeviceIdentityKind::RaspberryPi);
    assert_eq!(identity.display_name, "Raspberry Pi (rdk-x5.local)");
}

#[test]
fn weak_label_without_oui_only_upgrades_to_broad_computer_family() {
    let evidence = NeighborEvidence::new(None, Some(String::from("lab-workstation")), None);
    let identity = classify_with_lookup("192.168.31.53", Some(&evidence));
    assert_eq!(identity.kind, DeviceIdentityKind::Computer);
    assert_eq!(identity.display_name, "Computer (lab-workstation)");
}

#[test]
fn raspberry_label_upgrades_when_oui_absent() {
    let evidence = NeighborEvidence::new(None, Some(String::from("raspi5-devkit")), None);
    let identity = classify_with_lookup("192.168.31.87", Some(&evidence));
    assert_eq!(identity.kind, DeviceIdentityKind::RaspberryPi);
    assert_eq!(identity.display_name, "Raspberry Pi (raspi5-devkit)");
}

#[test]
fn jetson_board_label_beats_generic_platform_label_without_oui() {
    let evidence = NeighborEvidence::new(None, Some(String::from("jetson-workstation")), None);
    let identity = classify_with_lookup("192.168.31.86", Some(&evidence));
    assert_eq!(identity.kind, DeviceIdentityKind::Jetson);
    assert_eq!(identity.display_name, "NVIDIA Jetson (jetson-workstation)");
}

#[test]
fn conflicting_rdk_and_jetson_labels_prefer_unknown_first() {
    let evidence = NeighborEvidence::new(
        Some(String::from("de:ad:be:ef:01:02")),
        Some(String::from("jetson-agx")),
        Some(String::from("rdk-x5.local")),
    );
    let identity = classify_with_lookup("192.168.31.89", Some(&evidence));
    assert_eq!(identity.kind, DeviceIdentityKind::Unknown);
    assert_eq!(identity.display_name, "D-Robotics RDK (rdk-x5.local)");
}

#[test]
fn rdk_label_keeps_unknown_even_with_generic_computer_tokens() {
    let evidence = NeighborEvidence::new(None, Some(String::from("rdk-workstation")), None);
    let identity = classify_with_lookup("192.168.31.21", Some(&evidence));
    assert_eq!(identity.kind, DeviceIdentityKind::Unknown);
    assert_eq!(identity.display_name, "D-Robotics RDK (rdk-workstation)");
}

#[test]
fn generic_robotics_token_does_not_force_rdk_vendor_display() {
    let evidence =
        NeighborEvidence::new(None, Some(String::from("robotics-workstation")), None);
    let identity = classify_with_lookup("192.168.31.22", Some(&evidence));
    assert_eq!(identity.kind, DeviceIdentityKind::Computer);
    assert_eq!(identity.display_name, "Computer (robotics-workstation)");
}

#[test]
fn unknown_first_with_weak_label_only_improves_display_name() {
    let evidence = NeighborEvidence::new(None, Some(String::from("node-12")), None);
    let identity = classify_with_lookup("192.168.31.13", Some(&evidence));
    assert_eq!(identity.kind, DeviceIdentityKind::Unknown);
    assert_eq!(identity.display_name, "Unknown Device (node-12)");
}

#[test]
fn parses_dot_separated_mac_prefix() {
    assert_eq!(oui_prefix("0004.4b01.0203"), Some([0x00, 0x04, 0x4B]));
}

#[test]
fn macbook_label_is_classified_as_apple_mac() {
    let evidence = NeighborEvidence::new(None, Some(String::from("macbook-pro.local")), None);
    let identity = classify_with_lookup("192.168.31.50", Some(&evidence));
    assert_eq!(identity.kind, DeviceIdentityKind::Computer);
    assert_eq!(identity.display_name, "Apple Mac (macbook-pro.local)");
}

#[test]
fn windows_label_is_classified_as_windows_pc() {
    let evidence = NeighborEvidence::new(None, Some(String::from("win11-lab")), None);
    let identity = classify_with_lookup("192.168.31.51", Some(&evidence));
    assert_eq!(identity.kind, DeviceIdentityKind::Computer);
    assert_eq!(identity.display_name, "Windows PC (win11-lab)");
}

#[test]
fn linux_label_is_classified_as_linux_computer() {
    let evidence = NeighborEvidence::new(None, Some(String::from("ubuntu-devbox")), None);
    let identity = classify_with_lookup("192.168.31.52", Some(&evidence));
    assert_eq!(identity.kind, DeviceIdentityKind::Computer);
    assert_eq!(identity.display_name, "Linux Computer (ubuntu-devbox)");
}
