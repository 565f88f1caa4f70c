use lanscanner::neighbor::{
    parse_native_helper_interface_row, parse_native_helper_row, InterfaceType,
};

#[test]
fn parses_native_helper_row_with_mdns_name() {
    let row = parse_native_helper_row("192.168.31.5|b8:27:eb:11:22:33|raspi|raspi.local")
        .expect("helper row should parse");

    assert_eq!(row.ip, "192.168.31.5");
    assert_eq!(
        row.evidence.mac_address.as_deref(),
        Some("B8:27:EB:11:22:33")
    );
    assert_eq!(row.evidence.hostname.as_deref(), Some("raspi"));
    assert_eq!(row.evidence.mdns_name.as_deref(), Some("raspi.local"));
}

#[test]
fn ignores_helper_rows_without_valid_mac() {
    assert!(parse_native_helper_row("192.168.31.5|(incomplete)|raspi|raspi.local").is_none());
}

#[test]
fn parses_native_helper_interface_row() {
    let row =
        parse_native_helper_interface_row("en0|Wi-Fi (en0)|192.168.31.10|24|AA:BB:CC:DD:EE:FF|wifi|1")
            .expect("interface row should parse");

    assert_eq!(row.id, "en0");
    assert_eq!(row.name, "Wi-Fi (en0)");
    assert_eq!(row.local_ip, "192.168.31.10");
    assert_eq!(row.ip_range, "192.168.31.10/24");
    assert_eq!(row.iface_type, InterfaceType::Wifi);
}
