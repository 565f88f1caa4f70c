use lanscanner::neighbor::{
    is_unusable_neighbor_state, normalize_neighbor_mac, parse_macos_arp_row,
    parse_native_helper_interface_row, parse_native_helper_row, parse_unix_neighbor_row,
    parse_windows_neighbor_row, trim_neighbor_hostname, InterfaceType,
};

#[test]
fn mac_addresses_take_canonical_form_whatever_the_separators() {
    assert_eq!(
        normalize_neighbor_mac("b8-27-eb-11-22-33").as_deref(),
        Some("B8:27:EB:11:22:33")
    );
    assert_eq!(
        normalize_neighbor_mac("b827.eb11.2233").as_deref(),
        Some("B8:27:EB:11:22:33")
    );
    assert_eq!(normalize_neighbor_mac("11:22:33:44:55"), None);
    assert_eq!(normalize_neighbor_mac("(incomplete)"), None);
    assert_eq!(normalize_neighbor_mac("11:22:33:44:55:66:77"), None);
}

#[test]
fn normalizing_a_canonical_mac_changes_nothing() {
    let once = normalize_neighbor_mac("aa-bb-cc-0d-0e-0f").unwrap();
    assert_eq!(once, "AA:BB:CC:0D:0E:0F");
    assert_eq!(normalize_neighbor_mac(&once).as_deref(), Some(once.as_str()));
}

#[test]
fn host_names_lose_question_marks_quotes_and_blanks() {
    assert_eq!(
        trim_neighbor_hostname("  ?\"raspi.local\"? ").as_deref(),
        Some("raspi.local")
    );
    assert_eq!(trim_neighbor_hostname("?"), None);
    assert_eq!(trim_neighbor_hostname("bad\u{7}name"), None);
}

#[test]
fn neighbor_states_that_rule_rows_out() {
    assert!(is_unusable_neighbor_state("Unreachable"));
    assert!(is_unusable_neighbor_state(" INCOMPLETE "));
    assert!(is_unusable_neighbor_state("failed"));
    assert!(!is_unusable_neighbor_state("Reachable"));
    assert!(!is_unusable_neighbor_state("Stale"));
    assert!(!is_unusable_neighbor_state("   "));
}

#[test]
fn windows_rows_keep_usable_addresses_with_a_mac() {
    let row = parse_windows_neighbor_row("192.168.1.20|AA-BB-CC-DD-EE-FF|Reachable").unwrap();
    assert_eq!(row.ip, "192.168.1.20");
    assert_eq!(row.evidence.mac_address.as_deref(), Some("AA:BB:CC:DD:EE:FF"));
    assert_eq!(row.evidence.hostname, None);

    assert!(parse_windows_neighbor_row("192.168.1.21|00-11-22-33-44-55|Unreachable").is_none());
    assert!(parse_windows_neighbor_row("127.0.0.1|aa-bb-cc-dd-ee-ff|Permanent").is_none());
    assert!(parse_windows_neighbor_row("169.254.3.4|aa-bb-cc-dd-ee-ff|Permanent").is_none());
    assert!(parse_windows_neighbor_row("192.168.1.22||Stale").is_none());
    assert!(parse_windows_neighbor_row("192.168.1.23|aa-bb-cc-dd-ee-ff").is_some());
}

#[test]
fn linux_rows_take_the_mac_after_lladdr() {
    let row =
        parse_unix_neighbor_row("192.168.1.5 dev eth0 lladdr aa:bb:cc:dd:ee:ff REACHABLE").unwrap();
    assert_eq!(row.ip, "192.168.1.5");
    assert_eq!(row.evidence.mac_address.as_deref(), Some("AA:BB:CC:DD:EE:FF"));

    let upper = parse_unix_neighbor_row("192.168.1.10 dev eth0 LLADDR AA:BB:CC:DD:EE:01 router STALE");
    assert_eq!(
        upper.unwrap().evidence.mac_address.as_deref(),
        Some("AA:BB:CC:DD:EE:01")
    );

    assert!(parse_unix_neighbor_row("192.168.1.6 dev eth0  FAILED").is_none());
    assert!(parse_unix_neighbor_row("192.168.1.7 dev eth0 lladdr aa:bb:cc:dd:ee:ff incomplete").is_none());
    assert!(parse_unix_neighbor_row("192.168.1.8 dev eth0 INCOMPLETE").is_none());
    assert!(parse_unix_neighbor_row("fe80::1 dev eth0 lladdr aa:bb:cc:dd:ee:ff").is_none());
    assert!(parse_unix_neighbor_row("192.168.1.9 dev eth0 lladdr").is_none());
    assert!(parse_unix_neighbor_row("").is_none());
}

#[test]
fn arp_rows_read_address_mac_and_host_name() {
    let row = parse_macos_arp_row("raspi.local (192.168.1.30) at b8:27:eb:01:02:03 on en0 ifscope [ethernet]")
        .unwrap();
    assert_eq!(row.ip, "192.168.1.30");
    assert_eq!(row.evidence.mac_address.as_deref(), Some("B8:27:EB:01:02:03"));
    assert_eq!(row.evidence.hostname.as_deref(), Some("raspi.local"));
    assert_eq!(row.evidence.mdns_name.as_deref(), Some("raspi.local"));

    let unnamed = parse_macos_arp_row("? (192.168.1.31) at aa:bb:cc:dd:ee:ff [ether] on eth0").unwrap();
    assert_eq!(unnamed.evidence.hostname, None);
    assert_eq!(unnamed.evidence.mdns_name, None);

    let plain = parse_macos_arp_row("nas (192.168.1.34) at aa:bb:cc:dd:ee:01 on en0").unwrap();
    assert_eq!(plain.evidence.hostname.as_deref(), Some("nas"));
    assert_eq!(plain.evidence.mdns_name, None);

    assert!(parse_macos_arp_row("host (192.168.1.32) at (incomplete) on en0").is_none());
    assert!(parse_macos_arp_row("host 192.168.1.33 at aa:bb:cc:dd:ee:ff").is_none());
    assert!(parse_macos_arp_row("host (0.0.0.0) at aa:bb:cc:dd:ee:ff").is_none());
}

#[test]
fn helper_rows_skip_placeholder_labels() {
    let row = parse_native_helper_row("192.168.1.40|aa:bb:cc:dd:ee:ff|-|<nil>").unwrap();
    assert_eq!(row.evidence.hostname, None);
    assert_eq!(row.evidence.mdns_name, None);

    let fallback = parse_native_helper_row("192.168.1.41|aa:bb:cc:dd:ee:ff||printer.local").unwrap();
    assert_eq!(fallback.evidence.hostname.as_deref(), Some("printer.local"));
    assert_eq!(fallback.evidence.mdns_name.as_deref(), Some("printer.local"));

    let lan = parse_native_helper_row("192.168.1.42|aa:bb:cc:dd:ee:ff|nas|nas.lan").unwrap();
    assert_eq!(lan.evidence.hostname.as_deref(), Some("nas"));
    assert_eq!(lan.evidence.mdns_name, None);

    assert!(parse_native_helper_row("192.168.1.43").is_none());
}

#[test]
fn helper_interface_rows_need_id_name_address_and_prefix() {
    let row = parse_native_helper_interface_row("en1|Ethernet|10.0.0.5|+8||ETHERNET").unwrap();
    assert_eq!(row.ip_range, "10.0.0.5/8");
    assert_eq!(row.iface_type, InterfaceType::Ethernet);

    let padded = parse_native_helper_interface_row("bridge0|Bridge|10.1.0.1|024||Docker").unwrap();
    assert_eq!(padded.ip_range, "10.1.0.1/24");
    assert_eq!(padded.iface_type, InterfaceType::Docker);

    let short = parse_native_helper_interface_row("en3|USB|172.17.0.1|16").unwrap();
    assert_eq!(short.iface_type, InterfaceType::Other);
    assert_eq!(short.ip_range, "172.17.0.1/16");

    assert!(parse_native_helper_interface_row("en2|USB|10.0.0.6|256|").is_none());
    assert!(parse_native_helper_interface_row("|name|10.0.0.1|24").is_none());
    assert!(parse_native_helper_interface_row("en4|name|10.0.0.1").is_none());
    assert!(parse_native_helper_interface_row("en5|name|10.0.0.1|-1").is_none());
}
