use lanscanner::device_list::{
    device_name_label, device_status_label, network_name_label, optional_columns, placeholder_copy,
    result_column_label, result_column_value, scanning_progress_description, PlaceholderState,
    ResultColumn, ResultColumnVisibility,
};
use lanscanner::dropdown::{
    detail_kind, dropdown_subject, footer_label, network_dropdown_toggle, option_visible_details,
    prefers_english_copy, starts_with_any, summarize_trigger_title, trim_prefix_case_insensitive,
    user_dropdown_toggle, DetailKind, DropdownPlaceholder, DropdownToggle, Glyph,
};
use lanscanner::identity::NeighborEvidence;
use lanscanner::labels::{localized, scan_button_text, AppLanguage};
use lanscanner::neighbor::{InterfaceType, NetworkInterface};
use lanscanner::networks::{classify_virtual_network, describe_network, describe_network_kind};
use lanscanner::notice::{
    auth_connect_notice_for_language, build_launch_context, compact_notice_message,
    mobaxterm_connect_notice_for_language, result_header_texts, rustdesk_probe_failure_message,
    summarize_vnc_source, truncate_header_text, ConnectNoticeTone, KeyReadySource,
    LaunchAuthOutcome, Notice, NoticeTone, VncCredentialFieldSource, VncCredentialSource,
};
use lanscanner::scanner::{device_from_identity_evidence, DeviceStatus};

#[test]
fn optional_columns_follow_their_switches() {
    let mut columns = ResultColumnVisibility::default();
    assert!(!columns.has_any_optional_column());
    assert!(optional_columns(columns).is_empty());
    columns.set_visible(ResultColumn::SmbDomain, true);
    columns.set_visible(ResultColumn::Vendor, true);
    assert!(columns.is_visible(ResultColumn::Vendor));
    assert!(!columns.is_visible(ResultColumn::Hostname));
    assert!(columns.has_any_optional_column());
    assert_eq!(
        optional_columns(columns),
        vec![ResultColumn::Vendor, ResultColumn::SmbDomain]
    );
    columns.set_visible(ResultColumn::Vendor, false);
    assert_eq!(optional_columns(columns), vec![ResultColumn::SmbDomain]);
}

#[test]
fn column_values_fall_back_to_a_dash() {
    let evidence = NeighborEvidence::new(
        Some(String::from("B8:27:EB:01:02:03")),
        Some(String::from("raspi")),
        None,
    );
    assert_eq!(result_column_value(ResultColumn::Vendor, Some(&evidence)), "Raspberry Pi Foundation");
    assert_eq!(result_column_value(ResultColumn::Hostname, Some(&evidence)), "raspi");
    assert_eq!(result_column_value(ResultColumn::MdnsName, Some(&evidence)), "-");
    assert_eq!(result_column_value(ResultColumn::MacAddress, None), "-");
    assert_eq!(result_column_label(ResultColumn::DnsName, AppLanguage::English), "DNS Name");
    assert_eq!(result_column_label(ResultColumn::SmbDomain, AppLanguage::Chinese), "SMB 域");
    assert_eq!(device_status_label(DeviceStatus::Denied, AppLanguage::English), "DENIED");
    assert_eq!(device_status_label(DeviceStatus::Ready, AppLanguage::Chinese), "就绪");
}

#[test]
fn device_names_drop_the_network_name_suffix() {
    let evidence = NeighborEvidence::new(None, Some(String::from("raspi.local")), None);
    let mut device = device_from_identity_evidence(String::from("10.0.0.4"), Some(&evidence));
    device.name = String::from("Raspberry Pi (raspi.local)");
    assert_eq!(network_name_label(Some(&evidence)).as_deref(), Some("raspi.local"));
    assert_eq!(device_name_label(&device, Some(&evidence), false), "Raspberry Pi");
    assert_eq!(device_name_label(&device, Some(&evidence), true), "[本机]");
    assert_eq!(device_name_label(&device, None, false), "Raspberry Pi (raspi.local)");
}

#[test]
fn empty_states_describe_what_the_list_waits_for() {
    assert_eq!(
        scanning_progress_description(AppLanguage::English, 3, 254),
        "Progress 3/254. Newly discovered devices will appear here as the scan continues."
    );
    assert_eq!(
        scanning_progress_description(AppLanguage::Chinese, 0, 10),
        "当前扫描进度 0/10，发现的设备会在这里逐步回到列表。"
    );
    assert!(placeholder_copy(&PlaceholderState::Idle, AppLanguage::English).is_none());
    let starting = placeholder_copy(
        &PlaceholderState::Scanning {
            spinner_frame: "|",
            progress: Some((0, 0)),
        },
        AppLanguage::English,
    )
    .unwrap();
    assert_eq!(starting.chip_label, "Scanning");
    assert_eq!(
        starting.description,
        "The scan has just started. Building the target list and waiting for the first results."
    );
    let running = placeholder_copy(
        &PlaceholderState::Scanning {
            spinner_frame: "|",
            progress: Some((7, 9)),
        },
        AppLanguage::English,
    )
    .unwrap();
    assert_eq!(
        running.description,
        "Progress 7/9. Newly discovered devices will appear here as the scan continues."
    );
    let empty = placeholder_copy(&PlaceholderState::EmptyResults, AppLanguage::Chinese).unwrap();
    assert_eq!(empty.title, "列表保持为空");
}

#[test]
fn header_text_is_cut_to_its_room() {
    assert_eq!(truncate_header_text("abcdefghij", 5), "ab...");
    assert_eq!(truncate_header_text("abc", 5), "abc");
    assert_eq!(truncate_header_text("abcdef", 2), "...");
    assert!(truncate_header_text("一二三四五六七八九十一二三四五六七八九十一二三四五六七八", 24).chars().count() <= 24);
    let blank = Notice {
        tone: NoticeTone::Warning,
        message: String::from("   "),
    };
    assert_eq!(compact_notice_message(&blank, AppLanguage::English), "Check the notice");
    let texts = result_header_texts(Some(&blank), Some("Scanning 10.0.0.0/24"), AppLanguage::Chinese);
    assert_eq!(texts, vec![String::from("Scanning 10.0.0.0/24"), String::from("请留意提示")]);
}

#[test]
fn launch_contexts_fall_back_to_ssh_credentials() {
    let missing = build_launch_context(AppLanguage::English, "10.0.0.2", None, "", false, "", "");
    assert_eq!(missing.unwrap_err(), "Enter an SSH username first");

    let context = build_launch_context(
        AppLanguage::English,
        "10.0.0.2",
        Some(String::from("pi")),
        "  ",
        true,
        "",
        "",
    )
    .unwrap();
    assert_eq!(context.password, None);
    assert_eq!(context.vnc_username.as_deref(), Some("pi"));
    assert_eq!(context.vnc_username_source, VncCredentialFieldSource::SshFallback);
    assert_eq!(context.vnc_password_source, VncCredentialFieldSource::Unavailable);
    assert_eq!(context.vnc_source, VncCredentialSource::SshFallback);
    assert_eq!(
        context.vnc_resolution_message_for_language(AppLanguage::English).as_deref(),
        Some("VNC username not provided separately; falling back to SSH username; No VNC password is currently available; enter it manually if authentication is required")
    );

    let dedicated = build_launch_context(
        AppLanguage::English,
        "10.0.0.2",
        Some(String::from("pi")),
        "secret",
        true,
        " viewer ",
        "",
    )
    .unwrap();
    assert_eq!(dedicated.vnc_username.as_deref(), Some("viewer"));
    assert_eq!(dedicated.vnc_password.as_deref(), Some("secret"));
    assert_eq!(dedicated.vnc_source, VncCredentialSource::Dedicated);
    assert_eq!(
        dedicated.vnc_resolution_message().as_deref(),
        Some("VNC 密码未单独填写，已回退 SSH 密码")
    );

    let no_vnc = build_launch_context(AppLanguage::English, "10.0.0.2", Some(String::from("pi")), "", false, "", "")
        .unwrap();
    assert_eq!(no_vnc.vnc_resolution_message_for_language(AppLanguage::English), None);
    assert_eq!(
        summarize_vnc_source(VncCredentialFieldSource::Unavailable, VncCredentialFieldSource::Unavailable),
        VncCredentialSource::Unavailable
    );
}

#[test]
fn connection_notices_match_how_authentication_went() {
    let fallback = LaunchAuthOutcome::PasswordFallback {
        reason: String::from("key rejected"),
    };
    let notice = auth_connect_notice_for_language(AppLanguage::English, "VS Code", &fallback);
    assert_eq!(notice.tone, ConnectNoticeTone::Warning);
    assert_eq!(
        notice.message,
        "Launched VS Code. Enter the password when prompted (key rejected)"
    );
    let installed = LaunchAuthOutcome::KeyReady {
        source: KeyReadySource::Installed,
    };
    let notice = auth_connect_notice_for_language(AppLanguage::Chinese, "VS Code", &installed);
    assert_eq!(notice.tone, ConnectNoticeTone::Success);
    assert_eq!(notice.message, "已完成免密准备并启动 VS Code");
    let moba = mobaxterm_connect_notice_for_language(AppLanguage::English, &installed);
    assert_eq!(moba.message, "Launched MobaXterm");
    assert_eq!(
        rustdesk_probe_failure_message(AppLanguage::English, "10.0.0.2", "timed out"),
        "RustDesk's default Direct IP port 21118 is unreachable at 10.0.0.2:21118 (timed out). Check whether RustDesk is installed on the target, whether the service is running, whether Direct IP is enabled, and whether a firewall is blocking port 21118. Non-default ports are not supported in the current version."
    );
}

#[test]
fn selector_copy_is_read_from_the_placeholder() {
    let english = DropdownPlaceholder {
        glyph: Glyph::Network,
        title: "Select Network...",
        subtitle: None,
    };
    assert_eq!(footer_label(english), "Add Network...");
    let chinese = DropdownPlaceholder {
        glyph: Glyph::KeyRound,
        title: "请选择用户",
        subtitle: None,
    };
    assert_eq!(footer_label(chinese), "添加用户...");
    let bare = DropdownPlaceholder {
        glyph: Glyph::KeyRound,
        title: "选择",
        subtitle: None,
    };
    assert_eq!(footer_label(bare), "添加选项...");
    assert_eq!(dropdown_subject("Select user..."), "user");
    assert!(prefers_english_copy("网卡 eth0"));
    assert!(!prefers_english_copy("网卡"));
    assert!(starts_with_any("SUBNET 10.0.0.0/8", &["subnet "]));
    assert_eq!(trim_prefix_case_insensitive("Interface   en0", &["interface"]), "en0");
    assert_eq!(trim_prefix_case_insensitive("eth0", &["interface"]), "eth0");
}

#[test]
fn option_details_show_kind_subnet_and_interface() {
    let details = vec![
        String::from("Subnet 192.168.1.0/24 · Wi-Fi"),
        String::from("Interface en0"),
    ];
    assert_eq!(detail_kind("  网段 10.0.0.0/8"), Some(DetailKind::Subnet));
    assert_eq!(detail_kind("subnetwork"), None);
    assert_eq!(detail_kind("Interface en0"), Some(DetailKind::Interface));
    assert_eq!(
        summarize_trigger_title("Wi-Fi", &details).as_deref(),
        Some("Wi-Fi (en0)")
    );
    assert_eq!(
        option_visible_details(&details),
        vec![String::from("192.168.1.0/24 · Wi-Fi"), String::from("en0")]
    );
    let untagged = vec![String::from(" admin "), String::from("second")];
    assert_eq!(option_visible_details(&untagged), vec![String::from("admin")]);
    assert_eq!(summarize_trigger_title("pi", &untagged).as_deref(), Some("pi (admin)"));
    let none: Vec<String> = Vec::new();
    assert!(option_visible_details(&none).is_empty());
    assert_eq!(summarize_trigger_title("pi", &none), None);
}

#[test]
fn selectors_toggle_only_when_idle() {
    assert_eq!(
        network_dropdown_toggle(true, false, false, false, false, false, false),
        Some(DropdownToggle::Open)
    );
    assert_eq!(
        network_dropdown_toggle(true, false, false, false, false, false, true),
        Some(DropdownToggle::Close)
    );
    assert_eq!(network_dropdown_toggle(true, true, false, false, false, false, false), None);
    assert_eq!(user_dropdown_toggle(false, false, false, false, false), None);
    assert_eq!(
        user_dropdown_toggle(true, false, false, false, true),
        Some(DropdownToggle::Close)
    );
}

fn interface(id: &str, name: &str, range: &str, kind: InterfaceType) -> NetworkInterface {
    NetworkInterface {
        id: String::from(id),
        name: String::from(name),
        ip_range: String::from(range),
        iface_type: kind,
        local_ip: String::from("10.0.0.1"),
    }
}

#[test]
fn networks_are_described_by_their_kind() {
    assert_eq!(
        classify_virtual_network("vethernet (wsl) eth0", AppLanguage::English),
        Some((Glyph::Docker, "Windows Virtual Adapter"))
    );
    assert_eq!(
        classify_virtual_network("utun3 utun3", AppLanguage::English),
        Some((Glyph::Network, "Tunnel Interface"))
    );
    assert_eq!(classify_virtual_network("wi-fi en0", AppLanguage::English), None);

    let wifi = interface("en0", "Wi-Fi", "192.168.1.0/24", InterfaceType::Wifi);
    assert_eq!(describe_network_kind(&wifi, AppLanguage::Chinese), (Glyph::Wifi, "Wi-Fi"));
    let docker = interface("docker0", "docker0", "172.17.0.0/16", InterfaceType::Docker);
    assert_eq!(
        describe_network_kind(&docker, AppLanguage::English),
        (Glyph::Docker, "Docker Virtual Adapter")
    );

    let first = interface("if1", "Ethernet 2", "10.0.0.0/24", InterfaceType::Other);
    let second = interface("if2", "Ethernet 2", "10.0.0.0/24", InterfaceType::Other);
    let all = vec![first.clone(), second.clone()];
    let entry = describe_network(&first, &all, AppLanguage::English);
    assert_eq!(entry.glyph, Glyph::Network);
    assert_eq!(entry.title, "Ethernet 2");
    assert_eq!(
        entry.details,
        vec![
            String::from("Subnet 10.0.0.0/24 · Network Interface"),
            String::from("Interface if1"),
        ]
    );
    let alone = describe_network(&wifi, &all, AppLanguage::Chinese);
    assert_eq!(alone.details, vec![String::from("网段 192.168.1.0/24 · Wi-Fi")]);
}

#[test]
fn labels_follow_the_interface_language() {
    assert_eq!(localized(AppLanguage::English, "中文", "English"), "English");
    assert_eq!(localized(AppLanguage::Chinese, "中文", "English"), "中文");
    assert_eq!(scan_button_text(AppLanguage::English, true, true), "Scanning...");
    assert_eq!(scan_button_text(AppLanguage::English, false, true), "Start Scan");
    assert_eq!(scan_button_text(AppLanguage::Chinese, false, false), "请选择网卡");
}
