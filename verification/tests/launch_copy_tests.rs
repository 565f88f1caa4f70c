use lanscanner::device_list::order_local_first;
use lanscanner::dropdown::{option_copy_details, trigger_copy_text};
use lanscanner::labels::AppLanguage;
use lanscanner::notice::{
    build_launch_context, docker_attach_action, notice_tone_label, progress_capsule_label,
    rustdesk_connect_notice, tool_launch_failure_message, vnc_viewer_connect_notice,
    ConnectNoticeTone, NoticeTone,
};
use lanscanner::scanner::device_from_identity_evidence;

#[test]
fn trigger_copy_summarizes_when_compact() {
    let details = vec![
        String::from("Subnet 192.168.1.0/24 · Wi-Fi"),
        String::from("Interface en0"),
    ];
    let (title, detail) = trigger_copy_text("Wi-Fi", &details, false);
    assert_eq!(title, "Wi-Fi");
    assert_eq!(
        detail.as_deref(),
        Some("Subnet 192.168.1.0/24 · Wi-Fi  ·  Interface en0")
    );
    let (compact_title, compact_detail) = trigger_copy_text("Wi-Fi", &details, true);
    assert_eq!(compact_title, "Wi-Fi (en0)");
    assert_eq!(compact_detail, None);
    let none: Vec<String> = Vec::new();
    assert_eq!(trigger_copy_text("pi", &none, true), (String::from("pi"), None));
    let many = vec![
        String::from("kind"),
        String::from("Subnet 10.0.0.0/8"),
        String::from("Interface eth0"),
    ];
    assert_eq!(
        option_copy_details(&many),
        vec![String::from("kind"), String::from("10.0.0.0/8")]
    );
}

#[test]
fn launch_notices_follow_the_outcome() {
    let complete = build_launch_context(
        AppLanguage::English,
        "10.0.0.2",
        Some(String::from("pi")),
        "pw",
        true,
        "viewer",
        "secret",
    )
    .unwrap();
    let fine = vnc_viewer_connect_notice(&complete, None, AppLanguage::English);
    assert_eq!(fine.tone, ConnectNoticeTone::Success);
    assert_eq!(fine.message, "Launched VNC Viewer");
    let warned = vnc_viewer_connect_notice(&complete, Some(String::from("clipboard")), AppLanguage::Chinese);
    assert_eq!(warned.tone, ConnectNoticeTone::Warning);
    assert_eq!(warned.message, "已启动 VNC Viewer，部分凭据需手动输入");
    let partial = build_launch_context(
        AppLanguage::English,
        "10.0.0.2",
        Some(String::from("pi")),
        "",
        true,
        "",
        "",
    )
    .unwrap();
    assert_eq!(
        vnc_viewer_connect_notice(&partial, None, AppLanguage::English).tone,
        ConnectNoticeTone::Warning
    );

    assert_eq!(rustdesk_connect_notice(true, AppLanguage::English).tone, ConnectNoticeTone::Success);
    assert_eq!(
        rustdesk_connect_notice(false, AppLanguage::English).message,
        "Launched RustDesk, but no connection password was provided. Enter it manually in the RustDesk client."
    );
    assert_eq!(
        tool_launch_failure_message(AppLanguage::English, "VS Code", "not found"),
        "Failed to launch VS Code: not found"
    );
    assert_eq!(
        tool_launch_failure_message(AppLanguage::Chinese, "MobaXterm", "拒绝访问"),
        "启动 MobaXterm 失败: 拒绝访问"
    );
    assert_eq!(
        docker_attach_action(AppLanguage::English, "web"),
        "VS Code Docker attach (web)"
    );
    assert_eq!(notice_tone_label(NoticeTone::Error, AppLanguage::English), "Error");
    assert_eq!(progress_capsule_label(AppLanguage::Chinese), "连接中");
}

#[test]
fn this_machine_is_listed_first() {
    let devices = vec![
        device_from_identity_evidence(String::from("10.0.0.1"), None),
        device_from_identity_evidence(String::from("10.0.0.2"), None),
        device_from_identity_evidence(String::from("10.0.0.3"), None),
    ];
    let ordered = order_local_first(&devices, Some("10.0.0.2"));
    let ips: Vec<_> = ordered.iter().map(|d| d.ip.as_str()).collect();
    assert_eq!(ips, vec!["10.0.0.2", "10.0.0.1", "10.0.0.3"]);
    let unchanged = order_local_first(&devices, None);
    let ips: Vec<_> = unchanged.iter().map(|d| d.ip.as_str()).collect();
    assert_eq!(ips, vec!["10.0.0.1", "10.0.0.2", "10.0.0.3"]);
}
