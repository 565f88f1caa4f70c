use lanscanner::device_list::{detail_area, result_area, DetailArea, ResultArea};
use lanscanner::identity::NeighborEvidence;
use lanscanner::labels::{collapse_button_label, next_spinner_phase, spinner_frame, AppLanguage};
use lanscanner::notice::{should_dismiss_notice, Notice, NoticeTone};
use lanscanner::order::sort_by_ip;
use lanscanner::scanner::{device_from_identity_evidence, sort_devices_by_ip, LayeredScanDevice, SshPortProbeStatus};
use lanscanner::session::{ScanSession, VerifyCredentialInput};

fn named(ip: &str, name: &str) -> lanscanner::scanner::Device {
    let mut d = device_from_identity_evidence(String::from(ip), None);
    d.name = String::from(name);
    d
}

#[test]
fn devices_with_equal_keys_keep_their_order() {
    let mut devices = vec![
        named("10.0.0.9", "first"),
        named("10.0.0.2", "a"),
        named("10.0.0.9", "second"),
        named("10.0.0.9", "third"),
    ];
    sort_devices_by_ip(&mut devices);
    let names: Vec<&str> = devices.iter().map(|d| d.name.as_str()).collect();
    assert_eq!(names, vec!["a", "first", "second", "third"]);

    let mut texts = vec![String::from("b"), String::from("a"), String::from("b")];
    sort_by_ip(&mut texts);
    assert_eq!(texts, vec!["a", "b", "b"]);
}

#[test]
fn the_rebuilt_list_keeps_equal_devices_in_scan_order() {
    let mut session = ScanSession::new();
    let input = VerifyCredentialInput::Empty;
    let id = session.handle_start_scan(false, true, &input).unwrap();
    for name in ["one", "two"] {
        let mut device = device_from_identity_evidence(String::from("10.0.0.7"), Some(&NeighborEvidence::new(None, None, None)));
        device.name = String::from(name);
        session.results.online_devices.push(LayeredScanDevice {
            device,
            ssh_port_status: SshPortProbeStatus::Open,
        });
    }
    session.handle_scan_progress(id, 1, 2);
    session.results.rebuild_visible_devices_from_online();
    let names: Vec<&str> = session.results.devices.iter().map(|d| d.name.as_str()).collect();
    assert_eq!(names, vec!["one", "two"]);
}

#[test]
fn cancelling_a_scan_leaves_a_connection_alone() {
    let mut session = ScanSession::new();
    let input = VerifyCredentialInput::Empty;
    session.handle_start_scan(false, true, &input).unwrap();
    session.is_connecting = true;
    session.handle_cancel_scan();
    assert!(session.is_connecting);
    assert!(!session.status.is_scanning);
}

#[test]
fn the_result_area_follows_the_scan() {
    assert_eq!(result_area(true, false, false, true), ResultArea::Scanning);
    assert_eq!(result_area(true, true, true, false), ResultArea::DeviceTable);
    assert_eq!(result_area(false, false, true, false), ResultArea::EmptyResults);
    assert_eq!(result_area(false, false, false, true), ResultArea::RefreshingNetworks);
    assert_eq!(result_area(false, false, false, false), ResultArea::Idle);

    assert_eq!(detail_area(true, false, false, false, false), DetailArea::Scanning);
    assert_eq!(detail_area(false, false, false, true, false), DetailArea::RefreshingNetworks);
    assert_eq!(detail_area(false, false, false, false, false), DetailArea::Idle);
    assert_eq!(detail_area(false, false, true, true, false), DetailArea::EmptyResults);
    assert_eq!(detail_area(false, true, true, false, true), DetailArea::Selected);
    assert_eq!(detail_area(true, true, true, false, false), DetailArea::NoSelection);
}

#[test]
fn small_interface_steps() {
    assert_eq!(collapse_button_label(AppLanguage::Chinese, true), "展开");
    assert_eq!(collapse_button_label(AppLanguage::English, false), "Collapse");
    assert_eq!(next_spinner_phase(3), 4);
    assert_eq!(next_spinner_phase(11), 0);
    assert_eq!(spinner_frame(11), "11");
    assert_eq!(spinner_frame(25), "1");
    let notice = Notice {
        tone: NoticeTone::Success,
        message: String::from("done"),
    };
    assert!(should_dismiss_notice(Some(&notice), 4, 4));
    assert!(!should_dismiss_notice(Some(&notice), 3, 4));
    assert!(!should_dismiss_notice(None, 4, 4));
}
