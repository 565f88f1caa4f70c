use lanscanner::identity::NeighborEvidence;
use lanscanner::labels::AppLanguage;
use lanscanner::scanner::{
    device_from_identity_evidence, DeviceStatus, EvidenceByIp, LayeredScanDevice,
    SshPortProbeStatus, TcpProbeReport,
};
use lanscanner::session::{
    merge_neighbor_evidence, verify_warning_message, IpSet, ScanFinishStep, ScanPhase,
    ScanResultFilter, ScanSession, VerifyCredentialInput,
};

fn entry(ip: &str, status: SshPortProbeStatus) -> LayeredScanDevice {
    LayeredScanDevice {
        device: device_from_identity_evidence(String::from(ip), None),
        ssh_port_status: status,
    }
}

fn username_only() -> VerifyCredentialInput {
    VerifyCredentialInput::UsernameOnly {
        username: String::from("pi"),
    }
}

#[test]
fn ip_sets_hold_each_address_once() {
    let mut set = IpSet::new();
    assert!(set.is_empty());
    assert!(set.insert(String::from("10.0.0.1")));
    assert!(!set.insert(String::from("10.0.0.1")));
    assert!(set.insert(String::from("10.0.0.2")));
    assert_eq!(set.len(), 2);
    assert!(set.contains("10.0.0.2"));
    assert!(set.remove("10.0.0.1"));
    assert!(!set.remove("10.0.0.1"));
    assert_eq!(set.len(), 1);
    set.clear();
    assert!(set.is_empty());
}

#[test]
fn a_scan_starts_a_new_session_with_empty_results() {
    let mut session = ScanSession::new();
    let input = username_only();
    assert_eq!(session.handle_start_scan(true, true, &input), None);
    assert_eq!(session.handle_start_scan(false, false, &input), None);
    assert_eq!(session.scan_session_id, 0);

    assert_eq!(session.handle_start_scan(false, true, &input), Some(1));
    assert!(session.status.is_scanning);
    assert_eq!(session.status.scan_phase, Some(ScanPhase::DiscoverOnline));
    assert_eq!(session.status.scan_progress, Some((0, 0)));
    assert!(session.status.scan_auto_verify_enabled);
    assert_eq!(session.results.scan_result_filter, ScanResultFilter::AllOnline);

    let mut password_only = ScanSession::new();
    password_only.handle_start_scan(false, true, &VerifyCredentialInput::PasswordOnly);
    assert!(!password_only.status.scan_auto_verify_enabled);
}

#[test]
fn reports_of_an_earlier_session_are_ignored() {
    let mut session = ScanSession::new();
    let input = username_only();
    let first = session.handle_start_scan(false, true, &input).unwrap();
    session.handle_cancel_scan();
    assert_ne!(session.scan_session_id, first);
    session.handle_scan_progress(first, 5, 10);
    assert_eq!(session.status.scan_progress, None);
    let queued = session.handle_scan_device_discovered(
        first,
        entry("192.168.1.20", SshPortProbeStatus::Open),
        false,
        &input,
        true,
    );
    assert!(queued.is_empty());
    assert!(session.results.online_devices.is_empty());
    assert!(matches!(session.handle_scan_finished(first, false, true), ScanFinishStep::Stale));
}

#[test]
fn discovered_open_hosts_are_verified_as_they_arrive() {
    let mut session = ScanSession::new();
    let input = username_only();
    let id = session.handle_start_scan(false, true, &input).unwrap();

    let queued = session.handle_scan_device_discovered(
        id,
        entry("192.168.1.20", SshPortProbeStatus::Open),
        false,
        &input,
        true,
    );
    assert_eq!(queued.len(), 1);
    assert!(session.status.has_scanned);
    assert!(session.verify.is_verifying);
    assert_eq!(session.verify.verify_enqueued_count, 1);
    assert_eq!(session.verify.verify_progress, Some((0, 1)));

    let again = session.handle_scan_device_discovered(
        id,
        entry("192.168.1.20", SshPortProbeStatus::Open),
        false,
        &input,
        true,
    );
    assert!(again.is_empty());
    assert_eq!(session.verify.verify_enqueued_count, 1);

    session.handle_verify_result(id, String::from("192.168.1.20"), DeviceStatus::Ready);
    assert_eq!(session.results.online_devices[0].device.status, DeviceStatus::Ready);
    assert_eq!(session.verify.verify_completed_count, 1);
    assert!(!session.verify.is_verifying);
    assert_eq!(session.verify.verify_progress, Some((1, 1)));
    assert!(session.verify.verified_ips.contains("192.168.1.20"));

    match session.handle_scan_finished(id, false, true) {
        ScanFinishStep::Done { missing_mac_ips } => {
            assert_eq!(missing_mac_ips, vec![String::from("192.168.1.20")]);
        }
        _ => panic!("the scan should be over"),
    }
    assert!(!session.status.is_scanning);
    assert_eq!(session.verify.verify_progress, None);

    let inserted = session
        .results
        .upsert_layered_scan_device(entry("192.168.1.20", SshPortProbeStatus::Open));
    assert!(!inserted);
    assert_eq!(session.results.online_devices[0].device.status, DeviceStatus::Ready);
}

#[test]
fn discovery_hands_over_to_the_ssh_probe() {
    let mut session = ScanSession::new();
    let input = VerifyCredentialInput::Empty;
    let id = session.handle_start_scan(false, true, &input).unwrap();
    session.handle_scan_device_discovered(
        id,
        entry("192.168.1.44", SshPortProbeStatus::Unchecked),
        false,
        &input,
        false,
    );
    session.handle_scan_device_discovered(
        id,
        entry("192.168.1.12", SshPortProbeStatus::Unchecked),
        false,
        &input,
        false,
    );
    let ips: Vec<_> = session
        .results
        .online_devices
        .iter()
        .map(|e| e.device.ip.clone())
        .collect();
    assert_eq!(ips, vec!["192.168.1.12", "192.168.1.44"]);

    match session.handle_scan_finished(id, false, true) {
        ScanFinishStep::ProbeSsh { pending_ips, .. } => {
            assert_eq!(pending_ips, vec!["192.168.1.12", "192.168.1.44"]);
        }
        _ => panic!("the SSH probe should start"),
    }
    assert_eq!(session.status.scan_phase, Some(ScanPhase::ProbeSsh));
    assert_eq!(session.status.scan_progress, Some((0, 2)));

    let report = TcpProbeReport {
        candidate_hosts: vec![String::from("192.168.1.12"), String::from("192.168.1.44")],
        open_hosts: vec![String::from("192.168.1.44")],
        closed_hosts: vec![String::from("192.168.1.12")],
        retry_exhausted_hosts: Vec::new(),
    };
    let queued = session.handle_scan_ssh_probe_finished(id, &report, false, &input, false);
    assert!(queued.is_empty());
    let states: Vec<_> = session
        .results
        .online_devices
        .iter()
        .map(|e| (e.device.ip.clone(), e.ssh_port_status))
        .collect();
    assert_eq!(
        states,
        vec![
            (String::from("192.168.1.12"), SshPortProbeStatus::Closed),
            (String::from("192.168.1.44"), SshPortProbeStatus::Open),
        ]
    );
    let ready = session.results.ssh_ready_devices();
    assert_eq!(ready.len(), 1);
    assert_eq!(ready[0].ip, "192.168.1.44");

    match session.handle_scan_finished(id, false, true) {
        ScanFinishStep::Done { .. } => {}
        _ => panic!("the scan should be over"),
    }
    assert!(session.can_start_verify(true));
    assert!(!session.can_start_verify(false));
}

#[test]
fn the_shown_list_follows_the_filter_and_the_selection() {
    let mut session = ScanSession::new();
    let input = VerifyCredentialInput::Empty;
    let id = session.handle_start_scan(false, true, &input).unwrap();
    session.handle_scan_device_discovered(id, entry("10.0.0.9", SshPortProbeStatus::Closed), false, &input, false);
    session.handle_scan_device_discovered(id, entry("10.0.0.10", SshPortProbeStatus::Open), false, &input, false);
    assert_eq!(session.results.devices.len(), 2);
    assert_eq!(session.results.devices[0].ip, "10.0.0.9");

    session.results.selected_device_id = Some(String::from("10.0.0.9"));
    session.results.scan_result_filter = ScanResultFilter::SshReady;
    session.results.rebuild_visible_devices_from_online();
    assert_eq!(session.results.devices.len(), 1);
    assert_eq!(session.results.devices[0].ip, "10.0.0.10");
    assert_eq!(session.results.selected_device_id, None);
}

#[test]
fn choosing_a_filter_rebuilds_only_when_it_changes() {
    let mut session = ScanSession::new();
    let input = VerifyCredentialInput::Empty;
    let id = session.handle_start_scan(false, true, &input).unwrap();
    session.handle_scan_device_discovered(id, entry("10.0.0.9", SshPortProbeStatus::Closed), false, &input, false);
    session.handle_scan_device_discovered(id, entry("10.0.0.10", SshPortProbeStatus::Open), false, &input, false);
    session.results.selected_device_id = Some(String::from("10.0.0.10"));

    session.results.select_scan_result_filter(ScanResultFilter::AllOnline);
    assert_eq!(session.results.devices.len(), 2);

    session.results.select_scan_result_filter(ScanResultFilter::SshReady);
    assert_eq!(session.results.scan_result_filter, ScanResultFilter::SshReady);
    assert_eq!(session.results.devices.len(), 1);
    assert_eq!(session.results.devices[0].ip, "10.0.0.10");
    assert_eq!(session.results.selected_device_id, Some(String::from("10.0.0.10")));

    session.results.select_scan_result_filter(ScanResultFilter::AllOnline);
    assert_eq!(session.results.devices.len(), 2);
    assert_eq!(session.results.devices[0].ip, "10.0.0.9");
}

#[test]
fn preparing_verification_resets_statuses_and_counts() {
    let mut session = ScanSession::new();
    let input = VerifyCredentialInput::Empty;
    let id = session.handle_start_scan(false, true, &input).unwrap();
    session.handle_scan_device_discovered(id, entry("10.0.0.2", SshPortProbeStatus::Open), false, &input, false);
    session.handle_scan_device_discovered(id, entry("10.0.0.3", SshPortProbeStatus::Closed), false, &input, false);
    session.results.update_device_status("10.0.0.2", DeviceStatus::Denied);
    assert_eq!(session.results.online_devices[0].device.status, DeviceStatus::Denied);

    let devices = session.start_verify_task();
    assert_eq!(devices.len(), 1);
    assert_eq!(devices[0].status, DeviceStatus::Denied);
    assert_eq!(session.results.online_devices[0].device.status, DeviceStatus::Untested);
    assert_eq!(session.verify.verify_enqueued_count, 1);
    assert!(session.verify.verify_inflight_ips.contains("10.0.0.2"));

    session.handle_verify_result(id, String::from("10.0.0.2"), DeviceStatus::Error);
    session.clear_verification_state_for_credential_change();
    assert_eq!(session.results.online_devices[0].device.status, DeviceStatus::Untested);
    assert_eq!(session.verify.verify_completed_count, 0);
}

#[test]
fn evidence_merges_fill_only_missing_fields() {
    let mut current = NeighborEvidence::new(None, Some(String::from("alpha")), None);
    let incoming = NeighborEvidence::new(
        Some(String::from("AA:BB:CC:DD:EE:FF")),
        Some(String::from("beta")),
        Some(String::from("alpha.local")),
    );
    merge_neighbor_evidence(&mut current, incoming.clone());
    assert_eq!(current.mac_address.as_deref(), Some("AA:BB:CC:DD:EE:FF"));
    assert_eq!(current.hostname.as_deref(), Some("alpha"));
    assert_eq!(current.mdns_name.as_deref(), Some("alpha.local"));
    let settled = current.clone();
    merge_neighbor_evidence(&mut current, incoming);
    assert_eq!(current, settled);
}

#[test]
fn online_evidence_refreshes_device_names() {
    let mut session = ScanSession::new();
    let input = VerifyCredentialInput::Empty;
    let id = session.handle_start_scan(false, true, &input).unwrap();
    session.handle_scan_device_discovered(id, entry("10.0.0.7", SshPortProbeStatus::Open), false, &input, false);
    session.results.update_device_status("10.0.0.7", DeviceStatus::Ready);
    let mut evidence = EvidenceByIp::new();
    evidence.insert(
        String::from("10.0.0.7"),
        NeighborEvidence::new(Some(String::from("B8:27:EB:00:00:07")), None, None),
    );
    session.handle_scan_online_dataset_ready(id, evidence);
    let device = &session.results.online_devices[0].device;
    assert_eq!(device.name, "Raspberry Pi");
    assert_eq!(device.status, DeviceStatus::Ready);
    assert!(session.results.missing_mac_candidate_ips().is_empty());
}

#[test]
fn verification_warnings_name_what_is_missing() {
    assert_eq!(
        verify_warning_message(AppLanguage::English, &VerifyCredentialInput::PasswordOnly),
        "Only an SSH password is filled in. Automatic verification does not run in password-only mode, so add an SSH username first."
    );
    assert_eq!(
        verify_warning_message(AppLanguage::English, &VerifyCredentialInput::Empty),
        "Enter an SSH username before starting credential verification."
    );
}
