use lanscanner::connect::{
    docker_step_failure_message, rustdesk_launch_context, shell_launch_failure_message,
    tool_path_cancelled_message, unresolved_tool_path_message, ConnectFlow, Container,
    DockerAttachStep, DockerModalState, LaunchStep, PendingToolAction, ToolKind, ToolPathOutcome,
};
use lanscanner::labels::AppLanguage;
use lanscanner::scanner::{device_from_identity_evidence, DeviceStatus};
use lanscanner::notice::{
    build_launch_context, success_connect_notice, warning_connect_notice, NoticeTone,
    VncCredentialFieldSource, VncCredentialSource,
};

fn context(ip: &str) -> lanscanner::notice::LaunchContext {
    build_launch_context(AppLanguage::English, ip, Some(String::from("pi")), "secret", false, "", "")
        .unwrap()
}

fn container(id: &str, name: &str, running: bool) -> Container {
    Container {
        id: String::from(id),
        name: String::from(name),
        is_running: running,
    }
}

#[test]
fn a_found_tool_launches_and_the_result_ends_the_flow() {
    let mut flow = ConnectFlow::new();
    assert!(flow.accepts_connect_request());
    let action = PendingToolAction::Direct {
        tool: ToolKind::Mobaxterm,
        context: context("10.0.0.5"),
    };
    let step = flow.request_launch(action, AppLanguage::English, true, true, false);
    assert!(matches!(step, LaunchStep::Launch { tool: ToolKind::Mobaxterm }));
    assert!(flow.is_connecting);
    assert!(!flow.accepts_connect_request());
    assert_eq!(
        flow.connection_status.as_deref(),
        Some("Launching MobaXterm connection")
    );
    assert!(flow.pending_tool_action.is_some());

    let notice = flow.handle_connect_result(Ok(warning_connect_notice(String::from("check it"))));
    assert_eq!(notice.tone, NoticeTone::Warning);
    assert_eq!(notice.message, "check it");
    assert!(!flow.is_connecting);
    assert!(flow.connection_status.is_none());
    assert!(flow.pending_tool_action.is_none());
    assert!(flow.pending_docker_context.is_none());

    let mut failed = ConnectFlow::new();
    let notice = failed.handle_connect_result(Err(String::from("boom")));
    assert_eq!(notice.tone, NoticeTone::Error);
    assert_eq!(notice.message, "boom");
    let notice = failed.handle_connect_result(Ok(success_connect_notice(String::from("done"))));
    assert_eq!(notice.tone, NoticeTone::Success);
}

#[test]
fn a_missing_tool_is_asked_for_or_reported() {
    let mut flow = ConnectFlow::new();
    let action = PendingToolAction::Direct {
        tool: ToolKind::VncViewer,
        context: context("10.0.0.6"),
    };
    let step = flow.request_launch(action, AppLanguage::Chinese, false, true, false);
    assert!(matches!(step, LaunchStep::RequestToolPath { tool: ToolKind::VncViewer }));
    assert_eq!(flow.connection_status.as_deref(), Some("正在启动 VNC Viewer 连接"));

    let mut flow = ConnectFlow::new();
    let action = PendingToolAction::Direct {
        tool: ToolKind::Vscode,
        context: context("10.0.0.6"),
    };
    match flow.request_launch(action, AppLanguage::English, false, false, false) {
        LaunchStep::Unresolved { notice } => {
            assert_eq!(notice.tone, NoticeTone::Warning);
            assert_eq!(
                notice.message,
                "No path is configured for VS Code. Install the tool first or choose its executable manually."
            );
        }
        _ => panic!("expected an unresolved tool"),
    }
    assert!(!flow.is_connecting);
    assert!(flow.pending_tool_action.is_none());

    let mut checking = ConnectFlow::new();
    let action = PendingToolAction::Direct {
        tool: ToolKind::Vscode,
        context: context("10.0.0.6"),
    };
    assert!(matches!(
        checking.request_launch(action, AppLanguage::English, true, true, true),
        LaunchStep::Skipped
    ));
    assert!(!checking.is_connecting);
}

#[test]
fn a_picked_path_starts_the_waiting_action() {
    let mut flow = ConnectFlow::new();
    let action = PendingToolAction::Direct {
        tool: ToolKind::RustDesk,
        context: rustdesk_launch_context(String::from("10.0.0.7"), None),
    };
    flow.request_launch(action, AppLanguage::English, false, true, false);

    let step = flow.handle_tool_path_picked(
        AppLanguage::English,
        ToolKind::RustDesk,
        ToolPathOutcome::SaveFailed {
            error: String::from("disk full"),
        },
    );
    assert_eq!(step.launch, Some(ToolKind::RustDesk));
    let notice = step.notice.unwrap();
    assert_eq!(notice.tone, NoticeTone::Error);
    assert_eq!(notice.message, "Failed to save the path for RustDesk: disk full");
    assert!(flow.is_connecting);

    let step = flow.handle_tool_path_picked(AppLanguage::Chinese, ToolKind::RustDesk, ToolPathOutcome::Cancelled);
    assert_eq!(step.launch, None);
    assert_eq!(step.notice.unwrap().message, "已取消选择 RustDesk 路径");
    assert!(!flow.is_connecting);

    let mut idle = ConnectFlow::new();
    let step = idle.handle_tool_path_picked(AppLanguage::English, ToolKind::Vscode, ToolPathOutcome::Saved);
    assert_eq!(step.launch, None);
    assert!(step.notice.is_none());
}

#[test]
fn a_failed_pick_is_an_error_only_where_the_platform_can_ask() {
    let mut flow = ConnectFlow::new();
    let notice = flow.handle_tool_path_pick_failed(AppLanguage::English, ToolKind::Mobaxterm, "no dialog", true);
    assert_eq!(notice.tone, NoticeTone::Error);
    assert_eq!(notice.message, "Failed to choose the path for MobaXterm: no dialog");
    let notice = flow.handle_tool_path_pick_failed(AppLanguage::English, ToolKind::Mobaxterm, "no dialog", false);
    assert_eq!(notice.tone, NoticeTone::Warning);
    assert_eq!(notice.message, unresolved_tool_path_message(AppLanguage::English, ToolKind::Mobaxterm));
}

#[test]
fn containers_open_with_the_first_chosen_and_attach_copies_the_context() {
    let mut flow = ConnectFlow::new();
    flow.begin_docker_listing(AppLanguage::English, context("10.0.0.8"));
    assert_eq!(flow.connection_status.as_deref(), Some("Loading remote Docker containers"));
    let modal = flow
        .handle_docker_containers_loaded(vec![
            container("c1", "web", true),
            container("c2", "db", false),
        ])
        .unwrap();
    assert!(!flow.is_connecting);
    assert_eq!(modal.selected_container_id.as_deref(), Some("c1"));

    let chosen = DockerModalState {
        containers: modal.containers.clone(),
        selected_container_id: Some(String::from("c2")),
    };
    assert_eq!(chosen.selected_index(), Some(1));
    let step = flow
        .attach_selected_container(&chosen, AppLanguage::English, true, true, false)
        .unwrap();
    assert!(matches!(step, LaunchStep::Launch { tool: ToolKind::Vscode }));
    assert_eq!(flow.connection_status.as_deref(), Some("Preparing Docker container db"));
    assert!(flow.pending_docker_context.is_some());
    match &flow.pending_tool_action {
        Some(PendingToolAction::DockerAttach { context, container }) => {
            assert_eq!(context.device_ip, "10.0.0.8");
            assert_eq!(container.id, "c2");
        }
        _ => panic!("expected a docker attach"),
    }

    let missing = DockerModalState {
        containers: Vec::new(),
        selected_container_id: Some(String::from("c9")),
    };
    assert_eq!(missing.selected_index(), None);

    let mut without_context = ConnectFlow::new();
    assert!(without_context.handle_docker_containers_loaded(vec![container("c1", "web", true)]).is_none());
    assert!(without_context
        .attach_selected_container(&chosen, AppLanguage::English, true, true, false)
        .is_none());
}

#[test]
fn failures_of_listing_and_probing_end_their_part() {
    let mut flow = ConnectFlow::new();
    flow.begin_docker_listing(AppLanguage::English, context("10.0.0.9"));
    let notice = flow.handle_docker_containers_load_failed(String::from("ssh refused"));
    assert_eq!(notice.tone, NoticeTone::Error);
    assert_eq!(notice.message, "ssh refused");
    assert!(flow.pending_docker_context.is_none());

    let mut probing = ConnectFlow::new();
    probing.begin_rustdesk_probe(AppLanguage::English);
    assert_eq!(
        probing.connection_status.as_deref(),
        Some("Probing RustDesk Direct IP port 21118")
    );
    let notice = probing.handle_rustdesk_probe_failed(String::from("unreachable"));
    assert_eq!(notice.message, "unreachable");
    assert!(!probing.is_connecting);

    let mut shell = ConnectFlow::new();
    shell.begin_shell_launch(AppLanguage::Chinese);
    assert_eq!(shell.connection_status.as_deref(), Some("正在启动终端连接"));
}

#[test]
fn rustdesk_contexts_carry_only_the_password() {
    let with = rustdesk_launch_context(String::from("10.0.0.3"), Some(String::from("pw")));
    assert!(with.vnc_requested);
    assert_eq!(with.username, "");
    assert_eq!(with.vnc_password.as_deref(), Some("pw"));
    assert_eq!(with.vnc_password_source, VncCredentialFieldSource::Dedicated);
    assert_eq!(with.vnc_source, VncCredentialSource::Dedicated);
    let without = rustdesk_launch_context(String::from("10.0.0.3"), None);
    assert!(!without.vnc_requested);
    assert_eq!(without.vnc_source, VncCredentialSource::Unavailable);
}

#[test]
fn launch_step_messages_read_as_expected() {
    assert_eq!(
        shell_launch_failure_message(AppLanguage::English, "no terminal"),
        "Failed to launch shell connection: no terminal"
    );
    assert_eq!(
        docker_step_failure_message(AppLanguage::Chinese, DockerAttachStep::PrepareUri, "x"),
        "准备 Docker attach URI 失败: x"
    );
    assert_eq!(
        tool_path_cancelled_message(AppLanguage::English, ToolKind::VncViewer),
        "Cancelled selecting the path for VNC Viewer"
    );
    assert_eq!(ToolKind::RustDesk.label(), "RustDesk");
}

#[test]
fn the_detail_status_follows_the_launch_of_its_device() {
    let mut flow = ConnectFlow::new();
    let device = device_from_identity_evidence(String::from("10.0.0.4"), None);
    assert_eq!(flow.active_connection_device_ip(), None);
    assert_eq!(
        flow.device_detail_status(&device, AppLanguage::English),
        "Credentials have not been checked yet. Fill in the SSH username to auto-verify after the scan, or retry manually."
    );

    flow.begin_docker_listing(AppLanguage::English, context("10.0.0.4"));
    assert_eq!(flow.active_connection_device_ip(), Some("10.0.0.4"));
    assert_eq!(
        flow.device_detail_status(&device, AppLanguage::English),
        "Loading remote Docker containers"
    );
    flow.handle_docker_containers_loaded(Vec::new());
    assert_eq!(
        flow.device_detail_status(&device, AppLanguage::Chinese),
        "正在准备连接"
    );

    let mut ready = device_from_identity_evidence(String::from("10.0.0.5"), None);
    ready.status = DeviceStatus::Denied;
    assert_eq!(
        flow.device_detail_status(&ready, AppLanguage::Chinese),
        "检测结果为错误（用户名明显错误或认证失败）；仍可直接发起快速连接。"
    );
}
