//! The course of a connection launch: which tool waits to be started, what
//! the status line says meanwhile, and the notice each outcome ends with.
//! Finding a tool on disk, asking the user for one, probing a port and
//! starting the tool are the caller's work; each step here says which of
//! them comes next.
use vstd::prelude::*;
use crate::identity::opt_string_view;
use crate::scanner::{Device, DeviceStatus};
use crate::labels::{pick, AppLanguage};
use crate::notice::{
    ConnectNotice, ConnectNoticeTone, LaunchContext, Notice, NoticeTone, VncCredentialFieldSource,
    VncCredentialSource, RUSTDESK_DIRECT_IP_PORT,
};
use crate::text::{concat_str, decimal_text, owned, usize_to_string};

verus! {

// ---------------------------------------------------------------------------
// Tools and pending actions
// ---------------------------------------------------------------------------

/// A desktop tool that a connection can be launched in.
#[derive(Debug, Clone, Copy, PartialEq, Eq, Structural)]
pub enum ToolKind {
    Vscode,
    Mobaxterm,
    VncViewer,
    RustDesk,
}

/// The name of a tool in messages.
pub open spec fn tool_name(tool: ToolKind) -> Seq<char> {
    match tool {
        ToolKind::Vscode => "VS Code"@,
        ToolKind::Mobaxterm => "MobaXterm"@,
        ToolKind::VncViewer => "VNC Viewer"@,
        ToolKind::RustDesk => "RustDesk"@,
    }
}

impl ToolKind {
    /// The name of the tool in messages.
    pub fn label(&self) -> (r: &'static str)
        ensures
            r@ == tool_name(*self),
    {
        match self {
            ToolKind::Vscode => "VS Code",
            ToolKind::Mobaxterm => "MobaXterm",
            ToolKind::VncViewer => "VNC Viewer",
            ToolKind::RustDesk => "RustDesk",
        }
    }
}

/// A container on the remote host that VS Code can attach to.
#[derive(Debug, Clone)]
pub struct Container {
    pub id: String,
    pub name: String,
    pub is_running: bool,
}

/// A launch that waits for its tool.
#[derive(Debug, Clone)]
pub enum PendingToolAction {
    Direct { tool: ToolKind, context: LaunchContext },
    DockerAttach { context: LaunchContext, container: Container },
}

/// The tool an action is started in; attaching to a container uses VS Code.
pub open spec fn action_tool(action: PendingToolAction) -> ToolKind {
    match action {
        PendingToolAction::Direct { tool, .. } => tool,
        PendingToolAction::DockerAttach { .. } => ToolKind::Vscode,
    }
}

/// The status line while an action starts.
pub open spec fn action_status_text(action: PendingToolAction, language: AppLanguage) -> Seq<char> {
    match action {
        PendingToolAction::Direct { tool, .. } => pick(
            language,
            "正在启动 "@ + tool_name(tool) + " 连接"@,
            "Launching "@ + tool_name(tool) + " connection"@,
        ),
        PendingToolAction::DockerAttach { container, .. } => pick(
            language,
            "正在准备 Docker 容器 "@ + container.name@,
            "Preparing Docker container "@ + container.name@,
        ),
    }
}

impl PendingToolAction {
    /// The tool the action is started in.
    pub fn tool_kind(&self) -> (r: ToolKind)
        ensures
            r == action_tool(*self),
    {
        match self {
            PendingToolAction::Direct { tool, .. } => *tool,
            PendingToolAction::DockerAttach { .. } => ToolKind::Vscode,
        }
    }

    /// The status line while the action starts, in Chinese.
    pub fn status_message(&self) -> (r: String)
        ensures
            r@ == action_status_text(*self, AppLanguage::Chinese),
    {
        self.status_message_for_language(AppLanguage::Chinese)
    }

    /// The status line while the action starts.
    pub fn status_message_for_language(&self, language: AppLanguage) -> (r: String)
        ensures
            r@ == action_status_text(*self, language),
    {
        match self {
            PendingToolAction::Direct { tool, .. } => {
                let (head, tail) = match language {
                    AppLanguage::Chinese => ("正在启动 ", " 连接"),
                    AppLanguage::English => ("Launching ", " connection"),
                };
                concat_str(concat_str(owned(head), tool.label()), tail)
            },
            PendingToolAction::DockerAttach { container, .. } => {
                let head = crate::labels::localized(
                    language,
                    "正在准备 Docker 容器 ",
                    "Preparing Docker container ",
                );
                concat_str(owned(head), container.name.as_str())
            },
        }
    }
}

// ---------------------------------------------------------------------------
// Messages about tool paths and launch steps
// ---------------------------------------------------------------------------

/// The error when the user cancelled choosing a tool.
pub open spec fn path_cancelled_text(language: AppLanguage, tool: ToolKind) -> Seq<char> {
    pick(
        language,
        "已取消选择 "@ + tool_name(tool) + " 路径"@,
        "Cancelled selecting the path for "@ + tool_name(tool),
    )
}

/// The error when the chosen path of a tool could not be saved.
pub open spec fn path_save_failed_text(language: AppLanguage, tool: ToolKind, error: Seq<char>) -> Seq<char> {
    pick(
        language,
        "保存 "@ + tool_name(tool) + " 路径失败: "@ + error,
        "Failed to save the path for "@ + tool_name(tool) + ": "@ + error,
    )
}

/// The error when choosing a tool failed.
pub open spec fn path_pick_failed_text(language: AppLanguage, tool: ToolKind, error: Seq<char>) -> Seq<char> {
    pick(
        language,
        "选择 "@ + tool_name(tool) + " 路径失败: "@ + error,
        "Failed to choose the path for "@ + tool_name(tool) + ": "@ + error,
    )
}

/// The warning when no path is known for a tool and none can be chosen.
pub open spec fn unresolved_path_text(language: AppLanguage, tool: ToolKind) -> Seq<char> {
    pick(
        language,
        "未找到 "@ + tool_name(tool) + " 路径。请先在系统中安装该工具，或手动选择其可执行文件。"@,
        "No path is configured for "@ + tool_name(tool)
            + ". Install the tool first or choose its executable manually."@,
    )
}

/// The error when the user cancelled choosing a tool.
pub fn tool_path_cancelled_message(language: AppLanguage, tool: ToolKind) -> (r: String)
    ensures
        r@ == path_cancelled_text(language, tool),
{
    match language {
        AppLanguage::Chinese => concat_str(concat_str(owned("已取消选择 "), tool.label()), " 路径"),
        AppLanguage::English => concat_str(owned("Cancelled selecting the path for "), tool.label()),
    }
}

/// The error when the chosen path of a tool could not be saved.
pub fn tool_path_save_failed_message(language: AppLanguage, tool: ToolKind, error: &str) -> (r: String)
    ensures
        r@ == path_save_failed_text(language, tool, error@),
{
    let (head, middle) = match language {
        AppLanguage::Chinese => ("保存 ", " 路径失败: "),
        AppLanguage::English => ("Failed to save the path for ", ": "),
    };
    concat_str(concat_str(concat_str(owned(head), tool.label()), middle), error)
}

/// The error when choosing a tool failed.
pub fn tool_path_pick_failed_message(language: AppLanguage, tool: ToolKind, error: &str) -> (r: String)
    ensures
        r@ == path_pick_failed_text(language, tool, error@),
{
    let (head, middle) = match language {
        AppLanguage::Chinese => ("选择 ", " 路径失败: "),
        AppLanguage::English => ("Failed to choose the path for ", ": "),
    };
    concat_str(concat_str(concat_str(owned(head), tool.label()), middle), error)
}

/// The warning when no path is known for a tool and none can be chosen.
pub fn unresolved_tool_path_message(language: AppLanguage, tool: ToolKind) -> (r: String)
    ensures
        r@ == unresolved_path_text(language, tool),
{
    let (head, tail) = match language {
        AppLanguage::Chinese => ("未找到 ", " 路径。请先在系统中安装该工具，或手动选择其可执行文件。"),
        AppLanguage::English => (
            "No path is configured for ",
            ". Install the tool first or choose its executable manually.",
        ),
    };
    concat_str(concat_str(owned(head), tool.label()), tail)
}

/// The error when the shell connection could not be started.
pub fn shell_launch_failure_message(language: AppLanguage, error: &str) -> (r: String)
    ensures
        r@ == pick(
            language,
            "终端连接启动失败: "@ + error@,
            "Failed to launch shell connection: "@ + error@,
        ),
{
    let head = crate::labels::localized(
        language,
        "终端连接启动失败: ",
        "Failed to launch shell connection: ",
    );
    concat_str(owned(head), error)
}

/// A step of attaching VS Code to a container that can fail.
#[derive(Debug, Clone, Copy, PartialEq, Eq, Structural)]
pub enum DockerAttachStep {
    StartContainer,
    PrepareUri,
    LaunchEditor,
}

/// The error when a step of attaching to a container failed.
pub open spec fn docker_step_failure_text(language: AppLanguage, step: DockerAttachStep, error: Seq<char>) -> Seq<char> {
    match step {
        DockerAttachStep::StartContainer => pick(
            language,
            "启动 Docker 容器失败: "@ + error,
            "Failed to start the Docker container: "@ + error,
        ),
        DockerAttachStep::PrepareUri => pick(
            language,
            "准备 Docker attach URI 失败: "@ + error,
            "Failed to prepare the Docker attach URI: "@ + error,
        ),
        DockerAttachStep::LaunchEditor => pick(
            language,
            "启动 VS Code Docker attach 失败: "@ + error,
            "Failed to launch VS Code Docker attach: "@ + error,
        ),
    }
}

/// The error when a step of attaching to a container failed.
pub fn docker_step_failure_message(language: AppLanguage, step: DockerAttachStep, error: &str) -> (r: String)
    ensures
        r@ == docker_step_failure_text(language, step, error@),
{
    let head = match step {
        DockerAttachStep::StartContainer => crate::labels::localized(
            language,
            "启动 Docker 容器失败: ",
            "Failed to start the Docker container: ",
        ),
        DockerAttachStep::PrepareUri => crate::labels::localized(
            language,
            "准备 Docker attach URI 失败: ",
            "Failed to prepare the Docker attach URI: ",
        ),
        DockerAttachStep::LaunchEditor => crate::labels::localized(
            language,
            "启动 VS Code Docker attach 失败: ",
            "Failed to launch VS Code Docker attach: ",
        ),
    };
    concat_str(owned(head), error)
}

// ---------------------------------------------------------------------------
// RustDesk
// ---------------------------------------------------------------------------

/// The context a RustDesk launch gets: no SSH user, and the connection
/// password, if any, as its only dedicated credential.
pub open spec fn is_rustdesk_context(c: LaunchContext, device_ip: Seq<char>, password: Option<Seq<char>>) -> bool {
    let has = password is Some;
    &&& c.device_ip@ == device_ip
    &&& c.username@ == Seq::<char>::empty()
    &&& c.password is None
    &&& c.vnc_requested == has
    &&& c.vnc_username is None
    &&& opt_string_view(c.vnc_password) == password
    &&& c.vnc_username_source == VncCredentialFieldSource::Unavailable
    &&& c.vnc_password_source == (if has {
        VncCredentialFieldSource::Dedicated
    } else {
        VncCredentialFieldSource::Unavailable
    })
    &&& c.vnc_source == (if has {
        VncCredentialSource::Dedicated
    } else {
        VncCredentialSource::Unavailable
    })
}

/// The context of a RustDesk launch to `device_ip`.
pub fn rustdesk_launch_context(device_ip: String, password: Option<String>) -> (r: LaunchContext)
    ensures
        is_rustdesk_context(r, device_ip@, opt_string_view(password)),
{
    let has_password = password.is_some();
    LaunchContext {
        device_ip,
        username: String::new(),
        password: None,
        vnc_requested: has_password,
        vnc_username: None,
        vnc_password: password,
        vnc_username_source: VncCredentialFieldSource::Unavailable,
        vnc_password_source: if has_password {
            VncCredentialFieldSource::Dedicated
        } else {
            VncCredentialFieldSource::Unavailable
        },
        vnc_source: if has_password {
            VncCredentialSource::Dedicated
        } else {
            VncCredentialSource::Unavailable
        },
    }
}

/// The status line while the RustDesk port of a device is probed.
pub open spec fn rustdesk_probe_status_text(language: AppLanguage) -> Seq<char> {
    pick(language, "正在探测 RustDesk Direct IP 端口"@, "Probing RustDesk Direct IP port"@) + " "@
        + decimal_text(RUSTDESK_DIRECT_IP_PORT as nat)
}

// ---------------------------------------------------------------------------
// Choosing a container
// ---------------------------------------------------------------------------

/// The containers offered for attaching and the one chosen.
#[derive(Debug, Clone)]
pub struct DockerModalState {
    pub containers: Vec<Container>,
    pub selected_container_id: Option<String>,
}

/// The index of the first container with the chosen id, if one is chosen
/// and listed.
pub open spec fn chosen_index(containers: Seq<Container>, selected: Option<Seq<char>>) -> Option<int> {
    match selected {
        Some(id) => if exists|k: int| 0 <= k < containers.len() && (#[trigger] containers[k]).id@ == id {
            Some(
                choose|k: int|
                    0 <= k < containers.len() && (#[trigger] containers[k]).id@ == id && forall|j: int|
                        0 <= j < k ==> (#[trigger] containers[j]).id@ != id,
            )
        } else {
            None
        },
        None => None,
    }
}

impl DockerModalState {
    /// The list a successful listing opens with: the first container is
    /// chosen, if there is one.
    pub fn new(containers: Vec<Container>) -> (r: Self)
        ensures
            r.containers@ == containers@,
            opt_string_view(r.selected_container_id) == (if containers@.len() > 0 {
                Some(containers@[0].id@)
            } else {
                None::<Seq<char>>
            }),
    {
        let selected_container_id = if containers.len() > 0 {
            Some(containers[0].id.clone())
        } else {
            None
        };
        DockerModalState { containers, selected_container_id }
    }

    /// The index of the chosen container: the first one listed with the
    /// chosen id.
    pub fn selected_index(&self) -> (r: Option<usize>)
        ensures
            r matches Some(i) ==> i < self.containers@.len(),
            match r {
                Some(i) => chosen_index(self.containers@, opt_string_view(self.selected_container_id))
                    == Some(i as int),
                None => chosen_index(self.containers@, opt_string_view(self.selected_container_id))
                    is None,
            },
    {
        let id = match &self.selected_container_id {
            Some(id) => id,
            None => return None,
        };
        let mut i: usize = 0;
        while i < self.containers.len()
            invariant
                i <= self.containers@.len(),
                opt_string_view(self.selected_container_id) == Some(id@),
                forall|j: int| 0 <= j < i ==> (#[trigger] self.containers@[j]).id@ != id@,
            decreases self.containers@.len() - i,
        {
            if self.containers[i].id == *id {
                proof {
                    let s = self.containers@;
                    let ii = i as int;
                    assert(s[ii].id@ == id@);
                    assert(0 <= ii < s.len() && (#[trigger] s[ii]).id@ == id@ && forall|j: int|
                        0 <= j < ii ==> (#[trigger] s[j]).id@ != id@);
                    let w = choose|k: int|
                        0 <= k < s.len() && (#[trigger] s[k]).id@ == id@ && forall|j: int|
                            0 <= j < k ==> (#[trigger] s[j]).id@ != id@;
                    assert(0 <= w < s.len() && s[w].id@ == id@);
                    if w < ii {
                        assert(s[w].id@ != id@);
                    }
                    if w > ii {
                        assert(s[ii].id@ != id@);
                    }
                    assert(w == ii);
                }
                return Some(i);
            }
            i = i + 1;
        }
        None
    }
}

// ---------------------------------------------------------------------------
// The flow
// ---------------------------------------------------------------------------

/// The state of connection launching.
pub struct ConnectFlow {
    pub is_connecting: bool,
    pub connection_status: Option<String>,
    pub pending_tool_action: Option<PendingToolAction>,
    pub pending_docker_context: Option<LaunchContext>,
}

/// No launch is under way and nothing waits.
pub open spec fn is_idle(f: ConnectFlow) -> bool {
    &&& !f.is_connecting
    &&& f.connection_status is None
    &&& f.pending_tool_action is None
    &&& f.pending_docker_context is None
}

/// What comes after a launch was requested.
#[derive(Debug, Clone)]
pub enum LaunchStep {
    /// Nothing happens: a visual check is running.
    Skipped,
    /// Start the pending action in the tool found for it.
    Launch { tool: ToolKind },
    /// Ask the user to choose the tool.
    RequestToolPath { tool: ToolKind },
    /// No tool can be found or chosen; show the notice.
    Unresolved { notice: Notice },
}

/// What became of a tool path the user was asked for.
#[derive(Debug, Clone)]
pub enum ToolPathOutcome {
    Cancelled,
    Saved,
    SaveFailed { error: String },
}

/// What comes after the user answered for a tool path.
#[derive(Debug, Clone)]
pub struct PathPickedStep {
    /// The tool to start the pending action in, if one waits.
    pub launch: Option<ToolKind>,
    /// The notice to show, if any.
    pub notice: Option<Notice>,
}

/// The notice for a launch result: its tone carried over, an error for a
/// failure.
pub open spec fn result_notice(n: Notice, result: Result<ConnectNotice, String>) -> bool {
    match result {
        Ok(c) => n.tone == (if c.tone == ConnectNoticeTone::Success {
            NoticeTone::Success
        } else {
            NoticeTone::Warning
        }) && n.message@ == c.message@,
        Err(e) => n.tone == NoticeTone::Error && n.message@ == e@,
    }
}

/// The context an action launches with.
pub open spec fn action_context(action: PendingToolAction) -> LaunchContext {
    match action {
        PendingToolAction::Direct { context, .. } => context,
        PendingToolAction::DockerAttach { context, .. } => context,
    }
}

/// The device a launch is under way for, if any.
pub open spec fn active_ip(f: ConnectFlow) -> Option<Seq<char>> {
    match f.pending_tool_action {
        Some(a) => Some(action_context(a).device_ip@),
        None => match f.pending_docker_context {
            Some(c) => Some(c.device_ip@),
            None => None,
        },
    }
}

/// What the detail view says of a device's state.
pub open spec fn detail_status_text(f: ConnectFlow, ip: Seq<char>, status: DeviceStatus, language: AppLanguage) -> Seq<char> {
    if active_ip(f) == Some(ip) {
        match f.connection_status {
            Some(s) => s@,
            None => pick(language, "正在准备连接"@, "Preparing connection"@),
        }
    } else {
        match status {
            DeviceStatus::Untested => pick(
                language,
                "凭据尚未检测；填写 SSH 用户名后，扫描结束会自动检测，也可手动重试。"@,
                "Credentials have not been checked yet. Fill in the SSH username to auto-verify after the scan, or retry manually."@,
            ),
            DeviceStatus::Ready => pick(
                language,
                "SSH 凭据检测成功；外部工具的免密前置会在启动连接时单独校验。"@,
                "SSH credentials are ready. External tools will still validate their own passwordless prerequisites when launching."@,
            ),
            DeviceStatus::Denied => pick(
                language,
                "检测结果为错误（用户名明显错误或认证失败）；仍可直接发起快速连接。"@,
                "Verification failed due to an invalid username or authentication error. You can still start a quick connection directly."@,
            ),
            DeviceStatus::Error => pick(
                language,
                "检测结果为异常（仅用户名或网络抖动时可能无法稳定判定）；仍可直接发起快速连接。"@,
                "Verification ended with an unstable result, often caused by username-only checks or network jitter. You can still start a quick connection directly."@,
            ),
        }
    }
}

/// A copy of an optional text.
fn copy_opt_string(o: &Option<String>) -> (r: Option<String>)
    ensures
        r == *o,
{
    match o {
        Some(s) => Some(s.clone()),
        None => None,
    }
}

/// A copy of a launch context.
pub fn copy_launch_context(c: &LaunchContext) -> (r: LaunchContext)
    ensures
        r == *c,
{
    LaunchContext {
        device_ip: c.device_ip.clone(),
        username: c.username.clone(),
        password: copy_opt_string(&c.password),
        vnc_requested: c.vnc_requested,
        vnc_username: copy_opt_string(&c.vnc_username),
        vnc_password: copy_opt_string(&c.vnc_password),
        vnc_username_source: c.vnc_username_source,
        vnc_password_source: c.vnc_password_source,
        vnc_source: c.vnc_source,
    }
}

/// A copy of a container.
pub fn copy_container(c: &Container) -> (r: Container)
    ensures
        r == *c,
{
    Container { id: c.id.clone(), name: c.name.clone(), is_running: c.is_running }
}

impl ConnectFlow {
    /// No launch under way.
    pub fn new() -> (r: Self)
        ensures
            is_idle(r),
    {
        ConnectFlow {
            is_connecting: false,
            connection_status: None,
            pending_tool_action: None,
            pending_docker_context: None,
        }
    }

    /// Whether a request to connect is taken: only while no launch is under
    /// way.
    pub fn accepts_connect_request(&self) -> (r: bool)
        ensures
            r == !self.is_connecting,
    {
        !self.is_connecting
    }

    /// Ends whatever was under way.
    fn finish(&mut self)
        ensures
            is_idle(*final(self)),
    {
        self.is_connecting = false;
        self.connection_status = None;
        self.pending_tool_action = None;
        self.pending_docker_context = None;
    }

    /// A shell connection starts: the status line says so.
    pub fn begin_shell_launch(&mut self, language: AppLanguage)
        ensures
            final(self).is_connecting,
            opt_string_view(final(self).connection_status) == Some(
                pick(language, "正在启动终端连接"@, "Launching shell connection"@),
            ),
            final(self).pending_tool_action == old(self).pending_tool_action,
            final(self).pending_docker_context == old(self).pending_docker_context,
    {
        self.is_connecting = true;
        self.connection_status = Some(
            crate::labels::localized_string(language, "正在启动终端连接", "Launching shell connection"),
        );
    }

    /// The RustDesk port of a device is probed: nothing else waits.
    pub fn begin_rustdesk_probe(&mut self, language: AppLanguage)
        ensures
            final(self).is_connecting,
            opt_string_view(final(self).connection_status) == Some(rustdesk_probe_status_text(language)),
            final(self).pending_tool_action is None,
            final(self).pending_docker_context is None,
    {
        self.pending_tool_action = None;
        self.pending_docker_context = None;
        self.is_connecting = true;
        let head = crate::labels::localized(
            language,
            "正在探测 RustDesk Direct IP 端口",
            "Probing RustDesk Direct IP port",
        );
        let port = usize_to_string(RUSTDESK_DIRECT_IP_PORT as usize);
        self.connection_status = Some(concat_str(concat_str(owned(head), " "), port.as_str()));
    }

    /// The containers of a device are listed; the context waits for the
    /// choice of one.
    pub fn begin_docker_listing(&mut self, language: AppLanguage, context: LaunchContext)
        ensures
            final(self).is_connecting,
            opt_string_view(final(self).connection_status) == Some(
                pick(language, "正在读取远程 Docker 容器列表"@, "Loading remote Docker containers"@),
            ),
            final(self).pending_tool_action == old(self).pending_tool_action,
            final(self).pending_docker_context == Some(context),
    {
        self.is_connecting = true;
        self.connection_status = Some(
            crate::labels::localized_string(
                language,
                "正在读取远程 Docker 容器列表",
                "Loading remote Docker containers",
            ),
        );
        self.pending_docker_context = Some(context);
    }

    /// A launch is requested. When a tool was found for it, it starts;
    /// else, where the platform can ask, it waits while the user is asked;
    /// else everything ends with a warning.
    pub fn request_launch(
        &mut self,
        action: PendingToolAction,
        language: AppLanguage,
        tool_path_found: bool,
        supports_picker: bool,
        visual_check_active: bool,
    ) -> (step: LaunchStep)
        ensures
            visual_check_active ==> step is Skipped && *final(self) == *old(self),
            !visual_check_active && (tool_path_found || supports_picker) ==> {
                &&& final(self).is_connecting
                &&& opt_string_view(final(self).connection_status) == Some(
                    action_status_text(action, language),
                )
                &&& final(self).pending_tool_action == Some(action)
                &&& final(self).pending_docker_context == old(self).pending_docker_context
                &&& tool_path_found ==> step == LaunchStep::Launch { tool: action_tool(action) }
                &&& !tool_path_found ==> step == LaunchStep::RequestToolPath {
                    tool: action_tool(action),
                }
            },
            !visual_check_active && !tool_path_found && !supports_picker ==> {
                &&& is_idle(*final(self))
                &&& step matches LaunchStep::Unresolved { notice }
                &&& notice.tone == NoticeTone::Warning
                &&& notice.message@ == unresolved_path_text(language, action_tool(action))
            },
    {
        if visual_check_active {
            return LaunchStep::Skipped;
        }
        let tool = action.tool_kind();
        self.is_connecting = true;
        self.connection_status = Some(action.status_message_for_language(language));
        if tool_path_found {
            self.pending_tool_action = Some(action);
            LaunchStep::Launch { tool }
        } else if supports_picker {
            self.pending_tool_action = Some(action);
            LaunchStep::RequestToolPath { tool }
        } else {
            self.finish();
            LaunchStep::Unresolved {
                notice: Notice {
                    tone: NoticeTone::Warning,
                    message: unresolved_tool_path_message(language, tool),
                },
            }
        }
    }

    /// The user answered for the path of `tool`. A cancel ends everything
    /// with an error. Otherwise a failed save is reported, and the pending
    /// action, if any, starts; with none pending, everything ends.
    pub fn handle_tool_path_picked(
        &mut self,
        language: AppLanguage,
        tool: ToolKind,
        outcome: ToolPathOutcome,
    ) -> (step: PathPickedStep)
        ensures
            outcome is Cancelled ==> {
                &&& is_idle(*final(self))
                &&& step.launch is None
                &&& step.notice matches Some(n) && n.tone == NoticeTone::Error && n.message@
                    == path_cancelled_text(language, tool)
            },
            !(outcome is Cancelled) ==> {
                &&& (match outcome {
                    ToolPathOutcome::SaveFailed { error } => step.notice matches Some(n) && n.tone
                        == NoticeTone::Error && n.message@ == path_save_failed_text(
                        language,
                        tool,
                        error@,
                    ),
                    _ => step.notice is None,
                })
                &&& match old(self).pending_tool_action {
                    Some(a) => {
                        &&& step.launch == Some(action_tool(a))
                        &&& final(self).is_connecting == old(self).is_connecting
                        &&& opt_string_view(final(self).connection_status) == Some(
                            action_status_text(a, language),
                        )
                        &&& final(self).pending_tool_action == old(self).pending_tool_action
                        &&& final(self).pending_docker_context == old(self).pending_docker_context
                    },
                    None => step.launch is None && is_idle(*final(self)),
                }
            },
    {
        let notice = match outcome {
            ToolPathOutcome::Cancelled => {
                self.finish();
                return PathPickedStep {
                    launch: None,
                    notice: Some(
                        Notice {
                            tone: NoticeTone::Error,
                            message: tool_path_cancelled_message(language, tool),
                        },
                    ),
                };
            },
            ToolPathOutcome::Saved => None,
            ToolPathOutcome::SaveFailed { error } => Some(
                Notice {
                    tone: NoticeTone::Error,
                    message: tool_path_save_failed_message(language, tool, error.as_str()),
                },
            ),
        };
        let launch = match &self.pending_tool_action {
            Some(a) => {
                self.connection_status = Some(a.status_message_for_language(language));
                Some(a.tool_kind())
            },
            None => {
                self.finish();
                None
            },
        };
        PathPickedStep { launch, notice }
    }

    /// Choosing a tool failed: everything ends, with an error where the
    /// platform can ask for a tool and a warning where it cannot.
    pub fn handle_tool_path_pick_failed(
        &mut self,
        language: AppLanguage,
        tool: ToolKind,
        error: &str,
        supports_picker: bool,
    ) -> (n: Notice)
        ensures
            is_idle(*final(self)),
            n.tone == (if supports_picker {
                NoticeTone::Error
            } else {
                NoticeTone::Warning
            }),
            n.message@ == (if supports_picker {
                path_pick_failed_text(language, tool, error@)
            } else {
                unresolved_path_text(language, tool)
            }),
    {
        self.finish();
        if supports_picker {
            Notice {
                tone: NoticeTone::Error,
                message: tool_path_pick_failed_message(language, tool, error),
            }
        } else {
            Notice { tone: NoticeTone::Warning, message: unresolved_tool_path_message(language, tool) }
        }
    }

    /// The containers of the device were listed. The launch stops waiting;
    /// if a context still waits for a container, the list opens with the
    /// first container chosen.
    pub fn handle_docker_containers_loaded(&mut self, containers: Vec<Container>) -> (r: Option<
        DockerModalState,
    >)
        ensures
            !final(self).is_connecting,
            final(self).connection_status is None,
            final(self).pending_tool_action == old(self).pending_tool_action,
            final(self).pending_docker_context == old(self).pending_docker_context,
            old(self).pending_docker_context is None <==> r is None,
            r matches Some(m) ==> m.containers@ == containers@ && opt_string_view(
                m.selected_container_id,
            ) == (if containers@.len() > 0 {
                Some(containers@[0].id@)
            } else {
                None::<Seq<char>>
            }),
    {
        self.is_connecting = false;
        self.connection_status = None;
        if self.pending_docker_context.is_none() {
            return None;
        }
        Some(DockerModalState::new(containers))
    }

    /// Listing the containers failed: the context no longer waits and the
    /// error is shown.
    pub fn handle_docker_containers_load_failed(&mut self, message: String) -> (n: Notice)
        ensures
            !final(self).is_connecting,
            final(self).connection_status is None,
            final(self).pending_tool_action == old(self).pending_tool_action,
            final(self).pending_docker_context is None,
            n.tone == NoticeTone::Error,
            n.message@ == message@,
    {
        self.is_connecting = false;
        self.connection_status = None;
        self.pending_docker_context = None;
        Notice { tone: NoticeTone::Error, message }
    }

    /// The chosen container is attached to: the launch of VS Code on it is
    /// requested with a copy of the waiting context. Nothing happens while
    /// a visual check runs, when no context waits, or when no listed
    /// container is chosen.
    pub fn attach_selected_container(
        &mut self,
        modal: &DockerModalState,
        language: AppLanguage,
        tool_path_found: bool,
        supports_picker: bool,
        visual_check_active: bool,
    ) -> (step: Option<LaunchStep>)
        ensures
            visual_check_active || old(self).pending_docker_context is None || chosen_index(
                modal.containers@,
                opt_string_view(modal.selected_container_id),
            ) is None ==> step is None && *final(self) == *old(self),
            !visual_check_active && old(self).pending_docker_context is Some && chosen_index(
                modal.containers@,
                opt_string_view(modal.selected_container_id),
            ) is Some ==> {
                let k = chosen_index(modal.containers@, opt_string_view(modal.selected_container_id))->0;
                let action = PendingToolAction::DockerAttach {
                    context: old(self).pending_docker_context->0,
                    container: modal.containers@[k],
                };
                &&& step is Some
                &&& (tool_path_found || supports_picker) ==> {
                    &&& final(self).is_connecting
                    &&& opt_string_view(final(self).connection_status) == Some(
                        action_status_text(action, language),
                    )
                    &&& final(self).pending_tool_action == Some(action)
                    &&& final(self).pending_docker_context == old(self).pending_docker_context
                    &&& tool_path_found ==> step == Some(LaunchStep::Launch { tool: ToolKind::Vscode })
                    &&& !tool_path_found ==> step == Some(
                        LaunchStep::RequestToolPath { tool: ToolKind::Vscode },
                    )
                }
                &&& !tool_path_found && !supports_picker ==> {
                    &&& is_idle(*final(self))
                    &&& step matches Some(LaunchStep::Unresolved { notice })
                    &&& notice.tone == NoticeTone::Warning
                    &&& notice.message@ == unresolved_path_text(language, ToolKind::Vscode)
                }
            },
    {
        if visual_check_active {
            return None;
        }
        let context = match &self.pending_docker_context {
            Some(c) => copy_launch_context(c),
            None => return None,
        };
        let k = match modal.selected_index() {
            Some(k) => k,
            None => return None,
        };
        let container = copy_container(&modal.containers[k]);
        let action = PendingToolAction::DockerAttach { context, container };
        Some(self.request_launch(action, language, tool_path_found, supports_picker, false))
    }

    /// Probing the RustDesk port failed: the launch ends with the error.
    pub fn handle_rustdesk_probe_failed(&mut self, error: String) -> (n: Notice)
        ensures
            !final(self).is_connecting,
            final(self).connection_status is None,
            final(self).pending_tool_action is None,
            final(self).pending_docker_context == old(self).pending_docker_context,
            n.tone == NoticeTone::Error,
            n.message@ == error@,
    {
        self.is_connecting = false;
        self.connection_status = None;
        self.pending_tool_action = None;
        Notice { tone: NoticeTone::Error, message: error }
    }

    /// The device a launch is under way for: that of the waiting action, else
    /// that of the context waiting for a container.
    pub fn active_connection_device_ip(&self) -> (r: Option<&str>)
        ensures
            match r {
                Some(s) => active_ip(*self) == Some(s@),
                None => active_ip(*self) is None,
            },
    {
        match &self.pending_tool_action {
            Some(PendingToolAction::Direct { context, .. }) => Some(context.device_ip.as_str()),
            Some(PendingToolAction::DockerAttach { context, .. }) => Some(context.device_ip.as_str()),
            None => match &self.pending_docker_context {
                Some(context) => Some(context.device_ip.as_str()),
                None => None,
            },
        }
    }

    /// The status line of a device in its detail view: the launch status
    /// while a launch is under way for it, else what its verification found.
    pub fn device_detail_status(&self, device: &Device, language: AppLanguage) -> (r: String)
        ensures
            r@ == detail_status_text(*self, device.ip@, device.status, language),
    {
        let active = self.active_connection_device_ip();
        let is_active = match active {
            Some(ip) => crate::text::str_eq(ip, device.ip.as_str()),
            None => false,
        };
        if is_active {
            return match &self.connection_status {
                Some(status) => status.clone(),
                None => crate::labels::localized_string(language, "正在准备连接", "Preparing connection"),
            };
        }
        match device.status {
            DeviceStatus::Untested => crate::labels::localized_string(
                language,
                "凭据尚未检测；填写 SSH 用户名后，扫描结束会自动检测，也可手动重试。",
                "Credentials have not been checked yet. Fill in the SSH username to auto-verify after the scan, or retry manually.",
            ),
            DeviceStatus::Ready => crate::labels::localized_string(
                language,
                "SSH 凭据检测成功；外部工具的免密前置会在启动连接时单独校验。",
                "SSH credentials are ready. External tools will still validate their own passwordless prerequisites when launching.",
            ),
            DeviceStatus::Denied => crate::labels::localized_string(
                language,
                "检测结果为错误（用户名明显错误或认证失败）；仍可直接发起快速连接。",
                "Verification failed due to an invalid username or authentication error. You can still start a quick connection directly.",
            ),
            DeviceStatus::Error => crate::labels::localized_string(
                language,
                "检测结果为异常（仅用户名或网络抖动时可能无法稳定判定）；仍可直接发起快速连接。",
                "Verification ended with an unstable result, often caused by username-only checks or network jitter. You can still start a quick connection directly.",
            ),
        }
    }

    /// The launch finished: everything ends and the outcome is shown.
    pub fn handle_connect_result(&mut self, result: Result<ConnectNotice, String>) -> (n: Notice)
        ensures
            is_idle(*final(self)),
            result_notice(n, result),
    {
        self.finish();
        match result {
            Ok(notice) => Notice {
                tone: match notice.tone {
                    ConnectNoticeTone::Success => NoticeTone::Success,
                    ConnectNoticeTone::Warning => NoticeTone::Warning,
                },
                message: notice.message,
            },
            Err(error) => Notice { tone: NoticeTone::Error, message: error },
        }
    }
}

} // verus!
