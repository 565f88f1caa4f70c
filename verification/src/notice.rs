//! Notices about connections: their tone and wording, the credentials a
//! remote-desktop connection reuses, and the short forms the header shows.
use vstd::prelude::*;
use crate::labels::{pick, AppLanguage};
use crate::text::{chars_of, concat_str, decimal_text, owned, string_of, sub_vec, trim, trim_vec, usize_to_string};

verus! {

/// Whether a connection notice reports success or asks for attention.
#[derive(Debug, Clone, Copy, PartialEq, Eq, Structural)]
pub enum ConnectNoticeTone {
    Success,
    Warning,
}

/// A notice about a connection that was launched.
#[derive(Debug, Clone)]
pub struct ConnectNotice {
    pub tone: ConnectNoticeTone,
    pub message: String,
}

/// A notice of success.
pub fn success_connect_notice(message: String) -> (r: ConnectNotice)
    ensures
        r.tone == ConnectNoticeTone::Success,
        r.message@ == message@,
{
    ConnectNotice { tone: ConnectNoticeTone::Success, message }
}

/// A notice that asks for attention.
pub fn warning_connect_notice(message: String) -> (r: ConnectNotice)
    ensures
        r.tone == ConnectNoticeTone::Warning,
        r.message@ == message@,
{
    ConnectNotice { tone: ConnectNoticeTone::Warning, message }
}

/// How key-based access was made ready.
#[derive(Debug, Clone, Copy, PartialEq, Eq, Structural)]
pub enum KeyReadySource {
    Existing,
    Installed,
}

/// How authentication for a launched tool turned out.
#[derive(Debug, Clone)]
pub enum LaunchAuthOutcome {
    KeyReady { source: KeyReadySource },
    PasswordFallback { reason: String },
    HardFailure { reason: String },
}

/// The wording of the notice after launching `action`.
pub open spec fn auth_notice_text(language: AppLanguage, action: Seq<char>, outcome: LaunchAuthOutcome) -> Seq<char> {
    match outcome {
        LaunchAuthOutcome::KeyReady { source: KeyReadySource::Existing } => pick(
            language,
            "已启动 "@ + action,
            "Launched "@ + action,
        ),
        LaunchAuthOutcome::KeyReady { source: KeyReadySource::Installed } => pick(
            language,
            "已完成免密准备并启动 "@ + action,
            "Prepared passwordless access and launched "@ + action,
        ),
        LaunchAuthOutcome::PasswordFallback { reason } => pick(
            language,
            "已启动 "@ + action + "，请按提示输入密码（"@ + reason@ + "）"@,
            "Launched "@ + action + ". Enter the password when prompted ("@ + reason@ + ")"@,
        ),
        LaunchAuthOutcome::HardFailure { reason } => reason@,
    }
}

/// The notice after launching `action`: success when key access was ready,
/// a warning otherwise.
pub fn auth_connect_notice_for_language(
    language: AppLanguage,
    action: &str,
    outcome: &LaunchAuthOutcome,
) -> (r: ConnectNotice)
    ensures
        r.tone == (if outcome is KeyReady {
            ConnectNoticeTone::Success
        } else {
            ConnectNoticeTone::Warning
        }),
        r.message@ == auth_notice_text(language, action@, *outcome),
{
    match outcome {
        LaunchAuthOutcome::KeyReady { source: KeyReadySource::Existing } => {
            let head = match language {
                AppLanguage::Chinese => "已启动 ",
                AppLanguage::English => "Launched ",
            };
            success_connect_notice(concat_str(owned(head), action))
        },
        LaunchAuthOutcome::KeyReady { source: KeyReadySource::Installed } => {
            let head = match language {
                AppLanguage::Chinese => "已完成免密准备并启动 ",
                AppLanguage::English => "Prepared passwordless access and launched ",
            };
            success_connect_notice(concat_str(owned(head), action))
        },
        LaunchAuthOutcome::PasswordFallback { reason } => {
            let (head, middle, tail) = match language {
                AppLanguage::Chinese => ("已启动 ", "，请按提示输入密码（", "）"),
                AppLanguage::English => ("Launched ", ". Enter the password when prompted (", ")"),
            };
            let m = concat_str(concat_str(concat_str(concat_str(owned(head), action), middle), reason.as_str()), tail);
            warning_connect_notice(m)
        },
        LaunchAuthOutcome::HardFailure { reason } => warning_connect_notice(reason.clone()),
    }
}

/// The notice after opening a shell connection.
pub fn shell_connect_notice_for_language(outcome: &LaunchAuthOutcome, language: AppLanguage) -> (r:
    ConnectNotice)
    ensures
        r.tone == (if outcome is KeyReady {
            ConnectNoticeTone::Success
        } else {
            ConnectNoticeTone::Warning
        }),
        r.message@ == match *outcome {
            LaunchAuthOutcome::KeyReady { .. } => pick(language, "已启动终端连接"@, "Launched shell connection"@),
            LaunchAuthOutcome::PasswordFallback { .. } => pick(
                language,
                "已打开终端，请按提示输入 SSH 密码"@,
                "Opened the terminal. Enter the SSH password when prompted."@,
            ),
            LaunchAuthOutcome::HardFailure { reason } => reason@,
        },
{
    match outcome {
        LaunchAuthOutcome::KeyReady { .. } => success_connect_notice(
            owned(crate::labels::localized(language, "已启动终端连接", "Launched shell connection")),
        ),
        LaunchAuthOutcome::PasswordFallback { .. } => warning_connect_notice(
            owned(
                crate::labels::localized(
                    language,
                    "已打开终端，请按提示输入 SSH 密码",
                    "Opened the terminal. Enter the SSH password when prompted.",
                ),
            ),
        ),
        LaunchAuthOutcome::HardFailure { reason } => warning_connect_notice(reason.clone()),
    }
}

/// The notice after launching MobaXterm.
pub fn mobaxterm_connect_notice_for_language(language: AppLanguage, outcome: &LaunchAuthOutcome) -> (r:
    ConnectNotice)
    ensures
        outcome is KeyReady ==> r.tone == ConnectNoticeTone::Success && r.message@ == pick(
            language,
            "MobaXterm 已启动"@,
            "Launched MobaXterm"@,
        ),
        !(outcome is KeyReady) ==> r.tone == ConnectNoticeTone::Warning && r.message@ == auth_notice_text(
            language,
            "MobaXterm"@,
            *outcome,
        ),
{
    match outcome {
        LaunchAuthOutcome::KeyReady { .. } => success_connect_notice(
            owned(crate::labels::localized(language, "MobaXterm 已启动", "Launched MobaXterm")),
        ),
        other => auth_connect_notice_for_language(language, "MobaXterm", other),
    }
}

// ---------------------------------------------------------------------------
// Remote desktop credentials
// ---------------------------------------------------------------------------

/// Where one remote-desktop credential field comes from.
#[derive(Debug, Clone, Copy, PartialEq, Eq, Structural)]
pub enum VncCredentialFieldSource {
    Dedicated,
    SshFallback,
    Unavailable,
}

/// Where the remote-desktop credentials come from as a whole.
#[derive(Debug, Clone, Copy, PartialEq, Eq, Structural)]
pub enum VncCredentialSource {
    Dedicated,
    SshFallback,
    Unavailable,
}

/// The value of a remote-desktop field: its own trimmed text if any, else
/// the SSH value if that is not blank, else nothing.
pub open spec fn vnc_value(value: Seq<char>, fallback: Option<Seq<char>>) -> (Option<Seq<char>>, VncCredentialFieldSource) {
    let v = trim(value);
    if v.len() > 0 {
        (Some(v), VncCredentialFieldSource::Dedicated)
    } else {
        match fallback {
            Some(f) => if trim(f).len() > 0 {
                (Some(f), VncCredentialFieldSource::SshFallback)
            } else {
                (None, VncCredentialFieldSource::Unavailable)
            },
            None => (None, VncCredentialFieldSource::Unavailable),
        }
    }
}

/// The value of a remote-desktop field and where it came from.
pub fn resolve_vnc_value(value: &str, fallback: Option<String>) -> (r: (Option<String>, VncCredentialFieldSource))
    ensures
        (crate::identity::opt_string_view(r.0), r.1) == vnc_value(value@, crate::identity::opt_string_view(fallback)),
{
    let v = trim_vec(&chars_of(value));
    if v.len() > 0 {
        return (Some(string_of(&v)), VncCredentialFieldSource::Dedicated);
    }
    match fallback {
        Some(f) => {
            let t = trim_vec(&chars_of(f.as_str()));
            if t.len() > 0 {
                (Some(f), VncCredentialFieldSource::SshFallback)
            } else {
                (None, VncCredentialFieldSource::Unavailable)
            }
        },
        None => (None, VncCredentialFieldSource::Unavailable),
    }
}

/// Where the credentials come from as a whole: dedicated if either field
/// is, else SSH fallback if either field is, else unavailable.
pub open spec fn vnc_source_of(username_source: VncCredentialFieldSource, password_source: VncCredentialFieldSource) -> VncCredentialSource {
    if username_source == VncCredentialFieldSource::Dedicated || password_source
        == VncCredentialFieldSource::Dedicated {
        VncCredentialSource::Dedicated
    } else if username_source == VncCredentialFieldSource::SshFallback || password_source
        == VncCredentialFieldSource::SshFallback {
        VncCredentialSource::SshFallback
    } else {
        VncCredentialSource::Unavailable
    }
}

/// Where the remote-desktop credentials come from as a whole.
pub fn summarize_vnc_source(
    username_source: VncCredentialFieldSource,
    password_source: VncCredentialFieldSource,
) -> (r: VncCredentialSource)
    ensures
        r == vnc_source_of(username_source, password_source),
{
    if username_source == VncCredentialFieldSource::Dedicated || password_source
        == VncCredentialFieldSource::Dedicated {
        VncCredentialSource::Dedicated
    } else if username_source == VncCredentialFieldSource::SshFallback || password_source
        == VncCredentialFieldSource::SshFallback {
        VncCredentialSource::SshFallback
    } else {
        VncCredentialSource::Unavailable
    }
}

/// What a launch needs: the device, the SSH credentials, and the
/// remote-desktop credentials with where they came from.
#[derive(Debug, Clone)]
pub struct LaunchContext {
    pub device_ip: String,
    pub username: String,
    pub password: Option<String>,
    pub vnc_requested: bool,
    pub vnc_username: Option<String>,
    pub vnc_password: Option<String>,
    pub vnc_username_source: VncCredentialFieldSource,
    pub vnc_password_source: VncCredentialFieldSource,
    pub vnc_source: VncCredentialSource,
}

/// The notes on where the remote-desktop credentials came from, in order.
pub open spec fn vnc_notes(c: LaunchContext, language: AppLanguage) -> Seq<Seq<char>> {
    let a = if c.vnc_username_source == VncCredentialFieldSource::SshFallback {
        seq![
            pick(
                language,
                "VNC 用户名未单独填写，已回退 SSH 用户名"@,
                "VNC username not provided separately; falling back to SSH username"@,
            ),
        ]
    } else {
        Seq::empty()
    };
    let b = if c.vnc_username_source == VncCredentialFieldSource::Unavailable {
        a.push(pick(language, "当前没有可用的 VNC 用户名"@, "No VNC username is currently available"@))
    } else {
        a
    };
    let d = if c.vnc_password_source == VncCredentialFieldSource::SshFallback {
        b.push(
            pick(
                language,
                "VNC 密码未单独填写，已回退 SSH 密码"@,
                "VNC password not provided separately; falling back to SSH password"@,
            ),
        )
    } else {
        b
    };
    let e = if c.vnc_password_source == VncCredentialFieldSource::Unavailable {
        d.push(
            pick(
                language,
                "当前没有可用的 VNC 密码，后续如需认证请手动输入"@,
                "No VNC password is currently available; enter it manually if authentication is required"@,
            ),
        )
    } else {
        d
    };
    if c.vnc_source == VncCredentialSource::Unavailable && e.len() == 0 {
        e.push(
            pick(
                language,
                "当前没有可直接复用的 VNC 凭据"@,
                "There are no reusable VNC credentials available right now"@,
            ),
        )
    } else {
        e
    }
}

/// Pieces joined with a delimiter between neighbours.
pub open spec fn joined(pieces: Seq<Seq<char>>, delimiter: Seq<char>) -> Seq<char>
    decreases pieces.len(),
{
    if pieces.len() == 0 {
        Seq::empty()
    } else if pieces.len() == 1 {
        pieces[0]
    } else {
        joined(pieces.drop_last(), delimiter) + delimiter + pieces.last()
    }
}

/// Texts joined with a delimiter between neighbours (`[String]::join`).
pub fn join_texts(pieces: &Vec<String>, delimiter: &str) -> (r: String)
    ensures
        r@ == joined(pieces@.map_values(|p: String| p@), delimiter@),
{
    let ghost views = pieces@.map_values(|p: String| p@);
    let mut r = String::new();
    let mut i: usize = 0;
    while i < pieces.len()
        invariant
            i <= pieces@.len(),
            views == pieces@.map_values(|p: String| p@),
            r@ == joined(views.subrange(0, i as int), delimiter@),
        decreases pieces@.len() - i,
    {
        proof {
            assert(views.subrange(0, i + 1).drop_last() =~= views.subrange(0, i as int));
        }
        if i > 0 {
            r = concat_str(r, delimiter);
        }
        r = concat_str(r, pieces[i].as_str());
        proof {
            if i == 0 {
                assert(r@ =~= views.subrange(0, 1)[0]);
            }
        }
        i = i + 1;
    }
    assert(views.subrange(0, pieces@.len() as int) =~= views);
    r
}

impl LaunchContext {
    /// The note on the remote-desktop credentials, in Chinese.
    pub fn vnc_resolution_message(&self) -> (r: Option<String>)
        ensures
            r matches Some(m) ==> self.vnc_requested && m@ == joined(vnc_notes(*self, AppLanguage::Chinese), "；"@),
            r is None <==> !self.vnc_requested || vnc_notes(*self, AppLanguage::Chinese).len() == 0,
    {
        self.vnc_resolution_message_for_language(AppLanguage::Chinese)
    }

    /// The note on where the remote-desktop credentials came from, when a
    /// remote desktop was asked for and there is something to say.
    pub fn vnc_resolution_message_for_language(&self, language: AppLanguage) -> (r: Option<String>)
        ensures
            r matches Some(m) ==> self.vnc_requested && m@ == joined(
                vnc_notes(*self, language),
                pick(language, "；"@, "; "@),
            ),
            r is None <==> !self.vnc_requested || vnc_notes(*self, language).len() == 0,
    {
        if !self.vnc_requested {
            return None;
        }
        let ghost c = *self;
        let mut notes: Vec<String> = Vec::new();
        if self.vnc_username_source == VncCredentialFieldSource::SshFallback {
            notes.push(
                owned(
                    crate::labels::localized(
                        language,
                        "VNC 用户名未单独填写，已回退 SSH 用户名",
                        "VNC username not provided separately; falling back to SSH username",
                    ),
                ),
            );
        }
        if self.vnc_username_source == VncCredentialFieldSource::Unavailable {
            notes.push(
                owned(
                    crate::labels::localized(
                        language,
                        "当前没有可用的 VNC 用户名",
                        "No VNC username is currently available",
                    ),
                ),
            );
        }
        if self.vnc_password_source == VncCredentialFieldSource::SshFallback {
            notes.push(
                owned(
                    crate::labels::localized(
                        language,
                        "VNC 密码未单独填写，已回退 SSH 密码",
                        "VNC password not provided separately; falling back to SSH password",
                    ),
                ),
            );
        }
        if self.vnc_password_source == VncCredentialFieldSource::Unavailable {
            notes.push(
                owned(
                    crate::labels::localized(
                        language,
                        "当前没有可用的 VNC 密码，后续如需认证请手动输入",
                        "No VNC password is currently available; enter it manually if authentication is required",
                    ),
                ),
            );
        }
        if self.vnc_source == VncCredentialSource::Unavailable && notes.len() == 0 {
            notes.push(
                owned(
                    crate::labels::localized(
                        language,
                        "当前没有可直接复用的 VNC 凭据",
                        "There are no reusable VNC credentials available right now",
                    ),
                ),
            );
        }
        assert(notes@.map_values(|p: String| p@) =~= vnc_notes(c, language));
        if notes.len() == 0 {
            return None;
        }
        let delimiter = crate::labels::localized(language, "；", "; ");
        Some(join_texts(&notes, delimiter))
    }
}

/// The launch context for a device, or the error shown when no SSH user
/// name is filled in. `username` is the trimmed user name, if not blank.
pub fn build_launch_context(
    language: AppLanguage,
    device_ip: &str,
    username: Option<String>,
    password: &str,
    vnc_enabled: bool,
    vnc_user: &str,
    vnc_password: &str,
) -> (r: Result<LaunchContext, String>)
    ensures
        username is None <==> r is Err,
        r matches Err(m) ==> m@ == pick(language, "请先填写 SSH 用户名"@, "Enter an SSH username first"@),
        r matches Ok(c) ==> {
            let pw = if trim(password@).len() > 0 {
                Some(password@)
            } else {
                None
            };
            let user = vnc_value(vnc_user@, Some(username->0@));
            let pass = vnc_value(vnc_password@, pw);
            &&& c.device_ip@ == device_ip@
            &&& c.username@ == username->0@
            &&& crate::identity::opt_string_view(c.password) == pw
            &&& c.vnc_requested == vnc_enabled
            &&& vnc_enabled ==> crate::identity::opt_string_view(c.vnc_username) == user.0
                && c.vnc_username_source == user.1
                && crate::identity::opt_string_view(c.vnc_password) == pass.0
                && c.vnc_password_source == pass.1
            &&& !vnc_enabled ==> c.vnc_username is None && c.vnc_password is None
                && c.vnc_username_source == VncCredentialFieldSource::Unavailable
                && c.vnc_password_source == VncCredentialFieldSource::Unavailable
            &&& c.vnc_source == vnc_source_of(c.vnc_username_source, c.vnc_password_source)
        },
{
    let username = match username {
        Some(u) => u,
        None => return Err(owned(
            crate::labels::localized(language, "请先填写 SSH 用户名", "Enter an SSH username first"),
        )),
    };
    let password = if trim_vec(&chars_of(password)).len() > 0 {
        Some(owned(password))
    } else {
        None
    };
    let (vnc_username, vnc_username_source) = if vnc_enabled {
        resolve_vnc_value(vnc_user, Some(username.clone()))
    } else {
        (None, VncCredentialFieldSource::Unavailable)
    };
    let (vnc_password, vnc_password_source) = if vnc_enabled {
        resolve_vnc_value(vnc_password, password.clone())
    } else {
        (None, VncCredentialFieldSource::Unavailable)
    };
    let vnc_source = summarize_vnc_source(vnc_username_source, vnc_password_source);
    Ok(
        LaunchContext {
            device_ip: owned(device_ip),
            username,
            password,
            vnc_requested: vnc_enabled,
            vnc_username,
            vnc_password,
            vnc_username_source,
            vnc_password_source,
            vnc_source,
        },
    )
}

// ---------------------------------------------------------------------------
// RustDesk
// ---------------------------------------------------------------------------

/// The port RustDesk listens on for direct IP connections.
pub const RUSTDESK_DIRECT_IP_PORT: u16 = 21118;

/// The message when the RustDesk direct IP port of a device cannot be reached.
pub open spec fn rustdesk_failure_text(language: AppLanguage, device_ip: Seq<char>, detail: Seq<char>) -> Seq<char> {
    let port = decimal_text(RUSTDESK_DIRECT_IP_PORT as nat);
    pick(
        language,
        "RustDesk 默认 Direct IP 端口 "@ + port + " 不可达："@ + device_ip + ":"@ + port + "（"@ + detail
            + "）。请检查：目标是否已安装 RustDesk、RustDesk 是否正在运行、是否已开启 Direct IP、防火墙是否拦截端口 "@
            + port + "；若目标使用非默认端口，当前版本暂不支持。"@,
        "RustDesk's default Direct IP port "@ + port + " is unreachable at "@ + device_ip + ":"@ + port
            + " ("@ + detail
            + "). Check whether RustDesk is installed on the target, whether the service is running, whether Direct IP is enabled, and whether a firewall is blocking port "@
            + port + ". Non-default ports are not supported in the current version."@,
    )
}

/// The message when the RustDesk direct IP port of a device cannot be reached.
pub fn rustdesk_probe_failure_message(language: AppLanguage, device_ip: &str, detail: &str) -> (r: String)
    ensures
        r@ == rustdesk_failure_text(language, device_ip@, detail@),
{
    let port = usize_to_string(RUSTDESK_DIRECT_IP_PORT as usize);
    let (a, b, c, d, e, f) = match language {
        AppLanguage::Chinese => (
            "RustDesk 默认 Direct IP 端口 ",
            " 不可达：",
            "（",
            "）。请检查：目标是否已安装 RustDesk、RustDesk 是否正在运行、是否已开启 Direct IP、防火墙是否拦截端口 ",
            "；若目标使用非默认端口，当前版本暂不支持。",
            ":",
        ),
        AppLanguage::English => (
            "RustDesk's default Direct IP port ",
            " is unreachable at ",
            " (",
            "). Check whether RustDesk is installed on the target, whether the service is running, whether Direct IP is enabled, and whether a firewall is blocking port ",
            ". Non-default ports are not supported in the current version.",
            ":",
        ),
    };
    let mut m = concat_str(owned(a), port.as_str());
    m = concat_str(m, b);
    m = concat_str(m, device_ip);
    m = concat_str(m, f);
    m = concat_str(m, port.as_str());
    m = concat_str(m, c);
    m = concat_str(m, detail);
    m = concat_str(m, d);
    m = concat_str(m, port.as_str());
    m = concat_str(m, e);
    assert(m@ =~= rustdesk_failure_text(language, device_ip@, detail@));
    m
}

// ---------------------------------------------------------------------------
// The header
// ---------------------------------------------------------------------------

/// What a notice in the header reports.
#[derive(Debug, Clone, Copy, PartialEq, Eq, Structural)]
pub enum NoticeTone {
    Success,
    Warning,
    Error,
}

/// A notice shown in the header.
#[derive(Debug, Clone)]
pub struct Notice {
    pub tone: NoticeTone,
    pub message: String,
}

/// Text cut to `max_chars` characters, the last three of them an ellipsis,
/// when it is longer.
pub open spec fn truncated(input: Seq<char>, max_chars: usize) -> Seq<char> {
    if input.len() <= max_chars {
        input
    } else {
        let keep = if max_chars >= 3 { max_chars - 3 } else { 0 };
        input.subrange(0, keep) + "..."@
    }
}

/// Text shortened for the header.
pub fn truncate_header_text(input: &str, max_chars: usize) -> (r: String)
    ensures
        r@ == truncated(input@, max_chars),
{
    let v = chars_of(input);
    if v.len() <= max_chars {
        return owned(input);
    }
    let keep = if max_chars >= 3 { max_chars - 3 } else { 0 };
    let kept = sub_vec(&v, 0, keep);
    concat_str(string_of(&kept), "...")
}

/// Shortened text is never longer than the room it was cut for (three
/// characters at least), and text that fits is kept whole.
pub proof fn lemma_truncated_fits(input: Seq<char>, max_chars: usize)
    requires
        max_chars >= 3,
    ensures
        truncated(input, max_chars).len() <= max_chars,
        input.len() <= max_chars ==> truncated(input, max_chars) == input,
{
    reveal_strlit("...");
}

/// The header form of a notice: its message, or a word for its tone when
/// the message is blank, shortened to 24 characters.
pub open spec fn compact_notice_text(tone: NoticeTone, message: Seq<char>, language: AppLanguage) -> Seq<char> {
    let text = if trim(message).len() == 0 {
        match tone {
            NoticeTone::Success => pick(language, "操作成功"@, "Operation succeeded"@),
            NoticeTone::Warning => pick(language, "请留意提示"@, "Check the notice"@),
            NoticeTone::Error => pick(language, "操作失败"@, "Operation failed"@),
        }
    } else {
        message
    };
    truncated(text, 24)
}

/// The header form of a notice.
pub fn compact_notice_message(notice: &Notice, language: AppLanguage) -> (r: String)
    ensures
        r@ == compact_notice_text(notice.tone, notice.message@, language),
{
    let blank = trim_vec(&chars_of(notice.message.as_str())).len() == 0;
    let message: &str = if blank {
        match notice.tone {
            NoticeTone::Success => crate::labels::localized(language, "操作成功", "Operation succeeded"),
            NoticeTone::Warning => crate::labels::localized(language, "请留意提示", "Check the notice"),
            NoticeTone::Error => crate::labels::localized(language, "操作失败", "Operation failed"),
        }
    } else {
        notice.message.as_str()
    };
    truncate_header_text(message, 24)
}

/// The header form of a progress status.
pub fn compact_progress_message(status: &str) -> (r: String)
    ensures
        r@ == truncated(status@, 24),
{
    truncate_header_text(status, 24)
}

/// The capsules of the result header, in order: the progress status, then
/// the notice, each in its short form.
pub fn result_header_texts(notice: Option<&Notice>, progress_status: Option<&str>, language: AppLanguage) -> (r:
    Vec<String>)
    ensures
        r@.map_values(|t: String| t@) == {
            let p = match progress_status {
                Some(s) => seq![truncated(s@, 24)],
                None => Seq::empty(),
            };
            match notice {
                Some(n) => p.push(compact_notice_text(n.tone, n.message@, language)),
                None => p,
            }
        },
{
    let mut r: Vec<String> = Vec::new();
    if let Some(status) = progress_status {
        r.push(compact_progress_message(status));
    }
    if let Some(n) = notice {
        r.push(compact_notice_message(n, language));
    }
    assert(r@.map_values(|t: String| t@) =~= {
        let p = match progress_status {
            Some(s) => seq![truncated(s@, 24)],
            None => Seq::empty(),
        };
        match notice {
            Some(n) => p.push(compact_notice_text(n.tone, n.message@, language)),
            None => p,
        }
    });
    r
}

// ---------------------------------------------------------------------------
// Launch outcomes
// ---------------------------------------------------------------------------

/// The notice after VNC Viewer was launched: success when nothing was left
/// to say about the credentials and the launcher had no warning, else a
/// warning that some credentials must be entered by hand.
pub fn vnc_viewer_connect_notice(context: &LaunchContext, launch_warning: Option<String>, language: AppLanguage) -> (r:
    ConnectNotice)
    ensures
        (!(context.vnc_requested && vnc_notes(*context, language).len() > 0) && launch_warning is None)
            ==> r.tone == ConnectNoticeTone::Success && r.message@ == pick(
            language,
            "已启动 VNC Viewer"@,
            "Launched VNC Viewer"@,
        ),
        ((context.vnc_requested && vnc_notes(*context, language).len() > 0) || launch_warning is Some)
            ==> r.tone == ConnectNoticeTone::Warning && r.message@ == pick(
            language,
            "已启动 VNC Viewer，部分凭据需手动输入"@,
            "Launched VNC Viewer, but some credentials still need to be entered manually"@,
        ),
{
    let note = context.vnc_resolution_message_for_language(language);
    if note.is_none() && launch_warning.is_none() {
        success_connect_notice(owned(crate::labels::localized(language, "已启动 VNC Viewer", "Launched VNC Viewer")))
    } else {
        warning_connect_notice(
            owned(
                crate::labels::localized(
                    language,
                    "已启动 VNC Viewer，部分凭据需手动输入",
                    "Launched VNC Viewer, but some credentials still need to be entered manually",
                ),
            ),
        )
    }
}

/// The notice after RustDesk was launched, with or without a password.
pub fn rustdesk_connect_notice(has_password: bool, language: AppLanguage) -> (r: ConnectNotice)
    ensures
        has_password ==> r.tone == ConnectNoticeTone::Success && r.message@ == pick(
            language,
            "已启动 RustDesk，已尝试带入连接密码"@,
            "Launched RustDesk and attempted to pass the connection password"@,
        ),
        !has_password ==> r.tone == ConnectNoticeTone::Warning && r.message@ == pick(
            language,
            "已启动 RustDesk，但未提供连接密码，请在 RustDesk 客户端中手动输入"@,
            "Launched RustDesk, but no connection password was provided. Enter it manually in the RustDesk client."@,
        ),
{
    if has_password {
        success_connect_notice(
            owned(
                crate::labels::localized(
                    language,
                    "已启动 RustDesk，已尝试带入连接密码",
                    "Launched RustDesk and attempted to pass the connection password",
                ),
            ),
        )
    } else {
        warning_connect_notice(
            owned(
                crate::labels::localized(
                    language,
                    "已启动 RustDesk，但未提供连接密码，请在 RustDesk 客户端中手动输入",
                    "Launched RustDesk, but no connection password was provided. Enter it manually in the RustDesk client.",
                ),
            ),
        )
    }
}

/// The error when a tool failed to launch.
pub fn tool_launch_failure_message(language: AppLanguage, tool: &str, error: &str) -> (r: String)
    ensures
        r@ == pick(language, "启动 "@ + tool@ + " 失败: "@ + error@, "Failed to launch "@ + tool@ + ": "@ + error@),
{
    let (head, middle) = match language {
        AppLanguage::Chinese => ("启动 ", " 失败: "),
        AppLanguage::English => ("Failed to launch ", ": "),
    };
    concat_str(concat_str(concat_str(owned(head), tool), middle), error)
}

/// What attaching VS Code to a container is called in notices.
pub fn docker_attach_action(language: AppLanguage, container_name: &str) -> (r: String)
    ensures
        r@ == pick(
            language,
            "VS Code Docker attach（"@ + container_name@ + "）"@,
            "VS Code Docker attach ("@ + container_name@ + ")"@,
        ),
{
    let (head, tail) = match language {
        AppLanguage::Chinese => ("VS Code Docker attach（", "）"),
        AppLanguage::English => ("VS Code Docker attach (", ")"),
    };
    concat_str(concat_str(owned(head), container_name), tail)
}

/// The word on a notice capsule of the header.
pub fn notice_tone_label(tone: NoticeTone, language: AppLanguage) -> (r: &'static str)
    ensures
        r@ == match tone {
            NoticeTone::Success => pick(language, "成功"@, "Success"@),
            NoticeTone::Warning => pick(language, "提示"@, "Notice"@),
            NoticeTone::Error => pick(language, "错误"@, "Error"@),
        },
{
    match tone {
        NoticeTone::Success => crate::labels::localized(language, "成功", "Success"),
        NoticeTone::Warning => crate::labels::localized(language, "提示", "Notice"),
        NoticeTone::Error => crate::labels::localized(language, "错误", "Error"),
    }
}

/// The word on the progress capsule of the header.
pub fn progress_capsule_label(language: AppLanguage) -> (r: &'static str)
    ensures
        r@ == pick(language, "连接中"@, "Working"@),
{
    crate::labels::localized(language, "连接中", "Working")
}

/// Whether a request to dismiss the notice of `version` applies: only while
/// a notice is shown and it is still the one of that version.
pub fn should_dismiss_notice(notice: Option<&Notice>, version: u64, current_version: u64) -> (r: bool)
    ensures
        r == (notice is Some && version == current_version),
{
    notice.is_some() && version == current_version
}

} // verus!
