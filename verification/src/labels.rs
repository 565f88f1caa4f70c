//! The words the interface shows, in the two languages it speaks.
use vstd::prelude::*;

verus! {

/// The language of the interface.
#[derive(Debug, Clone, Copy, PartialEq, Eq, Structural)]
pub enum AppLanguage {
    Chinese,
    English,
}

/// The text for a language, from its Chinese and English forms.
pub open spec fn pick(language: AppLanguage, chinese: Seq<char>, english: Seq<char>) -> Seq<char> {
    match language {
        AppLanguage::Chinese => chinese,
        AppLanguage::English => english,
    }
}

/// The text for `language` out of its Chinese and English forms.
pub fn localized(language: AppLanguage, chinese: &'static str, english: &'static str) -> (r: &'static str)
    ensures
        r@ == pick(language, chinese@, english@),
{
    match language {
        AppLanguage::Chinese => chinese,
        AppLanguage::English => english,
    }
}

/// The text for `language` out of its Chinese and English forms, owned.
pub fn localized_string(language: AppLanguage, chinese: &str, english: &str) -> (r: String)
    ensures
        r@ == pick(language, chinese@, english@),
{
    match language {
        AppLanguage::Chinese => crate::text::owned(chinese),
        AppLanguage::English => crate::text::owned(english),
    }
}

/// Title of the credential card.
pub fn credential_card_title(app_language: AppLanguage) -> (r: &'static str)
    ensures
        r@ == pick(app_language, "SSH 登录凭证"@, "SSH Credentials"@),
{
    match app_language {
        AppLanguage::Chinese => "SSH 登录凭证",
        AppLanguage::English => "SSH Credentials",
    }
}

/// Label of the button that manages saved credentials.
pub fn manage_button_label(app_language: AppLanguage) -> (r: &'static str)
    ensures
        r@ == pick(app_language, "管理"@, "Manage"@),
{
    match app_language {
        AppLanguage::Chinese => "管理",
        AppLanguage::English => "Manage",
    }
}

/// Placeholder of the user name field.
pub fn username_placeholder(app_language: AppLanguage) -> (r: &'static str)
    ensures
        r@ == pick(app_language, "用户名"@, "Username"@),
{
    match app_language {
        AppLanguage::Chinese => "用户名",
        AppLanguage::English => "Username",
    }
}

/// Placeholder of the password field.
pub fn password_placeholder(app_language: AppLanguage) -> (r: &'static str)
    ensures
        r@ == pick(app_language, "密码"@, "Password"@),
{
    match app_language {
        AppLanguage::Chinese => "密码",
        AppLanguage::English => "Password",
    }
}

/// Placeholder of the RustDesk password field.
pub fn rustdesk_password_placeholder(app_language: AppLanguage) -> (r: &'static str)
    ensures
        r@ == pick(app_language, "RustDesk 密码（可选）"@, "RustDesk Password (Optional)"@),
{
    match app_language {
        AppLanguage::Chinese => "RustDesk 密码（可选）",
        AppLanguage::English => "RustDesk Password (Optional)",
    }
}

/// Title of the RustDesk section.
pub fn rustdesk_section_title(app_language: AppLanguage) -> (r: &'static str)
    ensures
        r@ == pick(app_language, "RustDesk 凭证（可选）"@, "RustDesk Credentials"@),
{
    match app_language {
        AppLanguage::Chinese => "RustDesk 凭证（可选）",
        AppLanguage::English => "RustDesk Credentials",
    }
}

/// Label of the button that verifies credentials.
pub fn verify_button_label(app_language: AppLanguage) -> (r: &'static str)
    ensures
        r@ == pick(app_language, "检测 SSH 凭证"@, "Verify SSH"@),
{
    match app_language {
        AppLanguage::Chinese => "检测 SSH 凭证",
        AppLanguage::English => "Verify SSH",
    }
}

/// Label of that button while verification runs.
pub fn verify_button_loading_label(app_language: AppLanguage) -> (r: &'static str)
    ensures
        r@ == pick(app_language, "检测中..."@, "Verifying..."@),
{
    match app_language {
        AppLanguage::Chinese => "检测中...",
        AppLanguage::English => "Verifying...",
    }
}

/// Title of the scan card.
pub fn scan_card_title(app_language: AppLanguage) -> (r: &'static str)
    ensures
        r@ == pick(app_language, "扫描网络"@, "Scan Network"@),
{
    match app_language {
        AppLanguage::Chinese => "扫描网络",
        AppLanguage::English => "Scan Network",
    }
}

/// Label of the scan button while a scan runs.
pub fn scan_button_loading_label(app_language: AppLanguage) -> (r: &'static str)
    ensures
        r@ == pick(app_language, "扫描中..."@, "Scanning..."@),
{
    match app_language {
        AppLanguage::Chinese => "扫描中...",
        AppLanguage::English => "Scanning...",
    }
}

/// Label of the scan button when a scan can start.
pub fn scan_button_ready_label(app_language: AppLanguage) -> (r: &'static str)
    ensures
        r@ == pick(app_language, "开始扫描"@, "Start Scan"@),
{
    match app_language {
        AppLanguage::Chinese => "开始扫描",
        AppLanguage::English => "Start Scan",
    }
}

/// Label of the scan button before a network is selected.
pub fn scan_button_placeholder_label(app_language: AppLanguage) -> (r: &'static str)
    ensures
        r@ == pick(app_language, "请选择网卡"@, "Select Network"@),
{
    match app_language {
        AppLanguage::Chinese => "请选择网卡",
        AppLanguage::English => "Select Network",
    }
}

/// The label of the scan button: busy while a scan runs, an invitation to
/// scan once a network is selected, a request to select one otherwise.
pub fn scan_button_text(app_language: AppLanguage, is_scanning: bool, has_selected_network: bool) -> (r:
    &'static str)
    ensures
        r@ == if is_scanning {
            pick(app_language, "扫描中..."@, "Scanning..."@)
        } else if has_selected_network {
            pick(app_language, "开始扫描"@, "Start Scan"@)
        } else {
            pick(app_language, "请选择网卡"@, "Select Network"@)
        },
{
    if is_scanning {
        scan_button_loading_label(app_language)
    } else if has_selected_network {
        scan_button_ready_label(app_language)
    } else {
        scan_button_placeholder_label(app_language)
    }
}

/// The label of the button that folds the credential card.
pub fn collapse_button_label(app_language: AppLanguage, collapsed: bool) -> (r: &'static str)
    ensures
        r@ == if collapsed {
            pick(app_language, "展开"@, "Expand"@)
        } else {
            pick(app_language, "收起"@, "Collapse"@)
        },
{
    match app_language {
        AppLanguage::Chinese => if collapsed {
            "展开"
        } else {
            "收起"
        },
        AppLanguage::English => if collapsed {
            "Expand"
        } else {
            "Collapse"
        },
    }
}

/// The frames of the busy spinner, in turn.
pub open spec fn spinner_frames() -> Seq<Seq<char>> {
    seq![
        "0"@, "1"@, "2"@, "3"@, "4"@, "5"@, "6"@, "7"@, "8"@, "9"@, "10"@, "11"@,
    ]
}

/// The phase of the spinner after one tick: the next frame, back to the
/// first after the last.
pub fn next_spinner_phase(phase: usize) -> (r: usize)
    requires
        phase < usize::MAX,
    ensures
        r == ((phase as int) + 1) % (spinner_frames().len() as int),
{
    (phase + 1) % 12
}

/// The spinner frame shown at `phase`.
pub fn spinner_frame(phase: usize) -> (r: &'static str)
    ensures
        r@ == spinner_frames()[(phase as int) % (spinner_frames().len() as int)],
{
    let k = phase % 12;
    if k == 0 {
        "0"
    } else if k == 1 {
        "1"
    } else if k == 2 {
        "2"
    } else if k == 3 {
        "3"
    } else if k == 4 {
        "4"
    } else if k == 5 {
        "5"
    } else if k == 6 {
        "6"
    } else if k == 7 {
        "7"
    } else if k == 8 {
        "8"
    } else if k == 9 {
        "9"
    } else if k == 10 {
        "10"
    } else {
        "11"
    }
}

} // verus!
