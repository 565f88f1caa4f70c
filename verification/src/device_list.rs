//! What the result list shows: its optional columns and their values, the
//! names and statuses of devices, and the texts of its empty states.
use vstd::prelude::*;
use crate::identity::{opt_string_view, EvidenceView, NeighborEvidence, evidence_view};
use crate::labels::{pick, AppLanguage};
use crate::scanner::{mac_prefix_of, vendor_name_from_mac_address, Device, DeviceStatus, DeviceView};
use crate::text::{concat_str, decimal_text, ends_with, owned, usize_to_string};
use crate::vendor::{known_vendor, opt_str_view};

verus! {

/// An optional column of the result list.
#[derive(Debug, Clone, Copy, PartialEq, Eq, Structural)]
pub enum ResultColumn {
    MacAddress,
    Hostname,
    Vendor,
    DnsName,
    MdnsName,
    SmbName,
    SmbDomain,
}

/// Which optional columns the result list shows.
#[derive(Debug, Clone, Copy, PartialEq, Eq, Structural)]
pub struct ResultColumnVisibility {
    pub mac_address: bool,
    pub hostname: bool,
    pub vendor: bool,
    pub dns_name: bool,
    pub mdns_name: bool,
    pub smb_name: bool,
    pub smb_domain: bool,
}

/// Whether `v` shows `column`.
pub open spec fn column_shown(v: ResultColumnVisibility, column: ResultColumn) -> bool {
    match column {
        ResultColumn::MacAddress => v.mac_address,
        ResultColumn::Hostname => v.hostname,
        ResultColumn::Vendor => v.vendor,
        ResultColumn::DnsName => v.dns_name,
        ResultColumn::MdnsName => v.mdns_name,
        ResultColumn::SmbName => v.smb_name,
        ResultColumn::SmbDomain => v.smb_domain,
    }
}

/// The optional columns in the order the list lays them out.
pub open spec fn all_columns() -> Seq<ResultColumn> {
    seq![
        ResultColumn::MacAddress,
        ResultColumn::Hostname,
        ResultColumn::Vendor,
        ResultColumn::DnsName,
        ResultColumn::MdnsName,
        ResultColumn::SmbName,
        ResultColumn::SmbDomain,
    ]
}

/// No optional column is shown by default.
impl Default for ResultColumnVisibility {
    fn default() -> (r: Self)
        ensures
            forall|c: ResultColumn| !column_shown(r, c),
    {
        ResultColumnVisibility {
            mac_address: false,
            hostname: false,
            vendor: false,
            dns_name: false,
            mdns_name: false,
            smb_name: false,
            smb_domain: false,
        }
    }
}

impl ResultColumnVisibility {
    /// Whether the column is shown.
    pub fn is_visible(&self, column: ResultColumn) -> (r: bool)
        ensures
            r == column_shown(*self, column),
    {
        match column {
            ResultColumn::MacAddress => self.mac_address,
            ResultColumn::Hostname => self.hostname,
            ResultColumn::Vendor => self.vendor,
            ResultColumn::DnsName => self.dns_name,
            ResultColumn::MdnsName => self.mdns_name,
            ResultColumn::SmbName => self.smb_name,
            ResultColumn::SmbDomain => self.smb_domain,
        }
    }

    /// Shows or hides one column, leaving the others as they are.
    pub fn set_visible(&mut self, column: ResultColumn, visible: bool)
        ensures
            column_shown(*final(self), column) == visible,
            forall|other: ResultColumn| other != column ==> column_shown(*final(self), other)
                == column_shown(*old(self), other),
    {
        match column {
            ResultColumn::MacAddress => self.mac_address = visible,
            ResultColumn::Hostname => self.hostname = visible,
            ResultColumn::Vendor => self.vendor = visible,
            ResultColumn::DnsName => self.dns_name = visible,
            ResultColumn::MdnsName => self.mdns_name = visible,
            ResultColumn::SmbName => self.smb_name = visible,
            ResultColumn::SmbDomain => self.smb_domain = visible,
        }
    }

    /// Whether some optional column is shown.
    pub fn has_any_optional_column(&self) -> (r: bool)
        ensures
            r == exists|c: ResultColumn| column_shown(*self, c),
    {
        let r = self.mac_address || self.hostname || self.vendor || self.dns_name || self.mdns_name
            || self.smb_name || self.smb_domain;
        proof {
            if r {
                if self.mac_address {
                    assert(column_shown(*self, ResultColumn::MacAddress));
                } else if self.hostname {
                    assert(column_shown(*self, ResultColumn::Hostname));
                } else if self.vendor {
                    assert(column_shown(*self, ResultColumn::Vendor));
                } else if self.dns_name {
                    assert(column_shown(*self, ResultColumn::DnsName));
                } else if self.mdns_name {
                    assert(column_shown(*self, ResultColumn::MdnsName));
                } else if self.smb_name {
                    assert(column_shown(*self, ResultColumn::SmbName));
                } else {
                    assert(column_shown(*self, ResultColumn::SmbDomain));
                }
            }
        }
        r
    }
}

/// The shown optional columns, in layout order.
pub fn optional_columns(visible_columns: ResultColumnVisibility) -> (r: Vec<ResultColumn>)
    ensures
        r@ == all_columns().filter(|c: ResultColumn| column_shown(visible_columns, c)),
{
    let all = [
        ResultColumn::MacAddress,
        ResultColumn::Hostname,
        ResultColumn::Vendor,
        ResultColumn::DnsName,
        ResultColumn::MdnsName,
        ResultColumn::SmbName,
        ResultColumn::SmbDomain,
    ];
    let ghost pred = |c: ResultColumn| column_shown(visible_columns, c);
    assert(all@ == all_columns());
    let mut r: Vec<ResultColumn> = Vec::new();
    let mut i: usize = 0;
    while i < 7
        invariant
            i <= 7,
            all@ == all_columns(),
            pred == (|c: ResultColumn| column_shown(visible_columns, c)),
            r@ == all@.subrange(0, i as int).filter(pred),
        decreases 7 - i,
    {
        let c = all[i];
        proof {
            assert(all@.subrange(0, i + 1) =~= all@.subrange(0, i as int).push(c));
            all@.subrange(0, i as int).lemma_filter_push(c, pred);
        }
        if visible_columns.is_visible(c) {
            r.push(c);
        }
        i = i + 1;
    }
    assert(all@.subrange(0, 7) =~= all@);
    r
}

/// The header of a column.
pub open spec fn column_label(column: ResultColumn, language: AppLanguage) -> Seq<char> {
    match column {
        ResultColumn::MacAddress => pick(language, "MAC"@, "MAC"@),
        ResultColumn::Hostname => pick(language, "主机名"@, "Hostname"@),
        ResultColumn::Vendor => pick(language, "厂商"@, "Vendor"@),
        ResultColumn::DnsName => pick(language, "DNS 名称"@, "DNS Name"@),
        ResultColumn::MdnsName => pick(language, "mDNS 名称"@, "mDNS Name"@),
        ResultColumn::SmbName => pick(language, "SMB 名称"@, "SMB Name"@),
        ResultColumn::SmbDomain => pick(language, "SMB 域"@, "SMB Domain"@),
    }
}

/// The header of a column in the interface language.
pub fn result_column_label(column: ResultColumn, app_language: AppLanguage) -> (r: &'static str)
    ensures
        r@ == column_label(column, app_language),
{
    match column {
        ResultColumn::MacAddress => crate::labels::localized(app_language, "MAC", "MAC"),
        ResultColumn::Hostname => crate::labels::localized(app_language, "主机名", "Hostname"),
        ResultColumn::Vendor => crate::labels::localized(app_language, "厂商", "Vendor"),
        ResultColumn::DnsName => crate::labels::localized(app_language, "DNS 名称", "DNS Name"),
        ResultColumn::MdnsName => crate::labels::localized(app_language, "mDNS 名称", "mDNS Name"),
        ResultColumn::SmbName => crate::labels::localized(app_language, "SMB 名称", "SMB Name"),
        ResultColumn::SmbDomain => crate::labels::localized(app_language, "SMB 域", "SMB Domain"),
    }
}

/// The text of a field, or a dash when it is missing.
pub open spec fn or_dash(o: Option<Seq<char>>) -> Seq<char> {
    match o {
        Some(s) => s,
        None => "-"@,
    }
}

/// The vendor registered for the OUI of a MAC address, if any.
pub open spec fn vendor_of_mac(mac: Option<Seq<char>>) -> Option<Seq<char>> {
    match mac {
        Some(m) => match mac_prefix_of(m) {
            Some(p) => known_vendor(p),
            None => None,
        },
        None => None,
    }
}

/// The value a column shows for a device's evidence.
pub open spec fn column_value(column: ResultColumn, e: Option<EvidenceView>) -> Seq<char> {
    match e {
        None => "-"@,
        Some(ev) => match column {
            ResultColumn::MacAddress => or_dash(ev.mac_address),
            ResultColumn::Hostname => or_dash(ev.hostname),
            ResultColumn::Vendor => or_dash(vendor_of_mac(ev.mac_address)),
            ResultColumn::DnsName => or_dash(ev.dns_name),
            ResultColumn::MdnsName => or_dash(ev.mdns_name),
            ResultColumn::SmbName => or_dash(ev.smb_name),
            ResultColumn::SmbDomain => or_dash(ev.smb_domain),
        },
    }
}

fn text_or_dash(o: &Option<String>) -> (r: String)
    ensures
        r@ == or_dash(opt_string_view(*o)),
{
    match o {
        Some(s) => s.clone(),
        None => owned("-"),
    }
}

/// The value a column shows for a device with this evidence.
pub fn result_column_value(column: ResultColumn, evidence: Option<&NeighborEvidence>) -> (r: String)
    ensures
        r@ == column_value(column, evidence_view(evidence)),
{
    match evidence {
        None => owned("-"),
        Some(ev) => match column {
            ResultColumn::MacAddress => text_or_dash(&ev.mac_address),
            ResultColumn::Hostname => text_or_dash(&ev.hostname),
            ResultColumn::Vendor => {
                let vendor = match &ev.mac_address {
                    Some(m) => vendor_name_from_mac_address(m.as_str()),
                    None => None,
                };
                match vendor {
                    Some(v) => owned(v),
                    None => owned("-"),
                }
            },
            ResultColumn::DnsName => text_or_dash(&ev.dns_name),
            ResultColumn::MdnsName => text_or_dash(&ev.mdns_name),
            ResultColumn::SmbName => text_or_dash(&ev.smb_name),
            ResultColumn::SmbDomain => text_or_dash(&ev.smb_domain),
        },
    }
}

/// The label of a device status.
pub open spec fn status_label(status: DeviceStatus, language: AppLanguage) -> Seq<char> {
    match status {
        DeviceStatus::Untested => pick(language, "未检测"@, "UNTESTED"@),
        DeviceStatus::Ready => pick(language, "就绪"@, "READY"@),
        DeviceStatus::Denied => pick(language, "拒绝"@, "DENIED"@),
        DeviceStatus::Error => pick(language, "错误"@, "ERROR"@),
    }
}

/// The label of a device status in the interface language.
pub fn device_status_label(status: DeviceStatus, app_language: AppLanguage) -> (r: &'static str)
    ensures
        r@ == status_label(status, app_language),
{
    match (status, app_language) {
        (DeviceStatus::Untested, AppLanguage::Chinese) => "未检测",
        (DeviceStatus::Untested, AppLanguage::English) => "UNTESTED",
        (DeviceStatus::Ready, AppLanguage::Chinese) => "就绪",
        (DeviceStatus::Ready, AppLanguage::English) => "READY",
        (DeviceStatus::Denied, AppLanguage::Chinese) => "拒绝",
        (DeviceStatus::Denied, AppLanguage::English) => "DENIED",
        (DeviceStatus::Error, AppLanguage::Chinese) => "错误",
        (DeviceStatus::Error, AppLanguage::English) => "ERROR",
    }
}

/// The network name of a device: its mDNS name, else its DNS name, else its
/// host name.
pub open spec fn network_name(e: Option<EvidenceView>) -> Option<Seq<char>> {
    match e {
        None => None,
        Some(ev) => if ev.mdns_name is Some {
            ev.mdns_name
        } else if ev.dns_name is Some {
            ev.dns_name
        } else {
            ev.hostname
        },
    }
}

/// The network name of a device with this evidence.
pub fn network_name_label(evidence: Option<&NeighborEvidence>) -> (r: Option<String>)
    ensures
        opt_string_view(r) == network_name(evidence_view(evidence)),
{
    match evidence {
        None => None,
        Some(ev) => if ev.mdns_name.is_some() {
            ev.mdns_name.clone()
        } else if ev.dns_name.is_some() {
            ev.dns_name.clone()
        } else {
            ev.hostname.clone()
        },
    }
}

/// The name shown for a device: a marker for this machine; else its name
/// without the ` (network name)` suffix that the network name column
/// already shows.
pub open spec fn shown_device_name(d: DeviceView, e: Option<EvidenceView>, is_local: bool) -> Seq<char> {
    if is_local {
        "[本机]"@
    } else {
        match network_name(e) {
            None => d.name,
            Some(n) => {
                let suffix = " ("@ + n + ")"@;
                if ends_with(d.name, suffix) {
                    d.name.subrange(0, d.name.len() - suffix.len())
                } else {
                    d.name
                }
            },
        }
    }
}

/// The name shown for a device in the list.
pub fn device_name_label(device: &Device, evidence: Option<&NeighborEvidence>, is_local: bool) -> (r:
    String)
    ensures
        r@ == shown_device_name(device@, evidence_view(evidence), is_local),
{
    if is_local {
        return owned("[本机]");
    }
    let network_name = match network_name_label(evidence) {
        Some(n) => n,
        None => return device.name.clone(),
    };
    let suffix = concat_str(concat_str(owned(" ("), network_name.as_str()), ")");
    let full = crate::text::chars_of(device.name.as_str());
    let suffix_chars = crate::text::chars_of(suffix.as_str());
    if crate::text::ends_with_vec(&full, &suffix_chars) {
        let kept = crate::text::sub_vec(&full, 0, full.len() - suffix_chars.len());
        crate::text::string_of(&kept)
    } else {
        device.name.clone()
    }
}

// ---------------------------------------------------------------------------
// Empty states
// ---------------------------------------------------------------------------

/// What the result list shows when it has no devices.
pub enum PlaceholderState {
    Idle,
    RefreshingNetworks { spinner_frame: &'static str },
    Scanning { spinner_frame: &'static str, progress: Option<(usize, usize)> },
    EmptyResults,
}

/// The texts of an empty state: the chip, the title and the description.
pub struct PlaceholderCopy {
    pub chip_label: &'static str,
    pub title: &'static str,
    pub description: String,
}

/// Title of the list before any scan.
pub fn idle_state_title(app_language: AppLanguage) -> (r: &'static str)
    ensures
        r@ == pick(app_language, "尚未进行扫描"@, "No Scan Yet"@),
{
    match app_language {
        AppLanguage::Chinese => "尚未进行扫描",
        AppLanguage::English => "No Scan Yet",
    }
}

/// Chip of the list while the networks are read.
pub fn refreshing_networks_chip_label(app_language: AppLanguage) -> (r: &'static str)
    ensures
        r@ == pick(app_language, "同步网卡"@, "Refreshing Networks"@),
{
    match app_language {
        AppLanguage::Chinese => "同步网卡",
        AppLanguage::English => "Refreshing Networks",
    }
}

/// Title of the list while the networks are read.
pub fn refreshing_networks_title(app_language: AppLanguage) -> (r: &'static str)
    ensures
        r@ == pick(app_language, "正在准备扫描上下文"@, "Preparing Scan Context"@),
{
    match app_language {
        AppLanguage::Chinese => "正在准备扫描上下文",
        AppLanguage::English => "Preparing Scan Context",
    }
}

/// Description of the list while the networks are read.
pub fn refreshing_networks_description(app_language: AppLanguage) -> (r: String)
    ensures
        r@ == pick(
            app_language,
            "正在读取本机网络接口与目标网段，完成后即可选择可扫描网卡。"@,
            "Reading local network interfaces and target subnets. You can start scanning as soon as the list is ready."@,
        ),
{
    match app_language {
        AppLanguage::Chinese => owned("正在读取本机网络接口与目标网段，完成后即可选择可扫描网卡。"),
        AppLanguage::English => owned(
            "Reading local network interfaces and target subnets. You can start scanning as soon as the list is ready.",
        ),
    }
}

/// Chip of the list while a scan runs.
pub fn scanning_chip_label(app_language: AppLanguage) -> (r: &'static str)
    ensures
        r@ == pick(app_language, "扫描进行中"@, "Scanning"@),
{
    match app_language {
        AppLanguage::Chinese => "扫描进行中",
        AppLanguage::English => "Scanning",
    }
}

/// Title of the list while a scan runs.
pub fn scanning_title(app_language: AppLanguage) -> (r: &'static str)
    ensures
        r@ == pick(app_language, "结果列表等待回填"@, "Waiting For Results"@),
{
    match app_language {
        AppLanguage::Chinese => "结果列表等待回填",
        AppLanguage::English => "Waiting For Results",
    }
}

/// Description of the list while a scan starts.
pub fn scanning_description(app_language: AppLanguage) -> (r: String)
    ensures
        r@ == pick(
            app_language,
            "扫描任务刚刚启动，正在建立目标列表并等待第一批结果返回。"@,
            "The scan has just started. Building the target list and waiting for the first results."@,
        ),
{
    match app_language {
        AppLanguage::Chinese => owned("扫描任务刚刚启动，正在建立目标列表并等待第一批结果返回。"),
        AppLanguage::English => owned(
            "The scan has just started. Building the target list and waiting for the first results.",
        ),
    }
}

/// The progress description of a running scan.
pub open spec fn progress_text(language: AppLanguage, scanned: usize, total: usize) -> Seq<char> {
    let counts = decimal_text(scanned as nat) + "/"@ + decimal_text(total as nat);
    pick(
        language,
        "当前扫描进度 "@ + counts + "，发现的设备会在这里逐步回到列表。"@,
        "Progress "@ + counts + ". Newly discovered devices will appear here as the scan continues."@,
    )
}

/// Description of the list while a scan runs, with its progress.
pub fn scanning_progress_description(app_language: AppLanguage, scanned: usize, total: usize) -> (r:
    String)
    ensures
        r@ == progress_text(app_language, scanned, total),
{
    let scanned_text = usize_to_string(scanned);
    let total_text = usize_to_string(total);
    let (head, tail) = match app_language {
        AppLanguage::Chinese => ("当前扫描进度 ", "，发现的设备会在这里逐步回到列表。"),
        AppLanguage::English => (
            "Progress ",
            ". Newly discovered devices will appear here as the scan continues.",
        ),
    };
    let a = concat_str(owned(head), scanned_text.as_str());
    let b = concat_str(a, "/");
    let c = concat_str(b, total_text.as_str());
    let r = concat_str(c, tail);
    assert(r@ =~= progress_text(app_language, scanned, total));
    r
}

/// Chip of the list after a scan that found nothing.
pub fn empty_results_chip_label(app_language: AppLanguage) -> (r: &'static str)
    ensures
        r@ == pick(app_language, "本轮未发现设备"@, "No Devices Found"@),
{
    match app_language {
        AppLanguage::Chinese => "本轮未发现设备",
        AppLanguage::English => "No Devices Found",
    }
}

/// Title of the list after a scan that found nothing.
pub fn empty_results_title(app_language: AppLanguage) -> (r: &'static str)
    ensures
        r@ == pick(app_language, "列表保持为空"@, "The List Is Empty"@),
{
    match app_language {
        AppLanguage::Chinese => "列表保持为空",
        AppLanguage::English => "The List Is Empty",
    }
}

/// Description of the list after a scan that found nothing.
pub fn empty_results_description(app_language: AppLanguage) -> (r: String)
    ensures
        r@ == pick(
            app_language,
            "当前网段没有发现在线设备，可以切换网卡或稍后重新扫描。"@,
            "No online devices were found on this subnet. Try another interface or scan again later."@,
        ),
{
    match app_language {
        AppLanguage::Chinese => owned("当前网段没有发现在线设备，可以切换网卡或稍后重新扫描。"),
        AppLanguage::English => owned(
            "No online devices were found on this subnet. Try another interface or scan again later.",
        ),
    }
}

/// The texts of an empty state other than the idle one, which shows only
/// its title: a running scan with a known total shows its progress.
pub fn placeholder_copy(state: &PlaceholderState, app_language: AppLanguage) -> (r: Option<PlaceholderCopy>)
    ensures
        r is None <==> state is Idle,
        r matches Some(c) ==> match *state {
            PlaceholderState::RefreshingNetworks { .. } => c.chip_label@ == pick(
                app_language,
                "同步网卡"@,
                "Refreshing Networks"@,
            ) && c.title@ == pick(app_language, "正在准备扫描上下文"@, "Preparing Scan Context"@)
                && c.description@ == pick(
                app_language,
                "正在读取本机网络接口与目标网段，完成后即可选择可扫描网卡。"@,
                "Reading local network interfaces and target subnets. You can start scanning as soon as the list is ready."@,
            ),
            PlaceholderState::Scanning { progress, .. } => c.chip_label@ == pick(
                app_language,
                "扫描进行中"@,
                "Scanning"@,
            ) && c.title@ == pick(app_language, "结果列表等待回填"@, "Waiting For Results"@)
                && c.description@ == match progress {
                Some((scanned, total)) => if total > 0 {
                    progress_text(app_language, scanned, total)
                } else {
                    pick(
                        app_language,
                        "扫描任务刚刚启动，正在建立目标列表并等待第一批结果返回。"@,
                        "The scan has just started. Building the target list and waiting for the first results."@,
                    )
                },
                None => pick(
                    app_language,
                    "扫描任务刚刚启动，正在建立目标列表并等待第一批结果返回。"@,
                    "The scan has just started. Building the target list and waiting for the first results."@,
                ),
            },
            PlaceholderState::EmptyResults => c.chip_label@ == pick(
                app_language,
                "本轮未发现设备"@,
                "No Devices Found"@,
            ) && c.title@ == pick(app_language, "列表保持为空"@, "The List Is Empty"@)
                && c.description@ == pick(
                app_language,
                "当前网段没有发现在线设备，可以切换网卡或稍后重新扫描。"@,
                "No online devices were found on this subnet. Try another interface or scan again later."@,
            ),
            PlaceholderState::Idle => false,
        },
{
    match state {
        PlaceholderState::Idle => None,
        PlaceholderState::RefreshingNetworks { .. } => Some(
            PlaceholderCopy {
                chip_label: refreshing_networks_chip_label(app_language),
                title: refreshing_networks_title(app_language),
                description: refreshing_networks_description(app_language),
            },
        ),
        PlaceholderState::Scanning { progress, .. } => {
            let description = match progress {
                Some((scanned, total)) => if *total > 0 {
                    scanning_progress_description(app_language, *scanned, *total)
                } else {
                    scanning_description(app_language)
                },
                None => scanning_description(app_language),
            };
            Some(
                PlaceholderCopy {
                    chip_label: scanning_chip_label(app_language),
                    title: scanning_title(app_language),
                    description,
                },
            )
        },
        PlaceholderState::EmptyResults => Some(
            PlaceholderCopy {
                chip_label: empty_results_chip_label(app_language),
                title: empty_results_title(app_language),
                description: empty_results_description(app_language),
            },
        ),
    }
}

/// Whether a device is this machine.
pub open spec fn is_local_device(d: Device, local_ip: Option<Seq<char>>) -> bool {
    local_ip == Some(d.ip@)
}

fn copy_device(d: &Device) -> (r: Device)
    ensures
        r == *d,
{
    Device {
        id: d.id.clone(),
        name: d.name.clone(),
        ip: d.ip.clone(),
        identity_kind: d.identity_kind,
        device_type: d.device_type,
        status: d.status,
    }
}

/// The devices in list order: this machine first, the others after it, each
/// group in the order given.
pub fn order_local_first(devices: &Vec<Device>, local_ip: Option<&str>) -> (r: Vec<Device>)
    ensures
        r@ == devices@.filter(|d: Device| is_local_device(d, opt_str_view(local_ip))) + devices@.filter(
            |d: Device| !is_local_device(d, opt_str_view(local_ip)),
        ),
{
    let ghost local = opt_str_view(local_ip);
    let ghost first = |d: Device| is_local_device(d, local);
    let ghost rest = |d: Device| !is_local_device(d, local);
    let mut head: Vec<Device> = Vec::new();
    let mut tail: Vec<Device> = Vec::new();
    let mut i: usize = 0;
    while i < devices.len()
        invariant
            i <= devices@.len(),
            local == opt_str_view(local_ip),
            first == (|d: Device| is_local_device(d, local)),
            rest == (|d: Device| !is_local_device(d, local)),
            head@ == devices@.subrange(0, i as int).filter(first),
            tail@ == devices@.subrange(0, i as int).filter(rest),
        decreases devices@.len() - i,
    {
        let d = &devices[i];
        proof {
            assert(devices@.subrange(0, i + 1) =~= devices@.subrange(0, i as int).push(*d));
            devices@.subrange(0, i as int).lemma_filter_push(*d, first);
            devices@.subrange(0, i as int).lemma_filter_push(*d, rest);
        }
        let is_local = match local_ip {
            Some(ip) => crate::text::str_eq(ip, d.ip.as_str()),
            None => false,
        };
        if is_local {
            head.push(copy_device(d));
        } else {
            tail.push(copy_device(d));
        }
        i = i + 1;
    }
    assert(devices@.subrange(0, devices@.len() as int) =~= devices@);
    head.append(&mut tail);
    head
}

// ---------------------------------------------------------------------------
// What the result area shows
// ---------------------------------------------------------------------------

/// What the list of the result area shows.
#[derive(Debug, Clone, Copy, PartialEq, Eq, Structural)]
pub enum ResultArea {
    Scanning,
    EmptyResults,
    DeviceTable,
    RefreshingNetworks,
    Idle,
}

/// What the list shows: the scan while one runs with nothing found yet,
/// after a scan the devices or that none were found, else the refreshing of
/// networks while it runs, else the idle state.
pub fn result_area(is_scanning: bool, has_devices: bool, has_scanned: bool, is_refreshing_networks: bool) -> (r:
    ResultArea)
    ensures
        r == if is_scanning && !has_devices {
            ResultArea::Scanning
        } else if has_scanned {
            if has_devices {
                ResultArea::DeviceTable
            } else {
                ResultArea::EmptyResults
            }
        } else if is_refreshing_networks {
            ResultArea::RefreshingNetworks
        } else {
            ResultArea::Idle
        },
{
    if is_scanning && !has_devices {
        ResultArea::Scanning
    } else if has_scanned {
        if has_devices {
            ResultArea::DeviceTable
        } else {
            ResultArea::EmptyResults
        }
    } else if is_refreshing_networks {
        ResultArea::RefreshingNetworks
    } else {
        ResultArea::Idle
    }
}

/// What the detail panel of the result area holds.
#[derive(Debug, Clone, Copy, PartialEq, Eq, Structural)]
pub enum DetailArea {
    Scanning,
    RefreshingNetworks,
    Idle,
    EmptyResults,
    Selected,
    NoSelection,
}

/// What the detail panel holds: the scan while one runs with nothing found
/// yet, the refreshing of networks before any scan, the idle state before
/// any scan, that no devices were found, the selected device, or nothing
/// selected. Only a selected device opens the panel.
pub fn detail_area(
    is_scanning: bool,
    has_devices: bool,
    has_scanned: bool,
    is_refreshing_networks: bool,
    has_selected_device: bool,
) -> (r: DetailArea)
    ensures
        r == if is_scanning && !has_devices {
            DetailArea::Scanning
        } else if is_refreshing_networks && !has_scanned {
            DetailArea::RefreshingNetworks
        } else if !has_scanned {
            DetailArea::Idle
        } else if !has_devices {
            DetailArea::EmptyResults
        } else if has_selected_device {
            DetailArea::Selected
        } else {
            DetailArea::NoSelection
        },
{
    if is_scanning && !has_devices {
        DetailArea::Scanning
    } else if is_refreshing_networks && !has_scanned {
        DetailArea::RefreshingNetworks
    } else if !has_scanned {
        DetailArea::Idle
    } else if !has_devices {
        DetailArea::EmptyResults
    } else if has_selected_device {
        DetailArea::Selected
    } else {
        DetailArea::NoSelection
    }
}

} // verus!
