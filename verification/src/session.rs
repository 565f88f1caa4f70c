//! The state of a scan session as the shell keeps it: the online hosts with
//! their evidence and probe results, the devices shown for the current
//! filter, and the bookkeeping of credential verification. Each event of a
//! scan or a verification is a step from one state to the next; the shell
//! performs the work that a step asks for and reports back.
use vstd::prelude::*;
use crate::identity::{
    evidence_view, opt_string_view, EvidenceView, NeighborEvidence,
};
use crate::order::{ip_sorted, sort_by_ip, stable_sort_of, stable_sort_of_views, string_views, views_of, IpKeyed};
use crate::scanner::{
    build_layered_scan_devices_from_probe_report, device_from_identity_evidence, device_of,
    layered_result, lookup, Device, DeviceStatus, DeviceView, EvidenceByIp, LayeredScanDevice,
    SshPortProbeStatus, TcpProbeReport,
};
use crate::text::str_eq;
use crate::labels::{pick, AppLanguage};

verus! {

/// The stage a running scan is in.
#[derive(Debug, Clone, Copy, PartialEq, Eq, Structural)]
pub enum ScanPhase {
    DiscoverOnline,
    ProbeSsh,
}

/// Which online hosts the result list shows.
#[derive(Debug, Clone, Copy, PartialEq, Eq, Structural)]
pub enum ScanResultFilter {
    AllOnline,
    SshReady,
}

/// What the credential fields hold for verification.
#[derive(Debug, Clone)]
pub enum VerifyCredentialInput {
    Empty,
    PasswordOnly,
    UsernameOnly { username: String },
    UsernamePassword { username: String, password: String },
}

// ---------------------------------------------------------------------------
// Sets of addresses
// ---------------------------------------------------------------------------

/// A set of addresses, each held once.
pub struct IpSet {
    items: Vec<String>,
}

impl View for IpSet {
    type V = Set<Seq<char>>;

    closed spec fn view(&self) -> Set<Seq<char>> {
        string_views(self.items@).to_set()
    }
}

fn position_of(items: &Vec<String>, ip: &str) -> (r: Option<usize>)
    ensures
        r is None <==> !string_views(items@).contains(ip@),
        r matches Some(i) ==> i < items@.len() && items@[i as int]@ == ip@,
{
    let mut i: usize = 0;
    while i < items.len()
        invariant
            i <= items@.len(),
            forall|j: int| 0 <= j < i ==> items@[j]@ != ip@,
        decreases items@.len() - i,
    {
        if str_eq(items[i].as_str(), ip) {
            assert(string_views(items@)[i as int] == ip@);
            return Some(i);
        }
        i = i + 1;
    }
    proof {
        if string_views(items@).contains(ip@) {
            let k = choose|k: int| 0 <= k < string_views(items@).len() && string_views(items@)[k] == ip@;
            assert(items@[k]@ == ip@);
        }
    }
    None
}

impl IpSet {
    #[verifier::type_invariant]
    spec fn held_once(&self) -> bool {
        string_views(self.items@).no_duplicates()
    }

    /// An empty set.
    pub fn new() -> (r: Self)
        ensures
            r@ == Set::<Seq<char>>::empty(),
    {
        let r = IpSet { items: Vec::new() };
        assert(r@ =~= Set::<Seq<char>>::empty());
        r
    }

    /// Whether `ip` is in the set.
    pub fn contains(&self, ip: &str) -> (r: bool)
        ensures
            r == self@.contains(ip@),
    {
        position_of(&self.items, ip).is_some()
    }

    /// The number of addresses in the set.
    pub fn len(&self) -> (r: usize)
        ensures
            r == self@.len(),
    {
        proof {
            use_type_invariant(self);
            string_views(self.items@).unique_seq_to_set();
        }
        self.items.len()
    }

    /// Whether the set is empty.
    pub fn is_empty(&self) -> (r: bool)
        ensures
            r == (self@ == Set::<Seq<char>>::empty()),
    {
        proof {
            if self.items@.len() > 0 {
                assert(self@.contains(string_views(self.items@)[0]));
            } else {
                assert(self@ =~= Set::<Seq<char>>::empty());
            }
        }
        self.items.len() == 0
    }

    /// Adds `ip`; whether it was missing before.
    pub fn insert(&mut self, ip: String) -> (r: bool)
        ensures
            final(self)@ == old(self)@.insert(ip@),
            r == !old(self)@.contains(ip@),
    {
        proof {
            use_type_invariant(&*self);
        }
        if position_of(&self.items, ip.as_str()).is_some() {
            proof {
                assert(self@.insert(ip@) =~= self@);
            }
            return false;
        }
        let ghost before = self.items@;
        let mut items: Vec<String> = Vec::new();
        std::mem::swap(&mut items, &mut self.items);
        items.push(ip);
        proof {
            assert(string_views(items@) =~= string_views(before).push(items@.last()@));
            assert(string_views(items@).no_duplicates());
            assert(string_views(items@).to_set() =~= string_views(before).to_set().insert(
                items@.last()@,
            )) by {
                vstd::seq_lib::lemma_seq_contains_after_push(string_views(before), items@.last()@, items@.last()@);
                assert forall|x: Seq<char>| string_views(items@).contains(x) <==> (string_views(
                    before,
                ).contains(x) || x == items@.last()@) by {
                    vstd::seq_lib::lemma_seq_contains_after_push(string_views(before), items@.last()@, x);
                }
            }
        }
        self.items = items;
        true
    }

    /// Removes `ip`; whether it was there.
    pub fn remove(&mut self, ip: &str) -> (r: bool)
        ensures
            final(self)@ == old(self)@.remove(ip@),
            r == old(self)@.contains(ip@),
    {
        proof {
            use_type_invariant(&*self);
        }
        match position_of(&self.items, ip) {
            None => {
                proof {
                    assert(self@.remove(ip@) =~= self@);
                }
                false
            },
            Some(i) => {
                let ghost before = self.items@;
                let mut items: Vec<String> = Vec::new();
                std::mem::swap(&mut items, &mut self.items);
                items.remove(i);
                proof {
                    let bv = string_views(before);
                    let av = string_views(items@);
                    assert(av =~= bv.remove(i as int));
                    assert(bv.no_duplicates());
                    assert(bv[i as int] == ip@);
                    assert forall|x: Seq<char>| av.contains(x) <==> (bv.contains(x) && x != ip@) by {
                        if av.contains(x) {
                            let k = choose|k: int| 0 <= k < av.len() && av[k] == x;
                            if k < i {
                                assert(bv[k] == x);
                                assert(bv[k] != bv[i as int]);
                            } else {
                                assert(bv[k + 1] == x);
                                assert(bv[k + 1] != bv[i as int]);
                            }
                        }
                        if bv.contains(x) && x != ip@ {
                            let k = choose|k: int| 0 <= k < bv.len() && bv[k] == x;
                            assert(k != i);
                            if k < i {
                                assert(av[k] == x);
                            } else {
                                assert(av[k - 1] == x);
                            }
                        }
                    }
                    assert(av.to_set() =~= bv.to_set().remove(ip@));
                }
                self.items = items;
                true
            },
        }
    }

    /// Removes every address.
    pub fn clear(&mut self)
        ensures
            final(self)@ == Set::<Seq<char>>::empty(),
    {
        self.items = Vec::new();
        assert(self@ =~= Set::<Seq<char>>::empty());
    }
}

// ---------------------------------------------------------------------------
// Results of a scan
// ---------------------------------------------------------------------------

/// The hosts found by the current scan and what the result list shows.
pub struct ScanResults {
    pub online_devices: Vec<LayeredScanDevice>,
    pub online_evidence_by_ip: EvidenceByIp,
    pub devices: Vec<Device>,
    pub scan_result_filter: ScanResultFilter,
    pub selected_device_id: Option<String>,
}

/// Whether the filter shows an online entry.
pub open spec fn shown(e: LayeredScanDevice, filter: ScanResultFilter) -> bool {
    filter == ScanResultFilter::AllOnline || e.ssh_port_status == SshPortProbeStatus::Open
}

/// The devices of the entries that the filter shows, in order.
pub open spec fn shown_devices(online: Seq<LayeredScanDevice>, filter: ScanResultFilter) -> Seq<DeviceView> {
    online.filter(|e: LayeredScanDevice| shown(e, filter)).map_values(|e: LayeredScanDevice| e.device@)
}

/// The selection kept when the shown devices change: the selected id stays
/// only if a shown device still has it.
pub open spec fn kept_selection(selected: Option<Seq<char>>, devices: Seq<Device>) -> Option<Seq<char>> {
    match selected {
        Some(id) => if exists|k: int| 0 <= k < devices.len() && (#[trigger] devices[k]).id@ == id {
            Some(id)
        } else {
            None
        },
        None => None,
    }
}

/// The shown list agrees with the online entries: it holds the devices that
/// the filter shows, in scan-result order.
pub open spec fn shows_online(r: ScanResults) -> bool {
    &&& views_of(r.devices@).to_multiset() == shown_devices(r.online_devices@, r.scan_result_filter).to_multiset()
    &&& ip_sorted(r.devices@)
}

/// A copy of a device.
fn copy_device(d: &Device) -> (r: Device)
    ensures
        r@ == d@,
{
    Device {
        id: d.id.clone(),
        name: d.name.clone(),
        ip: d.ip.clone(),
        identity_kind: d.identity_kind,
        device_type: d.device_type,
        status: d.status,
    }
}

/// The devices of the entries that satisfy `keep`, copied, in order.
fn devices_where(online: &Vec<LayeredScanDevice>, filter: ScanResultFilter) -> (r: Vec<Device>)
    ensures
        views_of(r@) == shown_devices(online@, filter),
{
    let ghost pred = |e: LayeredScanDevice| shown(e, filter);
    let mut r: Vec<Device> = Vec::new();
    let mut i: usize = 0;
    while i < online.len()
        invariant
            i <= online@.len(),
            pred == (|e: LayeredScanDevice| shown(e, filter)),
            views_of(r@) == online@.subrange(0, i as int).filter(pred).map_values(
                |e: LayeredScanDevice| e.device@,
            ),
        decreases online@.len() - i,
    {
        let e = &online[i];
        proof {
            assert(online@.subrange(0, i + 1) =~= online@.subrange(0, i as int).push(*e));
            online@.subrange(0, i as int).lemma_filter_push(*e, pred);
        }
        let keep = match filter {
            ScanResultFilter::AllOnline => true,
            ScanResultFilter::SshReady => match e.ssh_port_status {
                SshPortProbeStatus::Open => true,
                _ => false,
            },
        };
        if keep {
            let ghost before = r@;
            r.push(copy_device(&e.device));
            proof {
                assert(views_of(r@) =~= views_of(before).push(e.device@));
                assert(online@.subrange(0, i + 1).filter(pred).map_values(
                    |e: LayeredScanDevice| e.device@,
                ) =~= online@.subrange(0, i as int).filter(pred).map_values(
                    |e: LayeredScanDevice| e.device@,
                ).push(e.device@));
            }
        } else {
            proof {
                assert(online@.subrange(0, i + 1).filter(pred) == online@.subrange(0, i as int).filter(pred));
            }
        }
        i = i + 1;
    }
    assert(online@.subrange(0, online@.len() as int) =~= online@);
    r
}

fn has_device_id(devices: &Vec<Device>, id: &String) -> (r: bool)
    ensures
        r == exists|k: int| 0 <= k < devices@.len() && (#[trigger] devices@[k]).id@ == id@,
{
    let mut i: usize = 0;
    while i < devices.len()
        invariant
            i <= devices@.len(),
            forall|k: int| 0 <= k < i ==> (#[trigger] devices@[k]).id@ != id@,
        decreases devices@.len() - i,
    {
        if devices[i].id == *id {
            return true;
        }
        i = i + 1;
    }
    false
}

impl ScanResults {
    /// Results with no hosts, showing all online hosts.
    pub fn new() -> (r: Self)
        ensures
            r.online_devices@.len() == 0,
            r.online_evidence_by_ip@ == Map::<Seq<char>, EvidenceView>::empty(),
            r.devices@.len() == 0,
            r.scan_result_filter == ScanResultFilter::AllOnline,
            r.selected_device_id is None,
            shows_online(r),
    {
        let r = ScanResults {
            online_devices: Vec::new(),
            online_evidence_by_ip: EvidenceByIp::new(),
            devices: Vec::new(),
            scan_result_filter: ScanResultFilter::AllOnline,
            selected_device_id: None,
        };
        proof {
            assert(views_of(r.devices@) =~= Seq::<DeviceView>::empty());
            let pred = |e: LayeredScanDevice| shown(e, ScanResultFilter::AllOnline);
            assert(r.online_devices@.filter(pred) =~= Seq::<LayeredScanDevice>::empty()) by {
                reveal_with_fuel(Seq::filter, 1);
            }
            assert(shown_devices(r.online_devices@, r.scan_result_filter) =~= Seq::<DeviceView>::empty());
        }
        r
    }

    /// Rebuilds the shown list from the online entries under the filter, in
    /// scan-result order, and drops a selection that is no longer shown.
    pub fn rebuild_visible_devices_from_online(&mut self)
        ensures
            final(self).online_devices == old(self).online_devices,
            final(self).online_evidence_by_ip == old(self).online_evidence_by_ip,
            final(self).scan_result_filter == old(self).scan_result_filter,
            shows_online(*final(self)),
            stable_sort_of_views(
                shown_devices(final(self).online_devices@, final(self).scan_result_filter),
                final(self).devices@,
            ),
            opt_string_view(final(self).selected_device_id) == kept_selection(
                opt_string_view(old(self).selected_device_id),
                final(self).devices@,
            ),
    {
        let mut devices = devices_where(&self.online_devices, self.scan_result_filter);
        let ghost unsorted = devices@;
        crate::scanner::sort_devices_by_ip(&mut devices);
        assert(views_of(unsorted) == shown_devices(self.online_devices@, self.scan_result_filter)
            && stable_sort_of(unsorted, devices@));
        self.devices = devices;
        let selected = self.selected_device_id.take();
        self.selected_device_id = match selected {
            Some(id) => if has_device_id(&self.devices, &id) {
                Some(id)
            } else {
                None
            },
            None => None,
        };
    }

    /// Switches the result list to `filter`. Choosing the filter already in
    /// use changes nothing; another one rebuilds the shown list under it.
    pub fn select_scan_result_filter(&mut self, filter: ScanResultFilter)
        ensures
            final(self).online_devices == old(self).online_devices,
            final(self).online_evidence_by_ip == old(self).online_evidence_by_ip,
            final(self).scan_result_filter == filter,
            filter == old(self).scan_result_filter ==> *final(self) == *old(self),
            filter != old(self).scan_result_filter ==> {
                &&& shows_online(*final(self))
                &&& stable_sort_of_views(shown_devices(final(self).online_devices@, filter), final(self).devices@)
                &&& opt_string_view(final(self).selected_device_id) == kept_selection(
                    opt_string_view(old(self).selected_device_id),
                    final(self).devices@,
                )
            },
    {
        if self.scan_result_filter != filter {
            self.scan_result_filter = filter;
            self.rebuild_visible_devices_from_online();
        }
    }

    /// The devices of the online entries whose SSH port is open, in order.
    pub fn ssh_ready_devices(&self) -> (r: Vec<Device>)
        ensures
            views_of(r@) == shown_devices(self.online_devices@, ScanResultFilter::SshReady),
    {
        devices_where(&self.online_devices, ScanResultFilter::SshReady)
    }
}

/// The position of the first online entry for `ip`, or -1.
pub open spec fn first_ip_index(s: Seq<LayeredScanDevice>, ip: Seq<char>) -> int
    decreases s.len(),
{
    if s.len() == 0 {
        -1
    } else {
        let f = first_ip_index(s.drop_last(), ip);
        if f >= 0 {
            f
        } else if s.last().device.ip@ == ip {
            s.len() - 1
        } else {
            -1
        }
    }
}

/// The position of the last online entry for `ip`, or -1.
pub open spec fn last_ip_index(s: Seq<LayeredScanDevice>, ip: Seq<char>) -> int
    decreases s.len(),
{
    if s.len() == 0 {
        -1
    } else if s.last().device.ip@ == ip {
        s.len() - 1
    } else {
        last_ip_index(s.drop_last(), ip)
    }
}

proof fn lemma_first_ip_index(s: Seq<LayeredScanDevice>, ip: Seq<char>, i: int)
    requires
        0 <= i <= s.len(),
        forall|k: int| 0 <= k < i ==> (#[trigger] s[k]).device.ip@ != ip,
        i < s.len() ==> s[i].device.ip@ == ip,
    ensures
        first_ip_index(s, ip) == if i < s.len() { i } else { -1 },
    decreases s.len(),
{
    if s.len() > 0 {
        let t = s.drop_last();
        if i < s.len() - 1 {
            assert(t[i] == s[i]);
            assert forall|k: int| 0 <= k < i implies (#[trigger] t[k]).device.ip@ != ip by {
                assert(t[k] == s[k]);
            }
            lemma_first_ip_index(t, ip, i);
        } else {
            assert forall|k: int| 0 <= k < t.len() implies (#[trigger] t[k]).device.ip@ != ip by {
                assert(t[k] == s[k]);
            }
            lemma_first_ip_index(t, ip, t.len() as int);
        }
    }
}

proof fn lemma_last_ip_index(s: Seq<LayeredScanDevice>, ip: Seq<char>, j: int)
    requires
        -1 <= j < s.len(),
        forall|k: int| j < k < s.len() ==> (#[trigger] s[k]).device.ip@ != ip,
        j >= 0 ==> s[j].device.ip@ == ip,
    ensures
        last_ip_index(s, ip) == j,
    decreases s.len(),
{
    if s.len() > 0 && j < s.len() - 1 {
        let t = s.drop_last();
        assert(s[s.len() - 1].device.ip@ != ip);
        assert forall|k: int| j < k < t.len() implies (#[trigger] t[k]).device.ip@ != ip by {
            assert(t[k] == s[k]);
        }
        if j >= 0 {
            assert(t[j] == s[j]);
        }
        lemma_last_ip_index(t, ip, j);
    }
}

fn find_first_ip(online: &Vec<LayeredScanDevice>, ip: &str) -> (r: Option<usize>)
    ensures
        match r {
            Some(i) => i == first_ip_index(online@, ip@) && i < online@.len(),
            None => first_ip_index(online@, ip@) == -1,
        },
{
    let mut i: usize = 0;
    while i < online.len()
        invariant
            i <= online@.len(),
            forall|k: int| 0 <= k < i ==> (#[trigger] online@[k]).device.ip@ != ip@,
        decreases online@.len() - i,
    {
        if str_eq(online[i].device.ip.as_str(), ip) {
            proof {
                lemma_first_ip_index(online@, ip@, i as int);
            }
            return Some(i);
        }
        i = i + 1;
    }
    proof {
        lemma_first_ip_index(online@, ip@, online@.len() as int);
    }
    None
}

fn find_last_ip(online: &Vec<LayeredScanDevice>, ip: &str) -> (r: Option<usize>)
    ensures
        match r {
            Some(i) => i == last_ip_index(online@, ip@) && i < online@.len(),
            None => last_ip_index(online@, ip@) == -1,
        },
{
    let mut i: usize = online.len();
    while i > 0
        invariant
            i <= online@.len(),
            forall|k: int| i <= k < online@.len() ==> (#[trigger] online@[k]).device.ip@ != ip@,
        decreases i,
    {
        if str_eq(online[i - 1].device.ip.as_str(), ip) {
            proof {
                lemma_last_ip_index(online@, ip@, i - 1);
            }
            return Some(i - 1);
        }
        i = i - 1;
    }
    proof {
        lemma_last_ip_index(online@, ip@, -1);
    }
    None
}

/// A device with another status.
pub open spec fn with_status(d: DeviceView, status: DeviceStatus) -> DeviceView {
    DeviceView {
        id: d.id,
        name: d.name,
        ip: d.ip,
        identity_kind: d.identity_kind,
        device_type: d.device_type,
        status,
    }
}

impl ScanResults {
    /// The addresses of the online entries whose SSH port was not probed yet,
    /// in order.
    pub fn pending_ssh_probe_ips(&self) -> (r: Vec<String>)
        ensures
            string_views(r@) == self.online_devices@.filter(
                |e: LayeredScanDevice| e.ssh_port_status == SshPortProbeStatus::Unchecked,
            ).map_values(|e: LayeredScanDevice| e.device.ip@),
    {
        let ghost pred = |e: LayeredScanDevice| e.ssh_port_status == SshPortProbeStatus::Unchecked;
        let online = &self.online_devices;
        let mut r: Vec<String> = Vec::new();
        let mut i: usize = 0;
        while i < online.len()
            invariant
                i <= online@.len(),
                pred == (|e: LayeredScanDevice| e.ssh_port_status == SshPortProbeStatus::Unchecked),
                string_views(r@) == online@.subrange(0, i as int).filter(pred).map_values(
                    |e: LayeredScanDevice| e.device.ip@,
                ),
            decreases online@.len() - i,
        {
            let e = &online[i];
            proof {
                assert(online@.subrange(0, i + 1) =~= online@.subrange(0, i as int).push(*e));
                online@.subrange(0, i as int).lemma_filter_push(*e, pred);
            }
            if let SshPortProbeStatus::Unchecked = e.ssh_port_status {
                let ghost before = r@;
                r.push(e.device.ip.clone());
                proof {
                    assert(string_views(r@) =~= string_views(before).push(e.device.ip@));
                    assert(online@.subrange(0, i + 1).filter(pred).map_values(
                        |e: LayeredScanDevice| e.device.ip@,
                    ) =~= online@.subrange(0, i as int).filter(pred).map_values(
                        |e: LayeredScanDevice| e.device.ip@,
                    ).push(e.device.ip@));
                }
            }
            i = i + 1;
        }
        assert(online@.subrange(0, online@.len() as int) =~= online@);
        r
    }

    /// The SSH port status of the first online entry for `ip`.
    pub fn ssh_port_status_for_ip(&self, ip: &str) -> (r: Option<SshPortProbeStatus>)
        ensures
            r == if first_ip_index(self.online_devices@, ip@) >= 0 {
                Some(self.online_devices@[first_ip_index(self.online_devices@, ip@)].ssh_port_status)
            } else {
                None
            },
    {
        match find_first_ip(&self.online_devices, ip) {
            Some(i) => Some(self.online_devices[i].ssh_port_status),
            None => None,
        }
    }

    /// Marks every online device untested again and rebuilds the shown list.
    pub fn reset_device_statuses(&mut self)
        ensures
            final(self).online_devices@.len() == old(self).online_devices@.len(),
            forall|k: int|
                0 <= k < old(self).online_devices@.len() ==> (#[trigger] final(self).online_devices@[k])@
                    == (
                    with_status(old(self).online_devices@[k].device@, DeviceStatus::Untested),
                    old(self).online_devices@[k].ssh_port_status,
                ),
            final(self).online_evidence_by_ip == old(self).online_evidence_by_ip,
            final(self).scan_result_filter == old(self).scan_result_filter,
            shows_online(*final(self)),
            opt_string_view(final(self).selected_device_id) == kept_selection(
                opt_string_view(old(self).selected_device_id),
                final(self).devices@,
            ),
    {
        let ghost orig = self.online_devices@;
        let mut src: Vec<LayeredScanDevice> = Vec::new();
        std::mem::swap(&mut src, &mut self.online_devices);
        let mut out: Vec<LayeredScanDevice> = Vec::new();
        let ghost mut k: int = 0;
        while src.len() > 0
            invariant
                0 <= k <= orig.len(),
                src@ == orig.subrange(k, orig.len() as int),
                out@.len() == k,
                forall|j: int|
                    0 <= j < k ==> (#[trigger] out@[j])@ == (
                        with_status(orig[j].device@, DeviceStatus::Untested),
                        orig[j].ssh_port_status,
                    ),
            decreases src.len(),
        {
            let mut e = src.remove(0);
            proof {
                assert(e == orig[k]);
                assert(src@ =~= orig.subrange(k + 1, orig.len() as int));
            }
            e.device.status = DeviceStatus::Untested;
            out.push(e);
            proof {
                k = k + 1;
            }
        }
        self.online_devices = out;
        self.rebuild_visible_devices_from_online();
    }

    /// Sets the status of the first online device for `ip` and rebuilds the
    /// shown list.
    pub fn update_device_status(&mut self, ip: &str, status: DeviceStatus)
        ensures
            final(self).online_devices@.len() == old(self).online_devices@.len(),
            forall|k: int|
                0 <= k < old(self).online_devices@.len() ==> (#[trigger] final(self).online_devices@[k])@
                    == if k == first_ip_index(old(self).online_devices@, ip@) {
                    (with_status(old(self).online_devices@[k].device@, status), old(self).online_devices@[k].ssh_port_status)
                } else {
                    old(self).online_devices@[k]@
                },
            final(self).online_evidence_by_ip == old(self).online_evidence_by_ip,
            final(self).scan_result_filter == old(self).scan_result_filter,
            shows_online(*final(self)),
            opt_string_view(final(self).selected_device_id) == kept_selection(
                opt_string_view(old(self).selected_device_id),
                final(self).devices@,
            ),
    {
        let ghost orig = self.online_devices@;
        if let Some(i) = find_first_ip(&self.online_devices, ip) {
            let mut e = self.online_devices.remove(i);
            e.device.status = status;
            self.online_devices.insert(i, e);
            proof {
                assert forall|k: int| 0 <= k < orig.len() && k != i implies self.online_devices@[k] == orig[k] by {
                    if k < i {
                        assert(self.online_devices@[k] == orig.remove(i as int)[k]);
                    } else {
                        assert(self.online_devices@[k] == orig.remove(i as int)[k - 1]);
                    }
                }
            }
        }
        self.rebuild_visible_devices_from_online();
    }
}

// ---------------------------------------------------------------------------
// Evidence gathered over a scan
// ---------------------------------------------------------------------------

/// The first of two optional values that is present.
pub open spec fn first_present(a: Option<Seq<char>>, b: Option<Seq<char>>) -> Option<Seq<char>> {
    if a is Some {
        a
    } else {
        b
    }
}

/// Evidence completed by later evidence: each field keeps what it held and
/// takes the later value only where it held nothing.
pub open spec fn merged_evidence(current: EvidenceView, incoming: EvidenceView) -> EvidenceView {
    EvidenceView {
        mac_address: first_present(current.mac_address, incoming.mac_address),
        hostname: first_present(current.hostname, incoming.hostname),
        mdns_name: first_present(current.mdns_name, incoming.mdns_name),
        dns_name: first_present(current.dns_name, incoming.dns_name),
        smb_name: first_present(current.smb_name, incoming.smb_name),
        smb_domain: first_present(current.smb_domain, incoming.smb_domain),
    }
}

/// Fills the fields of `current` that hold nothing from `incoming`.
pub fn merge_neighbor_evidence(current: &mut NeighborEvidence, incoming: NeighborEvidence)
    ensures
        final(current)@ == merged_evidence(old(current)@, incoming@),
{
    let incoming = incoming;
    if current.mac_address.is_none() && incoming.mac_address.is_some() {
        current.mac_address = incoming.mac_address;
    }
    if current.hostname.is_none() && incoming.hostname.is_some() {
        current.hostname = incoming.hostname;
    }
    if current.mdns_name.is_none() && incoming.mdns_name.is_some() {
        current.mdns_name = incoming.mdns_name;
    }
    if current.dns_name.is_none() && incoming.dns_name.is_some() {
        current.dns_name = incoming.dns_name;
    }
    if current.smb_name.is_none() && incoming.smb_name.is_some() {
        current.smb_name = incoming.smb_name;
    }
    if current.smb_domain.is_none() && incoming.smb_domain.is_some() {
        current.smb_domain = incoming.smb_domain;
    }
}

/// Merging keeps every field that was present, fills every missing field
/// with what the incoming evidence holds for it, and merging the same
/// evidence again changes nothing.
pub proof fn lemma_merge_keeps_and_settles(current: EvidenceView, incoming: EvidenceView)
    ensures
        current.mac_address is None ==> merged_evidence(current, incoming).mac_address == incoming.mac_address,
        current.hostname is None ==> merged_evidence(current, incoming).hostname == incoming.hostname,
        current.mdns_name is None ==> merged_evidence(current, incoming).mdns_name == incoming.mdns_name,
        current.dns_name is None ==> merged_evidence(current, incoming).dns_name == incoming.dns_name,
        current.smb_name is None ==> merged_evidence(current, incoming).smb_name == incoming.smb_name,
        current.smb_domain is None ==> merged_evidence(current, incoming).smb_domain == incoming.smb_domain,
        current.mac_address is Some ==> merged_evidence(current, incoming).mac_address == current.mac_address,
        current.hostname is Some ==> merged_evidence(current, incoming).hostname == current.hostname,
        current.mdns_name is Some ==> merged_evidence(current, incoming).mdns_name == current.mdns_name,
        current.dns_name is Some ==> merged_evidence(current, incoming).dns_name == current.dns_name,
        current.smb_name is Some ==> merged_evidence(current, incoming).smb_name == current.smb_name,
        current.smb_domain is Some ==> merged_evidence(current, incoming).smb_domain == current.smb_domain,
        merged_evidence(merged_evidence(current, incoming), incoming) == merged_evidence(current, incoming),
{
}

/// Two evidence maps merged address by address.
pub open spec fn merged_maps(
    current: Map<Seq<char>, EvidenceView>,
    incoming: Map<Seq<char>, EvidenceView>,
) -> Map<Seq<char>, EvidenceView> {
    Map::new(
        |k: Seq<char>| current.dom().contains(k) || incoming.dom().contains(k),
        |k: Seq<char>|
            if current.dom().contains(k) && incoming.dom().contains(k) {
                merged_evidence(current[k], incoming[k])
            } else if current.dom().contains(k) {
                current[k]
            } else {
                incoming[k]
            },
    )
}

/// Whether the evidence held for an address has a MAC address.
pub open spec fn has_mac(m: Map<Seq<char>, EvidenceView>, ip: Seq<char>) -> bool {
    match lookup(m, ip) {
        Some(e) => e.mac_address is Some,
        None => false,
    }
}

/// An entry whose device status is restored from the previous entries when
/// the new one comes untested.
pub open spec fn restored_entry(
    e: (DeviceView, SshPortProbeStatus),
    previous: Seq<LayeredScanDevice>,
) -> (DeviceView, SshPortProbeStatus) {
    let j = last_ip_index(previous, e.0.ip);
    if e.0.status == DeviceStatus::Untested && j >= 0 {
        (with_status(e.0, previous[j].device.status), e.1)
    } else {
        e
    }
}

/// A device that arrives untested keeps the status its address had.
pub open spec fn status_kept(d: DeviceView, previous: DeviceStatus) -> DeviceView {
    if d.status == DeviceStatus::Untested && previous != DeviceStatus::Untested {
        with_status(d, previous)
    } else {
        d
    }
}

/// The online entries after taking in `device`: an entry for a known
/// address is replaced in place, keeping its status when the new one comes
/// untested; a new address is added, and the list kept in scan-result order.
pub open spec fn upserted(
    old_online: Seq<LayeredScanDevice>,
    device: LayeredScanDevice,
    new_online: Seq<LayeredScanDevice>,
) -> bool {
    let i = first_ip_index(old_online, device.device.ip@);
    if i == -1 {
        &&& views_of(new_online).to_multiset() == views_of(old_online).to_multiset().insert(device@)
        &&& ip_sorted(new_online)
    } else {
        &&& new_online.len() == old_online.len()
        &&& forall|k: int|
            0 <= k < old_online.len() ==> (#[trigger] new_online[k])@ == if k == i {
                (status_kept(device.device@, old_online[i].device.status), device.ssh_port_status)
            } else {
                old_online[k]@
            }
    }
}

impl ScanResults {
    /// Merges newly gathered evidence into the evidence of the scan.
    pub fn merge_online_evidence(&mut self, evidence_by_ip: EvidenceByIp)
        ensures
            final(self).online_evidence_by_ip@ == merged_maps(
                old(self).online_evidence_by_ip@,
                evidence_by_ip@,
            ),
            final(self).online_devices == old(self).online_devices,
            final(self).devices == old(self).devices,
            final(self).scan_result_filter == old(self).scan_result_filter,
            final(self).selected_device_id == old(self).selected_device_id,
    {
        let ghost start = self.online_evidence_by_ip@;
        let ghost incoming = evidence_by_ip@;
        let ghost online = self.online_devices;
        let ghost shown = self.devices;
        let ghost filter = self.scan_result_filter;
        let ghost selected = self.selected_device_id;
        let entries = evidence_by_ip.into_entries();
        let mut i: usize = 0;
        while i < entries.len()
            invariant
                i <= entries@.len(),
                crate::scanner::distinct_keys(entries@),
                crate::scanner::entries_map(entries@) == incoming,
                self.online_devices == online,
                self.devices == shown,
                self.scan_result_filter == filter,
                self.selected_device_id == selected,
                self.online_evidence_by_ip@ == merged_maps(
                    start,
                    crate::scanner::entries_map(entries@.subrange(0, i as int)),
                ),
            decreases entries@.len() - i,
        {
            let ip = entries[i].0.clone();
            let incoming_entry = crate::scanner::duplicate_evidence(&entries[i].1);
            let ghost prefix = entries@.subrange(0, i as int);
            let ghost key = entries@[i as int].0@;
            let ghost value = entries@[i as int].1@;
            proof {
                assert(crate::scanner::distinct_keys(prefix)) by {
                    assert forall|a: int, b: int|
                        0 <= a < prefix.len() && 0 <= b < prefix.len() && a != b implies (
                        #[trigger] prefix[a]).0@ != (#[trigger] prefix[b]).0@ by {
                        assert(prefix[a] == entries@[a] && prefix[b] == entries@[b]);
                    }
                }
                assert(!crate::scanner::has_key(prefix, key)) by {
                    if crate::scanner::has_key(prefix, key) {
                        let a = choose|a: int| 0 <= a < prefix.len() && (#[trigger] prefix[a]).0@ == key;
                        assert(prefix[a] == entries@[a]);
                        assert(entries@[a].0@ != entries@[i as int].0@);
                    }
                }
                assert(entries@.subrange(0, i + 1) =~= prefix.push(entries@[i as int]));
                crate::scanner::lemma_entries_push_distinct(prefix, entries@[i as int]);
            }
            match self.online_evidence_by_ip.remove(ip.as_str()) {
                Some(current) => {
                    let mut current = current;
                    merge_neighbor_evidence(&mut current, incoming_entry);
                    self.online_evidence_by_ip.insert(ip, current);
                },
                None => {
                    self.online_evidence_by_ip.insert(ip, incoming_entry);
                },
            }
            proof {
                let m = crate::scanner::entries_map(prefix);
                assert(self.online_evidence_by_ip@ =~= merged_maps(start, m.insert(key, value)));
            }
            i = i + 1;
        }
        assert(entries@.subrange(0, entries@.len() as int) =~= entries@);
    }

    /// Puts a discovered entry in the online list: an entry for a known
    /// address replaces it, keeping its status if the new one comes
    /// untested; a new address is added in scan-result order. Whether the
    /// address was new.
    pub fn upsert_layered_scan_device(&mut self, device: LayeredScanDevice) -> (inserted: bool)
        ensures
            inserted == (first_ip_index(old(self).online_devices@, device.device.ip@) == -1),
            upserted(old(self).online_devices@, device, final(self).online_devices@),
            final(self).online_evidence_by_ip == old(self).online_evidence_by_ip,
            final(self).scan_result_filter == old(self).scan_result_filter,
            shows_online(*final(self)),
            opt_string_view(final(self).selected_device_id) == kept_selection(
                opt_string_view(old(self).selected_device_id),
                final(self).devices@,
            ),
    {
        let ghost orig = self.online_devices@;
        let ghost dev = device;
        match find_first_ip(&self.online_devices, device.device.ip.as_str()) {
            Some(i) => {
                let existing = self.online_devices.remove(i);
                let preserved_status = existing.device.status;
                let mut entry = device;
                if entry.device.status == DeviceStatus::Untested && preserved_status != DeviceStatus::Untested {
                    entry.device.status = preserved_status;
                }
                self.online_devices.insert(i, entry);
                proof {
                    assert forall|k: int| 0 <= k < orig.len() && k != i implies self.online_devices@[k] == orig[k] by {
                        if k < i {
                            assert(self.online_devices@[k] == orig.remove(i as int)[k]);
                        } else {
                            assert(self.online_devices@[k] == orig.remove(i as int)[k - 1]);
                        }
                    }
                    assert(self.online_devices@[i as int]@ == (
                        status_kept(dev.device@, orig[i as int].device.status),
                        dev.ssh_port_status,
                    ));
                    assert(upserted(orig, dev, self.online_devices@));
                }
                self.rebuild_visible_devices_from_online();
                false
            },
            None => {
                let ghost d = device@;
                self.online_devices.push(device);
                proof {
                    assert(views_of(self.online_devices@) =~= views_of(orig).push(d));
                    vstd::seq_lib::lemma_multiset_commutative(views_of(orig), seq![d]);
                    assert(views_of(orig).push(d) =~= views_of(orig) + seq![d]);
                    assert(seq![d].to_multiset() =~= vstd::multiset::Multiset::empty().insert(d)) by {
                        broadcast use vstd::seq_lib::group_to_multiset_ensures;
                        assert(seq![d] =~= Seq::<(DeviceView, SshPortProbeStatus)>::empty().push(d));
                    }
                    let mo = views_of(orig).to_multiset();
                    assert(mo.add(vstd::multiset::Multiset::empty().insert(d)) =~= mo.insert(d));
                    assert(views_of(self.online_devices@).to_multiset() == mo.insert(d));
                }
                let ghost pushed = self.online_devices@;
                sort_by_ip(&mut self.online_devices);
                proof {
                    assert(views_of(self.online_devices@).to_multiset() == views_of(pushed).to_multiset());
                    assert(d == dev@);
                    assert(first_ip_index(orig, dev.device.ip@) == -1);
                }
                assert(upserted(orig, dev, self.online_devices@));
                self.rebuild_visible_devices_from_online();
                true
            },
        }
    }

    /// Replaces the online entries with a new probe result; an entry that
    /// comes untested takes the status its address had.
    pub fn replace_online_devices(&mut self, devices: Vec<LayeredScanDevice>)
        ensures
            views_of(final(self).online_devices@).to_multiset() == views_of(devices@).map_values(
                |e: (DeviceView, SshPortProbeStatus)| restored_entry(e, old(self).online_devices@),
            ).to_multiset(),
            ip_sorted(final(self).online_devices@),
            final(self).online_evidence_by_ip == old(self).online_evidence_by_ip,
            final(self).scan_result_filter == old(self).scan_result_filter,
            shows_online(*final(self)),
            opt_string_view(final(self).selected_device_id) == kept_selection(
                opt_string_view(old(self).selected_device_id),
                final(self).devices@,
            ),
    {
        let ghost previous = self.online_devices@;
        let ghost incoming = devices@;
        let ghost f = |e: (DeviceView, SshPortProbeStatus)| restored_entry(e, previous);
        let mut src = devices;
        let mut out: Vec<LayeredScanDevice> = Vec::new();
        let ghost mut k: int = 0;
        while src.len() > 0
            invariant
                0 <= k <= incoming.len(),
                src@ == incoming.subrange(k, incoming.len() as int),
                self.online_devices@ == previous,
                f == (|e: (DeviceView, SshPortProbeStatus)| restored_entry(e, previous)),
                views_of(out@) == views_of(incoming.subrange(0, k)).map_values(f),
            decreases src.len(),
        {
            let mut e = src.remove(0);
            proof {
                assert(e == incoming[k]);
                assert(src@ =~= incoming.subrange(k + 1, incoming.len() as int));
            }
            if let DeviceStatus::Untested = e.device.status {
                if let Some(j) = find_last_ip(&self.online_devices, e.device.ip.as_str()) {
                    e.device.status = self.online_devices[j].device.status;
                }
            }
            let ghost before = out@;
            out.push(e);
            proof {
                assert(views_of(out@) =~= views_of(before).push(e@));
                assert(incoming.subrange(0, k + 1) =~= incoming.subrange(0, k).push(incoming[k]));
                assert(views_of(incoming.subrange(0, k + 1)).map_values(f) =~= views_of(
                    incoming.subrange(0, k),
                ).map_values(f).push(f(incoming[k]@)));
                k = k + 1;
            }
        }
        proof {
            assert(incoming.subrange(0, k) =~= incoming);
        }
        sort_by_ip(&mut out);
        self.online_devices = out;
        self.rebuild_visible_devices_from_online();
    }

    /// Rebuilds each online device from the evidence now held for its
    /// address, keeping the status its address had, and rebuilds the shown
    /// list.
    pub fn refresh_online_device_identity(&mut self)
        ensures
            final(self).online_devices@.len() == old(self).online_devices@.len(),
            forall|k: int|
                0 <= k < old(self).online_devices@.len() ==> {
                    let e = old(self).online_devices@[k];
                    let ip = e.device.ip@;
                    (#[trigger] final(self).online_devices@[k])@ == (
                        with_status(
                            device_of(ip, lookup(old(self).online_evidence_by_ip@, ip)),
                            old(self).online_devices@[last_ip_index(old(self).online_devices@, ip)].device.status,
                        ),
                        e.ssh_port_status,
                    )
                },
            final(self).online_evidence_by_ip == old(self).online_evidence_by_ip,
            final(self).scan_result_filter == old(self).scan_result_filter,
            shows_online(*final(self)),
            opt_string_view(final(self).selected_device_id) == kept_selection(
                opt_string_view(old(self).selected_device_id),
                final(self).devices@,
            ),
    {
        let ghost orig = self.online_devices@;
        let mut src: Vec<LayeredScanDevice> = Vec::new();
        std::mem::swap(&mut src, &mut self.online_devices);
        let mut out: Vec<LayeredScanDevice> = Vec::new();
        let mut i: usize = 0;
        while i < src.len()
            invariant
                i <= src@.len(),
                src@ == orig,
                out@.len() == i,
                forall|j: int|
                    0 <= j < i ==> {
                        let e = orig[j];
                        let ip = e.device.ip@;
                        (#[trigger] out@[j])@ == (
                            with_status(
                                device_of(ip, lookup(self.online_evidence_by_ip@, ip)),
                                orig[last_ip_index(orig, ip)].device.status,
                            ),
                            e.ssh_port_status,
                        )
                    },
            decreases src@.len() - i,
        {
            let ip = src[i].device.ip.clone();
            let mut refreshed = device_from_identity_evidence(
                ip.clone(),
                self.online_evidence_by_ip.get(ip.as_str()),
            );
            match find_last_ip(&src, ip.as_str()) {
                Some(j) => {
                    refreshed.status = src[j].device.status;
                },
                None => {
                    proof {
                        lemma_last_ip_index_found(orig, ip@, i as int);
                    }
                },
            }
            proof {
                lemma_last_ip_index_found(orig, ip@, i as int);
            }
            out.push(LayeredScanDevice { device: refreshed, ssh_port_status: src[i].ssh_port_status });
            i = i + 1;
        }
        self.online_devices = out;
        self.rebuild_visible_devices_from_online();
    }

    /// The addresses of the online entries whose evidence has no MAC address.
    pub fn missing_mac_candidate_ips(&self) -> (r: Vec<String>)
        ensures
            string_views(r@) == self.online_devices@.filter(
                |e: LayeredScanDevice| !has_mac(self.online_evidence_by_ip@, e.device.ip@),
            ).map_values(|e: LayeredScanDevice| e.device.ip@),
    {
        let ghost m = self.online_evidence_by_ip@;
        let ghost pred = |e: LayeredScanDevice| !has_mac(m, e.device.ip@);
        let online = &self.online_devices;
        let mut r: Vec<String> = Vec::new();
        let mut i: usize = 0;
        while i < online.len()
            invariant
                i <= online@.len(),
                m == self.online_evidence_by_ip@,
                pred == (|e: LayeredScanDevice| !has_mac(m, e.device.ip@)),
                string_views(r@) == online@.subrange(0, i as int).filter(pred).map_values(
                    |e: LayeredScanDevice| e.device.ip@,
                ),
            decreases online@.len() - i,
        {
            let e = &online[i];
            proof {
                assert(online@.subrange(0, i + 1) =~= online@.subrange(0, i as int).push(*e));
                online@.subrange(0, i as int).lemma_filter_push(*e, pred);
            }
            let missing = match self.online_evidence_by_ip.get(e.device.ip.as_str()) {
                Some(ev) => ev.mac_address.is_none(),
                None => true,
            };
            if missing {
                let ghost before = r@;
                r.push(e.device.ip.clone());
                proof {
                    assert(string_views(r@) =~= string_views(before).push(e.device.ip@));
                    assert(online@.subrange(0, i + 1).filter(pred).map_values(
                        |e: LayeredScanDevice| e.device.ip@,
                    ) =~= online@.subrange(0, i as int).filter(pred).map_values(
                        |e: LayeredScanDevice| e.device.ip@,
                    ).push(e.device.ip@));
                }
            }
            i = i + 1;
        }
        assert(online@.subrange(0, online@.len() as int) =~= online@);
        r
    }
}

proof fn lemma_last_ip_index_found(s: Seq<LayeredScanDevice>, ip: Seq<char>, i: int)
    requires
        0 <= i < s.len(),
        s[i].device.ip@ == ip,
    ensures
        i <= last_ip_index(s, ip) < s.len(),
        s[last_ip_index(s, ip)].device.ip@ == ip,
    decreases s.len(),
{
    if s.last().device.ip@ != ip {
        let t = s.drop_last();
        assert(t[i] == s[i]);
        lemma_last_ip_index_found(t, ip, i);
        assert(t[last_ip_index(t, ip)] == s[last_ip_index(t, ip)]);
    }
}

// ---------------------------------------------------------------------------
// Verification bookkeeping
// ---------------------------------------------------------------------------

/// The verification runs of the current scan.
pub struct VerifyRuntime {
    pub verify_inflight_ips: IpSet,
    pub verified_ips: IpSet,
    pub verify_enqueued_count: usize,
    pub verify_completed_count: usize,
    pub verify_progress: Option<(usize, usize)>,
    pub is_verifying: bool,
}

/// The progress shown for verification: none when nothing was queued or
/// when all is done and nothing runs; else how many of the queued are done.
pub open spec fn verify_progress_of(
    inflight_empty: bool,
    enqueued: usize,
    completed: usize,
    is_scanning: bool,
) -> Option<(usize, usize)> {
    let done = if completed < enqueued { completed } else { enqueued };
    if enqueued == 0 {
        None
    } else if !is_scanning && inflight_empty && done >= enqueued {
        None
    } else {
        Some((done, enqueued))
    }
}

/// The verification flags agree with the runs in flight and the counts.
pub open spec fn verify_flags_synced(v: VerifyRuntime, is_scanning: bool) -> bool {
    &&& v.is_verifying == !(v.verify_inflight_ips@ == Set::<Seq<char>>::empty())
    &&& v.verify_progress == verify_progress_of(
        v.verify_inflight_ips@ == Set::<Seq<char>>::empty(),
        v.verify_enqueued_count,
        v.verify_completed_count,
        is_scanning,
    )
}

impl VerifyRuntime {
    /// No runs, nothing queued.
    pub fn new() -> (r: Self)
        ensures
            r.verify_inflight_ips@ == Set::<Seq<char>>::empty(),
            r.verified_ips@ == Set::<Seq<char>>::empty(),
            r.verify_enqueued_count == 0,
            r.verify_completed_count == 0,
            r.verify_progress is None,
            !r.is_verifying,
    {
        VerifyRuntime {
            verify_inflight_ips: IpSet::new(),
            verified_ips: IpSet::new(),
            verify_enqueued_count: 0,
            verify_completed_count: 0,
            verify_progress: None,
            is_verifying: false,
        }
    }

    /// Forgets every run and count.
    pub fn reset_verify_runtime(&mut self)
        ensures
            final(self).verify_inflight_ips@ == Set::<Seq<char>>::empty(),
            final(self).verified_ips@ == Set::<Seq<char>>::empty(),
            final(self).verify_enqueued_count == 0,
            final(self).verify_completed_count == 0,
            final(self).verify_progress is None,
            !final(self).is_verifying,
    {
        self.verify_inflight_ips.clear();
        self.verified_ips.clear();
        self.verify_enqueued_count = 0;
        self.verify_completed_count = 0;
        self.verify_progress = None;
        self.is_verifying = false;
    }

    /// Recomputes whether verification runs and the progress shown for it.
    pub fn sync_verify_runtime_flags(&mut self, is_scanning: bool)
        ensures
            final(self).verify_inflight_ips == old(self).verify_inflight_ips,
            final(self).verified_ips == old(self).verified_ips,
            final(self).verify_enqueued_count == old(self).verify_enqueued_count,
            final(self).verify_completed_count == old(self).verify_completed_count,
            verify_flags_synced(*final(self), is_scanning),
    {
        self.is_verifying = !self.verify_inflight_ips.is_empty();
        if self.verify_enqueued_count == 0 {
            self.verify_progress = None;
            return;
        }
        let done = if self.verify_completed_count < self.verify_enqueued_count {
            self.verify_completed_count
        } else {
            self.verify_enqueued_count
        };
        if !is_scanning && !self.is_verifying && done >= self.verify_enqueued_count {
            self.verify_progress = None;
        } else {
            self.verify_progress = Some((done, self.verify_enqueued_count));
        }
    }
}

// ---------------------------------------------------------------------------
// The session
// ---------------------------------------------------------------------------

/// Where the scan itself stands.
pub struct ScanStatus {
    pub is_scanning: bool,
    pub has_scanned: bool,
    pub scan_progress: Option<(usize, usize)>,
    pub scan_phase: Option<ScanPhase>,
    pub scan_auto_verify_enabled: bool,
}

/// A scan session: its id, where the scan stands, its results and the
/// verification runs, and whether a connection is being made.
pub struct ScanSession {
    pub scan_session_id: u64,
    pub status: ScanStatus,
    pub results: ScanResults,
    pub verify: VerifyRuntime,
    pub is_connecting: bool,
}

/// The id after `id`, wrapping at the end of the range.
pub open spec fn next_session_id(id: u64) -> u64 {
    if id == u64::MAX {
        0
    } else {
        (id + 1) as u64
    }
}

/// Whether the credential fields hold a user name, with or without a
/// password.
pub open spec fn has_username(input: VerifyCredentialInput) -> bool {
    input is UsernameOnly || input is UsernamePassword
}

fn input_has_username(input: &VerifyCredentialInput) -> (r: bool)
    ensures
        r == has_username(*input),
{
    match input {
        VerifyCredentialInput::UsernameOnly { .. } | VerifyCredentialInput::UsernamePassword { .. } => true,
        VerifyCredentialInput::Empty | VerifyCredentialInput::PasswordOnly => false,
    }
}

impl ScanSession {
    /// A session before any scan.
    pub fn new() -> (r: Self)
        ensures
            r.scan_session_id == 0,
            !r.status.is_scanning,
            !r.status.has_scanned,
            r.status.scan_progress is None,
            r.status.scan_phase is None,
            !r.status.scan_auto_verify_enabled,
            r.results.online_devices@.len() == 0,
            r.results.devices@.len() == 0,
            r.results.online_evidence_by_ip@ == Map::<Seq<char>, EvidenceView>::empty(),
            r.results.scan_result_filter == ScanResultFilter::AllOnline,
            r.results.selected_device_id is None,
            shows_online(r.results),
            r.verify.verify_inflight_ips@ == Set::<Seq<char>>::empty(),
            r.verify.verified_ips@ == Set::<Seq<char>>::empty(),
            r.verify.verify_enqueued_count == 0,
            r.verify.verify_completed_count == 0,
            r.verify.verify_progress is None,
            !r.verify.is_verifying,
            !r.is_connecting,
    {
        ScanSession {
            scan_session_id: 0,
            status: ScanStatus {
                is_scanning: false,
                has_scanned: false,
                scan_progress: None,
                scan_phase: None,
                scan_auto_verify_enabled: false,
            },
            results: ScanResults::new(),
            verify: VerifyRuntime::new(),
            is_connecting: false,
        }
    }

    /// Starts a new session id, so that the work of earlier sessions is
    /// ignored from now on; the new id.
    pub fn advance_scan_session(&mut self) -> (r: u64)
        ensures
            r == final(self).scan_session_id,
            final(self).scan_session_id == next_session_id(old(self).scan_session_id),
            final(self).status == old(self).status,
            final(self).results == old(self).results,
            final(self).verify == old(self).verify,
            final(self).is_connecting == old(self).is_connecting,
    {
        self.scan_session_id = self.scan_session_id.wrapping_add(1);
        self.scan_session_id
    }

    /// Whether `session_id` is the current session.
    pub fn is_current_scan_session(&self, session_id: u64) -> (r: bool)
        ensures
            r == (self.scan_session_id == session_id),
    {
        self.scan_session_id == session_id
    }

    /// Whether scan results should be verified as they arrive: the scan
    /// asked for it, no visual check or connection is running, and a user
    /// name is filled in.
    pub fn should_auto_verify_while_scanning(
        &self,
        visual_check_active: bool,
        input: &VerifyCredentialInput,
    ) -> (r: bool)
        ensures
            r == (!visual_check_active && !self.is_connecting && self.status.scan_auto_verify_enabled
                && has_username(*input)),
    {
        if visual_check_active || self.is_connecting || !self.status.scan_auto_verify_enabled {
            return false;
        }
        input_has_username(input)
    }

    /// Whether credential verification can start: a scan has results with
    /// an open SSH port, nothing verifies or connects, and credentials are
    /// filled in.
    pub fn can_start_verify(&self, has_verify_inputs: bool) -> (r: bool)
        ensures
            r == (self.status.has_scanned && shown_devices(
                self.results.online_devices@,
                ScanResultFilter::SshReady,
            ).len() > 0 && !self.verify.is_verifying && !self.is_connecting && has_verify_inputs),
    {
        let ready = self.results.ssh_ready_devices();
        proof {
            assert(views_of(ready@).len() == ready@.len());
        }
        self.status.has_scanned && ready.len() > 0 && !self.verify.is_verifying && !self.is_connecting
            && has_verify_inputs
    }

    /// Records scan progress of the current session.
    pub fn handle_scan_progress(&mut self, session_id: u64, scanned: usize, total: usize)
        ensures
            old(self).scan_session_id == session_id ==> final(self).status.scan_progress == Some(
                (scanned, total),
            ),
            old(self).scan_session_id != session_id ==> final(self).status == old(self).status,
            final(self).status.is_scanning == old(self).status.is_scanning,
            final(self).status.has_scanned == old(self).status.has_scanned,
            final(self).status.scan_phase == old(self).status.scan_phase,
            final(self).status.scan_auto_verify_enabled == old(self).status.scan_auto_verify_enabled,
            final(self).scan_session_id == old(self).scan_session_id,
            final(self).results == old(self).results,
            final(self).verify == old(self).verify,
            final(self).is_connecting == old(self).is_connecting,
    {
        if !self.is_current_scan_session(session_id) {
            return;
        }
        self.status.scan_progress = Some((scanned, total));
    }
}

/// `a + b`, or the largest `usize` where that overflows.
pub open spec fn saturating_sum(a: usize, b: usize) -> usize {
    if a + b > usize::MAX {
        usize::MAX
    } else {
        (a + b) as usize
    }
}

fn saturating_add(a: usize, b: usize) -> (r: usize)
    ensures
        r == saturating_sum(a, b),
{
    if a > usize::MAX - b {
        usize::MAX
    } else {
        a + b
    }
}

/// Whether a device may be queued for verification: its address is online
/// with an open SSH port, no run for it is in flight, and it was not
/// verified yet unless verifying again is allowed.
pub open spec fn may_queue(
    d: DeviceView,
    online: Seq<LayeredScanDevice>,
    inflight: Set<Seq<char>>,
    verified: Set<Seq<char>>,
    allow_reverify: bool,
) -> bool {
    let i = first_ip_index(online, d.ip);
    &&& i >= 0
    &&& online[i].ssh_port_status == SshPortProbeStatus::Open
    &&& !inflight.contains(d.ip)
    &&& (allow_reverify || !verified.contains(d.ip))
}

/// The devices queued, in order, and the addresses in flight after going
/// through `ds` from the left.
pub open spec fn queue_of(
    ds: Seq<DeviceView>,
    online: Seq<LayeredScanDevice>,
    inflight: Set<Seq<char>>,
    verified: Set<Seq<char>>,
    allow_reverify: bool,
) -> (Seq<DeviceView>, Set<Seq<char>>)
    decreases ds.len(),
{
    if ds.len() == 0 {
        (Seq::empty(), inflight)
    } else {
        let (queued, now) = queue_of(ds.drop_last(), online, inflight, verified, allow_reverify);
        let d = ds.last();
        if may_queue(d, online, now, verified, allow_reverify) {
            (queued.push(d), now.insert(d.ip))
        } else {
            (queued, now)
        }
    }
}

/// What the shell does when a scan reports that it finished.
pub enum ScanFinishStep {
    /// The report came from an earlier session and was ignored.
    Stale,
    /// Probe the SSH port of these addresses next; look up the MAC addresses
    /// that are missing meanwhile.
    ProbeSsh { pending_ips: Vec<String>, missing_mac_ips: Vec<String> },
    /// The scan is over; look up the MAC addresses that are missing.
    Done { missing_mac_ips: Vec<String> },
}

impl ScanSession {
    /// Queues devices for verification and returns those queued: each
    /// device whose address may be queued, in order, once. Nothing is
    /// queued without credentials.
    pub fn enqueue_verify_devices(
        &mut self,
        devices: Vec<Device>,
        allow_reverify: bool,
        credentials_ready: bool,
    ) -> (queued: Vec<Device>)
        ensures
            !credentials_ready ==> queued@.len() == 0 && *final(self) == *old(self),
            credentials_ready ==> {
                let q = queue_of(
                    views_of(devices@),
                    old(self).results.online_devices@,
                    old(self).verify.verify_inflight_ips@,
                    old(self).verify.verified_ips@,
                    allow_reverify,
                );
                &&& views_of(queued@) == q.0
                &&& final(self).verify.verify_inflight_ips@ == q.1
                &&& queued@.len() == 0 ==> *final(self) == *old(self)
                &&& queued@.len() > 0 ==> {
                    &&& final(self).verify.verify_enqueued_count == saturating_sum(
                        old(self).verify.verify_enqueued_count,
                        queued@.len() as usize,
                    )
                    &&& final(self).verify.verify_completed_count == old(self).verify.verify_completed_count
                    &&& final(self).verify.verified_ips == old(self).verify.verified_ips
                    &&& verify_flags_synced(final(self).verify, final(self).status.is_scanning)
                    &&& final(self).status == old(self).status
                    &&& final(self).results == old(self).results
                    &&& final(self).scan_session_id == old(self).scan_session_id
                    &&& final(self).is_connecting == old(self).is_connecting
                }
            },
    {
        let mut queued: Vec<Device> = Vec::new();
        if !credentials_ready {
            return queued;
        }
        let ghost ds = views_of(devices@);
        let ghost online = self.results.online_devices@;
        let ghost inflight0 = self.verify.verify_inflight_ips@;
        let ghost verified = self.verify.verified_ips@;
        let ghost start = *self;
        let mut i: usize = 0;
        while i < devices.len()
            invariant
                i <= devices@.len(),
                ds == views_of(devices@),
                online == self.results.online_devices@,
                verified == self.verify.verified_ips@,
                (views_of(queued@), self.verify.verify_inflight_ips@) == queue_of(
                    ds.subrange(0, i as int),
                    online,
                    inflight0,
                    verified,
                    allow_reverify,
                ),
                queued@.len() == 0 ==> *self == start,
                self.status == start.status,
                self.results == start.results,
                self.scan_session_id == start.scan_session_id,
                self.is_connecting == start.is_connecting,
                self.verify.verified_ips == start.verify.verified_ips,
                self.verify.verify_enqueued_count == start.verify.verify_enqueued_count,
                self.verify.verify_completed_count == start.verify.verify_completed_count,
                self.verify.verify_progress == start.verify.verify_progress,
                self.verify.is_verifying == start.verify.is_verifying,
            decreases devices@.len() - i,
        {
            let d = &devices[i];
            proof {
                assert(ds.subrange(0, i + 1).drop_last() =~= ds.subrange(0, i as int));
                assert(ds.subrange(0, i + 1).last() == d@);
            }
            let open = match self.results.ssh_port_status_for_ip(d.ip.as_str()) {
                Some(SshPortProbeStatus::Open) => true,
                _ => false,
            };
            if open && !self.verify.verify_inflight_ips.contains(d.ip.as_str()) && (allow_reverify
                || !self.verify.verified_ips.contains(d.ip.as_str())) {
                self.verify.verify_inflight_ips.insert(d.ip.clone());
                let ghost before = queued@;
                queued.push(copy_device(d));
                proof {
                    assert(views_of(queued@) =~= views_of(before).push(d@));
                }
            }
            i = i + 1;
        }
        proof {
            assert(ds.subrange(0, devices@.len() as int) =~= ds);
        }
        if queued.len() == 0 {
            return queued;
        }
        self.verify.verify_enqueued_count = saturating_add(self.verify.verify_enqueued_count, queued.len());
        let is_scanning = self.status.is_scanning;
        self.verify.sync_verify_runtime_flags(is_scanning);
        queued
    }

    /// Records the outcome of verifying `ip` in the current session: the
    /// device's status, and the run counted as completed if it was in
    /// flight.
    pub fn handle_verify_result(&mut self, session_id: u64, ip: String, status: DeviceStatus)
        ensures
            final(self).is_connecting == old(self).is_connecting,
            old(self).scan_session_id != session_id ==> *final(self) == *old(self),
            old(self).scan_session_id == session_id ==> {
                let was_inflight = old(self).verify.verify_inflight_ips@.contains(ip@);
                let i = first_ip_index(old(self).results.online_devices@, ip@);
                &&& final(self).results.online_devices@.len() == old(self).results.online_devices@.len()
                &&& forall|k: int|
                    0 <= k < old(self).results.online_devices@.len() ==> (
                    #[trigger] final(self).results.online_devices@[k])@ == if k == i {
                        (
                            with_status(old(self).results.online_devices@[k].device@, status),
                            old(self).results.online_devices@[k].ssh_port_status,
                        )
                    } else {
                        old(self).results.online_devices@[k]@
                    }
                &&& shows_online(final(self).results)
                &&& final(self).verify.verify_inflight_ips@ == old(self).verify.verify_inflight_ips@.remove(ip@)
                &&& final(self).verify.verified_ips@ == if was_inflight {
                    old(self).verify.verified_ips@.insert(ip@)
                } else {
                    old(self).verify.verified_ips@
                }
                &&& final(self).verify.verify_completed_count == if was_inflight {
                    saturating_sum(old(self).verify.verify_completed_count, 1)
                } else {
                    old(self).verify.verify_completed_count
                }
                &&& final(self).verify.verify_enqueued_count == old(self).verify.verify_enqueued_count
                &&& verify_flags_synced(final(self).verify, final(self).status.is_scanning)
                &&& final(self).status == old(self).status
                &&& final(self).scan_session_id == old(self).scan_session_id
            },
    {
        if !self.is_current_scan_session(session_id) {
            return;
        }
        self.results.update_device_status(ip.as_str(), status);
        if self.verify.verify_inflight_ips.remove(ip.as_str()) {
            self.verify.verify_completed_count = saturating_add(self.verify.verify_completed_count, 1);
            self.verify.verified_ips.insert(ip);
        }
        let is_scanning = self.status.is_scanning;
        self.verify.sync_verify_runtime_flags(is_scanning);
    }

    /// Records that the verification task of a session ended.
    pub fn handle_verify_complete(&mut self, session_id: u64)
        ensures
            final(self).is_connecting == old(self).is_connecting,
            final(self).scan_session_id == old(self).scan_session_id,
            old(self).scan_session_id != session_id ==> *final(self) == *old(self),
            old(self).scan_session_id == session_id ==> {
                &&& verify_flags_synced(final(self).verify, final(self).status.is_scanning)
                &&& final(self).verify.verify_inflight_ips == old(self).verify.verify_inflight_ips
                &&& final(self).verify.verified_ips == old(self).verify.verified_ips
                &&& final(self).verify.verify_enqueued_count == old(self).verify.verify_enqueued_count
                &&& final(self).verify.verify_completed_count == old(self).verify.verify_completed_count
                &&& final(self).status == old(self).status
                &&& final(self).results == old(self).results
            },
    {
        if !self.is_current_scan_session(session_id) {
            return;
        }
        let is_scanning = self.status.is_scanning;
        self.verify.sync_verify_runtime_flags(is_scanning);
    }
}

/// The filter a new scan starts with.
pub fn preferred_scan_result_filter() -> (r: ScanResultFilter)
    ensures
        r == ScanResultFilter::AllOnline,
{
    ScanResultFilter::AllOnline
}

impl ScanResults {
    /// Forgets every host and the selection, and sets the filter.
    pub fn clear_for_new_scan(&mut self, filter: ScanResultFilter)
        ensures
            final(self).online_devices@.len() == 0,
            final(self).online_evidence_by_ip@ == Map::<Seq<char>, EvidenceView>::empty(),
            final(self).devices@.len() == 0,
            final(self).scan_result_filter == filter,
            final(self).selected_device_id is None,
            shows_online(*final(self)),
    {
        *self = ScanResults::new();
        self.scan_result_filter = filter;
        proof {
            let pred = |e: LayeredScanDevice| shown(e, filter);
            assert(self.online_devices@.filter(pred) =~= Seq::<LayeredScanDevice>::empty()) by {
                reveal_with_fuel(Seq::filter, 1);
            }
            assert(shown_devices(self.online_devices@, filter) =~= Seq::<DeviceView>::empty());
            assert(views_of(self.devices@) =~= Seq::<DeviceView>::empty());
        }
    }
}

impl ScanSession {
    /// Starts a scan of the selected network, unless a visual check, a
    /// verification or a connection is running or no network is selected:
    /// a new session with empty results, verification forgotten, and
    /// verification as results arrive if a user name is filled in. The new
    /// session id, for the shell to start the scan with.
    pub fn handle_start_scan(
        &mut self,
        visual_check_active: bool,
        has_network: bool,
        input: &VerifyCredentialInput,
    ) -> (r: Option<u64>)
        ensures
            (visual_check_active || old(self).verify.is_verifying || old(self).is_connecting
                || !has_network) ==> r is None && *final(self) == *old(self),
            !(visual_check_active || old(self).verify.is_verifying || old(self).is_connecting
                || !has_network) ==> {
                &&& r == Some(final(self).scan_session_id)
                &&& final(self).scan_session_id == next_session_id(old(self).scan_session_id)
                &&& final(self).status.is_scanning
                &&& !final(self).status.has_scanned
                &&& final(self).status.scan_progress == Some((0usize, 0usize))
                &&& final(self).status.scan_phase == Some(ScanPhase::DiscoverOnline)
                &&& final(self).status.scan_auto_verify_enabled == has_username(*input)
                &&& final(self).results.online_devices@.len() == 0
                &&& final(self).results.online_evidence_by_ip@ == Map::<Seq<char>, EvidenceView>::empty()
                &&& final(self).results.devices@.len() == 0
                &&& final(self).results.scan_result_filter == ScanResultFilter::AllOnline
                &&& final(self).results.selected_device_id is None
                &&& final(self).verify.verify_inflight_ips@ == Set::<Seq<char>>::empty()
                &&& final(self).verify.verified_ips@ == Set::<Seq<char>>::empty()
                &&& final(self).verify.verify_enqueued_count == 0
                &&& final(self).verify.verify_completed_count == 0
                &&& final(self).verify.verify_progress is None
                &&& !final(self).verify.is_verifying
                &&& final(self).is_connecting == old(self).is_connecting
            },
    {
        if visual_check_active || self.verify.is_verifying || self.is_connecting || !has_network {
            return None;
        }
        let session_id = self.advance_scan_session();
        self.verify.reset_verify_runtime();
        self.status.is_scanning = true;
        self.status.has_scanned = false;
        self.status.scan_progress = Some((0, 0));
        self.status.scan_phase = Some(ScanPhase::DiscoverOnline);
        self.status.scan_auto_verify_enabled = input_has_username(input);
        self.results.clear_for_new_scan(preferred_scan_result_filter());
        Some(session_id)
    }

    /// Merges the evidence gathered for the online hosts of the current
    /// session and rebuilds their devices from it.
    pub fn handle_scan_online_dataset_ready(&mut self, session_id: u64, evidence_by_ip: EvidenceByIp)
        ensures
            final(self).is_connecting == old(self).is_connecting,
            old(self).scan_session_id != session_id ==> *final(self) == *old(self),
            old(self).scan_session_id == session_id ==> {
                &&& final(self).results.online_evidence_by_ip@ == merged_maps(
                    old(self).results.online_evidence_by_ip@,
                    evidence_by_ip@,
                )
                &&& final(self).results.online_devices@.len() == old(self).results.online_devices@.len()
                &&& forall|k: int|
                    0 <= k < old(self).results.online_devices@.len() ==> {
                        let e = old(self).results.online_devices@[k];
                        let ip = e.device.ip@;
                        (#[trigger] final(self).results.online_devices@[k])@ == (
                            with_status(
                                device_of(ip, lookup(final(self).results.online_evidence_by_ip@, ip)),
                                old(self).results.online_devices@[last_ip_index(
                                    old(self).results.online_devices@,
                                    ip,
                                )].device.status,
                            ),
                            e.ssh_port_status,
                        )
                    }
                &&& shows_online(final(self).results)
                &&& final(self).status == old(self).status
                &&& final(self).verify == old(self).verify
                &&& final(self).scan_session_id == old(self).scan_session_id
            },
    {
        if !self.is_current_scan_session(session_id) {
            return;
        }
        self.results.merge_online_evidence(evidence_by_ip);
        self.results.refresh_online_device_identity();
    }

    /// Takes a host found by the current session into the online list,
    /// marks the scan as having results when the host is new, and returns
    /// the devices to verify right away: the host, if results are verified
    /// as they arrive and its SSH port is open.
    pub fn handle_scan_device_discovered(
        &mut self,
        session_id: u64,
        device: LayeredScanDevice,
        visual_check_active: bool,
        input: &VerifyCredentialInput,
        credentials_ready: bool,
    ) -> (to_verify: Vec<Device>)
        ensures
            final(self).is_connecting == old(self).is_connecting,
            old(self).scan_session_id != session_id ==> *final(self) == *old(self) && to_verify@.len()
                == 0,
            old(self).scan_session_id == session_id ==> {
                let inserted = first_ip_index(old(self).results.online_devices@, device.device.ip@) == -1;
                let auto = !visual_check_active && !old(self).is_connecting
                    && old(self).status.scan_auto_verify_enabled && has_username(*input);
                &&& upserted(old(self).results.online_devices@, device, final(self).results.online_devices@)
                &&& final(self).status.has_scanned == (old(self).status.has_scanned || inserted)
                &&& final(self).status.is_scanning == old(self).status.is_scanning
                &&& final(self).status.scan_phase == old(self).status.scan_phase
                &&& final(self).status.scan_progress == old(self).status.scan_progress
                &&& shows_online(final(self).results)
                &&& final(self).results.online_evidence_by_ip == old(self).results.online_evidence_by_ip
                &&& final(self).scan_session_id == old(self).scan_session_id
                &&& (!auto || device.ssh_port_status != SshPortProbeStatus::Open || !credentials_ready)
                    ==> to_verify@.len() == 0 && final(self).verify == old(self).verify
                &&& (auto && device.ssh_port_status == SshPortProbeStatus::Open && credentials_ready)
                    ==> views_of(to_verify@) == queue_of(
                    seq![device.device@],
                    final(self).results.online_devices@,
                    old(self).verify.verify_inflight_ips@,
                    old(self).verify.verified_ips@,
                    false,
                ).0
            },
    {
        let mut to_verify: Vec<Device> = Vec::new();
        if !self.is_current_scan_session(session_id) {
            return to_verify;
        }
        let candidate = copy_device(&device.device);
        let is_ssh_ready = match device.ssh_port_status {
            SshPortProbeStatus::Open => true,
            _ => false,
        };
        let inserted = self.results.upsert_layered_scan_device(device);
        if inserted {
            self.status.has_scanned = true;
        }
        if self.should_auto_verify_while_scanning(visual_check_active, input) && is_ssh_ready {
            let mut batch: Vec<Device> = Vec::new();
            let ghost c = candidate@;
            batch.push(candidate);
            assert(views_of(batch@) =~= seq![c]);
            to_verify = self.enqueue_verify_devices(batch, false, credentials_ready);
        }
        to_verify
    }

    /// Starts probing the SSH ports of the online hosts not probed yet,
    /// unless a visual check or a connection runs, discovery still runs, a
    /// probe already runs, no network is selected or nothing is pending. The
    /// addresses to probe.
    pub fn start_ssh_probe_if_needed(&mut self, visual_check_active: bool, has_network: bool) -> (r:
        Option<Vec<String>>)
        ensures
            final(self).is_connecting == old(self).is_connecting,
            r is None ==> *final(self) == *old(self),
            r matches Some(ips) ==> {
                &&& !visual_check_active && !old(self).is_connecting && has_network
                &&& !(old(self).status.is_scanning && old(self).status.scan_phase == Some(
                    ScanPhase::DiscoverOnline,
                ))
                &&& old(self).status.scan_phase != Some(ScanPhase::ProbeSsh)
                &&& string_views(ips@) == old(self).results.online_devices@.filter(
                    |e: LayeredScanDevice| e.ssh_port_status == SshPortProbeStatus::Unchecked,
                ).map_values(|e: LayeredScanDevice| e.device.ip@)
                &&& ips@.len() > 0
                &&& final(self).status.is_scanning
                &&& final(self).status.scan_phase == Some(ScanPhase::ProbeSsh)
                &&& final(self).status.scan_progress == Some((0usize, ips@.len() as usize))
                &&& final(self).status.has_scanned == old(self).status.has_scanned
                &&& final(self).status.scan_auto_verify_enabled == old(self).status.scan_auto_verify_enabled
                &&& final(self).results == old(self).results
                &&& final(self).verify == old(self).verify
                &&& final(self).scan_session_id == old(self).scan_session_id
            },
            (!visual_check_active && !old(self).is_connecting && has_network && !(
            old(self).status.is_scanning && old(self).status.scan_phase == Some(
                ScanPhase::DiscoverOnline,
            )) && old(self).status.scan_phase != Some(ScanPhase::ProbeSsh) && exists|k: int|
                0 <= k < old(self).results.online_devices@.len() && (
                #[trigger] old(self).results.online_devices@[k]).ssh_port_status
                    == SshPortProbeStatus::Unchecked) ==> r is Some,
    {
        if visual_check_active || self.is_connecting {
            return None;
        }
        let discovering = match self.status.scan_phase {
            Some(ScanPhase::DiscoverOnline) => true,
            _ => false,
        };
        if self.status.is_scanning && discovering {
            return None;
        }
        if let Some(ScanPhase::ProbeSsh) = self.status.scan_phase {
            return None;
        }
        if !has_network {
            return None;
        }
        let pending_ips = self.results.pending_ssh_probe_ips();
        proof {
            let online = self.results.online_devices@;
            let pred = |e: LayeredScanDevice| e.ssh_port_status == SshPortProbeStatus::Unchecked;
            if exists|k: int| 0 <= k < online.len() && (#[trigger] online[k]).ssh_port_status
                == SshPortProbeStatus::Unchecked {
                let k = choose|k: int| 0 <= k < online.len() && (#[trigger] online[k]).ssh_port_status
                    == SshPortProbeStatus::Unchecked;
                broadcast use vstd::seq_lib::group_filter_ensures;
                assert(online.filter(pred).contains(online[k]));
                assert(string_views(pending_ips@).len() == pending_ips@.len());
            }
        }
        if pending_ips.len() == 0 {
            return None;
        }
        self.status.is_scanning = true;
        self.status.scan_phase = Some(ScanPhase::ProbeSsh);
        self.status.scan_progress = Some((0, pending_ips.len()));
        Some(pending_ips)
    }

    /// Handles the end of a scan phase of the current session: after
    /// discovery, the SSH probe of the pending hosts starts if it can; else
    /// the scan is over. The addresses whose MAC address is missing are
    /// looked up either way.
    pub fn handle_scan_finished(&mut self, session_id: u64, visual_check_active: bool, has_network: bool) -> (r:
        ScanFinishStep)
        ensures
            final(self).is_connecting == old(self).is_connecting,
            old(self).scan_session_id != session_id ==> r is Stale && *final(self) == *old(self),
            old(self).scan_session_id == session_id ==> r !is Stale,
            r matches ScanFinishStep::ProbeSsh { pending_ips, missing_mac_ips } ==> {
                &&& old(self).status.scan_phase == Some(ScanPhase::DiscoverOnline)
                &&& pending_ips@.len() > 0
                &&& string_views(pending_ips@) == old(self).results.online_devices@.filter(
                    |e: LayeredScanDevice| e.ssh_port_status == SshPortProbeStatus::Unchecked,
                ).map_values(|e: LayeredScanDevice| e.device.ip@)
                &&& final(self).status.scan_phase == Some(ScanPhase::ProbeSsh)
                &&& final(self).status.scan_progress == Some((0usize, pending_ips@.len() as usize))
                &&& final(self).status.is_scanning
                &&& final(self).results == old(self).results
                &&& final(self).verify == old(self).verify
                &&& string_views(missing_mac_ips@) == old(self).results.online_devices@.filter(
                    |e: LayeredScanDevice|
                        !has_mac(old(self).results.online_evidence_by_ip@, e.device.ip@),
                ).map_values(|e: LayeredScanDevice| e.device.ip@)
            },
            r matches ScanFinishStep::Done { missing_mac_ips } ==> {
                &&& (old(self).status.scan_phase == Some(ScanPhase::DiscoverOnline) ==> (visual_check_active
                    || old(self).is_connecting || !has_network || forall|k: int|
                    0 <= k < old(self).results.online_devices@.len() ==> (
                    #[trigger] old(self).results.online_devices@[k]).ssh_port_status
                        != SshPortProbeStatus::Unchecked))
                &&& final(self).verify.verify_inflight_ips == old(self).verify.verify_inflight_ips
                &&& final(self).verify.verify_enqueued_count == old(self).verify.verify_enqueued_count
                &&& final(self).verify.verify_completed_count == old(self).verify.verify_completed_count
                &&& !final(self).status.is_scanning
                &&& !final(self).status.scan_auto_verify_enabled
                &&& final(self).status.has_scanned
                &&& final(self).status.scan_phase is None
                &&& final(self).status.scan_progress is None
                &&& verify_flags_synced(final(self).verify, false)
                &&& final(self).results == old(self).results
                &&& string_views(missing_mac_ips@) == old(self).results.online_devices@.filter(
                    |e: LayeredScanDevice|
                        !has_mac(old(self).results.online_evidence_by_ip@, e.device.ip@),
                ).map_values(|e: LayeredScanDevice| e.device.ip@)
            },
            final(self).scan_session_id == old(self).scan_session_id,
    {
        if !self.is_current_scan_session(session_id) {
            return ScanFinishStep::Stale;
        }
        self.status.scan_progress = None;
        let finished_phase = self.status.scan_phase.take();
        let missing_mac_ips = self.results.missing_mac_candidate_ips();
        let was_discovering = match finished_phase {
            Some(ScanPhase::DiscoverOnline) => true,
            _ => false,
        };
        if was_discovering {
            if let Some(pending_ips) = self.start_ssh_probe_if_needed(visual_check_active, has_network) {
                return ScanFinishStep::ProbeSsh { pending_ips, missing_mac_ips };
            }
        }
        self.status.is_scanning = false;
        self.status.scan_auto_verify_enabled = false;
        self.status.has_scanned = true;
        self.verify.sync_verify_runtime_flags(false);
        ScanFinishStep::Done { missing_mac_ips }
    }

    /// Takes the SSH probe report of the current session: the online hosts
    /// are rebuilt with their probe status, and the devices to verify right
    /// away are returned when results are verified as they arrive.
    pub fn handle_scan_ssh_probe_finished(
        &mut self,
        session_id: u64,
        report: &TcpProbeReport,
        visual_check_active: bool,
        input: &VerifyCredentialInput,
        credentials_ready: bool,
    ) -> (to_verify: Vec<Device>)
        ensures
            final(self).is_connecting == old(self).is_connecting,
            old(self).scan_session_id != session_id ==> *final(self) == *old(self) && to_verify@.len()
                == 0,
            old(self).scan_session_id == session_id ==> {
                let auto = !visual_check_active && !old(self).is_connecting
                    && old(self).status.scan_auto_verify_enabled && has_username(*input);
                &&& exists|l: crate::scanner::LayeredScanDevices|
                    layered_result(
                        l,
                        old(self).results.online_devices@.map_values(|e: LayeredScanDevice| e.device.ip@),
                        string_views(report.open_hosts@),
                        string_views(report.closed_hosts@),
                        string_views(report.retry_exhausted_hosts@),
                        old(self).results.online_evidence_by_ip@,
                    ) && views_of(final(self).results.online_devices@).to_multiset() == views_of(
                        l.online_devices@,
                    ).map_values(
                        |e: (DeviceView, SshPortProbeStatus)|
                            restored_entry(e, old(self).results.online_devices@),
                    ).to_multiset()
                &&& final(self).status.has_scanned
                &&& final(self).status.is_scanning == old(self).status.is_scanning
                &&& final(self).status.scan_phase == old(self).status.scan_phase
                &&& shows_online(final(self).results)
                &&& ip_sorted(final(self).results.online_devices@)
                &&& final(self).results.online_evidence_by_ip == old(self).results.online_evidence_by_ip
                &&& final(self).scan_session_id == old(self).scan_session_id
                &&& (!auto || !credentials_ready) ==> to_verify@.len() == 0 && final(self).verify
                    == old(self).verify
                &&& (auto && credentials_ready) ==> views_of(to_verify@) == queue_of(
                    shown_devices(final(self).results.online_devices@, ScanResultFilter::SshReady),
                    final(self).results.online_devices@,
                    old(self).verify.verify_inflight_ips@,
                    old(self).verify.verified_ips@,
                    false,
                ).0
            },
    {
        let mut to_verify: Vec<Device> = Vec::new();
        if !self.is_current_scan_session(session_id) {
            return to_verify;
        }
        let ghost online = self.results.online_devices@;
        let mut online_ips: Vec<String> = Vec::new();
        let mut i: usize = 0;
        while i < self.results.online_devices.len()
            invariant
                i <= self.results.online_devices@.len(),
                online == self.results.online_devices@,
                string_views(online_ips@) == online.subrange(0, i as int).map_values(
                    |e: LayeredScanDevice| e.device.ip@,
                ),
            decreases self.results.online_devices@.len() - i,
        {
            let ghost before = online_ips@;
            online_ips.push(self.results.online_devices[i].device.ip.clone());
            proof {
                assert(string_views(online_ips@) =~= string_views(before).push(online[i as int].device.ip@));
                assert(online.subrange(0, i + 1).map_values(|e: LayeredScanDevice| e.device.ip@)
                    =~= online.subrange(0, i as int).map_values(|e: LayeredScanDevice| e.device.ip@).push(
                    online[i as int].device.ip@,
                ));
            }
            i = i + 1;
        }
        assert(online.subrange(0, online.len() as int) =~= online);
        let evidence = self.results.online_evidence_by_ip.duplicate();
        let layered = build_layered_scan_devices_from_probe_report(online_ips, report, evidence);
        self.results.replace_online_devices(layered.online_devices);
        self.status.has_scanned = true;
        if self.should_auto_verify_while_scanning(visual_check_active, input) {
            let ready = self.results.ssh_ready_devices();
            to_verify = self.enqueue_verify_devices(ready, false, credentials_ready);
        }
        to_verify
    }

    /// Cancels the scan: a new session id so that late reports are ignored,
    /// verification forgotten, and the results kept.
    pub fn handle_cancel_scan(&mut self)
        ensures
            final(self).is_connecting == old(self).is_connecting,
            final(self).scan_session_id == next_session_id(old(self).scan_session_id),
            !final(self).status.is_scanning,
            final(self).status.scan_progress is None,
            final(self).status.scan_phase is None,
            !final(self).status.scan_auto_verify_enabled,
            final(self).status.has_scanned == (old(self).results.online_devices@.len() > 0),
            final(self).results == old(self).results,
            final(self).verify.verify_inflight_ips@ == Set::<Seq<char>>::empty(),
            final(self).verify.verified_ips@ == Set::<Seq<char>>::empty(),
            final(self).verify.verify_enqueued_count == 0,
            final(self).verify.verify_completed_count == 0,
            final(self).verify.verify_progress is None,
            !final(self).verify.is_verifying,
    {
        self.advance_scan_session();
        self.verify.reset_verify_runtime();
        self.status.is_scanning = false;
        self.status.scan_progress = None;
        self.status.scan_phase = None;
        self.status.scan_auto_verify_enabled = false;
        self.status.has_scanned = self.results.online_devices.len() > 0;
    }

    /// Prepares a verification of every online device with an open SSH
    /// port, once credentials are resolved: statuses reset, those addresses
    /// in flight, counts restarted. The devices to verify; none, and no
    /// change, when no device has an open port.
    pub fn start_verify_task(&mut self) -> (devices: Vec<Device>)
        ensures
            final(self).is_connecting == old(self).is_connecting,
            views_of(devices@) == shown_devices(old(self).results.online_devices@, ScanResultFilter::SshReady),
            devices@.len() == 0 ==> *final(self) == *old(self),
            devices@.len() > 0 ==> {
                &&& final(self).verify.verify_inflight_ips@ == devices@.map_values(|d: Device| d.ip@).to_set()
                &&& final(self).verify.verified_ips@ == Set::<Seq<char>>::empty()
                &&& final(self).verify.verify_enqueued_count == final(self).verify.verify_inflight_ips@.len()
                &&& final(self).verify.verify_completed_count == 0
                &&& verify_flags_synced(final(self).verify, final(self).status.is_scanning)
                &&& final(self).results.online_devices@.len() == old(self).results.online_devices@.len()
                &&& forall|k: int|
                    0 <= k < old(self).results.online_devices@.len() ==> (
                    #[trigger] final(self).results.online_devices@[k])@ == (
                        with_status(old(self).results.online_devices@[k].device@, DeviceStatus::Untested),
                        old(self).results.online_devices@[k].ssh_port_status,
                    )
                &&& shows_online(final(self).results)
                &&& final(self).status == old(self).status
                &&& final(self).scan_session_id == old(self).scan_session_id
            },
    {
        let verify_devices = self.results.ssh_ready_devices();
        if verify_devices.len() == 0 {
            return verify_devices;
        }
        self.results.reset_device_statuses();
        let mut inflight = IpSet::new();
        let mut i: usize = 0;
        while i < verify_devices.len()
            invariant
                i <= verify_devices@.len(),
                inflight@ == verify_devices@.subrange(0, i as int).map_values(|d: Device| d.ip@).to_set(),
            decreases verify_devices@.len() - i,
        {
            let ghost before = inflight@;
            inflight.insert(verify_devices[i].ip.clone());
            proof {
                let f = |d: Device| d.ip@;
                let p = verify_devices@.subrange(0, i as int);
                let q = verify_devices@.subrange(0, i + 1);
                assert(q =~= p.push(verify_devices@[i as int]));
                assert(q.map_values(f) =~= p.map_values(f).push(verify_devices@[i as int].ip@));
                assert forall|x: Seq<char>| q.map_values(f).contains(x) <==> (p.map_values(f).contains(x)
                    || x == verify_devices@[i as int].ip@) by {
                    vstd::seq_lib::lemma_seq_contains_after_push(p.map_values(f), verify_devices@[i as int].ip@, x);
                }
                assert(inflight@ =~= q.map_values(f).to_set());
            }
            i = i + 1;
        }
        assert(verify_devices@.subrange(0, verify_devices@.len() as int) =~= verify_devices@);
        self.verify.verify_inflight_ips = inflight;
        self.verify.verified_ips.clear();
        self.verify.verify_enqueued_count = self.verify.verify_inflight_ips.len();
        self.verify.verify_completed_count = 0;
        let is_scanning = self.status.is_scanning;
        self.verify.sync_verify_runtime_flags(is_scanning);
        verify_devices
    }
}

/// The warning when verification cannot run with what the credential
/// fields hold.
pub open spec fn verify_warning_text(language: AppLanguage, input: VerifyCredentialInput) -> Seq<char> {
    if input is PasswordOnly {
        pick(
            language,
            "当前仅填写 SSH 密码；自动验证不会在 password-only 模式下触发，请补充 SSH 用户名。"@,
            "Only an SSH password is filled in. Automatic verification does not run in password-only mode, so add an SSH username first."@,
        )
    } else {
        pick(
            language,
            "请先填写 SSH 用户名，再执行凭证检测。"@,
            "Enter an SSH username before starting credential verification."@,
        )
    }
}

/// The warning when verification cannot run with what the credential
/// fields hold.
pub fn verify_warning_message(language: AppLanguage, input: &VerifyCredentialInput) -> (r: String)
    ensures
        r@ == verify_warning_text(language, *input),
{
    match input {
        VerifyCredentialInput::PasswordOnly => crate::labels::localized_string(
            language,
            "当前仅填写 SSH 密码；自动验证不会在 password-only 模式下触发，请补充 SSH 用户名。",
            "Only an SSH password is filled in. Automatic verification does not run in password-only mode, so add an SSH username first.",
        ),
        _ => crate::labels::localized_string(
            language,
            "请先填写 SSH 用户名，再执行凭证检测。",
            "Enter an SSH username before starting credential verification.",
        ),
    }
}

/// The warning when no device has an open SSH port to verify.
pub fn no_ssh_ready_devices_message(language: AppLanguage) -> (r: String)
    ensures
        r@ == pick(
            language,
            "当前没有可验证的 SSH 设备，请先等待 TCP 22 探测完成。"@,
            "There are no SSH-ready devices to verify yet. Wait for the TCP 22 probe to finish first."@,
        ),
{
    crate::labels::localized_string(
        language,
        "当前没有可验证的 SSH 设备，请先等待 TCP 22 探测完成。",
        "There are no SSH-ready devices to verify yet. Wait for the TCP 22 probe to finish first.",
    )
}

/// A scan that was cancelled or replaced has another id than the session
/// that follows it, so its late reports are ignored.
pub proof fn lemma_next_session_differs(id: u64)
    ensures
        next_session_id(id) != id,
{
}

impl ScanSession {
    /// Forgets verification after the credentials changed: runs and counts
    /// are cleared, and each device with an open SSH port that was tried
    /// is untested again.
    pub fn clear_verification_state_for_credential_change(&mut self)
        ensures
            final(self).is_connecting == old(self).is_connecting,
            final(self).verify.verify_inflight_ips@ == Set::<Seq<char>>::empty(),
            final(self).verify.verified_ips@ == Set::<Seq<char>>::empty(),
            final(self).verify.verify_enqueued_count == 0,
            final(self).verify.verify_completed_count == 0,
            final(self).verify.verify_progress is None,
            !final(self).verify.is_verifying,
            final(self).results.online_devices@.len() == old(self).results.online_devices@.len(),
            forall|k: int|
                0 <= k < old(self).results.online_devices@.len() ==> {
                    let e = old(self).results.online_devices@[k];
                    (#[trigger] final(self).results.online_devices@[k])@ == if e.ssh_port_status
                        == SshPortProbeStatus::Open {
                        (with_status(e.device@, DeviceStatus::Untested), e.ssh_port_status)
                    } else {
                        e@
                    }
                },
            shows_online(final(self).results),
            final(self).status == old(self).status,
            final(self).scan_session_id == old(self).scan_session_id,
    {
        self.verify.reset_verify_runtime();
        let ghost orig = self.results.online_devices@;
        let mut src: Vec<LayeredScanDevice> = Vec::new();
        std::mem::swap(&mut src, &mut self.results.online_devices);
        let mut out: Vec<LayeredScanDevice> = Vec::new();
        let ghost mut k: int = 0;
        while src.len() > 0
            invariant
                0 <= k <= orig.len(),
                src@ == orig.subrange(k, orig.len() as int),
                out@.len() == k,
                forall|j: int|
                    0 <= j < k ==> (#[trigger] out@[j])@ == if orig[j].ssh_port_status
                        == SshPortProbeStatus::Open {
                        (with_status(orig[j].device@, DeviceStatus::Untested), orig[j].ssh_port_status)
                    } else {
                        orig[j]@
                    },
            decreases src.len(),
        {
            let mut e = src.remove(0);
            proof {
                assert(e == orig[k]);
                assert(src@ =~= orig.subrange(k + 1, orig.len() as int));
            }
            let open = match e.ssh_port_status {
                SshPortProbeStatus::Open => true,
                _ => false,
            };
            if open && e.device.status != DeviceStatus::Untested {
                e.device.status = DeviceStatus::Untested;
            }
            out.push(e);
            proof {
                k = k + 1;
            }
        }
        self.results.online_devices = out;
        self.results.rebuild_visible_devices_from_online();
    }
}

/// Queuing devices for verification never queues an address twice nor one
/// already in flight, only addresses online with an open SSH port, never an
/// address already verified unless verifying again is allowed, and leaves in
/// flight exactly what was in flight and what was queued. Every offered
/// device that is online with an open port, not in flight and (unless
/// verifying again is allowed) not verified has its address queued.
pub proof fn lemma_queue_once_per_address(
    ds: Seq<DeviceView>,
    online: Seq<LayeredScanDevice>,
    inflight: Set<Seq<char>>,
    verified: Set<Seq<char>>,
    allow_reverify: bool,
)
    ensures
        ({
            let (queued, now) = queue_of(ds, online, inflight, verified, allow_reverify);
            &&& forall|i: int, j: int| 0 <= i < j < queued.len() ==> (#[trigger] queued[i]).ip
                != (#[trigger] queued[j]).ip
            &&& forall|i: int|
                0 <= i < queued.len() ==> !inflight.contains((#[trigger] queued[i]).ip) && {
                    let k = first_ip_index(online, queued[i].ip);
                    k >= 0 && online[k].ssh_port_status == SshPortProbeStatus::Open
                }
            &&& forall|x: Seq<char>| now.contains(x) <==> (inflight.contains(x) || exists|i: int|
                0 <= i < queued.len() && (#[trigger] queued[i]).ip == x)
            &&& !allow_reverify ==> forall|i: int|
                0 <= i < queued.len() ==> !verified.contains((#[trigger] queued[i]).ip)
            &&& forall|k: int|
                0 <= k < ds.len() && {
                    let at = first_ip_index(online, (#[trigger] ds[k]).ip);
                    &&& at >= 0
                    &&& online[at].ssh_port_status == SshPortProbeStatus::Open
                    &&& !inflight.contains(ds[k].ip)
                    &&& (allow_reverify || !verified.contains(ds[k].ip))
                } ==> exists|i: int| 0 <= i < queued.len() && (#[trigger] queued[i]).ip == ds[k].ip
        }),
    decreases ds.len(),
{
    if ds.len() > 0 {
        lemma_queue_once_per_address(ds.drop_last(), online, inflight, verified, allow_reverify);
        let (queued, now) = queue_of(ds.drop_last(), online, inflight, verified, allow_reverify);
        let d = ds.last();
        let pre = ds.drop_last();
        assert forall|k: int| 0 <= k < pre.len() implies #[trigger] pre[k] == ds[k] by {}
        if may_queue(d, online, now, verified, allow_reverify) {
            let q2 = queued.push(d);
            assert forall|k: int|
                0 <= k < ds.len() && {
                    let at = first_ip_index(online, (#[trigger] ds[k]).ip);
                    &&& at >= 0
                    &&& online[at].ssh_port_status == SshPortProbeStatus::Open
                    &&& !inflight.contains(ds[k].ip)
                    &&& (allow_reverify || !verified.contains(ds[k].ip))
                } implies exists|i: int| 0 <= i < q2.len() && (#[trigger] q2[i]).ip == ds[k].ip by {
                if k == ds.len() - 1 {
                    assert(q2[queued.len() as int] == d);
                } else {
                    assert(pre[k] == ds[k]);
                    let i = choose|i: int| 0 <= i < queued.len() && (#[trigger] queued[i]).ip == pre[k].ip;
                    assert(q2[i] == queued[i]);
                }
            }
            assert forall|i: int| 0 <= i < q2.len() && !allow_reverify implies !verified.contains((#[trigger] q2[i]).ip) by {
                if i < queued.len() {
                    assert(q2[i] == queued[i]);
                }
            }
            assert forall|x: Seq<char>| now.insert(d.ip).contains(x) <==> (inflight.contains(x)
                || exists|i: int| 0 <= i < q2.len() && (#[trigger] q2[i]).ip == x) by {
                if exists|i: int| 0 <= i < queued.len() && (#[trigger] queued[i]).ip == x {
                    let i = choose|i: int| 0 <= i < queued.len() && (#[trigger] queued[i]).ip == x;
                    assert(q2[i] == queued[i]);
                }
                if x == d.ip {
                    assert(q2[queued.len() as int] == d);
                }
                if exists|i: int| 0 <= i < q2.len() && (#[trigger] q2[i]).ip == x {
                    let i = choose|i: int| 0 <= i < q2.len() && (#[trigger] q2[i]).ip == x;
                    if i < queued.len() {
                        assert(q2[i] == queued[i]);
                    }
                }
            }
            assert forall|i: int, j: int| 0 <= i < j < q2.len() implies (#[trigger] q2[i]).ip
                != (#[trigger] q2[j]).ip by {
                if j == queued.len() {
                    assert(q2[i] == queued[i]);
                    assert(now.contains(queued[i].ip));
                } else {
                    assert(q2[i] == queued[i] && q2[j] == queued[j]);
                }
            }
            assert forall|i: int| 0 <= i < q2.len() implies !inflight.contains((#[trigger] q2[i]).ip) && {
                let k = first_ip_index(online, q2[i].ip);
                k >= 0 && online[k].ssh_port_status == SshPortProbeStatus::Open
            } by {
                if i < queued.len() {
                    assert(q2[i] == queued[i]);
                }
            }
        } else {
            assert forall|k: int|
                0 <= k < ds.len() && {
                    let at = first_ip_index(online, (#[trigger] ds[k]).ip);
                    &&& at >= 0
                    &&& online[at].ssh_port_status == SshPortProbeStatus::Open
                    &&& !inflight.contains(ds[k].ip)
                    &&& (allow_reverify || !verified.contains(ds[k].ip))
                } implies exists|i: int| 0 <= i < queued.len() && (#[trigger] queued[i]).ip == ds[k].ip by {
                if k == ds.len() - 1 {
                    assert(ds[k] == d);
                    assert(now.contains(d.ip));
                } else {
                    assert(pre[k] == ds[k]);
                }
            }
        }
    }
}

} // verus!
