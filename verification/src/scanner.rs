//! Scan results: devices built from the addresses that answered and the
//! evidence gathered about them, their order, and the split into the hosts
//! that are online and those whose SSH port is open.
use std::cmp::Ordering;
use vstd::prelude::*;
use crate::identity::{byte_of, evidence_view, hex_byte, identity_of, table_vendor, EvidenceView};
pub use crate::identity::{
    classify_device_identity, DeviceIdentity, DeviceIdentityKind, DeviceType, NeighborEvidence,
};
use crate::order::{
    compare_ip_and_id, dedup_sorted_strings, ip_sorted, ordering_of, ip_strictly_sorted, key_order, sort_by_ip, stable_sort_of, string_views, views_of,
    IpKeyed,
};
use crate::text::{chars_of, hex_digits, hex_digits_vec, is_ascii_hexdigit, str_eq};
use crate::vendor::{known_vendor, lookup_vendor_name, opt_str_view};

verus! {

/// Where a device stands after credentials were tried on it.
#[derive(Debug, Clone, Copy, PartialEq, Eq, Structural)]
pub enum DeviceStatus {
    Untested,
    Ready,
    Denied,
    Error,
}

/// A device found by a scan.
#[derive(Debug, Clone, PartialEq, Eq)]
pub struct Device {
    pub id: String,
    pub name: String,
    pub ip: String,
    pub identity_kind: DeviceIdentityKind,
    pub device_type: DeviceType,
    pub status: DeviceStatus,
}

pub struct DeviceView {
    pub id: Seq<char>,
    pub name: Seq<char>,
    pub ip: Seq<char>,
    pub identity_kind: DeviceIdentityKind,
    pub device_type: DeviceType,
    pub status: DeviceStatus,
}

impl View for Device {
    type V = DeviceView;

    open spec fn view(&self) -> DeviceView {
        DeviceView {
            id: self.id@,
            name: self.name@,
            ip: self.ip@,
            identity_kind: self.identity_kind,
            device_type: self.device_type,
            status: self.status,
        }
    }
}

impl IpKeyed for Device {
    open spec fn ip_key(&self) -> Seq<char> {
        self.ip@
    }

    open spec fn id_key(&self) -> Seq<char> {
        self.id@
    }

    fn ip_text(&self) -> (r: &str) {
        self.ip.as_str()
    }

    fn id_text(&self) -> (r: &str) {
        self.id.as_str()
    }
}

/// What a probe of the SSH port of an online host found.
#[derive(Debug, Clone, Copy, PartialEq, Eq, Structural)]
pub enum SshPortProbeStatus {
    Unchecked,
    Open,
    Closed,
}

/// An online host with what its SSH port probe found.
#[derive(Debug, Clone, PartialEq, Eq)]
pub struct LayeredScanDevice {
    pub device: Device,
    pub ssh_port_status: SshPortProbeStatus,
}

impl View for LayeredScanDevice {
    type V = (DeviceView, SshPortProbeStatus);

    open spec fn view(&self) -> (DeviceView, SshPortProbeStatus) {
        (self.device@, self.ssh_port_status)
    }
}

impl IpKeyed for LayeredScanDevice {
    open spec fn ip_key(&self) -> Seq<char> {
        self.device.ip@
    }

    open spec fn id_key(&self) -> Seq<char> {
        self.device.id@
    }

    fn ip_text(&self) -> (r: &str) {
        self.device.ip.as_str()
    }

    fn id_text(&self) -> (r: &str) {
        self.device.id.as_str()
    }
}

/// The hosts that answered, and apart from them those with an open SSH port.
#[derive(Debug, Clone, PartialEq, Eq)]
pub struct LayeredScanDevices {
    pub online_devices: Vec<LayeredScanDevice>,
    pub ssh_ready_devices: Vec<Device>,
}

/// The outcome of probing the SSH port of the candidate hosts of a subnet.
#[derive(Debug, Clone, PartialEq, Eq)]
pub struct TcpProbeReport {
    pub candidate_hosts: Vec<String>,
    pub open_hosts: Vec<String>,
    pub closed_hosts: Vec<String>,
    pub retry_exhausted_hosts: Vec<String>,
}

// ---------------------------------------------------------------------------
// Evidence by address
// ---------------------------------------------------------------------------

/// Neighbor evidence keyed by address text, each address at most once.
pub struct EvidenceByIp {
    entries: Vec<(String, NeighborEvidence)>,
}

/// Whether `k` is the key of some entry.
pub open spec fn has_key(s: Seq<(String, NeighborEvidence)>, k: Seq<char>) -> bool {
    exists|i: int| 0 <= i < s.len() && (#[trigger] s[i]).0@ == k
}

/// The position of the entry with key `k`.
pub open spec fn key_index(s: Seq<(String, NeighborEvidence)>, k: Seq<char>) -> int {
    choose|i: int| 0 <= i < s.len() && (#[trigger] s[i]).0@ == k
}

/// No two entries share a key.
pub open spec fn distinct_keys(s: Seq<(String, NeighborEvidence)>) -> bool {
    forall|i: int, j: int|
        0 <= i < s.len() && 0 <= j < s.len() && i != j ==> (#[trigger] s[i]).0@ != (#[trigger] s[j]).0@
}

/// The map that a list of entries with distinct keys stands for.
pub open spec fn entries_map(s: Seq<(String, NeighborEvidence)>) -> Map<Seq<char>, EvidenceView> {
    Map::new(|k: Seq<char>| has_key(s, k), |k: Seq<char>| s[key_index(s, k)].1@)
}

/// The evidence that a map holds for an address, if any.
pub open spec fn lookup(m: Map<Seq<char>, EvidenceView>, k: Seq<char>) -> Option<EvidenceView> {
    if m.dom().contains(k) {
        Some(m[k])
    } else {
        None
    }
}

impl View for EvidenceByIp {
    type V = Map<Seq<char>, EvidenceView>;

    closed spec fn view(&self) -> Map<Seq<char>, EvidenceView> {
        entries_map(self.entries@)
    }
}

impl EvidenceByIp {
    #[verifier::type_invariant]
    spec fn keys_are_distinct(&self) -> bool {
        distinct_keys(self.entries@)
    }

    /// An empty map.
    pub fn new() -> (r: Self)
        ensures
            r@ == Map::<Seq<char>, EvidenceView>::empty(),
    {
        let r = EvidenceByIp { entries: Vec::new() };
        assert(r@ =~= Map::<Seq<char>, EvidenceView>::empty());
        r
    }

    /// The number of addresses that have evidence.
    pub fn len(&self) -> (r: usize)
        ensures
            r == self@.len(),
    {
        proof {
            use_type_invariant(self);
            lemma_entries_map_len(self.entries@);
        }
        self.entries.len()
    }

    /// The evidence held for `ip`.
    pub fn get(&self, ip: &str) -> (r: Option<&NeighborEvidence>)
        ensures
            evidence_view(r) == lookup(self@, ip@),
    {
        proof {
            use_type_invariant(self);
        }
        match index_of(&self.entries, ip) {
            Some(i) => {
                proof {
                    let k = key_index(self.entries@, ip@);
                    assert(self.entries@[k].0@ == ip@);
                }
                Some(&self.entries[i].1)
            },
            None => None,
        }
    }

    /// Sets the evidence for `ip`, returning what was held for it before.
    pub fn insert(&mut self, ip: String, evidence: NeighborEvidence) -> (r: Option<NeighborEvidence>)
        ensures
            final(self)@ == old(self)@.insert(ip@, evidence@),
            r matches Some(e) ==> old(self)@.dom().contains(ip@) && e@ == old(self)@[ip@],
            r is None ==> !old(self)@.dom().contains(ip@),
    {
        proof {
            use_type_invariant(&*self);
        }
        let ghost before = self.entries@;
        let ghost key = ip@;
        let ghost value = evidence@;
        let mut entries: Vec<(String, NeighborEvidence)> = Vec::new();
        std::mem::swap(&mut entries, &mut self.entries);
        match index_of(&entries, ip.as_str()) {
            Some(i) => {
                let old_entry = entries.remove(i);
                entries.insert(i, (ip, evidence));
                proof {
                    assert forall|j: int| 0 <= j < before.len() && j != i implies entries@[j]
                        == before[j] by {
                        if j < i {
                            assert(entries@[j] == before.remove(i as int)[j]);
                        } else {
                            assert(entries@[j] == before.remove(i as int)[j - 1]);
                        }
                    }
                    lemma_entries_replace(before, i as int, entries@, key, value);
                }
                self.entries = entries;
                Some(old_entry.1)
            },
            None => {
                entries.push((ip, evidence));
                proof {
                    lemma_entries_push(before, entries@, key, value);
                }
                self.entries = entries;
                None
            },
        }
    }
}

impl EvidenceByIp {
    /// A copy of the map.
    pub fn duplicate(&self) -> (r: Self)
        ensures
            r@ == self@,
    {
        proof {
            use_type_invariant(self);
        }
        let mut entries: Vec<(String, NeighborEvidence)> = Vec::new();
        let mut i: usize = 0;
        while i < self.entries.len()
            invariant
                i <= self.entries@.len(),
                distinct_keys(self.entries@),
                entries@.len() == i,
                forall|k: int|
                    0 <= k < i ==> (#[trigger] entries@[k]).0@ == self.entries@[k].0@ && entries@[k].1@
                        == self.entries@[k].1@,
            decreases self.entries@.len() - i,
        {
            let e = &self.entries[i];
            entries.push((e.0.clone(), duplicate_evidence(&e.1)));
            i = i + 1;
        }
        proof {
            lemma_same_keys_same_map(self.entries@, entries@);
        }
        EvidenceByIp { entries }
    }
}

/// A copy of some evidence.
pub fn duplicate_evidence(e: &NeighborEvidence) -> (r: NeighborEvidence)
    ensures
        r@ == e@,
{
    NeighborEvidence {
        mac_address: e.mac_address.clone(),
        hostname: e.hostname.clone(),
        mdns_name: e.mdns_name.clone(),
        dns_name: e.dns_name.clone(),
        smb_name: e.smb_name.clone(),
        smb_domain: e.smb_domain.clone(),
    }
}

proof fn lemma_same_keys_same_map(a: Seq<(String, NeighborEvidence)>, b: Seq<(String, NeighborEvidence)>)
    requires
        distinct_keys(a),
        a.len() == b.len(),
        forall|k: int| 0 <= k < a.len() ==> (#[trigger] b[k]).0@ == a[k].0@ && b[k].1@ == a[k].1@,
    ensures
        distinct_keys(b),
        entries_map(b) == entries_map(a),
{
    assert forall|i: int, j: int|
        0 <= i < b.len() && 0 <= j < b.len() && i != j implies (#[trigger] b[i]).0@ != (#[trigger] b[j]).0@ by {
        assert(a[i].0@ != a[j].0@);
    }
    assert forall|x: Seq<char>| has_key(b, x) <==> has_key(a, x) by {
        if has_key(b, x) {
            let i = choose|i: int| 0 <= i < b.len() && (#[trigger] b[i]).0@ == x;
            assert(a[i].0@ == x);
        }
        if has_key(a, x) {
            let i = choose|i: int| 0 <= i < a.len() && (#[trigger] a[i]).0@ == x;
            assert(b[i].0@ == x);
        }
    }
    assert forall|x: Seq<char>| #[trigger] has_key(b, x) implies b[key_index(b, x)].1@ == a[key_index(a, x)].1@ by {
        let i = key_index(b, x);
        assert(a[i].0@ == x);
        lemma_key_index_unique(a, x, i);
    }
    assert(entries_map(b) =~= entries_map(a));
}

/// The view of optional owned evidence.
pub open spec fn opt_evidence_view(o: Option<NeighborEvidence>) -> Option<EvidenceView> {
    match o {
        Some(e) => Some(e@),
        None => None,
    }
}

impl EvidenceByIp {
    /// Takes out the evidence held for `ip`.
    pub fn remove(&mut self, ip: &str) -> (r: Option<NeighborEvidence>)
        ensures
            final(self)@ == old(self)@.remove(ip@),
            opt_evidence_view(r) == lookup(old(self)@, ip@),
    {
        proof {
            use_type_invariant(&*self);
        }
        let ghost before = self.entries@;
        match index_of(&self.entries, ip) {
            Some(i) => {
                let mut entries: Vec<(String, NeighborEvidence)> = Vec::new();
                std::mem::swap(&mut entries, &mut self.entries);
                let entry = entries.remove(i);
                proof {
                    lemma_key_index_unique(before, ip@, i as int);
                    lemma_entries_remove(before, i as int, entries@);
                }
                self.entries = entries;
                Some(entry.1)
            },
            None => {
                assert(self@.remove(ip@) =~= self@);
                None
            },
        }
    }

    /// The entries of the map, each address once.
    pub fn into_entries(self) -> (r: Vec<(String, NeighborEvidence)>)
        ensures
            distinct_keys(r@),
            entries_map(r@) == self@,
    {
        proof {
            use_type_invariant(&self);
        }
        self.entries
    }
}

proof fn lemma_entries_remove(
    before: Seq<(String, NeighborEvidence)>,
    at: int,
    after: Seq<(String, NeighborEvidence)>,
)
    requires
        distinct_keys(before),
        0 <= at < before.len(),
        after == before.remove(at),
    ensures
        distinct_keys(after),
        entries_map(after) == entries_map(before).remove(before[at].0@),
{
    let k = before[at].0@;
    assert forall|i: int, j: int|
        0 <= i < after.len() && 0 <= j < after.len() && i != j implies (#[trigger] after[i]).0@
        != (#[trigger] after[j]).0@ by {
        let bi = if i < at { i } else { i + 1 };
        let bj = if j < at { j } else { j + 1 };
        assert(after[i] == before[bi] && after[j] == before[bj]);
    }
    assert forall|x: Seq<char>| has_key(after, x) <==> (has_key(before, x) && x != k) by {
        if has_key(after, x) {
            let i = choose|i: int| 0 <= i < after.len() && (#[trigger] after[i]).0@ == x;
            let bi = if i < at { i } else { i + 1 };
            assert(after[i] == before[bi]);
            assert(bi != at);
        }
        if has_key(before, x) && x != k {
            let i = choose|i: int| 0 <= i < before.len() && (#[trigger] before[i]).0@ == x;
            assert(i != at);
            let ai = if i < at { i } else { i - 1 };
            assert(after[ai] == before[i]);
        }
    }
    assert forall|x: Seq<char>| #[trigger] has_key(after, x) implies after[key_index(after, x)].1@
        == before[key_index(before, x)].1@ by {
        let i = key_index(after, x);
        let bi = if i < at { i } else { i + 1 };
        assert(after[i] == before[bi]);
        lemma_key_index_unique(before, x, bi);
    }
    assert(entries_map(after) =~= entries_map(before).remove(k));
}

pub proof fn lemma_entries_push_distinct(
    before: Seq<(String, NeighborEvidence)>,
    entry: (String, NeighborEvidence),
)
    requires
        distinct_keys(before),
        !has_key(before, entry.0@),
    ensures
        distinct_keys(before.push(entry)),
        entries_map(before.push(entry)) == entries_map(before).insert(entry.0@, entry.1@),
{
    let after = before.push(entry);
    assert forall|i: int| 0 <= i < before.len() implies after[i] == before[i] by {}
    lemma_entries_push(before, after, entry.0@, entry.1@);
}

fn index_of(entries: &Vec<(String, NeighborEvidence)>, ip: &str) -> (r: Option<usize>)
    ensures
        r is None <==> !has_key(entries@, ip@),
        r matches Some(i) ==> i < entries@.len() && entries@[i as int].0@ == ip@,
{
    let mut i: usize = 0;
    while i < entries.len()
        invariant
            i <= entries@.len(),
            forall|j: int| 0 <= j < i ==> (#[trigger] entries@[j]).0@ != ip@,
        decreases entries@.len() - i,
    {
        if str_eq(entries[i].0.as_str(), ip) {
            return Some(i);
        }
        i = i + 1;
    }
    None
}

proof fn lemma_key_index_unique(s: Seq<(String, NeighborEvidence)>, k: Seq<char>, i: int)
    requires
        distinct_keys(s),
        0 <= i < s.len(),
        s[i].0@ == k,
    ensures
        key_index(s, k) == i,
{
    let j = key_index(s, k);
    assert(0 <= j < s.len() && s[j].0@ == k);
}

proof fn lemma_entries_map_len(s: Seq<(String, NeighborEvidence)>)
    requires
        distinct_keys(s),
    ensures
        entries_map(s).dom().finite(),
        entries_map(s).len() == s.len(),
    decreases s.len(),
{
    if s.len() == 0 {
        assert(entries_map(s).dom() =~= Set::<Seq<char>>::empty());
    } else {
        let t = s.drop_last();
        let k = s.last().0@;
        assert(distinct_keys(t)) by {
            assert forall|i: int, j: int|
                0 <= i < t.len() && 0 <= j < t.len() && i != j implies (#[trigger] t[i]).0@
                != (#[trigger] t[j]).0@ by {
                assert(t[i] == s[i] && t[j] == s[j]);
            }
        }
        lemma_entries_map_len(t);
        assert(!entries_map(t).dom().contains(k)) by {
            if has_key(t, k) {
                let i = choose|i: int| 0 <= i < t.len() && (#[trigger] t[i]).0@ == k;
                assert(s[i] == t[i]);
                assert(s[s.len() - 1].0@ == k);
            }
        }
        assert(entries_map(s).dom() =~= entries_map(t).dom().insert(k)) by {
            assert forall|x: Seq<char>| has_key(s, x) <==> (has_key(t, x) || x == k) by {
                if has_key(s, x) {
                    let i = choose|i: int| 0 <= i < s.len() && (#[trigger] s[i]).0@ == x;
                    if i < s.len() - 1 {
                        assert(t[i] == s[i]);
                    }
                }
                if has_key(t, x) {
                    let i = choose|i: int| 0 <= i < t.len() && (#[trigger] t[i]).0@ == x;
                    assert(t[i] == s[i]);
                }
                if x == k {
                    assert(s[s.len() - 1].0@ == x);
                }
            }
        }
    }
}

proof fn lemma_entries_push(
    before: Seq<(String, NeighborEvidence)>,
    after: Seq<(String, NeighborEvidence)>,
    k: Seq<char>,
    v: EvidenceView,
)
    requires
        distinct_keys(before),
        !has_key(before, k),
        after.len() == before.len() + 1,
        after.last().0@ == k,
        after.last().1@ == v,
        forall|i: int| 0 <= i < before.len() ==> after[i] == before[i],
    ensures
        distinct_keys(after),
        entries_map(after) == entries_map(before).insert(k, v),
{
    let n = before.len() as int;
    assert forall|i: int, j: int|
        0 <= i < after.len() && 0 <= j < after.len() && i != j implies (#[trigger] after[i]).0@
        != (#[trigger] after[j]).0@ by {
        if i < n && j < n {
            assert(after[i] == before[i] && after[j] == before[j]);
        } else if i < n {
            assert(after[i] == before[i]);
        } else {
            assert(after[j] == before[j]);
        }
    }
    assert forall|x: Seq<char>| has_key(after, x) <==> (has_key(before, x) || x == k) by {
        if has_key(after, x) {
            let i = choose|i: int| 0 <= i < after.len() && (#[trigger] after[i]).0@ == x;
            if i < n {
                assert(before[i] == after[i]);
            }
        }
        if has_key(before, x) {
            let i = choose|i: int| 0 <= i < before.len() && (#[trigger] before[i]).0@ == x;
            assert(after[i] == before[i]);
        }
        if x == k {
            assert(after[n].0@ == x);
        }
    }
    assert forall|x: Seq<char>| #[trigger] has_key(after, x) implies after[key_index(after, x)].1@
        == (if x == k { v } else { before[key_index(before, x)].1@ }) by {
        if x == k {
            lemma_key_index_unique(after, x, n);
        } else {
            let i = key_index(before, x);
            assert(after[i] == before[i]);
            lemma_key_index_unique(after, x, i);
        }
    }
    assert(entries_map(after) =~= entries_map(before).insert(k, v));
}

proof fn lemma_entries_replace(
    before: Seq<(String, NeighborEvidence)>,
    at: int,
    after: Seq<(String, NeighborEvidence)>,
    k: Seq<char>,
    v: EvidenceView,
)
    requires
        distinct_keys(before),
        0 <= at < before.len(),
        before[at].0@ == k,
        after.len() == before.len(),
        after[at].0@ == k,
        after[at].1@ == v,
        forall|i: int| 0 <= i < before.len() && i != at ==> after[i] == before[i],
    ensures
        distinct_keys(after),
        entries_map(after) == entries_map(before).insert(k, v),
{
    assert forall|i: int, j: int|
        0 <= i < after.len() && 0 <= j < after.len() && i != j implies (#[trigger] after[i]).0@
        != (#[trigger] after[j]).0@ by {
        if i != at && j != at {
            assert(after[i] == before[i] && after[j] == before[j]);
        } else if i == at {
            assert(after[j] == before[j]);
            assert(before[i].0@ != before[j].0@);
        } else {
            assert(after[i] == before[i]);
            assert(before[i].0@ != before[j].0@);
        }
    }
    assert forall|x: Seq<char>| has_key(after, x) <==> has_key(before, x) by {
        if has_key(after, x) {
            let i = choose|i: int| 0 <= i < after.len() && (#[trigger] after[i]).0@ == x;
            if i != at {
                assert(before[i] == after[i]);
            }
        }
        if has_key(before, x) {
            let i = choose|i: int| 0 <= i < before.len() && (#[trigger] before[i]).0@ == x;
            if i != at {
                assert(after[i] == before[i]);
            }
        }
    }
    assert forall|x: Seq<char>| #[trigger] has_key(after, x) implies after[key_index(after, x)].1@
        == (if x == k { v } else { before[key_index(before, x)].1@ }) by {
        if x == k {
            lemma_key_index_unique(after, x, at);
        } else {
            let i = key_index(before, x);
            assert(i != at);
            assert(after[i] == before[i]);
            lemma_key_index_unique(after, x, i);
        }
    }
    assert(has_key(before, k)) by {
        assert(before[at].0@ == k);
    }
    assert(entries_map(after) =~= entries_map(before).insert(k, v));
}

// ---------------------------------------------------------------------------
// Devices
// ---------------------------------------------------------------------------

/// The device built for `ip` from its evidence: named and typed by its
/// identity, keyed by its address, not yet tried.
pub open spec fn device_of(ip: Seq<char>, ev: Option<EvidenceView>) -> DeviceView {
    let identity = identity_of(ip, ev, table_vendor(ev));
    DeviceView {
        id: ip,
        name: identity.display_name,
        ip: ip,
        identity_kind: identity.kind,
        device_type: identity.device_type,
        status: DeviceStatus::Untested,
    }
}

/// The devices that a list of addresses stands for, in the list's order.
pub open spec fn devices_of(ips: Seq<String>, m: Map<Seq<char>, EvidenceView>) -> Seq<DeviceView> {
    ips.map_values(|ip: String| device_of(ip@, lookup(m, ip@)))
}

/// Builds the device for `ip` from the evidence held for it.
pub fn device_from_identity_evidence(ip: String, evidence: Option<&NeighborEvidence>) -> (r: Device)
    ensures
        r@ == device_of(ip@, evidence_view(evidence)),
{
    let identity = classify_device_identity(ip.as_str(), evidence);
    Device {
        id: ip.clone(),
        name: identity.display_name,
        ip,
        identity_kind: identity.kind,
        device_type: identity.device_type,
        status: DeviceStatus::Untested,
    }
}

/// Builds a device for each address, with the evidence held for it, and puts
/// them in scan-result order.
pub fn devices_from_identity_evidence(ips: Vec<String>, evidence_by_ip: EvidenceByIp) -> (r: Vec<Device>)
    ensures
        views_of(r@).to_multiset() == devices_of(ips@, evidence_by_ip@).to_multiset(),
        ip_sorted(r@),
{
    let mut devices: Vec<Device> = Vec::new();
    let mut i: usize = 0;
    while i < ips.len()
        invariant
            i <= ips@.len(),
            views_of(devices@) == devices_of(ips@.subrange(0, i as int), evidence_by_ip@),
        decreases ips@.len() - i,
    {
        let ip = ips[i].clone();
        let evidence = evidence_by_ip.get(ip.as_str());
        let device = device_from_identity_evidence(ip, evidence);
        let ghost before = devices@;
        devices.push(device);
        proof {
            assert(ips@.subrange(0, i + 1) =~= ips@.subrange(0, i as int).push(ips@[i as int]));
            assert(views_of(devices@) =~= views_of(before).push(device@));
            assert(devices_of(ips@.subrange(0, i + 1), evidence_by_ip@) =~= devices_of(
                ips@.subrange(0, i as int),
                evidence_by_ip@,
            ).push(device@));
        }
        i = i + 1;
    }
    assert(ips@.subrange(0, ips@.len() as int) =~= ips@);
    sort_devices_by_ip(&mut devices);
    devices
}

/// Builds a device, without evidence, for each address, in scan-result order.
pub fn devices_from_ips(ips: Vec<String>) -> (r: Vec<Device>)
    ensures
        views_of(r@).to_multiset() == devices_of(ips@, Map::empty()).to_multiset(),
        ip_sorted(r@),
{
    devices_from_identity_evidence(ips, EvidenceByIp::new())
}

/// Puts devices in scan-result order, keeping equal ones in their order.
pub fn sort_devices_by_ip(devices: &mut Vec<Device>)
    ensures
        views_of(final(devices)@).to_multiset() == views_of(old(devices)@).to_multiset(),
        ip_sorted(final(devices)@),
        stable_sort_of(old(devices)@, final(devices)@),
{
    sort_by_ip(devices);
}

/// The OUI prefix read from the first six hex digits of a MAC address, when
/// it has that many.
pub open spec fn mac_prefix_of(mac: Seq<char>) -> Option<Seq<u8>> {
    let h = hex_digits(mac);
    if h.len() < 6 {
        None
    } else {
        Some(seq![hex_byte(h[0], h[1]), hex_byte(h[2], h[3]), hex_byte(h[4], h[5])])
    }
}

/// The vendor registered for the OUI prefix of a MAC address written with any
/// separators.
pub fn vendor_name_from_mac_address(mac_address: &str) -> (r: Option<&'static str>)
    ensures
        opt_str_view(r) == match mac_prefix_of(mac_address@) {
            Some(p) => known_vendor(p),
            None => None,
        },
{
    let v = chars_of(mac_address);
    let hex = hex_digits_vec(&v);
    if hex.len() < 6 {
        return None;
    }
    proof {
        broadcast use vstd::seq_lib::group_filter_ensures;
        assert(is_ascii_hexdigit(hex@[0]) && is_ascii_hexdigit(hex@[1]));
        assert(is_ascii_hexdigit(hex@[2]) && is_ascii_hexdigit(hex@[3]));
        assert(is_ascii_hexdigit(hex@[4]) && is_ascii_hexdigit(hex@[5]));
    }
    let prefix = [byte_of(hex[0], hex[1]), byte_of(hex[2], hex[3]), byte_of(hex[4], hex[5])];
    assert(prefix@ =~= mac_prefix_of(mac_address@)->0);
    lookup_vendor_name(prefix)
}

// ---------------------------------------------------------------------------
// Layered scan results
// ---------------------------------------------------------------------------

/// Whether `v` holds a string equal to `s`.
fn contains_string(v: &Vec<String>, s: &String) -> (r: bool)
    ensures
        r == string_views(v@).contains(s@),
{
    let mut i: usize = 0;
    while i < v.len()
        invariant
            i <= v@.len(),
            forall|k: int| 0 <= k < i ==> v@[k]@ != s@,
        decreases v@.len() - i,
    {
        if v[i] == *s {
            assert(string_views(v@)[i as int] == s@);
            return true;
        }
        i = i + 1;
    }
    proof {
        if string_views(v@).contains(s@) {
            let k = choose|k: int| 0 <= k < string_views(v@).len() && string_views(v@)[k] == s@;
            assert(v@[k]@ == s@);
        }
    }
    false
}

/// Addresses in scan-result order with repeats removed.
fn normalize_and_sort_ips(ips: Vec<String>) -> (r: Vec<String>)
    ensures
        forall|x: Seq<char>| string_views(r@).contains(x) <==> string_views(ips@).contains(x),
        ip_strictly_sorted(r@),
{
    let mut ips = ips;
    let ghost initial = ips@;
    sort_by_ip(&mut ips);
    proof {
        assert forall|x: Seq<char>| string_views(ips@).contains(x) <==> string_views(initial).contains(x) by {
            if string_views(ips@).contains(x) {
                lemma_views_contains_by_multiset(ips@, initial, x);
            }
            if string_views(initial).contains(x) {
                lemma_views_contains_by_multiset(initial, ips@, x);
            }
        }
    }
    dedup_sorted_strings(ips)
}

proof fn lemma_views_contains_by_multiset(a: Seq<String>, b: Seq<String>, x: Seq<char>)
    requires
        views_of(a).to_multiset() == views_of(b).to_multiset(),
        string_views(a).contains(x),
    ensures
        string_views(b).contains(x),
{
    broadcast use vstd::seq_lib::group_to_multiset_ensures;
    assert(string_views(a) =~= views_of(a));
    assert(string_views(b) =~= views_of(b));
    assert(views_of(a).to_multiset().count(x) > 0);
    assert(views_of(b).to_multiset().count(x) > 0);
}

/// What the probe lists say of the SSH port of an online host: open wins,
/// then an exhausted retry, then closed; unlisted hosts stay unchecked.
pub open spec fn probe_status(
    ip: Seq<char>,
    open: Seq<Seq<char>>,
    closed: Seq<Seq<char>>,
    indeterminate: Seq<Seq<char>>,
) -> SshPortProbeStatus {
    if open.contains(ip) {
        SshPortProbeStatus::Open
    } else if indeterminate.contains(ip) {
        SshPortProbeStatus::Unchecked
    } else if closed.contains(ip) {
        SshPortProbeStatus::Closed
    } else {
        SshPortProbeStatus::Unchecked
    }
}

/// The addresses of layered entries, in order.
pub open spec fn layered_ips(s: Seq<LayeredScanDevice>) -> Seq<Seq<char>> {
    s.map_values(|e: LayeredScanDevice| e.device.ip@)
}

/// The devices of the entries whose SSH port was found open, in order.
pub open spec fn open_port_devices(s: Seq<LayeredScanDevice>) -> Seq<DeviceView> {
    s.filter(|e: LayeredScanDevice| e.ssh_port_status == SshPortProbeStatus::Open).map_values(
        |e: LayeredScanDevice| e.device@,
    )
}

/// The contract of a layered scan result: the online entries are the online
/// addresses, each once, in scan-result order, each with its device and probe
/// status; the SSH-ready devices are the online ones whose port is open.
pub open spec fn layered_result(
    r: LayeredScanDevices,
    online: Seq<Seq<char>>,
    open: Seq<Seq<char>>,
    closed: Seq<Seq<char>>,
    indeterminate: Seq<Seq<char>>,
    m: Map<Seq<char>, EvidenceView>,
) -> bool {
    &&& ip_strictly_sorted(r.online_devices@)
    &&& forall|x: Seq<char>| layered_ips(r.online_devices@).contains(x) <==> online.contains(x)
    &&& forall|i: int|
        0 <= i < r.online_devices@.len() ==> {
            let e = #[trigger] r.online_devices@[i];
            &&& e.device@ == device_of(e.device.ip@, lookup(m, e.device.ip@))
            &&& e.ssh_port_status == probe_status(e.device.ip@, open, closed, indeterminate)
        }
    &&& views_of(r.ssh_ready_devices@) == open_port_devices(r.online_devices@)
}

/// Splits a scan into the hosts that answered and those of them with an open
/// SSH port.
pub fn build_layered_scan_devices(
    online_ips: Vec<String>,
    ssh_open_ips: Vec<String>,
    ssh_closed_ips: Vec<String>,
    evidence_by_ip: EvidenceByIp,
) -> (r: LayeredScanDevices)
    ensures
        layered_result(
            r,
            string_views(online_ips@),
            string_views(ssh_open_ips@),
            string_views(ssh_closed_ips@),
            Seq::empty(),
            evidence_by_ip@,
        ),
{
    let indeterminate: Vec<String> = Vec::new();
    let r = build_layered_scan_devices_with_probe_semantics(
        online_ips,
        &ssh_open_ips,
        &ssh_closed_ips,
        &indeterminate,
        &evidence_by_ip,
    );
    assert(string_views(indeterminate@) =~= Seq::<Seq<char>>::empty());
    r
}

/// Splits a scan into the hosts that answered and those of them with an open
/// SSH port, by a probe report: hosts whose retries ran out count as
/// unchecked even when also listed closed.
pub fn build_layered_scan_devices_from_probe_report(
    online_ips: Vec<String>,
    probe_report: &TcpProbeReport,
    evidence_by_ip: EvidenceByIp,
) -> (r: LayeredScanDevices)
    ensures
        layered_result(
            r,
            string_views(online_ips@),
            string_views(probe_report.open_hosts@),
            string_views(probe_report.closed_hosts@),
            string_views(probe_report.retry_exhausted_hosts@),
            evidence_by_ip@,
        ),
{
    build_layered_scan_devices_with_probe_semantics(
        online_ips,
        &probe_report.open_hosts,
        &probe_report.closed_hosts,
        &probe_report.retry_exhausted_hosts,
        &evidence_by_ip,
    )
}

fn build_layered_scan_devices_with_probe_semantics(
    online_ips: Vec<String>,
    ssh_open_ips: &Vec<String>,
    ssh_closed_ips: &Vec<String>,
    ssh_indeterminate_ips: &Vec<String>,
    evidence_by_ip: &EvidenceByIp,
) -> (r: LayeredScanDevices)
    ensures
        layered_result(
            r,
            string_views(online_ips@),
            string_views(ssh_open_ips@),
            string_views(ssh_closed_ips@),
            string_views(ssh_indeterminate_ips@),
            evidence_by_ip@,
        ),
{
    let ghost open = string_views(ssh_open_ips@);
    let ghost closed = string_views(ssh_closed_ips@);
    let ghost indeterminate = string_views(ssh_indeterminate_ips@);
    let ghost m = evidence_by_ip@;
    let online = normalize_and_sort_ips(online_ips);
    let mut online_devices: Vec<LayeredScanDevice> = Vec::new();
    let mut ssh_ready_devices: Vec<Device> = Vec::new();
    let mut i: usize = 0;
    while i < online.len()
        invariant
            i <= online@.len(),
            online_devices@.len() == i,
            open == string_views(ssh_open_ips@),
            closed == string_views(ssh_closed_ips@),
            indeterminate == string_views(ssh_indeterminate_ips@),
            m == evidence_by_ip@,
            forall|k: int| 0 <= k < i ==> (#[trigger] online_devices@[k]).device.ip@ == online@[k]@
                && online_devices@[k].device.id@ == online@[k]@,
            forall|k: int|
                0 <= k < i ==> {
                    let e = #[trigger] online_devices@[k];
                    &&& e.device@ == device_of(e.device.ip@, lookup(m, e.device.ip@))
                    &&& e.ssh_port_status == probe_status(e.device.ip@, open, closed, indeterminate)
                },
            views_of(ssh_ready_devices@) == open_port_devices(online_devices@),
        decreases online@.len() - i,
    {
        let ip = online[i].clone();
        let is_open = contains_string(ssh_open_ips, &ip);
        let ssh_port_status = if is_open {
            SshPortProbeStatus::Open
        } else if contains_string(ssh_indeterminate_ips, &ip) {
            SshPortProbeStatus::Unchecked
        } else if contains_string(ssh_closed_ips, &ip) {
            SshPortProbeStatus::Closed
        } else {
            SshPortProbeStatus::Unchecked
        };
        let device = device_from_identity_evidence(ip.clone(), evidence_by_ip.get(ip.as_str()));
        let entry = LayeredScanDevice { device, ssh_port_status };
        let ghost before = online_devices@;
        let ghost ready_before = ssh_ready_devices@;
        online_devices.push(entry);
        if is_open {
            let ready = device_from_identity_evidence(ip.clone(), evidence_by_ip.get(ip.as_str()));
            ssh_ready_devices.push(ready);
        }
        proof {
            let is_open_entry = |e: LayeredScanDevice| e.ssh_port_status == SshPortProbeStatus::Open;
            before.lemma_filter_push(entry, is_open_entry);
            assert(online_devices@ == before.push(entry));
            if is_open {
                assert(views_of(ssh_ready_devices@) =~= views_of(ready_before).push(entry.device@));
                assert(open_port_devices(online_devices@) =~= open_port_devices(before).push(entry.device@));
            } else {
                assert(ssh_ready_devices@ == ready_before);
                assert(open_port_devices(online_devices@) =~= open_port_devices(before));
            }
        }
        i = i + 1;
    }
    proof {
        assert forall|k: int| 0 <= k && k + 1 < online_devices@.len() implies #[trigger] key_order(
            online_devices@[k],
            online_devices@[k + 1],
        ) == -1 by {
            assert(key_order(online@[k], online@[k + 1]) == -1);
        }
        assert(layered_ips(online_devices@) =~= string_views(online@));
    }
    LayeredScanDevices { online_devices, ssh_ready_devices }
}

// ---------------------------------------------------------------------------
// Order of devices
// ---------------------------------------------------------------------------

/// Scan-result order of two devices: by address, then by id.
pub fn compare_devices_by_ip(left: &Device, right: &Device) -> (r: Ordering)
    ensures
        r == ordering_of(key_order(*left, *right)),
{
    compare_ip_and_id(left.ip.as_str(), left.id.as_str(), right.ip.as_str(), right.id.as_str())
}

/// Whether a device was found ready.
pub open spec fn is_ready(d: Device) -> bool {
    d.status == DeviceStatus::Ready
}

/// The rank of a status when ready devices come first.
fn status_priority(status: DeviceStatus) -> (r: u8)
    ensures
        r == (if status == DeviceStatus::Ready { 0u8 } else { 1u8 }),
{
    match status {
        DeviceStatus::Ready => 0,
        DeviceStatus::Untested | DeviceStatus::Denied | DeviceStatus::Error => 1,
    }
}

/// Moves the ready devices to the front, keeping the order within the ready
/// ones and within the others.
pub fn prioritize_ready_devices(devices: &mut Vec<Device>)
    ensures
        final(devices)@ == old(devices)@.filter(|d: Device| is_ready(d)) + old(devices)@.filter(
            |d: Device| !is_ready(d),
        ),
{
    let ghost initial = old(devices)@;
    let ghost ready_pred = |d: Device| is_ready(d);
    let ghost rest_pred = |d: Device| !is_ready(d);
    let mut src: Vec<Device> = Vec::new();
    std::mem::swap(&mut src, devices);
    let mut ready: Vec<Device> = Vec::new();
    let mut rest: Vec<Device> = Vec::new();
    let ghost mut k: int = 0;
    while src.len() > 0
        invariant
            0 <= k <= initial.len(),
            src@ == initial.subrange(k, initial.len() as int),
            ready@ == initial.subrange(0, k).filter(ready_pred),
            rest@ == initial.subrange(0, k).filter(rest_pred),
            ready_pred == (|d: Device| is_ready(d)),
            rest_pred == (|d: Device| !is_ready(d)),
        decreases src.len(),
    {
        let d = src.remove(0);
        proof {
            assert(d == initial[k]);
            assert(initial.subrange(0, k + 1) =~= initial.subrange(0, k).push(d));
            initial.subrange(0, k).lemma_filter_push(d, ready_pred);
            initial.subrange(0, k).lemma_filter_push(d, rest_pred);
            assert(src@ =~= initial.subrange(k + 1, initial.len() as int));
            k = k + 1;
        }
        if status_priority(d.status) == 0 {
            ready.push(d);
        } else {
            rest.push(d);
        }
    }
    proof {
        assert(initial.subrange(0, k) =~= initial);
    }
    ready.append(&mut rest);
    *devices = ready;
}

/// The device list built from a set of addresses is fixed by its inputs:
/// any two lists that meet the contract of `devices_from_identity_evidence`
/// for the same addresses and evidence, with addresses all of one form, hold
/// the same devices in the same order.
pub proof fn lemma_device_list_is_determined(
    r1: Seq<Device>,
    r2: Seq<Device>,
    ips: Seq<String>,
    m: Map<Seq<char>, EvidenceView>,
)
    requires
        views_of(r1).to_multiset() == devices_of(ips, m).to_multiset(),
        views_of(r2).to_multiset() == devices_of(ips, m).to_multiset(),
        ip_sorted(r1),
        ip_sorted(r2),
        crate::order::uniform_addresses(r1),
    ensures
        views_of(r1) == views_of(r2),
{
    broadcast use vstd::seq_lib::group_to_multiset_ensures;
    assert(crate::order::keys_follow_views::<Device>());
    assert forall|i: int| 0 <= i < r1.len() implies (#[trigger] r1[i]).id@ == r1[i].ip@ by {
        assert(views_of(r1)[i] == r1[i]@);
        assert(views_of(r1).to_multiset().count(r1[i]@) > 0);
        assert(devices_of(ips, m).contains(r1[i]@));
        let k = choose|k: int| 0 <= k < devices_of(ips, m).len() && devices_of(ips, m)[k] == r1[i]@;
        assert(devices_of(ips, m)[k] == device_of(ips[k]@, lookup(m, ips[k]@)));
    }
    assert(crate::order::order_separates_views(r1)) by {
        assert forall|i: int, j: int|
            0 <= i < r1.len() && 0 <= j < r1.len() && key_order(#[trigger] r1[i], #[trigger] r1[j]) == 0 implies r1[i]@
                == r1[j]@ by {
            crate::order::lemma_ip_id_order_equal(r1[i].ip@, r1[i].id@, r1[j].ip@, r1[j].id@);
            assert(views_of(r1)[i] == r1[i]@);
            assert(views_of(r1)[j] == r1[j]@);
            assert(views_of(r1).to_multiset().count(r1[i]@) > 0);
            assert(views_of(r1).to_multiset().count(r1[j]@) > 0);
            assert(devices_of(ips, m).contains(r1[i]@));
            assert(devices_of(ips, m).contains(r1[j]@));
            let a = choose|k: int| 0 <= k < devices_of(ips, m).len() && devices_of(ips, m)[k] == r1[i]@;
            let b = choose|k: int| 0 <= k < devices_of(ips, m).len() && devices_of(ips, m)[k] == r1[j]@;
            assert(devices_of(ips, m)[a] == device_of(ips[a]@, lookup(m, ips[a]@)));
            assert(devices_of(ips, m)[b] == device_of(ips[b]@, lookup(m, ips[b]@)));
        }
    }
    crate::order::lemma_sorted_arrangement_is_unique(r1, r2);
}

} // verus!
