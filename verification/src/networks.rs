//! How the network selector describes an interface: its kind, read from its
//! type and from the words in its name and id, and the details that tell
//! apart interfaces that would otherwise look the same.
use vstd::prelude::*;
use crate::dropdown::{DropdownEntry, Glyph};
use crate::labels::{pick, AppLanguage};
use crate::neighbor::{InterfaceType, InterfaceView, NetworkInterface};
use crate::text::{chars_of, concat_str, contains_any, contains_any_word, lower_seq, owned, str_views, to_lower_vec};

verus! {

/// The kind of a virtual or tunnel interface, from the words in its
/// lower-cased name and id.
pub open spec fn virtual_kind(fingerprint: Seq<char>, language: AppLanguage) -> Option<(Glyph, Seq<char>)> {
    if contains_any(fingerprint, seq!["vmware"@, "vmnet"@]) {
        Some((Glyph::Docker, pick(language, "VMware 虚拟网卡"@, "VMware Virtual Adapter"@)))
    } else if contains_any(fingerprint, seq!["docker"@]) {
        Some((Glyph::Docker, pick(language, "Docker 虚拟网卡"@, "Docker Virtual Adapter"@)))
    } else if contains_any(fingerprint, seq!["vethernet"@, "hyper-v"@, "hyperv"@, "wsl"@]) {
        Some((Glyph::Docker, pick(language, "Windows 虚拟网卡"@, "Windows Virtual Adapter"@)))
    } else if contains_any(fingerprint, seq!["virtualbox"@, "vbox"@]) {
        Some((Glyph::Docker, pick(language, "VirtualBox 虚拟网卡"@, "VirtualBox Virtual Adapter"@)))
    } else if contains_any(fingerprint, seq!["tailscale"@, "zerotier"@, "vpn"@, "tun"@, "tap"@]) {
        Some((Glyph::Network, pick(language, "隧道网络接口"@, "Tunnel Interface"@)))
    } else if contains_any(fingerprint, seq!["virtual"@, "bridge"@]) {
        Some((Glyph::Docker, pick(language, "虚拟网络"@, "Virtual Network"@)))
    } else {
        None
    }
}

/// The kinds of virtual and tunnel interfaces, in the order they are tried:
/// the words that name each kind in an interface's fingerprint, its icon,
/// and its Chinese and English labels.
pub open spec fn virtual_kind_table() -> Seq<(Seq<Seq<char>>, Glyph, Seq<char>, Seq<char>)> {
    seq![
        (seq!["vmware"@, "vmnet"@], Glyph::Docker, "VMware 虚拟网卡"@, "VMware Virtual Adapter"@),
        (seq!["docker"@], Glyph::Docker, "Docker 虚拟网卡"@, "Docker Virtual Adapter"@),
        (seq!["vethernet"@, "hyper-v"@, "hyperv"@, "wsl"@], Glyph::Docker, "Windows 虚拟网卡"@, "Windows Virtual Adapter"@),
        (seq!["virtualbox"@, "vbox"@], Glyph::Docker, "VirtualBox 虚拟网卡"@, "VirtualBox Virtual Adapter"@),
        (seq!["tailscale"@, "zerotier"@, "vpn"@, "tun"@, "tap"@], Glyph::Network, "隧道网络接口"@, "Tunnel Interface"@),
        (seq!["virtual"@, "bridge"@], Glyph::Docker, "虚拟网络"@, "Virtual Network"@),
    ]
}

/// A fingerprint is read as the first kind of the table whose words occur in
/// it, with that kind's icon and label in the language asked for; one that
/// names no kind is not a virtual interface.
pub proof fn lemma_virtual_kinds(fingerprint: Seq<char>, language: AppLanguage)
    ensures
        forall|i: int|
            0 <= i < virtual_kind_table().len() && contains_any(fingerprint, #[trigger] virtual_kind_table()[i].0)
                && (forall|j: int| 0 <= j < i ==> !contains_any(fingerprint, #[trigger] virtual_kind_table()[j].0))
                ==> virtual_kind(fingerprint, language) == Some((
                virtual_kind_table()[i].1,
                pick(language, virtual_kind_table()[i].2, virtual_kind_table()[i].3),
            )),
        (forall|j: int| 0 <= j < virtual_kind_table().len() ==> !contains_any(fingerprint, #[trigger] virtual_kind_table()[j].0))
            ==> virtual_kind(fingerprint, language) is None,
{
    let t = virtual_kind_table();
    assert forall|i: int|
        0 <= i < t.len() && contains_any(fingerprint, #[trigger] t[i].0)
            && (forall|j: int| 0 <= j < i ==> !contains_any(fingerprint, #[trigger] t[j].0))
            implies virtual_kind(fingerprint, language) == Some((t[i].1, pick(language, t[i].2, t[i].3))) by {
        if i >= 1 { assert(!contains_any(fingerprint, t[0].0)); }
        if i >= 2 { assert(!contains_any(fingerprint, t[1].0)); }
        if i >= 3 { assert(!contains_any(fingerprint, t[2].0)); }
        if i >= 4 { assert(!contains_any(fingerprint, t[3].0)); }
        if i >= 5 { assert(!contains_any(fingerprint, t[4].0)); }
    }
    if forall|j: int| 0 <= j < t.len() ==> !contains_any(fingerprint, #[trigger] t[j].0) {
        assert(!contains_any(fingerprint, t[0].0));
        assert(!contains_any(fingerprint, t[1].0));
        assert(!contains_any(fingerprint, t[2].0));
        assert(!contains_any(fingerprint, t[3].0));
        assert(!contains_any(fingerprint, t[4].0));
        assert(!contains_any(fingerprint, t[5].0));
    }
}

/// An interface of virtual or other type whose name or id mentions VMware
/// (`vmware` or `vmnet`, in any case) is shown as a VMware virtual adapter.
pub proof fn lemma_vmware_interfaces(n: InterfaceView, language: AppLanguage)
    requires
        n.iface_type == InterfaceType::Docker || n.iface_type == InterfaceType::Other,
        contains_any(fingerprint_of(n), seq!["vmware"@, "vmnet"@]),
    ensures
        network_kind(n, language) == (Glyph::Docker, pick(language, "VMware 虚拟网卡"@, "VMware Virtual Adapter"@)),
{
    lemma_virtual_kinds(fingerprint_of(n), language);
    assert(contains_any(fingerprint_of(n), virtual_kind_table()[0].0));
}

fn has_word(fingerprint: &Vec<char>, words: &[&str]) -> (r: bool)
    ensures
        r == contains_any(fingerprint@, str_views(words@)),
{
    contains_any_word(fingerprint, words)
}

/// The kind of a virtual or tunnel interface, if its fingerprint names one.
pub fn classify_virtual_network(fingerprint: &str, language: AppLanguage) -> (r: Option<(Glyph, &'static str)>)
    ensures
        match r {
            Some((g, label)) => virtual_kind(fingerprint@, language) == Some((g, label@)),
            None => virtual_kind(fingerprint@, language) is None,
        },
{
    let fp = chars_of(fingerprint);
    let vmware = ["vmware", "vmnet"];
    let docker = ["docker"];
    let windows = ["vethernet", "hyper-v", "hyperv", "wsl"];
    let vbox = ["virtualbox", "vbox"];
    let tunnel = ["tailscale", "zerotier", "vpn", "tun", "tap"];
    let bridge = ["virtual", "bridge"];
    proof {
        assert(str_views(vmware@) =~= seq!["vmware"@, "vmnet"@]);
        assert(str_views(docker@) =~= seq!["docker"@]);
        assert(str_views(windows@) =~= seq!["vethernet"@, "hyper-v"@, "hyperv"@, "wsl"@]);
        assert(str_views(vbox@) =~= seq!["virtualbox"@, "vbox"@]);
        assert(str_views(tunnel@) =~= seq!["tailscale"@, "zerotier"@, "vpn"@, "tun"@, "tap"@]);
        assert(str_views(bridge@) =~= seq!["virtual"@, "bridge"@]);
    }
    if has_word(&fp, &vmware) {
        Some((Glyph::Docker, crate::labels::localized(language, "VMware 虚拟网卡", "VMware Virtual Adapter")))
    } else if has_word(&fp, &docker) {
        Some((Glyph::Docker, crate::labels::localized(language, "Docker 虚拟网卡", "Docker Virtual Adapter")))
    } else if has_word(&fp, &windows) {
        Some((Glyph::Docker, crate::labels::localized(language, "Windows 虚拟网卡", "Windows Virtual Adapter")))
    } else if has_word(&fp, &vbox) {
        Some(
            (
                Glyph::Docker,
                crate::labels::localized(language, "VirtualBox 虚拟网卡", "VirtualBox Virtual Adapter"),
            ),
        )
    } else if has_word(&fp, &tunnel) {
        Some((Glyph::Network, crate::labels::localized(language, "隧道网络接口", "Tunnel Interface")))
    } else if has_word(&fp, &bridge) {
        Some((Glyph::Docker, crate::labels::localized(language, "虚拟网络", "Virtual Network")))
    } else {
        None
    }
}

/// The name and id of an interface, lower-cased, that its kind is read from.
pub open spec fn fingerprint_of(n: InterfaceView) -> Seq<char> {
    lower_seq(n.name + " "@ + n.id)
}

/// The icon and kind label of an interface.
pub open spec fn network_kind(n: InterfaceView, language: AppLanguage) -> (Glyph, Seq<char>) {
    match n.iface_type {
        InterfaceType::Wifi => (Glyph::Wifi, "Wi-Fi"@),
        InterfaceType::Ethernet => (Glyph::Ethernet, pick(language, "以太网"@, "Ethernet"@)),
        InterfaceType::Docker => match virtual_kind(fingerprint_of(n), language) {
            Some(k) => k,
            None => (Glyph::Docker, pick(language, "虚拟网络"@, "Virtual Network"@)),
        },
        InterfaceType::Other => match virtual_kind(fingerprint_of(n), language) {
            Some(k) => k,
            None => (Glyph::Network, pick(language, "网络接口"@, "Network Interface"@)),
        },
    }
}

/// The icon and kind label of an interface.
pub fn describe_network_kind(network: &NetworkInterface, language: AppLanguage) -> (r: (Glyph, &'static str))
    ensures
        (r.0, r.1@) == network_kind(network@, language),
{
    let joined = concat_str(concat_str(network.name.clone(), " "), network.id.as_str());
    let fingerprint = crate::text::string_of(&to_lower_vec(&chars_of(joined.as_str())));
    match network.iface_type {
        InterfaceType::Wifi => (Glyph::Wifi, "Wi-Fi"),
        InterfaceType::Ethernet => (Glyph::Ethernet, crate::labels::localized(language, "以太网", "Ethernet")),
        InterfaceType::Docker => match classify_virtual_network(fingerprint.as_str(), language) {
            Some(k) => k,
            None => (Glyph::Docker, crate::labels::localized(language, "虚拟网络", "Virtual Network")),
        },
        InterfaceType::Other => match classify_virtual_network(fingerprint.as_str(), language) {
            Some(k) => k,
            None => (Glyph::Network, crate::labels::localized(language, "网络接口", "Network Interface")),
        },
    }
}

/// Whether another interface has the same name, range and kind, so that
/// the id must be shown to tell them apart.
pub open spec fn needs_disambiguation(n: InterfaceView, all: Seq<InterfaceView>) -> bool {
    exists|k: int|
        0 <= k < all.len() && (#[trigger] all[k]).id != n.id && all[k].name == n.name && all[k].ip_range
            == n.ip_range && network_kind(all[k], AppLanguage::Chinese).1 == network_kind(
            n,
            AppLanguage::Chinese,
        ).1
}

/// The views of a list of interfaces.
pub open spec fn interface_views(all: Seq<NetworkInterface>) -> Seq<InterfaceView> {
    all.map_values(|n: NetworkInterface| n@)
}

/// Whether the id of an interface must be shown to tell it apart.
pub fn needs_interface_disambiguation(network: &NetworkInterface, all_networks: &Vec<NetworkInterface>) -> (r:
    bool)
    ensures
        r == needs_disambiguation(network@, interface_views(all_networks@)),
{
    let ghost views = interface_views(all_networks@);
    let own_kind = describe_network_kind(network, AppLanguage::Chinese).1;
    let mut i: usize = 0;
    while i < all_networks.len()
        invariant
            i <= all_networks@.len(),
            views == interface_views(all_networks@),
            own_kind@ == network_kind(network@, AppLanguage::Chinese).1,
            forall|k: int|
                0 <= k < i ==> !((#[trigger] views[k]).id != network@.id && views[k].name == network@.name
                    && views[k].ip_range == network@.ip_range && network_kind(views[k], AppLanguage::Chinese).1
                    == network_kind(network@, AppLanguage::Chinese).1),
        decreases all_networks@.len() - i,
    {
        let candidate = &all_networks[i];
        assert(views[i as int] == candidate@);
        if !(candidate.id == network.id) && candidate.name == network.name && candidate.ip_range
            == network.ip_range {
            let kind = describe_network_kind(candidate, AppLanguage::Chinese).1;
            if crate::text::str_eq(kind, own_kind) {
                return true;
            }
        }
        i = i + 1;
    }
    false
}

/// The selector entry of an interface: its kind's icon, its name, its range
/// with its kind, and its id when another interface looks the same.
pub open spec fn network_entry(n: InterfaceView, all: Seq<InterfaceView>, language: AppLanguage) -> (Glyph, Seq<char>, Seq<Seq<char>>) {
    let (glyph, kind) = network_kind(n, language);
    let first = pick(language, "网段"@, "Subnet"@) + " "@ + n.ip_range + " · "@ + kind;
    let details = if needs_disambiguation(n, all) {
        seq![first, pick(language, "接口"@, "Interface"@) + " "@ + n.id]
    } else {
        seq![first]
    };
    (glyph, n.name, details)
}

/// The selector entry of an interface.
pub fn describe_network(network: &NetworkInterface, all_networks: &Vec<NetworkInterface>, language: AppLanguage) -> (r:
    DropdownEntry)
    ensures
        (r.glyph, r.title@, r.details@.map_values(|d: String| d@)) == network_entry(
            network@,
            interface_views(all_networks@),
            language,
        ),
{
    let (glyph, kind_label) = describe_network_kind(network, language);
    let subnet = crate::labels::localized(language, "网段", "Subnet");
    let first = concat_str(
        concat_str(concat_str(concat_str(owned(subnet), " "), network.ip_range.as_str()), " · "),
        kind_label,
    );
    let mut details: Vec<String> = Vec::new();
    details.push(first);
    if needs_interface_disambiguation(network, all_networks) {
        let iface = crate::labels::localized(language, "接口", "Interface");
        details.push(concat_str(concat_str(owned(iface), " "), network.id.as_str()));
    }
    let r = DropdownEntry { glyph, title: network.name.clone(), details };
    assert(r.details@.map_values(|d: String| d@) =~= network_entry(
        network@,
        interface_views(all_networks@),
        language,
    ).2);
    r
}

} // verus!
