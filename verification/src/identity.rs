//! What a device on the network probably is, judged from the evidence its
//! neighbor-table entry and name lookups left: the vendor of its MAC prefix,
//! board names and platform words in its host names.
use vstd::prelude::*;
use crate::text::{
    CharClass, chars_of, concat_str, contains_any, contains_any_word, has_any_token,
    has_any_token_vec, hex_digit_value, hex_digits, hex_digits_vec, hex_value, is_ascii_hexdigit,
    is_control, lower_seq, owned, str_views, strip, strip_vec, to_lower_vec, trim, trim_vec,
    any_control, string_of,
};
use crate::vendor::{known_vendor, lookup_vendor_name, opt_str_view};

verus! {

/// Rough form factor of a device.
#[derive(Debug, Clone, Copy, PartialEq, Eq, Structural)]
pub enum DeviceType {
    Laptop,
    Server,
    Desktop,
}

/// The family a device was recognised as.
#[derive(Debug, Clone, Copy, PartialEq, Eq, Structural)]
pub enum DeviceIdentityKind {
    RaspberryPi,
    Jetson,
    Computer,
    Unknown,
}

/// The outcome of classifying one device.
#[derive(Debug, Clone, PartialEq, Eq)]
pub struct DeviceIdentity {
    pub kind: DeviceIdentityKind,
    pub display_name: String,
    pub device_type: DeviceType,
}

pub struct IdentityView {
    pub kind: DeviceIdentityKind,
    pub display_name: Seq<char>,
    pub device_type: DeviceType,
}

impl View for DeviceIdentity {
    type V = IdentityView;

    open spec fn view(&self) -> IdentityView {
        IdentityView {
            kind: self.kind,
            display_name: self.display_name@,
            device_type: self.device_type,
        }
    }
}

/// What the neighbor table and name lookups told about one address.
#[derive(Debug, Clone, PartialEq, Eq)]
pub struct NeighborEvidence {
    pub mac_address: Option<String>,
    pub hostname: Option<String>,
    pub mdns_name: Option<String>,
    pub dns_name: Option<String>,
    pub smb_name: Option<String>,
    pub smb_domain: Option<String>,
}

pub struct EvidenceView {
    pub mac_address: Option<Seq<char>>,
    pub hostname: Option<Seq<char>>,
    pub mdns_name: Option<Seq<char>>,
    pub dns_name: Option<Seq<char>>,
    pub smb_name: Option<Seq<char>>,
    pub smb_domain: Option<Seq<char>>,
}

/// The view of an optional string.
pub open spec fn opt_string_view(o: Option<String>) -> Option<Seq<char>> {
    match o {
        Some(s) => Some(s@),
        None => None,
    }
}

impl View for NeighborEvidence {
    type V = EvidenceView;

    open spec fn view(&self) -> EvidenceView {
        EvidenceView {
            mac_address: opt_string_view(self.mac_address),
            hostname: opt_string_view(self.hostname),
            mdns_name: opt_string_view(self.mdns_name),
            dns_name: opt_string_view(self.dns_name),
            smb_name: opt_string_view(self.smb_name),
            smb_domain: opt_string_view(self.smb_domain),
        }
    }
}

/// The view of optional evidence.
pub open spec fn evidence_view(e: Option<&NeighborEvidence>) -> Option<EvidenceView> {
    match e {
        Some(x) => Some(x@),
        None => None,
    }
}

// ---------------------------------------------------------------------------
// Labels
// ---------------------------------------------------------------------------

/// A name as the evidence keeps it: surrounding white space and double quotes
/// removed, and nothing at all if that leaves it empty or it holds a control
/// character.
pub open spec fn trim_label(s: Seq<char>) -> Option<Seq<char>> {
    let t = trim(strip(trim(s), CharClass::Exactly('"')));
    if t.len() == 0 || (exists|k: int| 0 <= k < t.len() && is_control(#[trigger] t[k])) {
        None
    } else {
        Some(t)
    }
}

/// `trim_label` applied to an optional name.
pub open spec fn normalize_label(o: Option<Seq<char>>) -> Option<Seq<char>> {
    match o {
        Some(s) => trim_label(s),
        None => None,
    }
}

/// The view of an optional character vector.
pub open spec fn opt_vec_view(o: Option<Vec<char>>) -> Option<Seq<char>> {
    match o {
        Some(v) => Some(v@),
        None => None,
    }
}

pub fn trim_label_vec(v: &Vec<char>) -> (r: Option<Vec<char>>)
    ensures
        opt_vec_view(r) == trim_label(v@),
{
    let a = trim_vec(v);
    let b = strip_vec(&a, CharClass::Exactly('"'));
    let t = trim_vec(&b);
    if t.len() == 0 || any_control(&t) {
        None
    } else {
        Some(t)
    }
}

/// A label whose ends are already neither white space nor a double quote is
/// kept as it is by a second trimming.
pub proof fn lemma_trim_label_stable(s: Seq<char>)
    requires
        trim_label(s) is Some,
        trim_label(s)->0[0] != '"',
        trim_label(s)->0.last() != '"',
    ensures
        trim_label(trim_label(s)->0) == trim_label(s),
{
    let t = trim_label(s)->0;
    crate::text::lemma_strip_idempotent(strip(trim(s), CharClass::Exactly('"')), CharClass::WhiteSpace);
    assert(trim(t) == t);
    crate::text::lemma_strip_unchanged(t, CharClass::Exactly('"'));
}

fn normalize_optional_label(value: Option<String>) -> (r: Option<String>)
    ensures
        opt_string_view(r) == normalize_label(opt_string_view(value)),
{
    match value {
        Some(s) => {
            let v = chars_of(s.as_str());
            match trim_label_vec(&v) {
                Some(t) => Some(string_of(&t)),
                None => None,
            }
        },
        None => None,
    }
}

/// The first name of mDNS name, DNS name and host name that is present,
/// trimmed as a label.
pub open spec fn auxiliary_label(e: EvidenceView) -> Option<Seq<char>> {
    let first = if e.mdns_name is Some {
        e.mdns_name
    } else if e.dns_name is Some {
        e.dns_name
    } else {
        e.hostname
    };
    normalize_label(first)
}

impl NeighborEvidence {
    /// Evidence with the given MAC address and names, each trimmed as a label.
    pub fn new(mac_address: Option<String>, hostname: Option<String>, mdns_name: Option<String>) -> (r:
        Self)
        ensures
            r@.mac_address == normalize_label(opt_string_view(mac_address)),
            r@.hostname == normalize_label(opt_string_view(hostname)),
            r@.mdns_name == normalize_label(opt_string_view(mdns_name)),
            r@.dns_name is None,
            r@.smb_name is None,
            r@.smb_domain is None,
    {
        NeighborEvidence {
            mac_address: normalize_optional_label(mac_address),
            hostname: normalize_optional_label(hostname),
            mdns_name: normalize_optional_label(mdns_name),
            dns_name: None,
            smb_name: None,
            smb_domain: None,
        }
    }

    /// The same evidence with its network names replaced, each trimmed as a label.
    pub fn with_network_names(
        self,
        dns_name: Option<String>,
        smb_name: Option<String>,
        smb_domain: Option<String>,
    ) -> (r: Self)
        ensures
            r@.mac_address == self@.mac_address,
            r@.hostname == self@.hostname,
            r@.mdns_name == self@.mdns_name,
            r@.dns_name == normalize_label(opt_string_view(dns_name)),
            r@.smb_name == normalize_label(opt_string_view(smb_name)),
            r@.smb_domain == normalize_label(opt_string_view(smb_domain)),
    {
        let mut e = self;
        e.dns_name = normalize_optional_label(dns_name);
        e.smb_name = normalize_optional_label(smb_name);
        e.smb_domain = normalize_optional_label(smb_domain);
        e
    }

    fn auxiliary_label(&self) -> (r: Option<Vec<char>>)
        ensures
            opt_vec_view(r) == auxiliary_label(self@),
    {
        let first: &Option<String> = if self.mdns_name.is_some() {
            &self.mdns_name
        } else if self.dns_name.is_some() {
            &self.dns_name
        } else {
            &self.hostname
        };
        match first {
            Some(s) => {
                let v = chars_of(s.as_str());
                trim_label_vec(&v)
            },
            None => None,
        }
    }
}

/// Evidence with no MAC address and no names.
impl Default for NeighborEvidence {
    fn default() -> (r: Self)
        ensures
            r@.mac_address is None,
            r@.hostname is None,
            r@.mdns_name is None,
            r@.dns_name is None,
            r@.smb_name is None,
            r@.smb_domain is None,
    {
        NeighborEvidence {
            mac_address: None,
            hostname: None,
            mdns_name: None,
            dns_name: None,
            smb_name: None,
            smb_domain: None,
        }
    }
}

// ---------------------------------------------------------------------------
// OUI prefixes
// ---------------------------------------------------------------------------

/// The byte written by two hex digits.
pub open spec fn hex_byte(hi: char, lo: char) -> u8 {
    (hex_value(hi) * 16 + hex_value(lo)) as u8
}

/// The first three bytes of a MAC address, read from its hex digits whatever
/// separates them; nothing when it has fewer than twelve hex digits.
pub open spec fn oui_prefix_of(mac: Seq<char>) -> Option<Seq<u8>> {
    let h = hex_digits(mac);
    if h.len() < 12 {
        None
    } else {
        Some(seq![hex_byte(h[0], h[1]), hex_byte(h[2], h[3]), hex_byte(h[4], h[5])])
    }
}

pub(crate) fn byte_of(hi: char, lo: char) -> (r: u8)
    requires
        is_ascii_hexdigit(hi),
        is_ascii_hexdigit(lo),
    ensures
        r == hex_byte(hi, lo),
{
    let h = hex_digit_value(hi);
    let l = hex_digit_value(lo);
    h * 16 + l
}

/// The OUI prefix of a MAC address written with any separators.
pub fn oui_prefix(raw_mac: &str) -> (r: Option<[u8; 3]>)
    ensures
        r is Some <==> oui_prefix_of(raw_mac@) is Some,
        r matches Some(p) ==> p@ == oui_prefix_of(raw_mac@)->0,
{
    let v = chars_of(raw_mac);
    let hex = hex_digits_vec(&v);
    if hex.len() < 12 {
        return None;
    }
    proof {
        broadcast use vstd::seq_lib::group_filter_ensures;
        assert(is_ascii_hexdigit(hex@[0]) && is_ascii_hexdigit(hex@[1]));
        assert(is_ascii_hexdigit(hex@[2]) && is_ascii_hexdigit(hex@[3]));
        assert(is_ascii_hexdigit(hex@[4]) && is_ascii_hexdigit(hex@[5]));
    }
    let r = [byte_of(hex[0], hex[1]), byte_of(hex[2], hex[3]), byte_of(hex[4], hex[5])];
    assert(r@ =~= oui_prefix_of(raw_mac@)->0);
    Some(r)
}

/// The OUI prefix of the MAC address in the evidence, if any.
pub open spec fn evidence_prefix(e: Option<EvidenceView>) -> Option<Seq<u8>> {
    match e {
        Some(x) => match x.mac_address {
            Some(m) => oui_prefix_of(m),
            None => None,
        },
        None => None,
    }
}

fn evidence_oui_prefix(evidence: Option<&NeighborEvidence>) -> (r: Option<[u8; 3]>)
    ensures
        r is Some <==> evidence_prefix(evidence_view(evidence)) is Some,
        r matches Some(p) ==> p@ == evidence_prefix(evidence_view(evidence))->0,
{
    match evidence {
        Some(e) => match &e.mac_address {
            Some(m) => oui_prefix(m.as_str()),
            None => None,
        },
        None => None,
    }
}

// ---------------------------------------------------------------------------
// Hints
// ---------------------------------------------------------------------------

/// A family with the name to show for it.
#[derive(Clone, Copy)]
pub struct IdentityHint {
    pub kind: DeviceIdentityKind,
    pub display_name: &'static str,
}

pub struct HintView {
    pub kind: DeviceIdentityKind,
    pub name: Seq<char>,
}

impl View for IdentityHint {
    type V = HintView;

    open spec fn view(&self) -> HintView {
        HintView { kind: self.kind, name: self.display_name@ }
    }
}

pub open spec fn hint(kind: DeviceIdentityKind, name: Seq<char>) -> HintView {
    HintView { kind, name }
}

pub open spec fn opt_hint_view(o: Option<IdentityHint>) -> Option<HintView> {
    match o {
        Some(h) => Some(h@),
        None => None,
    }
}

/// The name shown for a family when nothing more specific is known.
pub open spec fn default_name(kind: DeviceIdentityKind) -> Seq<char> {
    match kind {
        DeviceIdentityKind::RaspberryPi => "Raspberry Pi"@,
        DeviceIdentityKind::Jetson => "NVIDIA Jetson"@,
        DeviceIdentityKind::Computer => "Computer"@,
        DeviceIdentityKind::Unknown => "Unknown Device"@,
    }
}

fn default_display_name(kind: DeviceIdentityKind) -> (r: &'static str)
    ensures
        r@ == default_name(kind),
{
    match kind {
        DeviceIdentityKind::RaspberryPi => "Raspberry Pi",
        DeviceIdentityKind::Jetson => "NVIDIA Jetson",
        DeviceIdentityKind::Computer => "Computer",
        DeviceIdentityKind::Unknown => "Unknown Device",
    }
}

fn default_hint(kind: DeviceIdentityKind) -> (r: IdentityHint)
    ensures
        r@ == hint(kind, default_name(kind)),
{
    IdentityHint { kind, display_name: default_display_name(kind) }
}

pub open spec fn raspberry_vendor_keywords() -> Seq<Seq<char>> {
    seq!["raspberry pi"@]
}

pub open spec fn rdk_vendor_keywords() -> Seq<Seq<char>> {
    seq!["d-robotics"@, "drobotics"@, "horizon robotics"@, "hobot"@]
}

pub open spec fn apple_vendor_keywords() -> Seq<Seq<char>> {
    seq!["apple"@]
}

pub open spec fn lenovo_vendor_keywords() -> Seq<Seq<char>> {
    seq!["lenovo"@]
}

pub open spec fn hp_vendor_keywords() -> Seq<Seq<char>> {
    seq!["hewlett packard"@, "hp inc"@, "hp "@]
}

pub open spec fn dell_vendor_keywords() -> Seq<Seq<char>> {
    seq!["dell"@]
}

pub open spec fn intel_vendor_keywords() -> Seq<Seq<char>> {
    seq!["intel"@]
}

pub open spec fn amd_vendor_keywords() -> Seq<Seq<char>> {
    seq!["advanced micro devices"@, "amd"@]
}

pub open spec fn asus_vendor_keywords() -> Seq<Seq<char>> {
    seq!["asus"@]
}

pub open spec fn acer_vendor_keywords() -> Seq<Seq<char>> {
    seq!["acer"@]
}

pub open spec fn msi_vendor_keywords() -> Seq<Seq<char>> {
    seq!["micro-star"@, "msi"@]
}

pub open spec fn gigabyte_vendor_keywords() -> Seq<Seq<char>> {
    seq!["gigabyte"@]
}

pub open spec fn microsoft_vendor_keywords() -> Seq<Seq<char>> {
    seq!["microsoft"@]
}

pub open spec fn nvidia_vendor_keywords() -> Seq<Seq<char>> {
    seq!["nvidia"@]
}

/// The family a vendor name points to, matched on its lower-cased text; the
/// vendor name itself, of unknown family, when no keyword matches.
pub open spec fn vendor_hint(vendor: Seq<char>) -> HintView {
    let n = lower_seq(vendor);
    if contains_any(n, raspberry_vendor_keywords()) {
        hint(DeviceIdentityKind::RaspberryPi, "Raspberry Pi"@)
    } else if contains_any(n, rdk_vendor_keywords()) {
        hint(DeviceIdentityKind::Unknown, "D-Robotics RDK"@)
    } else if contains_any(n, apple_vendor_keywords()) {
        hint(DeviceIdentityKind::Computer, "Apple Mac"@)
    } else if contains_any(n, lenovo_vendor_keywords()) {
        hint(DeviceIdentityKind::Computer, "Lenovo Computer"@)
    } else if contains_any(n, hp_vendor_keywords()) {
        hint(DeviceIdentityKind::Computer, "HP Computer"@)
    } else if contains_any(n, dell_vendor_keywords()) {
        hint(DeviceIdentityKind::Computer, "Dell Computer"@)
    } else if contains_any(n, intel_vendor_keywords()) {
        hint(DeviceIdentityKind::Computer, "Intel Computer"@)
    } else if contains_any(n, amd_vendor_keywords()) {
        hint(DeviceIdentityKind::Computer, "AMD Computer"@)
    } else if contains_any(n, asus_vendor_keywords()) {
        hint(DeviceIdentityKind::Computer, "ASUS Computer"@)
    } else if contains_any(n, acer_vendor_keywords()) {
        hint(DeviceIdentityKind::Computer, "Acer Computer"@)
    } else if contains_any(n, msi_vendor_keywords()) {
        hint(DeviceIdentityKind::Computer, "MSI Computer"@)
    } else if contains_any(n, gigabyte_vendor_keywords()) {
        hint(DeviceIdentityKind::Computer, "Gigabyte Computer"@)
    } else if contains_any(n, microsoft_vendor_keywords()) {
        hint(DeviceIdentityKind::Computer, "Microsoft Computer"@)
    } else {
        hint(DeviceIdentityKind::Unknown, vendor)
    }
}

fn computer_hint(name: &'static str) -> (r: IdentityHint)
    ensures
        r@ == hint(DeviceIdentityKind::Computer, name@),
{
    IdentityHint { kind: DeviceIdentityKind::Computer, display_name: name }
}

fn classify_vendor_name(vendor_name: &'static str) -> (r: IdentityHint)
    ensures
        r@ == vendor_hint(vendor_name@),
{
    let n = to_lower_vec(&chars_of(vendor_name));
    let raspberry: [&str; 1] = ["raspberry pi"];
    let rdk: [&str; 4] = ["d-robotics", "drobotics", "horizon robotics", "hobot"];
    let apple: [&str; 1] = ["apple"];
    let lenovo: [&str; 1] = ["lenovo"];
    let hp: [&str; 3] = ["hewlett packard", "hp inc", "hp "];
    let dell: [&str; 1] = ["dell"];
    let intel: [&str; 1] = ["intel"];
    let amd: [&str; 2] = ["advanced micro devices", "amd"];
    let asus: [&str; 1] = ["asus"];
    let acer: [&str; 1] = ["acer"];
    let msi: [&str; 2] = ["micro-star", "msi"];
    let gigabyte: [&str; 1] = ["gigabyte"];
    let microsoft: [&str; 1] = ["microsoft"];
    proof {
        assert(str_views(raspberry@) =~= raspberry_vendor_keywords());
        assert(str_views(rdk@) =~= rdk_vendor_keywords());
        assert(str_views(apple@) =~= apple_vendor_keywords());
        assert(str_views(lenovo@) =~= lenovo_vendor_keywords());
        assert(str_views(hp@) =~= hp_vendor_keywords());
        assert(str_views(dell@) =~= dell_vendor_keywords());
        assert(str_views(intel@) =~= intel_vendor_keywords());
        assert(str_views(amd@) =~= amd_vendor_keywords());
        assert(str_views(asus@) =~= asus_vendor_keywords());
        assert(str_views(acer@) =~= acer_vendor_keywords());
        assert(str_views(msi@) =~= msi_vendor_keywords());
        assert(str_views(gigabyte@) =~= gigabyte_vendor_keywords());
        assert(str_views(microsoft@) =~= microsoft_vendor_keywords());
    }
    if contains_any_word(&n, &raspberry) {
        IdentityHint { kind: DeviceIdentityKind::RaspberryPi, display_name: "Raspberry Pi" }
    } else if contains_any_word(&n, &rdk) {
        IdentityHint { kind: DeviceIdentityKind::Unknown, display_name: "D-Robotics RDK" }
    } else if contains_any_word(&n, &apple) {
        computer_hint("Apple Mac")
    } else if contains_any_word(&n, &lenovo) {
        computer_hint("Lenovo Computer")
    } else if contains_any_word(&n, &hp) {
        computer_hint("HP Computer")
    } else if contains_any_word(&n, &dell) {
        computer_hint("Dell Computer")
    } else if contains_any_word(&n, &intel) {
        computer_hint("Intel Computer")
    } else if contains_any_word(&n, &amd) {
        computer_hint("AMD Computer")
    } else if contains_any_word(&n, &asus) {
        computer_hint("ASUS Computer")
    } else if contains_any_word(&n, &acer) {
        computer_hint("Acer Computer")
    } else if contains_any_word(&n, &msi) {
        computer_hint("MSI Computer")
    } else if contains_any_word(&n, &gigabyte) {
        computer_hint("Gigabyte Computer")
    } else if contains_any_word(&n, &microsoft) {
        computer_hint("Microsoft Computer")
    } else {
        IdentityHint { kind: DeviceIdentityKind::Unknown, display_name: vendor_name }
    }
}

/// The makers a vendor name is matched against, in the order they are tried:
/// the words that name each maker and the family and name a device of that
/// maker is shown as.
pub open spec fn maker_table() -> Seq<(Seq<Seq<char>>, DeviceIdentityKind, Seq<char>)> {
    seq![
        (seq!["raspberry pi"@], DeviceIdentityKind::RaspberryPi, "Raspberry Pi"@),
        (seq!["d-robotics"@, "drobotics"@, "horizon robotics"@, "hobot"@], DeviceIdentityKind::Unknown, "D-Robotics RDK"@),
        (seq!["apple"@], DeviceIdentityKind::Computer, "Apple Mac"@),
        (seq!["lenovo"@], DeviceIdentityKind::Computer, "Lenovo Computer"@),
        (seq!["hewlett packard"@, "hp inc"@, "hp "@], DeviceIdentityKind::Computer, "HP Computer"@),
        (seq!["dell"@], DeviceIdentityKind::Computer, "Dell Computer"@),
        (seq!["intel"@], DeviceIdentityKind::Computer, "Intel Computer"@),
        (seq!["advanced micro devices"@, "amd"@], DeviceIdentityKind::Computer, "AMD Computer"@),
        (seq!["asus"@], DeviceIdentityKind::Computer, "ASUS Computer"@),
        (seq!["acer"@], DeviceIdentityKind::Computer, "Acer Computer"@),
        (seq!["micro-star"@, "msi"@], DeviceIdentityKind::Computer, "MSI Computer"@),
        (seq!["gigabyte"@], DeviceIdentityKind::Computer, "Gigabyte Computer"@),
        (seq!["microsoft"@], DeviceIdentityKind::Computer, "Microsoft Computer"@),
    ]
}

/// A vendor name is read as the first maker of the table whose words occur
/// in its lower-cased text, and shown with that maker's family and name; a
/// vendor name that mentions no maker is shown as itself, of unknown family.
pub proof fn lemma_vendor_names_read_as_makers(vendor: Seq<char>)
    ensures
        forall|i: int|
            0 <= i < maker_table().len() && contains_any(lower_seq(vendor), #[trigger] maker_table()[i].0)
                && (forall|j: int| 0 <= j < i ==> !contains_any(lower_seq(vendor), #[trigger] maker_table()[j].0))
                ==> vendor_hint(vendor) == hint(maker_table()[i].1, maker_table()[i].2),
        (forall|j: int| 0 <= j < maker_table().len() ==> !contains_any(lower_seq(vendor), #[trigger] maker_table()[j].0))
            ==> vendor_hint(vendor) == hint(DeviceIdentityKind::Unknown, vendor),
{
    let n = lower_seq(vendor);
    let t = maker_table();
    assert(t[0].0 == raspberry_vendor_keywords());
    assert(t[1].0 == rdk_vendor_keywords());
    assert(t[2].0 == apple_vendor_keywords());
    assert(t[3].0 == lenovo_vendor_keywords());
    assert(t[4].0 == hp_vendor_keywords());
    assert(t[5].0 == dell_vendor_keywords());
    assert(t[6].0 == intel_vendor_keywords());
    assert(t[7].0 == amd_vendor_keywords());
    assert(t[8].0 == asus_vendor_keywords());
    assert(t[9].0 == acer_vendor_keywords());
    assert(t[10].0 == msi_vendor_keywords());
    assert(t[11].0 == gigabyte_vendor_keywords());
    assert(t[12].0 == microsoft_vendor_keywords());
    assert forall|i: int|
        0 <= i < t.len() && contains_any(n, #[trigger] t[i].0)
            && (forall|j: int| 0 <= j < i ==> !contains_any(n, #[trigger] t[j].0))
            implies vendor_hint(vendor) == hint(t[i].1, t[i].2) by {
        if i >= 1 { assert(!contains_any(n, t[0].0)); }
        if i >= 2 { assert(!contains_any(n, t[1].0)); }
        if i >= 3 { assert(!contains_any(n, t[2].0)); }
        if i >= 4 { assert(!contains_any(n, t[3].0)); }
        if i >= 5 { assert(!contains_any(n, t[4].0)); }
        if i >= 6 { assert(!contains_any(n, t[5].0)); }
        if i >= 7 { assert(!contains_any(n, t[6].0)); }
        if i >= 8 { assert(!contains_any(n, t[7].0)); }
        if i >= 9 { assert(!contains_any(n, t[8].0)); }
        if i >= 10 { assert(!contains_any(n, t[9].0)); }
        if i >= 11 { assert(!contains_any(n, t[10].0)); }
        if i >= 12 { assert(!contains_any(n, t[11].0)); }
    }
    if forall|j: int| 0 <= j < t.len() ==> !contains_any(n, #[trigger] t[j].0) {
        assert(!contains_any(n, t[0].0));
        assert(!contains_any(n, t[1].0));
        assert(!contains_any(n, t[2].0));
        assert(!contains_any(n, t[3].0));
        assert(!contains_any(n, t[4].0));
        assert(!contains_any(n, t[5].0));
        assert(!contains_any(n, t[6].0));
        assert(!contains_any(n, t[7].0));
        assert(!contains_any(n, t[8].0));
        assert(!contains_any(n, t[9].0));
        assert(!contains_any(n, t[10].0));
        assert(!contains_any(n, t[11].0));
        assert(!contains_any(n, t[12].0));
    }
}

/// The OUIs registered to NVIDIA that only its boards use.
pub open spec fn is_strong_jetson_oui(p: Seq<u8>) -> bool {
    p == seq![0x00u8, 0x04u8, 0x4Bu8] || p == seq![0x3Cu8, 0x6Du8, 0x66u8] || p == seq![
        0x48u8,
        0xB0u8,
        0x2Du8,
    ]
}

/// The hint of an OUI whose vendor is known: a Jetson for NVIDIA's board
/// OUIs, otherwise whatever the vendor name points to.
pub open spec fn oui_hint(p: Seq<u8>, vendor: Seq<char>) -> HintView {
    if is_strong_jetson_oui(p) && contains_any(lower_seq(vendor), nvidia_vendor_keywords()) {
        hint(DeviceIdentityKind::Jetson, "NVIDIA Jetson"@)
    } else {
        vendor_hint(vendor)
    }
}

fn is_strong_jetson_prefix(p: &[u8; 3]) -> (r: bool)
    ensures
        r == is_strong_jetson_oui(p@),
{
    let a = p[0] == 0x00 && p[1] == 0x04 && p[2] == 0x4B;
    let b = p[0] == 0x3C && p[1] == 0x6D && p[2] == 0x66;
    let c = p[0] == 0x48 && p[1] == 0xB0 && p[2] == 0x2D;
    proof {
        if a {
            assert(p@ =~= seq![0x00u8, 0x04u8, 0x4Bu8]);
        }
        if b {
            assert(p@ =~= seq![0x3Cu8, 0x6Du8, 0x66u8]);
        }
        if c {
            assert(p@ =~= seq![0x48u8, 0xB0u8, 0x2Du8]);
        }
        if p@ == seq![0x00u8, 0x04u8, 0x4Bu8] {
            assert(p@[0] == 0x00u8 && p@[1] == 0x04u8 && p@[2] == 0x4Bu8);
        }
        if p@ == seq![0x3Cu8, 0x6Du8, 0x66u8] {
            assert(p@[0] == 0x3Cu8 && p@[1] == 0x6Du8 && p@[2] == 0x66u8);
        }
        if p@ == seq![0x48u8, 0xB0u8, 0x2Du8] {
            assert(p@[0] == 0x48u8 && p@[1] == 0xB0u8 && p@[2] == 0x2Du8);
        }
    }
    a || b || c
}

fn classify_oui(prefix: [u8; 3], vendor_name: &'static str) -> (r: IdentityHint)
    ensures
        r@ == oui_hint(prefix@, vendor_name@),
{
    let n = to_lower_vec(&chars_of(vendor_name));
    let nvidia: [&str; 1] = ["nvidia"];
    assert(str_views(nvidia@) =~= nvidia_vendor_keywords());
    if is_strong_jetson_prefix(&prefix) && contains_any_word(&n, &nvidia) {
        return default_hint(DeviceIdentityKind::Jetson);
    }
    classify_vendor_name(vendor_name)
}

pub open spec fn rdk_board_tokens() -> Seq<Seq<char>> {
    seq!["rdk"@, "drobotics"@, "hobot"@]
}

pub open spec fn jetson_board_tokens() -> Seq<Seq<char>> {
    seq!["jetson"@]
}

pub open spec fn raspberry_board_tokens() -> Seq<Seq<char>> {
    seq!["raspberry"@, "raspi"@, "rpi"@]
}

/// A present label whose lower-cased tokens match one of `words`.
pub open spec fn label_has(label: Option<Seq<char>>, words: Seq<Seq<char>>, as_prefix: bool) -> bool {
    match label {
        Some(l) => has_any_token(lower_seq(l), words, as_prefix),
        None => false,
    }
}

/// One of mDNS name, DNS name and host name matches one of `words`.
pub open spec fn any_label_has(e: EvidenceView, words: Seq<Seq<char>>, as_prefix: bool) -> bool {
    label_has(e.mdns_name, words, as_prefix) || label_has(e.dns_name, words, as_prefix)
        || label_has(e.hostname, words, as_prefix)
}

/// The board that the names point to: a D-Robotics RDK before anything else,
/// nothing when they point to both a Jetson and a Raspberry Pi.
pub open spec fn board_hint(e: EvidenceView) -> Option<HintView> {
    let saw_rdk = any_label_has(e, rdk_board_tokens(), false);
    let saw_jetson = any_label_has(e, jetson_board_tokens(), false);
    let saw_raspberry = any_label_has(e, raspberry_board_tokens(), true);
    if saw_rdk {
        Some(hint(DeviceIdentityKind::Unknown, "D-Robotics RDK"@))
    } else if saw_jetson && saw_raspberry {
        None
    } else if saw_jetson {
        Some(hint(DeviceIdentityKind::Jetson, default_name(DeviceIdentityKind::Jetson)))
    } else if saw_raspberry {
        Some(hint(DeviceIdentityKind::RaspberryPi, default_name(DeviceIdentityKind::RaspberryPi)))
    } else {
        None
    }
}

fn label_tokens_match(label: &Option<String>, words: &[&str], as_prefix: bool) -> (r: bool)
    ensures
        r == label_has(opt_string_view(*label), str_views(words@), as_prefix),
{
    match label {
        Some(l) => {
            let n = to_lower_vec(&chars_of(l.as_str()));
            has_any_token_vec(&n, words, as_prefix)
        },
        None => false,
    }
}

fn any_label_tokens_match(e: &NeighborEvidence, words: &[&str], as_prefix: bool) -> (r: bool)
    ensures
        r == any_label_has(e@, str_views(words@), as_prefix),
{
    let a = label_tokens_match(&e.mdns_name, words, as_prefix);
    let b = label_tokens_match(&e.dns_name, words, as_prefix);
    let c = label_tokens_match(&e.hostname, words, as_prefix);
    a || b || c
}

fn classify_board_label_hint(e: &NeighborEvidence) -> (r: Option<IdentityHint>)
    ensures
        opt_hint_view(r) == board_hint(e@),
{
    let rdk: [&str; 3] = ["rdk", "drobotics", "hobot"];
    let jetson: [&str; 1] = ["jetson"];
    let raspberry: [&str; 3] = ["raspberry", "raspi", "rpi"];
    assert(str_views(rdk@) =~= rdk_board_tokens());
    assert(str_views(jetson@) =~= jetson_board_tokens());
    assert(str_views(raspberry@) =~= raspberry_board_tokens());
    let saw_rdk = any_label_tokens_match(e, &rdk, false);
    let saw_jetson = any_label_tokens_match(e, &jetson, false);
    let saw_raspberry = any_label_tokens_match(e, &raspberry, true);
    if saw_rdk {
        Some(IdentityHint { kind: DeviceIdentityKind::Unknown, display_name: "D-Robotics RDK" })
    } else if saw_jetson && saw_raspberry {
        None
    } else if saw_jetson {
        Some(default_hint(DeviceIdentityKind::Jetson))
    } else if saw_raspberry {
        Some(default_hint(DeviceIdentityKind::RaspberryPi))
    } else {
        None
    }
}

pub open spec fn mac_platform_tokens() -> Seq<Seq<char>> {
    seq!["macbook"@, "imac"@, "macmini"@, "macstudio"@, "macpro"@, "mac"@]
}

pub open spec fn windows_platform_tokens() -> Seq<Seq<char>> {
    seq!["windows"@, "win11"@, "win10"@, "winpc"@]
}

pub open spec fn linux_platform_tokens() -> Seq<Seq<char>> {
    seq![
        "ubuntu"@,
        "debian"@,
        "fedora"@,
        "arch"@,
        "archlinux"@,
        "linuxmint"@,
        "mint"@,
        "centos"@,
        "rocky"@,
        "almalinux"@,
        "linux"@,
    ]
}

pub open spec fn computer_platform_tokens() -> Seq<Seq<char>> {
    seq!["desktop"@, "laptop"@, "notebook"@, "workstation"@, "thinkpad"@, "computer"@, "pc"@]
}

/// The platform one label names, if any.
pub open spec fn label_platform_hint(label: Seq<char>) -> Option<HintView> {
    let n = lower_seq(label);
    if has_any_token(n, mac_platform_tokens(), false) {
        Some(hint(DeviceIdentityKind::Computer, "Apple Mac"@))
    } else if has_any_token(n, windows_platform_tokens(), false) {
        Some(hint(DeviceIdentityKind::Computer, "Windows PC"@))
    } else if has_any_token(n, linux_platform_tokens(), false) {
        Some(hint(DeviceIdentityKind::Computer, "Linux Computer"@))
    } else if has_any_token(n, computer_platform_tokens(), false) {
        Some(hint(DeviceIdentityKind::Computer, default_name(DeviceIdentityKind::Computer)))
    } else {
        None
    }
}

pub open spec fn opt_label_platform_hint(label: Option<Seq<char>>) -> Option<HintView> {
    match label {
        Some(l) => label_platform_hint(l),
        None => None,
    }
}

/// The platform named by the first of mDNS name, DNS name and host name that
/// names one.
pub open spec fn platform_hint(e: EvidenceView) -> Option<HintView> {
    match opt_label_platform_hint(e.mdns_name) {
        Some(h) => Some(h),
        None => match opt_label_platform_hint(e.dns_name) {
            Some(h) => Some(h),
            None => opt_label_platform_hint(e.hostname),
        },
    }
}

fn label_platform(label: &Option<String>) -> (r: Option<IdentityHint>)
    ensures
        opt_hint_view(r) == opt_label_platform_hint(opt_string_view(*label)),
{
    let l = match label {
        Some(l) => l,
        None => return None,
    };
    let n = to_lower_vec(&chars_of(l.as_str()));
    let mac: [&str; 6] = ["macbook", "imac", "macmini", "macstudio", "macpro", "mac"];
    let windows: [&str; 4] = ["windows", "win11", "win10", "winpc"];
    let linux: [&str; 11] = [
        "ubuntu",
        "debian",
        "fedora",
        "arch",
        "archlinux",
        "linuxmint",
        "mint",
        "centos",
        "rocky",
        "almalinux",
        "linux",
    ];
    let computer: [&str; 7] = [
        "desktop",
        "laptop",
        "notebook",
        "workstation",
        "thinkpad",
        "computer",
        "pc",
    ];
    assert(str_views(mac@) =~= mac_platform_tokens());
    assert(str_views(windows@) =~= windows_platform_tokens());
    assert(str_views(linux@) =~= linux_platform_tokens());
    assert(str_views(computer@) =~= computer_platform_tokens());
    if has_any_token_vec(&n, &mac, false) {
        Some(computer_hint("Apple Mac"))
    } else if has_any_token_vec(&n, &windows, false) {
        Some(computer_hint("Windows PC"))
    } else if has_any_token_vec(&n, &linux, false) {
        Some(computer_hint("Linux Computer"))
    } else if has_any_token_vec(&n, &computer, false) {
        Some(default_hint(DeviceIdentityKind::Computer))
    } else {
        None
    }
}

fn classify_platform_label_hint(e: &NeighborEvidence) -> (r: Option<IdentityHint>)
    ensures
        opt_hint_view(r) == platform_hint(e@),
{
    match label_platform(&e.mdns_name) {
        Some(h) => Some(h),
        None => match label_platform(&e.dns_name) {
            Some(h) => Some(h),
            None => label_platform(&e.hostname),
        },
    }
}

/// How the three hints combine: an OUI of a known family wins; an OUI of
/// unknown family yields to a board named in the labels; without an OUI the
/// board, then the platform, then an unknown device.
pub open spec fn resolve_hint(oui: Option<HintView>, board: Option<HintView>, platform: Option<HintView>) -> HintView {
    match oui {
        Some(o) => if o.kind != DeviceIdentityKind::Unknown {
            o
        } else {
            match board {
                Some(b) => b,
                None => o,
            }
        },
        None => match board {
            Some(b) => b,
            None => match platform {
                Some(p) => p,
                None => hint(DeviceIdentityKind::Unknown, default_name(DeviceIdentityKind::Unknown)),
            },
        },
    }
}

fn resolve_identity_hint(
    oui_hint: Option<IdentityHint>,
    board_label_hint: Option<IdentityHint>,
    platform_label_hint: Option<IdentityHint>,
) -> (r: IdentityHint)
    ensures
        r@ == resolve_hint(
            opt_hint_view(oui_hint),
            opt_hint_view(board_label_hint),
            opt_hint_view(platform_label_hint),
        ),
{
    if let Some(oui) = oui_hint {
        if oui.kind != DeviceIdentityKind::Unknown {
            return oui;
        }
        if let Some(board) = board_label_hint {
            return board;
        }
        return oui;
    }
    if let Some(board) = board_label_hint {
        return board;
    }
    match platform_label_hint {
        Some(p) => p,
        None => default_hint(DeviceIdentityKind::Unknown),
    }
}

/// `base`, followed by ` (label)` when there is a label that survives trimming.
pub open spec fn with_label(base: Seq<char>, aux: Option<Seq<char>>) -> Seq<char> {
    match normalize_label(aux) {
        Some(extra) => base + " ("@ + extra + ")"@,
        None => base,
    }
}

fn append_auxiliary_label(base_name: &str, auxiliary: Option<Vec<char>>) -> (r: String)
    ensures
        r@ == with_label(base_name@, opt_vec_view(auxiliary)),
{
    let extra = match auxiliary {
        Some(a) => trim_label_vec(&a),
        None => None,
    };
    match extra {
        Some(x) => {
            let s = concat_str(owned(base_name), " (");
            let xs = string_of(&x);
            let s = concat_str(s, xs.as_str());
            concat_str(s, ")")
        },
        None => owned(base_name),
    }
}

/// Servers for the board families, desktops otherwise.
pub open spec fn device_type_of(kind: DeviceIdentityKind) -> DeviceType {
    match kind {
        DeviceIdentityKind::RaspberryPi | DeviceIdentityKind::Jetson => DeviceType::Server,
        DeviceIdentityKind::Computer | DeviceIdentityKind::Unknown => DeviceType::Desktop,
    }
}

/// The identity of the device at `ip`, given its evidence and the vendor
/// registered for the OUI prefix of its MAC address.
pub open spec fn identity_of(ip: Seq<char>, ev: Option<EvidenceView>, vendor: Option<Seq<char>>) -> IdentityView {
    let oui = match evidence_prefix(ev) {
        Some(p) => match vendor {
            Some(v) => Some(oui_hint(p, v)),
            None => None,
        },
        None => None,
    };
    let board = match ev {
        Some(e) => board_hint(e),
        None => None,
    };
    let platform = match ev {
        Some(e) => platform_hint(e),
        None => None,
    };
    let resolved = resolve_hint(oui, board, platform);
    let aux = match ev {
        Some(e) => auxiliary_label(e),
        None => None,
    };
    let display = with_label(resolved.name, aux);
    IdentityView {
        kind: resolved.kind,
        display_name: if display.len() == 0 {
            "Unknown Device ("@ + ip + ")"@
        } else {
            display
        },
        device_type: device_type_of(resolved.kind),
    }
}

/// A device whose OUI is registered to a computer maker of the table (the
/// first maker its vendor name mentions, and not NVIDIA) is a desktop
/// computer of that maker, whatever names it answers to; without any name it
/// is shown by the maker's name alone.
pub proof fn lemma_computer_vendor_identity(ip: Seq<char>, e: EvidenceView, vendor: Seq<char>, i: int)
    requires
        2 <= i < maker_table().len(),
        evidence_prefix(Some(e)) is Some,
        contains_any(lower_seq(vendor), maker_table()[i].0),
        forall|j: int| 0 <= j < i ==> !contains_any(lower_seq(vendor), #[trigger] maker_table()[j].0),
        !crate::text::contains_seq(lower_seq(vendor), "nvidia"@),
    ensures
        identity_of(ip, Some(e), Some(vendor)).kind == DeviceIdentityKind::Computer,
        identity_of(ip, Some(e), Some(vendor)).device_type == DeviceType::Desktop,
        e.hostname is None && e.mdns_name is None && e.dns_name is None ==> identity_of(
            ip,
            Some(e),
            Some(vendor),
        ).display_name == maker_table()[i].2,
{
    lemma_vendor_names_read_as_makers(vendor);
    let t = maker_table();
    assert(contains_any(lower_seq(vendor), t[i].0));
    assert(vendor_hint(vendor) == hint(t[i].1, t[i].2));
    assert(t[i].1 == DeviceIdentityKind::Computer);
    if i == 2 {
        reveal_strlit("Apple Mac");
    }
    if i == 3 {
        reveal_strlit("Lenovo Computer");
    }
    if i == 4 {
        reveal_strlit("HP Computer");
    }
    if i == 5 {
        reveal_strlit("Dell Computer");
    }
    if i == 6 {
        reveal_strlit("Intel Computer");
    }
    if i == 7 {
        reveal_strlit("AMD Computer");
    }
    if i == 8 {
        reveal_strlit("ASUS Computer");
    }
    if i == 9 {
        reveal_strlit("Acer Computer");
    }
    if i == 10 {
        reveal_strlit("MSI Computer");
    }
    if i == 11 {
        reveal_strlit("Gigabyte Computer");
    }
    if i == 12 {
        reveal_strlit("Microsoft Computer");
    }
    assert(t[i].2.len() > 0);
    let n = lower_seq(vendor);
    if contains_any(n, nvidia_vendor_keywords()) {
        let k = choose|k: int| 0 <= k < nvidia_vendor_keywords().len() && crate::text::contains_seq(n, #[trigger] nvidia_vendor_keywords()[k]);
        assert(nvidia_vendor_keywords()[k] == "nvidia"@);
    }
}

/// The vendor that this crate's table holds for the OUI of the evidence.
pub open spec fn table_vendor(ev: Option<EvidenceView>) -> Option<Seq<char>> {
    match evidence_prefix(ev) {
        Some(p) => known_vendor(p),
        None => None,
    }
}

/// Classifies the device at `ip` given `vendor_name`, the vendor registered for
/// the OUI prefix of the evidence's MAC address (ignored when there is no
/// such prefix).
pub fn classify_device_identity_from_vendor(
    ip: &str,
    evidence: Option<&NeighborEvidence>,
    vendor_name: Option<&'static str>,
) -> (r: DeviceIdentity)
    ensures
        r@ == identity_of(ip@, evidence_view(evidence), opt_str_view(vendor_name)),
{
    let oui_hint = match evidence_oui_prefix(evidence) {
        Some(prefix) => match vendor_name {
            Some(v) => Some(classify_oui(prefix, v)),
            None => None,
        },
        None => None,
    };
    let board_label_hint = match evidence {
        Some(e) => classify_board_label_hint(e),
        None => None,
    };
    let platform_label_hint = match evidence {
        Some(e) => classify_platform_label_hint(e),
        None => None,
    };
    let resolved = resolve_identity_hint(oui_hint, board_label_hint, platform_label_hint);
    let aux = match evidence {
        Some(e) => e.auxiliary_label(),
        None => None,
    };
    let display_name = append_auxiliary_label(resolved.display_name, aux);
    let device_type = match resolved.kind {
        DeviceIdentityKind::RaspberryPi | DeviceIdentityKind::Jetson => DeviceType::Server,
        DeviceIdentityKind::Computer | DeviceIdentityKind::Unknown => DeviceType::Desktop,
    };
    let id_name = if display_name.as_str().is_empty() {
        let s = concat_str(owned("Unknown Device ("), ip);
        concat_str(s, ")")
    } else {
        display_name
    };
    DeviceIdentity { kind: resolved.kind, display_name: id_name, device_type }
}

/// Classifies the device at `ip` from its evidence, with the vendor of its OUI
/// prefix looked up in this crate's table, which is a small stand-in holding
/// only the Raspberry Pi and NVIDIA prefixes; with a full registry, use
/// `classify_device_identity_with_vendor_lookup`.
pub fn classify_device_identity(ip: &str, evidence: Option<&NeighborEvidence>) -> (r: DeviceIdentity)
    ensures
        r@ == identity_of(ip@, evidence_view(evidence), table_vendor(evidence_view(evidence))),
{
    let vendor = match evidence_oui_prefix(evidence) {
        Some(prefix) => lookup_vendor_name(prefix),
        None => None,
    };
    classify_device_identity_from_vendor(ip, evidence, vendor)
}

/// Classifies the device at `ip` from its evidence, with the vendor of its OUI
/// prefix given by `lookup_vendor_name`.
pub fn classify_device_identity_with_vendor_lookup<F: Fn([u8; 3]) -> Option<&'static str>>(
    ip: &str,
    evidence: Option<&NeighborEvidence>,
    lookup_vendor_name: F,
) -> (r: DeviceIdentity)
    requires
        forall|p: [u8; 3]| call_requires(lookup_vendor_name, (p,)),
    ensures
        evidence_prefix(evidence_view(evidence)) is None ==> r@ == identity_of(
            ip@,
            evidence_view(evidence),
            None,
        ),
        evidence_prefix(evidence_view(evidence)) is Some ==> exists|p: [u8; 3], v: Option<&'static str>|
            p@ == evidence_prefix(evidence_view(evidence))->0 && call_ensures(
                lookup_vendor_name,
                (p,),
                v,
            ) && #[trigger] r@ == identity_of(ip@, evidence_view(evidence), opt_str_view(v)),
{
    match evidence_oui_prefix(evidence) {
        Some(prefix) => {
            let vendor = lookup_vendor_name(prefix);
            let r = classify_device_identity_from_vendor(ip, evidence, vendor);
            assert(r@ == identity_of(ip@, evidence_view(evidence), opt_str_view(vendor)));
            r
        },
        None => classify_device_identity_from_vendor(ip, evidence, None),
    }
}

proof fn lemma_hint_names_nonempty(v: Seq<char>)
    ensures
        v.len() > 0 ==> vendor_hint(v).name.len() > 0,
        forall|k: DeviceIdentityKind| default_name(k).len() > 0,
        "D-Robotics RDK"@.len() > 0,
        "Apple Mac"@.len() > 0,
        "Windows PC"@.len() > 0,
        "Linux Computer"@.len() > 0,
        "NVIDIA Jetson"@.len() > 0,
{
    reveal_strlit("Raspberry Pi");
    reveal_strlit("NVIDIA Jetson");
    reveal_strlit("Computer");
    reveal_strlit("Unknown Device");
    reveal_strlit("D-Robotics RDK");
    reveal_strlit("Apple Mac");
    reveal_strlit("Lenovo Computer");
    reveal_strlit("HP Computer");
    reveal_strlit("Dell Computer");
    reveal_strlit("Intel Computer");
    reveal_strlit("AMD Computer");
    reveal_strlit("ASUS Computer");
    reveal_strlit("Acer Computer");
    reveal_strlit("MSI Computer");
    reveal_strlit("Gigabyte Computer");
    reveal_strlit("Microsoft Computer");
    reveal_strlit("Windows PC");
    reveal_strlit("Linux Computer");
}

/// The name of a device is never made from its address while the vendor of
/// its OUI, if known, has a name: two addresses with the same evidence and
/// vendor get the same identity. (With a vendor registered under an empty
/// name and no label, the address does show: `Unknown Device (ip)`.)
pub proof fn lemma_identity_ignores_address(
    ip1: Seq<char>,
    ip2: Seq<char>,
    ev: Option<EvidenceView>,
    vendor: Option<Seq<char>>,
)
    requires
        vendor matches Some(v) ==> v.len() > 0,
    ensures
        identity_of(ip1, ev, vendor) == identity_of(ip2, ev, vendor),
{
    let oui = match evidence_prefix(ev) {
        Some(p) => match vendor {
            Some(v) => Some(oui_hint(p, v)),
            None => None,
        },
        None => None,
    };
    let board = match ev {
        Some(e) => board_hint(e),
        None => None,
    };
    let platform = match ev {
        Some(e) => platform_hint(e),
        None => None,
    };
    let aux = match ev {
        Some(e) => auxiliary_label(e),
        None => None,
    };
    match vendor {
        Some(v) => lemma_hint_names_nonempty(v),
        None => lemma_hint_names_nonempty(Seq::empty()),
    }
    let resolved = resolve_hint(oui, board, platform);
    assert(resolved.name.len() > 0);
    assert(with_label(resolved.name, aux).len() >= resolved.name.len());
}

/// The identity that this crate's vendor table gives a device does not
/// depend on its address.
pub proof fn lemma_table_identity_ignores_address(ip1: Seq<char>, ip2: Seq<char>, ev: Option<EvidenceView>)
    ensures
        identity_of(ip1, ev, table_vendor(ev)) == identity_of(ip2, ev, table_vendor(ev)),
{
    reveal_strlit("Raspberry Pi Foundation");
    reveal_strlit("Raspberry Pi Trading Ltd");
    reveal_strlit("NVIDIA");
    reveal_strlit("NVIDIA Corporation");
    lemma_identity_ignores_address(ip1, ip2, ev, table_vendor(ev));
}

} // verus!
