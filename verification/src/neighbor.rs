//! Rows of neighbor tables and interface listings as the platform tools print
//! them: `Get-NetNeighbor` rows, `ip neigh` rows, `arp -a` rows and the rows
//! of the native helper, each read into an address with its evidence.
use vstd::prelude::*;
use crate::identity::{normalize_label, opt_string_view, EvidenceView, NeighborEvidence};
use crate::ipv4::{all_digits, decimal_value, is_neighbor_ip, is_valid_neighbor_ip, split_at_char, split_vec, vec_views};
use crate::text::{
    decimal_text, decimal_text_u8,
    any_control, char_is_white_space, find_from, find_seq, occurs_at, split_white, char_to_upper, chars_eq, chars_of, contains_any,
    contains_vec, ends_with, ends_with_vec, hex_digits, hex_digits_vec, is_control,
    is_ascii_digit, is_ascii_hexdigit, is_white_space, lower_seq, upper_seq, string_of, strip, strip_vec, str_views, sub_vec, to_lower_vec,
    trim, trim_vec, upper_char, words_of, CharClass,
};

verus! {

/// An address read from a neighbor table, with what the row told about it.
#[derive(Debug, Clone, PartialEq, Eq)]
pub struct NeighborEvidenceRow {
    pub ip: String,
    pub evidence: NeighborEvidence,
}

pub struct RowView {
    pub ip: Seq<char>,
    pub evidence: EvidenceView,
}

impl View for NeighborEvidenceRow {
    type V = RowView;

    open spec fn view(&self) -> RowView {
        RowView { ip: self.ip@, evidence: self.evidence@ }
    }
}

/// The kind of a network interface.
#[derive(Debug, Clone, Copy, PartialEq, Eq, Structural)]
pub enum InterfaceType {
    Wifi,
    Ethernet,
    Docker,
    Other,
}

/// A network interface the scanner can sweep.
#[derive(Debug, Clone, PartialEq, Eq)]
pub struct NetworkInterface {
    pub id: String,
    pub name: String,
    pub ip_range: String,
    pub iface_type: InterfaceType,
    pub local_ip: String,
}

pub struct InterfaceView {
    pub id: Seq<char>,
    pub name: Seq<char>,
    pub ip_range: Seq<char>,
    pub iface_type: InterfaceType,
    pub local_ip: Seq<char>,
}

impl View for NetworkInterface {
    type V = InterfaceView;

    open spec fn view(&self) -> InterfaceView {
        InterfaceView {
            id: self.id@,
            name: self.name@,
            ip_range: self.ip_range@,
            iface_type: self.iface_type,
            local_ip: self.local_ip@,
        }
    }
}

/// Evidence as `NeighborEvidence::new` builds it from a MAC address, a host
/// name and an mDNS name.
pub open spec fn new_evidence(
    mac_address: Option<Seq<char>>,
    hostname: Option<Seq<char>>,
    mdns_name: Option<Seq<char>>,
) -> EvidenceView {
    EvidenceView {
        mac_address: normalize_label(mac_address),
        hostname: normalize_label(hostname),
        mdns_name: normalize_label(mdns_name),
        dns_name: None,
        smb_name: None,
        smb_domain: None,
    }
}

// ---------------------------------------------------------------------------
// Pieces of a row
// ---------------------------------------------------------------------------

/// The `i`-th piece, or the empty text when there are fewer pieces
/// (`Iterator::next` followed by `unwrap_or_default`).
pub open spec fn piece(parts: Seq<Seq<char>>, i: int) -> Seq<char> {
    if 0 <= i < parts.len() {
        parts[i]
    } else {
        Seq::empty()
    }
}

fn piece_vec(parts: &Vec<Vec<char>>, i: usize) -> (r: Vec<char>)
    ensures
        r@ == piece(vec_views(parts@), i as int),
{
    if i < parts.len() {
        let p = &parts[i];
        let r = sub_vec(p, 0, p.len());
        assert(r@ =~= p@);
        r
    } else {
        Vec::new()
    }
}

// ---------------------------------------------------------------------------
// MAC addresses and host names
// ---------------------------------------------------------------------------

/// Twelve hex digits written as six upper-case pairs joined by colons: the
/// character at position `3q + r` is a colon for `r == 2`, else hex digit
/// `2q + r` in upper case.
pub open spec fn mac_text(h: Seq<char>) -> Seq<char> {
    Seq::new(
        17,
        |p: int|
            if p % 3 == 2 {
                ':'
            } else {
                upper_char(h[2 * (p / 3) + p % 3])
            },
    )
}

/// A MAC address in canonical form, from text with exactly twelve hex digits
/// and any separators; nothing otherwise.
pub open spec fn normalized_mac(raw: Seq<char>) -> Option<Seq<char>> {
    let h = hex_digits(raw);
    if h.len() == 12 {
        Some(mac_text(h))
    } else {
        None
    }
}

/// Canonical `AA:BB:CC:DD:EE:FF` form of a MAC address.
pub fn normalize_neighbor_mac(raw: &str) -> (r: Option<String>)
    ensures
        match r {
            Some(s) => normalized_mac(raw@) == Some(s@),
            None => normalized_mac(raw@) is None,
        },
{
    let v = chars_of(raw);
    let hex = hex_digits_vec(&v);
    if hex.len() != 12 {
        return None;
    }
    let mut out: Vec<char> = Vec::new();
    let mut index: usize = 0;
    while index < 6
        invariant
            hex@.len() == 12,
            index <= 6,
            out@.len() == if index == 0 { 0 } else { 3 * index - 1 },
            forall|k: int| 0 <= k < out@.len() ==> out@[k] == mac_text(hex@)[k],
        decreases 6 - index,
    {
        if index > 0 {
            out.push(':');
        }
        let offset = index * 2;
        out.push(char_to_upper(hex[offset]));
        out.push(char_to_upper(hex[offset + 1]));
        index = index + 1;
    }
    assert(out@ =~= mac_text(hex@));
    Some(string_of(&out))
}

/// A host name from a neighbor row: trimmed of white space, question marks
/// and double quotes; nothing when that leaves it empty or it holds a control
/// character.
pub open spec fn neighbor_hostname(host: Seq<char>) -> Option<Seq<char>> {
    let t = trim(strip(strip(trim(host), CharClass::Exactly('?')), CharClass::Exactly('"')));
    if t.len() == 0 || (exists|k: int| 0 <= k < t.len() && is_control(#[trigger] t[k])) {
        None
    } else {
        Some(t)
    }
}

/// The host name of a neighbor row, trimmed; nothing if none is left.
pub fn trim_neighbor_hostname(host: &str) -> (r: Option<String>)
    ensures
        match r {
            Some(s) => neighbor_hostname(host@) == Some(s@),
            None => neighbor_hostname(host@) is None,
        },
{
    let v = chars_of(host);
    let a = trim_vec(&v);
    let b = strip_vec(&a, CharClass::Exactly('?'));
    let c = strip_vec(&b, CharClass::Exactly('"'));
    let t = trim_vec(&c);
    if t.len() == 0 || any_control(&t) {
        None
    } else {
        Some(string_of(&t))
    }
}

/// A neighbor state that rules the row out: one that names an unreachable,
/// incomplete, failed or invalid entry.
pub open spec fn unusable_state(state: Seq<char>) -> bool {
    let t = trim(state);
    t.len() > 0 && contains_any(
        lower_seq(t),
        seq!["unreachable"@, "incomplete"@, "failed"@, "invalid"@],
    )
}

/// Whether a neighbor state rules its row out.
pub fn is_unusable_neighbor_state(state: &str) -> (r: bool)
    ensures
        r == unusable_state(state@),
{
    let v = chars_of(state);
    let t = trim_vec(&v);
    if t.len() == 0 {
        return false;
    }
    let lower = to_lower_vec(&t);
    let words = ["unreachable", "incomplete", "failed", "invalid"];
    let r = crate::text::contains_any_word(&lower, &words);
    proof {
        assert(str_views(words@) =~= seq!["unreachable"@, "incomplete"@, "failed"@, "invalid"@]);
    }
    r
}

/// The view of an optional row.
pub open spec fn opt_row_view(o: Option<NeighborEvidenceRow>) -> Option<RowView> {
    match o {
        Some(r) => Some(r@),
        None => None,
    }
}

fn text_of(v: &Vec<char>) -> (s: String)
    ensures
        s@ == v@,
{
    string_of(v)
}

fn normalized_mac_vec(raw: &Vec<char>) -> (r: Option<String>)
    ensures
        match r {
            Some(s) => normalized_mac(raw@) == Some(s@),
            None => normalized_mac(raw@) is None,
        },
{
    let s = text_of(raw);
    normalize_neighbor_mac(s.as_str())
}

fn is_neighbor_ip_vec(ip: &Vec<char>) -> (r: bool)
    ensures
        r == is_neighbor_ip(ip@),
{
    let s = text_of(ip);
    is_valid_neighbor_ip(s.as_str())
}

// ---------------------------------------------------------------------------
// Windows: `Get-NetNeighbor` printed as `address|link-layer address|state`
// ---------------------------------------------------------------------------

/// The row that a `Get-NetNeighbor` line stands for: a usable address in a
/// usable state with a MAC address.
pub open spec fn windows_row(line: Seq<char>) -> Option<RowView> {
    let parts = split_at_char(line, '|');
    let ip = trim(parts[0]);
    let mac = trim(piece(parts, 1));
    let state = trim(piece(parts, 2));
    if !is_neighbor_ip(ip) || unusable_state(state) {
        None
    } else {
        match normalized_mac(mac) {
            Some(m) => Some(RowView { ip, evidence: new_evidence(Some(m), None, None) }),
            None => None,
        }
    }
}

/// Reads a `Get-NetNeighbor` line.
pub fn parse_windows_neighbor_row(line: &str) -> (r: Option<NeighborEvidenceRow>)
    ensures
        opt_row_view(r) == windows_row(line@),
{
    let v = chars_of(line);
    let parts = split_vec(&v, '|');
    assert(vec_views(parts@)[0] == parts@[0]@);
    let ip = trim_vec(&parts[0]);
    let mac = trim_vec(&piece_vec(&parts, 1));
    let state = trim_vec(&piece_vec(&parts, 2));
    let state_text = text_of(&state);
    if !is_neighbor_ip_vec(&ip) || is_unusable_neighbor_state(state_text.as_str()) {
        return None;
    }
    match normalized_mac_vec(&mac) {
        Some(m) => Some(
            NeighborEvidenceRow { ip: text_of(&ip), evidence: NeighborEvidence::new(Some(m), None, None) },
        ),
        None => None,
    }
}

// ---------------------------------------------------------------------------
// Linux: `ip neigh show`
// ---------------------------------------------------------------------------

/// Whether a word is `w` up to ASCII case (`str::eq_ignore_ascii_case`, with
/// `w` in lower case).
pub open spec fn word_is(t: Seq<char>, w: Seq<char>) -> bool {
    lower_seq(t) == w
}

/// The MAC address and the failure flag after reading the words of an
/// `ip neigh` line from position `i`: `lladdr` takes the next word as the
/// MAC address, and a failed, incomplete or unreachable state marks the row.
pub open spec fn unix_scan(words: Seq<Seq<char>>, i: int, mac: Option<Seq<char>>, failed: bool) -> (
    Option<Seq<char>>,
    bool,
)
    decreases words.len() + 1 - i,
{
    if i < 0 || i >= words.len() {
        (mac, failed)
    } else if word_is(words[i], "lladdr"@) {
        let next = if i + 1 < words.len() {
            normalized_mac(words[i + 1])
        } else {
            None
        };
        unix_scan(words, i + 2, next, failed)
    } else if word_is(words[i], "failed"@) || word_is(words[i], "incomplete"@) || word_is(
        words[i],
        "unreachable"@,
    ) {
        unix_scan(words, i + 1, mac, true)
    } else {
        unix_scan(words, i + 1, mac, failed)
    }
}

/// The row that an `ip neigh` line stands for: a usable address that is not
/// marked failed and has a MAC address.
pub open spec fn unix_row(line: Seq<char>) -> Option<RowView> {
    let words = split_white(line);
    if words.len() == 0 {
        None
    } else {
        let ip = trim(words[0]);
        if !is_neighbor_ip(ip) {
            None
        } else {
            let (mac, failed) = unix_scan(words, 1, None, false);
            let evidence = new_evidence(mac, None, None);
            if failed || evidence.mac_address is None {
                None
            } else {
                Some(RowView { ip, evidence })
            }
        }
    }
}

fn word_is_vec(t: &Vec<char>, w: &str) -> (r: bool)
    ensures
        r == (lower_seq(t@) == w@),
{
    chars_eq(&to_lower_vec(t), &chars_of(w))
}

/// Reads an `ip neigh show` line.
pub fn parse_unix_neighbor_row(line: &str) -> (r: Option<NeighborEvidenceRow>)
    ensures
        opt_row_view(r) == unix_row(line@),
{
    let v = chars_of(line);
    let words = crate::text::split_white_vec(&v);
    let ghost ws = split_white(v@);
    assert(words@.map_values(|x: Vec<char>| x@) == ws);
    if words.len() == 0 {
        return None;
    }
    assert(ws[0] == words@[0]@);
    let ip = trim_vec(&words[0]);
    if !is_neighbor_ip_vec(&ip) {
        return None;
    }
    let mut mac_address: Option<String> = None;
    let mut is_failed = false;
    let mut i: usize = 1;
    while i < words.len()
        invariant
            1 <= i,
            words@.map_values(|x: Vec<char>| x@) == ws,
            ws.len() == words@.len(),
            unix_scan(ws, 1, None, false) == unix_scan(
                ws,
                i as int,
                opt_string_view(mac_address),
                is_failed,
            ),
        decreases words.len() - i,
    {
        assert(ws[i as int] == words@[i as int]@);
        if word_is_vec(&words[i], "lladdr") {
            mac_address = if i + 1 < words.len() {
                assert(ws[i + 1] == words@[i + 1]@);
                normalized_mac_vec(&words[i + 1])
            } else {
                None
            };
            if i + 1 < words.len() {
                i = i + 2;
            } else {
                i = i + 1;
                assert(unix_scan(ws, i as int, opt_string_view(mac_address), is_failed) == unix_scan(
                    ws,
                    i + 1,
                    opt_string_view(mac_address),
                    is_failed,
                ));
            }
        } else {
            if word_is_vec(&words[i], "failed") || word_is_vec(&words[i], "incomplete")
                || word_is_vec(&words[i], "unreachable") {
                is_failed = true;
            }
            i = i + 1;
        }
    }
    if is_failed {
        return None;
    }
    let evidence = NeighborEvidence::new(mac_address, None, None);
    if evidence.mac_address.is_none() {
        return None;
    }
    Some(NeighborEvidenceRow { ip: text_of(&ip), evidence })
}

// ---------------------------------------------------------------------------
// BSD and macOS: `arp -a` printed as `host (address) at mac on interface ...`
// ---------------------------------------------------------------------------

/// The mDNS name that a host name is, if it ends in `.local`.
pub open spec fn mdns_of(hostname: Option<Seq<char>>) -> Option<Seq<char>> {
    match hostname {
        Some(h) => if ends_with(h, ".local"@) {
            Some(h)
        } else {
            None
        },
        None => None,
    }
}

/// The row that an `arp -a` line stands for: the usable address between the
/// first parentheses, the MAC address in the first word after ` at `, and
/// the host name before the parentheses.
pub open spec fn arp_row(line: Seq<char>) -> Option<RowView> {
    match find_seq(line, "("@) {
        None => None,
        Some(left) => match find_seq(line.subrange(left + 1, line.len() as int), ")"@) {
            None => None,
            Some(offset) => {
                let right = offset + left + 1;
                let ip = trim(line.subrange(left + 1, right));
                if !is_neighbor_ip(ip) {
                    None
                } else {
                    let host = trim(line.subrange(0, left));
                    match find_seq(line, " at "@) {
                        None => None,
                        Some(at) => {
                            let mac = piece(split_white(line.subrange(at + 4, line.len() as int)), 0);
                            match normalized_mac(mac) {
                                None => None,
                                Some(m) => {
                                    let hostname = neighbor_hostname(host);
                                    Some(
                                        RowView {
                                            ip,
                                            evidence: new_evidence(Some(m), hostname, mdns_of(hostname)),
                                        },
                                    )
                                },
                            }
                        },
                    }
                }
            },
        },
    }
}

fn find_text(hay: &Vec<char>, needle: &str) -> (r: Option<usize>)
    ensures
        match r {
            Some(i) => find_seq(hay@, needle@) == Some(i as int),
            None => find_seq(hay@, needle@) is None,
        },
{
    crate::text::find_vec(hay, &chars_of(needle))
}

proof fn lemma_find_bounds(hay: Seq<char>, needle: Seq<char>, i: int)
    ensures
        find_from(hay, needle, i) matches Some(k) ==> i <= k && k + needle.len() <= hay.len(),
    decreases hay.len() + 1 - i,
{
    if !(i < 0 || i + needle.len() > hay.len()) && !occurs_at(hay, needle, i) {
        lemma_find_bounds(hay, needle, i + 1);
    }
}

/// Reads an `arp -a` line.
fn parse_arp_neighbor_row(line: &str) -> (r: Option<NeighborEvidenceRow>)
    ensures
        opt_row_view(r) == arp_row(line@),
{
    let v = chars_of(line);
    let left = match find_text(&v, "(") {
        Some(i) => i,
        None => return None,
    };
    proof {
        reveal_strlit("(");
        reveal_strlit(")");
        reveal_strlit(" at ");
        assert("("@.len() == 1);
        lemma_find_bounds(v@, "("@, 0);
    }
    assert(left < v.len());
    let after = sub_vec(&v, left + 1, v.len());
    let offset = match find_text(&after, ")") {
        Some(i) => i,
        None => return None,
    };
    proof {
        lemma_find_bounds(after@, ")"@, 0);
    }
    let right = offset + left + 1;
    let ip = trim_vec(&sub_vec(&v, left + 1, right));
    if !is_neighbor_ip_vec(&ip) {
        return None;
    }
    let host = trim_vec(&sub_vec(&v, 0, left));
    let at_pos = match find_text(&v, " at ") {
        Some(i) => i,
        None => return None,
    };
    proof {
        lemma_find_bounds(v@, " at "@, 0);
    }
    let rest = sub_vec(&v, at_pos + 4, v.len());
    let words = crate::text::split_white_vec(&rest);
    let mac = piece_vec(&words, 0);
    proof {
        assert(vec_views(words@) =~= words@.map_values(|x: Vec<char>| x@));
    }
    let mac_address = match normalized_mac_vec(&mac) {
        Some(m) => m,
        None => return None,
    };
    let host_text = text_of(&host);
    let hostname = trim_neighbor_hostname(host_text.as_str());
    let mdns_name = match &hostname {
        Some(h) => {
            let hv = chars_of(h.as_str());
            if ends_with_vec(&hv, &chars_of(".local")) {
                Some(text_of(&hv))
            } else {
                None
            }
        },
        None => None,
    };
    proof {
        assert(opt_string_view(hostname) == neighbor_hostname(host@));
        assert(opt_string_view(mdns_name) == mdns_of(neighbor_hostname(host@)));
    }
    Some(
        NeighborEvidenceRow {
            ip: text_of(&ip),
            evidence: NeighborEvidence::new(Some(mac_address), hostname, mdns_name),
        },
    )
}

/// Reads a line of macOS `arp -a`.
pub fn parse_macos_arp_row(line: &str) -> (r: Option<NeighborEvidenceRow>)
    ensures
        opt_row_view(r) == arp_row(line@),
{
    parse_arp_neighbor_row(line)
}

// ---------------------------------------------------------------------------
// The native helper: `address|mac|host name|mDNS name`
// ---------------------------------------------------------------------------

/// A label printed by the helper: nothing for the placeholders it prints
/// for a missing value, else the name trimmed as a host name.
pub open spec fn helper_label(value: Seq<char>) -> Option<Seq<char>> {
    let t = trim(value);
    if t == ""@ || t == "-"@ || t == "?"@ || t == "<nil>"@ {
        None
    } else {
        neighbor_hostname(t)
    }
}

/// A label printed by the native helper, or nothing for a placeholder.
fn normalize_helper_label(value: &str) -> (r: Option<String>)
    ensures
        match r {
            Some(s) => helper_label(value@) == Some(s@),
            None => helper_label(value@) is None,
        },
{
    let t = trim_vec(&chars_of(value));
    if chars_eq(&t, &chars_of("")) || chars_eq(&t, &chars_of("-")) || chars_eq(&t, &chars_of("?"))
        || chars_eq(&t, &chars_of("<nil>")) {
        return None;
    }
    let text = text_of(&t);
    trim_neighbor_hostname(text.as_str())
}

/// The row that a helper line stands for: a usable address with a MAC
/// address; the host name falls back to the mDNS name, and the mDNS name is
/// kept only if it ends in `.local`.
pub open spec fn helper_row(line: Seq<char>) -> Option<RowView> {
    let parts = split_at_char(line, '|');
    if parts.len() < 2 {
        None
    } else {
        let ip = trim(parts[0]);
        let mac = trim(parts[1]);
        let host = trim(piece(parts, 2));
        let mdns = trim(piece(parts, 3));
        if !is_neighbor_ip(ip) {
            None
        } else {
            match normalized_mac(mac) {
                None => None,
                Some(m) => {
                    let hostname = match helper_label(host) {
                        Some(h) => Some(h),
                        None => helper_label(mdns),
                    };
                    let mdns_name = match helper_label(mdns) {
                        Some(n) => if ends_with(n, ".local"@) {
                            Some(n)
                        } else {
                            None
                        },
                        None => None,
                    };
                    Some(RowView { ip, evidence: new_evidence(Some(m), hostname, mdns_name) })
                },
            }
        }
    }
}

/// Reads a neighbor line of the native helper.
pub fn parse_native_helper_row(line: &str) -> (r: Option<NeighborEvidenceRow>)
    ensures
        opt_row_view(r) == helper_row(line@),
{
    let v = chars_of(line);
    let parts = split_vec(&v, '|');
    if parts.len() < 2 {
        return None;
    }
    assert(vec_views(parts@)[0] == parts@[0]@);
    assert(vec_views(parts@)[1] == parts@[1]@);
    let ip = trim_vec(&parts[0]);
    let mac = trim_vec(&parts[1]);
    let host = text_of(&trim_vec(&piece_vec(&parts, 2)));
    let mdns = text_of(&trim_vec(&piece_vec(&parts, 3)));
    if !is_neighbor_ip_vec(&ip) {
        return None;
    }
    let mac_address = match normalized_mac_vec(&mac) {
        Some(m) => m,
        None => return None,
    };
    let hostname = match normalize_helper_label(host.as_str()) {
        Some(h) => Some(h),
        None => normalize_helper_label(mdns.as_str()),
    };
    let mdns_name = match normalize_helper_label(mdns.as_str()) {
        Some(n) => {
            let nv = chars_of(n.as_str());
            if ends_with_vec(&nv, &chars_of(".local")) {
                Some(n)
            } else {
                None
            }
        },
        None => None,
    };
    Some(
        NeighborEvidenceRow {
            ip: text_of(&ip),
            evidence: NeighborEvidence::new(Some(mac_address), hostname, mdns_name),
        },
    )
}

// ---------------------------------------------------------------------------
// The native helper: `id|name|address|prefix|mac|type|primary`
// ---------------------------------------------------------------------------

/// The interface kind a helper names, whatever its case and surrounding
/// white space.
pub open spec fn interface_type_of(raw: Seq<char>) -> InterfaceType {
    let l = lower_seq(trim(raw));
    if l == "wifi"@ {
        InterfaceType::Wifi
    } else if l == "ethernet"@ {
        InterfaceType::Ethernet
    } else if l == "docker"@ {
        InterfaceType::Docker
    } else {
        InterfaceType::Other
    }
}

/// The interface kind named by a helper.
fn parse_interface_type(raw: &str) -> (r: InterfaceType)
    ensures
        r == interface_type_of(raw@),
{
    let l = to_lower_vec(&trim_vec(&chars_of(raw)));
    if chars_eq(&l, &chars_of("wifi")) {
        InterfaceType::Wifi
    } else if chars_eq(&l, &chars_of("ethernet")) {
        InterfaceType::Ethernet
    } else if chars_eq(&l, &chars_of("docker")) {
        InterfaceType::Docker
    } else {
        InterfaceType::Other
    }
}

/// `str::parse::<u8>`: an optional `+` and one or more ASCII digits whose
/// value is at most 255.
pub open spec fn parse_u8(s: Seq<char>) -> Option<u8> {
    let d = if s.len() > 0 && s[0] == '+' {
        s.drop_first()
    } else {
        s
    };
    if d.len() > 0 && all_digits(d) && decimal_value(d) <= 255 {
        Some(decimal_value(d) as u8)
    } else {
        None
    }
}

proof fn lemma_decimal_value_grows(s: Seq<char>, i: int)
    requires
        all_digits(s),
        0 <= i <= s.len(),
    ensures
        decimal_value(s.subrange(0, i)) <= decimal_value(s),
        decimal_value(s.subrange(0, i)) >= 0,
    decreases s.len() - i,
{
    lemma_decimal_value_nonneg(s.subrange(0, i));
    if i < s.len() {
        lemma_decimal_value_grows(s, i + 1);
        assert(s.subrange(0, i + 1).drop_last() =~= s.subrange(0, i));
        assert(is_ascii_digit(s[i]));
    } else {
        assert(s.subrange(0, i) =~= s);
    }
}

proof fn lemma_decimal_value_nonneg(s: Seq<char>)
    requires
        all_digits(s),
    ensures
        decimal_value(s) >= 0,
    decreases s.len(),
{
    if s.len() > 0 {
        assert(all_digits(s.drop_last())) by {
            assert forall|k: int| 0 <= k < s.drop_last().len() implies is_ascii_digit(
                #[trigger] s.drop_last()[k],
            ) by {
                assert(s.drop_last()[k] == s[k]);
            }
        }
        lemma_decimal_value_nonneg(s.drop_last());
        assert(is_ascii_digit(s[s.len() - 1]));
    }
}

fn parse_u8_vec(s: &Vec<char>) -> (r: Option<u8>)
    ensures
        r == parse_u8(s@),
{
    let start: usize = if s.len() > 0 && s[0] == '+' { 1 } else { 0 };
    let d = sub_vec(s, start, s.len());
    assert(start == 1 ==> d@ =~= s@.drop_first());
    assert(start == 0 ==> d@ =~= s@);
    if d.len() == 0 {
        return None;
    }
    let mut acc: u32 = 0;
    let mut i: usize = 0;
    while i < d.len()
        invariant
            i <= d.len(),
            d@.len() > 0,
            d@ == (if s@.len() > 0 && s@[0] == '+' {
                s@.drop_first()
            } else {
                s@
            }),
            acc <= 255,
            forall|k: int| 0 <= k < i ==> is_ascii_digit(#[trigger] d@[k]),
            acc as int == decimal_value(d@.subrange(0, i as int)),
        decreases d.len() - i,
    {
        let c = d[i];
        if !crate::text::char_is_ascii_digit(c) {
            assert(!all_digits(d@));
            return None;
        }
        proof {
            assert(d@.subrange(0, i + 1).drop_last() =~= d@.subrange(0, i as int));
        }
        acc = acc * 10 + ((c as u32) - ('0' as u32));
        i = i + 1;
        if acc > 255 {
            proof {
                if all_digits(d@) {
                    lemma_decimal_value_grows(d@, i as int);
                }
            }
            return None;
        }
    }
    assert(d@.subrange(0, d.len() as int) =~= d@);
    Some(acc as u8)
}

/// The interface that a helper line stands for: id, name, address and a
/// prefix length that parses as a byte, with the kind read from the sixth
/// piece and the range written `address/prefix`.
pub open spec fn interface_row(line: Seq<char>) -> Option<InterfaceView> {
    let parts = split_at_char(line, '|');
    if parts.len() < 4 {
        None
    } else {
        let id = trim(parts[0]);
        let name = trim(parts[1]);
        let ipv4 = trim(parts[2]);
        let prefix = trim(parts[3]);
        let kind = trim(piece(parts, 5));
        if id.len() == 0 || name.len() == 0 || ipv4.len() == 0 {
            None
        } else {
            match parse_u8(prefix) {
                None => None,
                Some(p) => Some(
                    InterfaceView {
                        id,
                        name,
                        ip_range: ipv4 + "/"@ + decimal_text(p as nat),
                        iface_type: interface_type_of(kind),
                        local_ip: ipv4,
                    },
                ),
            }
        }
    }
}

/// The view of an optional interface.
pub open spec fn opt_interface_view(o: Option<NetworkInterface>) -> Option<InterfaceView> {
    match o {
        Some(i) => Some(i@),
        None => None,
    }
}

/// Reads an interface line of the native helper.
pub fn parse_native_helper_interface_row(line: &str) -> (r: Option<NetworkInterface>)
    ensures
        opt_interface_view(r) == interface_row(line@),
{
    let v = chars_of(line);
    let parts = split_vec(&v, '|');
    if parts.len() < 4 {
        return None;
    }
    assert(vec_views(parts@)[0] == parts@[0]@);
    assert(vec_views(parts@)[1] == parts@[1]@);
    assert(vec_views(parts@)[2] == parts@[2]@);
    assert(vec_views(parts@)[3] == parts@[3]@);
    let id = trim_vec(&parts[0]);
    let name = trim_vec(&parts[1]);
    let ipv4 = trim_vec(&parts[2]);
    let prefix = trim_vec(&parts[3]);
    let kind = text_of(&trim_vec(&piece_vec(&parts, 5)));
    if id.len() == 0 || name.len() == 0 || ipv4.len() == 0 {
        return None;
    }
    let prefix_value = match parse_u8_vec(&prefix) {
        Some(p) => p,
        None => return None,
    };
    let iface_type = parse_interface_type(kind.as_str());
    let mut range = ipv4.clone();
    range.push('/');
    let digits = decimal_text_u8(prefix_value);
    let mut k: usize = 0;
    let ghost base = range@;
    while k < digits.len()
        invariant
            k <= digits.len(),
            range@ == base + digits@.subrange(0, k as int),
        decreases digits.len() - k,
    {
        range.push(digits[k]);
        k = k + 1;
        assert(range@ =~= base + digits@.subrange(0, k as int));
    }
    proof {
        reveal_strlit("/");
        assert(digits@.subrange(0, digits.len() as int) =~= digits@);
        assert(range@ =~= ipv4@ + "/"@ + digits@);
    }
    Some(
        NetworkInterface {
            id: text_of(&id),
            name: text_of(&name),
            ip_range: text_of(&range),
            iface_type,
            local_ip: text_of(&ipv4),
        },
    )
}

// ---------------------------------------------------------------------------
// Laws of MAC address normalization
// ---------------------------------------------------------------------------

proof fn lemma_upper_hex(c: char)
    requires
        is_ascii_hexdigit(c),
    ensures
        is_ascii_hexdigit(upper_char(c)),
        upper_char(upper_char(c)) == upper_char(c),
{
}

proof fn lemma_mac_text_digits(h: Seq<char>, n: int)
    requires
        h.len() == 12,
        forall|k: int| 0 <= k < 12 ==> is_ascii_hexdigit(#[trigger] h[k]),
        0 <= n <= 17,
    ensures
        hex_digits(mac_text(h).subrange(0, n)) == upper_seq(h).subrange(0, n - n / 3),
    decreases n,
{
    let m = mac_text(h);
    if n == 0 {
        assert(m.subrange(0, 0) =~= Seq::<char>::empty());
        assert(hex_digits(Seq::<char>::empty()) =~= Seq::<char>::empty()) by {
            reveal_with_fuel(Seq::filter, 1);
        }
        assert(upper_seq(h).subrange(0, 0) =~= Seq::<char>::empty());
    } else {
        let k = n - 1;
        lemma_mac_text_digits(h, k);
        assert(m.subrange(0, n) =~= m.subrange(0, k).push(m[k]));
        m.subrange(0, k).lemma_filter_push(m[k], |c: char| is_ascii_hexdigit(c));
        if k % 3 == 2 {
            assert(m[k] == ':');
            assert(n - n / 3 == k - k / 3);
        } else {
            let j = 2 * (k / 3) + k % 3;
            assert(j == k - k / 3);
            assert(0 <= j < 12);
            lemma_upper_hex(h[j]);
            assert(n - n / 3 == j + 1);
            assert(upper_seq(h).subrange(0, j + 1) =~= upper_seq(h).subrange(0, j).push(
                upper_char(h[j]),
            ));
        }
    }
}

/// A canonical MAC address is its own canonical form: normalizing twice
/// gives what normalizing once gave.
pub proof fn lemma_normalize_mac_idempotent(raw: Seq<char>)
    requires
        normalized_mac(raw) is Some,
    ensures
        normalized_mac(normalized_mac(raw)->0) == normalized_mac(raw),
{
    broadcast use vstd::seq_lib::group_filter_ensures;
    let h = hex_digits(raw);
    assert forall|k: int| 0 <= k < 12 implies is_ascii_hexdigit(#[trigger] h[k]) by {
        assert(h.len() == 12);
    }
    let m = mac_text(h);
    lemma_mac_text_digits(h, 17);
    assert(m.subrange(0, 17) =~= m);
    assert(upper_seq(h).subrange(0, 12) =~= upper_seq(h));
    assert forall|k: int| 0 <= k < 12 implies upper_char(#[trigger] upper_seq(h)[k]) == upper_char(h[k]) by {
        lemma_upper_hex(h[k]);
    }
    assert(mac_text(upper_seq(h)) =~= m);
}

/// A canonical MAC address passes through label trimming unchanged.
proof fn lemma_mac_label(raw: Seq<char>)
    requires
        normalized_mac(raw) is Some,
    ensures
        normalize_label(normalized_mac(raw)) == normalized_mac(raw),
        normalized_mac(normalized_mac(raw)->0) == normalized_mac(raw),
{
    lemma_normalize_mac_idempotent(raw);
    let h = hex_digits(raw);
    let m = mac_text(h);
    broadcast use vstd::seq_lib::group_filter_ensures;
    assert(is_ascii_hexdigit(h[0]) && is_ascii_hexdigit(h[11]));
    lemma_upper_hex(h[0]);
    lemma_upper_hex(h[11]);
    assert(m[0] == upper_char(h[0]));
    assert(m[16] == upper_char(h[11]));
    crate::text::lemma_strip_unchanged(m, CharClass::WhiteSpace);
    crate::text::lemma_strip_unchanged(m, CharClass::Exactly('"'));
    assert forall|k: int| 0 <= k < m.len() implies !is_control(#[trigger] m[k]) by {
        if k % 3 != 2 {
            lemma_upper_hex(h[2 * (k / 3) + k % 3]);
        }
    }
}

/// Every row that a neighbor-table reader returns names a usable neighbor
/// address and carries a MAC address in canonical form.
pub open spec fn row_is_usable(r: RowView) -> bool {
    &&& is_neighbor_ip(r.ip)
    &&& r.evidence.mac_address matches Some(m) && normalized_mac(m) == Some(m)
}

proof fn lemma_unix_scan_mac(words: Seq<Seq<char>>, i: int, mac: Option<Seq<char>>, failed: bool)
    requires
        mac matches Some(m) ==> exists|raw: Seq<char>| normalized_mac(raw) == Some(m),
    ensures
        unix_scan(words, i, mac, failed).0 matches Some(m) ==> exists|raw: Seq<char>|
            normalized_mac(raw) == Some(m),
    decreases words.len() + 1 - i,
{
    if i < 0 || i >= words.len() {
    } else if word_is(words[i], "lladdr"@) {
        let next = if i + 1 < words.len() {
            normalized_mac(words[i + 1])
        } else {
            None
        };
        if i + 1 < words.len() && next is Some {
            assert(normalized_mac(words[i + 1]) == next);
        }
        lemma_unix_scan_mac(words, i + 2, next, failed);
    } else if word_is(words[i], "failed"@) || word_is(words[i], "incomplete"@) || word_is(
        words[i],
        "unreachable"@,
    ) {
        lemma_unix_scan_mac(words, i + 1, mac, true);
    } else {
        lemma_unix_scan_mac(words, i + 1, mac, failed);
    }
}

/// Each reader of neighbor rows returns only rows with a usable address and
/// a canonical MAC address.
pub proof fn lemma_rows_are_usable(line: Seq<char>)
    ensures
        windows_row(line) matches Some(r) ==> row_is_usable(r),
        unix_row(line) matches Some(r) ==> row_is_usable(r),
        arp_row(line) matches Some(r) ==> row_is_usable(r),
        helper_row(line) matches Some(r) ==> row_is_usable(r),
{
    let parts = split_at_char(line, '|');
    if windows_row(line) is Some {
        lemma_mac_label(trim(piece(parts, 1)));
    }
    if helper_row(line) is Some {
        lemma_mac_label(trim(parts[1]));
    }
    if let Some(left) = find_seq(line, "("@) {
        if let Some(offset) = find_seq(line.subrange(left + 1, line.len() as int), ")"@) {
            if let Some(at) = find_seq(line, " at "@) {
                let mac = piece(split_white(line.subrange(at + 4, line.len() as int)), 0);
                if normalized_mac(mac) is Some {
                    lemma_mac_label(mac);
                }
            }
        }
    }
    let words = split_white(line);
    if unix_row(line) is Some {
        lemma_unix_scan_mac(words, 1, None, false);
        let m = unix_scan(words, 1, None, false).0->0;
        let raw = choose|raw: Seq<char>| normalized_mac(raw) == Some(m);
        lemma_mac_label(raw);
    }
}

} // verus!
