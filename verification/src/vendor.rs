//! Vendor names of OUI prefixes: the registrations of the single-board
//! computer makers that device classification singles out.
//!
//! This table is a small stand-in for a full OUI registry: it holds only the
//! Raspberry Pi and NVIDIA prefixes, so `classify_device_identity` finds no
//! vendor for any other prefix. Callers with a full registry pass its lookup
//! to `identity::classify_device_identity_with_vendor_lookup` instead.
use vstd::prelude::*;

verus! {

/// The view of an optional string slice.
pub open spec fn opt_str_view(o: Option<&str>) -> Option<Seq<char>> {
    match o {
        Some(s) => Some(s@),
        None => None,
    }
}

/// The vendor registered for the OUI `p` in this table, if it holds `p`.
pub open spec fn known_vendor(p: Seq<u8>) -> Option<Seq<char>> {
    if p == seq![0xB8u8, 0x27u8, 0xEBu8] {
        Some("Raspberry Pi Foundation"@)
    } else if p == seq![0xDCu8, 0xA6u8, 0x32u8] || p == seq![0xE4u8, 0x5Fu8, 0x01u8] || p
        == seq![0x28u8, 0xCDu8, 0xC1u8] || p == seq![0xD8u8, 0x3Au8, 0xDDu8] {
        Some("Raspberry Pi Trading Ltd"@)
    } else if p == seq![0x00u8, 0x04u8, 0x4Bu8] {
        Some("NVIDIA"@)
    } else if p == seq![0x48u8, 0xB0u8, 0x2Du8] || p == seq![0x3Cu8, 0x6Du8, 0x66u8] {
        Some("NVIDIA Corporation"@)
    } else {
        None
    }
}

fn prefix_is(p: &[u8; 3], a: u8, b: u8, c: u8) -> (r: bool)
    ensures
        r == (p@ == seq![a, b, c]),
{
    let r = p[0] == a && p[1] == b && p[2] == c;
    proof {
        if r {
            assert(p@ =~= seq![a, b, c]);
        } else if p@ == seq![a, b, c] {
            assert(p@[0] == a && p@[1] == b && p@[2] == c);
        }
    }
    r
}

/// The vendor name registered for an OUI prefix.
pub fn lookup_vendor_name(prefix: [u8; 3]) -> (r: Option<&'static str>)
    ensures
        opt_str_view(r) == known_vendor(prefix@),
{
    if prefix_is(&prefix, 0xB8, 0x27, 0xEB) {
        Some("Raspberry Pi Foundation")
    } else if prefix_is(&prefix, 0xDC, 0xA6, 0x32) || prefix_is(&prefix, 0xE4, 0x5F, 0x01)
        || prefix_is(&prefix, 0x28, 0xCD, 0xC1) || prefix_is(&prefix, 0xD8, 0x3A, 0xDD) {
        Some("Raspberry Pi Trading Ltd")
    } else if prefix_is(&prefix, 0x00, 0x04, 0x4B) {
        Some("NVIDIA")
    } else if prefix_is(&prefix, 0x48, 0xB0, 0x2D) || prefix_is(&prefix, 0x3C, 0x6D, 0x66) {
        Some("NVIDIA Corporation")
    } else {
        None
    }
}

} // verus!
