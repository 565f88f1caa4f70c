//! Splitting at a separator and dotted-decimal IPv4 addresses.
use vstd::prelude::*;
use crate::text::{chars_of, char_is_ascii_digit, is_ascii_digit};

verus! {

// ---------------------------------------------------------------------------
// Splitting at a separator character (`str::split` with a `char` pattern)
// ---------------------------------------------------------------------------

/// The pieces of `s` between occurrences of `sep`, empty pieces included:
/// what `str::split(sep)` yields.
pub open spec fn split_at_char(s: Seq<char>, sep: char) -> Seq<Seq<char>>
    decreases s.len(),
{
    if s.len() == 0 {
        seq![Seq::<char>::empty()]
    } else {
        let rest = split_at_char(s.drop_last(), sep);
        if s.last() == sep {
            rest.push(Seq::<char>::empty())
        } else {
            rest.update(rest.len() - 1, rest.last().push(s.last()))
        }
    }
}

pub proof fn lemma_split_nonempty(s: Seq<char>, sep: char)
    ensures
        split_at_char(s, sep).len() >= 1,
    decreases s.len(),
{
    if s.len() > 0 {
        lemma_split_nonempty(s.drop_last(), sep);
    }
}

/// The views of a vector of character vectors.
pub open spec fn vec_views(v: Seq<Vec<char>>) -> Seq<Seq<char>> {
    v.map_values(|x: Vec<char>| x@)
}

/// `str::split(sep)`, collected.
pub fn split_vec(v: &Vec<char>, sep: char) -> (r: Vec<Vec<char>>)
    ensures
        vec_views(r@) == split_at_char(v@, sep),
        r@.len() >= 1,
{
    let mut done: Vec<Vec<char>> = Vec::new();
    let mut cur: Vec<char> = Vec::new();
    let mut i: usize = 0;
    while i < v.len()
        invariant
            i <= v.len(),
            vec_views(done@).push(cur@) == split_at_char(v@.subrange(0, i as int), sep),
        decreases v.len() - i,
    {
        let c = v[i];
        let ghost prefix = v@.subrange(0, i + 1);
        proof {
            assert(prefix.drop_last() =~= v@.subrange(0, i as int));
            lemma_split_nonempty(prefix.drop_last(), sep);
        }
        if c == sep {
            let mut old_cur: Vec<char> = Vec::new();
            std::mem::swap(&mut old_cur, &mut cur);
            let ghost before = done@;
            done.push(old_cur);
            proof {
                assert(vec_views(done@) =~= vec_views(before).push(old_cur@));
            }
        } else {
            let ghost before = cur@;
            cur.push(c);
            proof {
                let rest = split_at_char(prefix.drop_last(), sep);
                assert(rest.update(rest.len() - 1, rest.last().push(c)) =~= vec_views(done@).push(
                    cur@,
                ));
            }
        }
        i = i + 1;
    }
    let ghost before = done@;
    done.push(cur);
    proof {
        assert(v@.subrange(0, v.len() as int) =~= v@);
        assert(vec_views(done@) =~= vec_views(before).push(cur@));
    }
    done
}

// ---------------------------------------------------------------------------
// Decimal numbers
// ---------------------------------------------------------------------------

pub open spec fn all_digits(s: Seq<char>) -> bool {
    forall|k: int| 0 <= k < s.len() ==> is_ascii_digit(#[trigger] s[k])
}

/// The value of a string of decimal digits.
pub open spec fn decimal_value(s: Seq<char>) -> int
    decreases s.len(),
{
    if s.len() == 0 {
        0
    } else {
        decimal_value(s.drop_last()) * 10 + ((s.last() as u32) - ('0' as u32))
    }
}

/// Value of an all-digit string of at most `max_len` digits, computed exactly.
fn decimal_value_vec(v: &Vec<char>) -> (r: u32)
    requires
        v.len() <= 3,
        all_digits(v@),
    ensures
        r as int == decimal_value(v@),
        r < 1000,
{
    let mut acc: u32 = 0;
    let mut i: usize = 0;
    while i < v.len()
        invariant
            i <= v.len() <= 3,
            all_digits(v@),
            acc as int == decimal_value(v@.subrange(0, i as int)),
            i == 0 ==> acc == 0,
            i == 1 ==> acc < 10,
            i == 2 ==> acc < 100,
            i == 3 ==> acc < 1000,
        decreases v.len() - i,
    {
        let c = v[i];
        assert(is_ascii_digit(v@[i as int]));
        let d: u32 = (c as u32) - ('0' as u32);
        proof {
            assert(v@.subrange(0, i + 1).drop_last() =~= v@.subrange(0, i as int));
        }
        acc = acc * 10 + d;
        i = i + 1;
    }
    assert(v@.subrange(0, v.len() as int) =~= v@);
    acc
}

// ---------------------------------------------------------------------------
// IPv4 addresses
// ---------------------------------------------------------------------------

/// One field of a dotted-decimal address: one to three ASCII digits, no
/// leading zero unless the field is a single `0`, value at most 255.
pub open spec fn is_octet_field(f: Seq<char>) -> bool {
    &&& 1 <= f.len() <= 3
    &&& all_digits(f)
    &&& (f.len() == 1 || f[0] != '0')
    &&& decimal_value(f) <= 255
}

/// The octets of `s` read as an IPv4 address in dotted-decimal notation, as
/// `str::parse::<std::net::Ipv4Addr>` reads it: exactly four fields split at
/// `.`, each an octet field.
pub open spec fn parse_ipv4(s: Seq<char>) -> Option<Seq<u8>> {
    let f = split_at_char(s, '.');
    if f.len() == 4 && is_octet_field(f[0]) && is_octet_field(f[1]) && is_octet_field(f[2])
        && is_octet_field(f[3]) {
        Some(
            seq![
                decimal_value(f[0]) as u8,
                decimal_value(f[1]) as u8,
                decimal_value(f[2]) as u8,
                decimal_value(f[3]) as u8,
            ],
        )
    } else {
        None
    }
}

fn octet_of_field(f: &Vec<char>) -> (r: Option<u8>)
    ensures
        r is Some <==> is_octet_field(f@),
        r matches Some(o) ==> o as int == decimal_value(f@),
{
    if f.len() < 1 || f.len() > 3 {
        return None;
    }
    let mut i: usize = 0;
    while i < f.len()
        invariant
            i <= f.len(),
            forall|k: int| 0 <= k < i ==> is_ascii_digit(#[trigger] f@[k]),
        decreases f.len() - i,
    {
        if !char_is_ascii_digit(f[i]) {
            return None;
        }
        i = i + 1;
    }
    if f.len() > 1 && f[0] == '0' {
        return None;
    }
    let value = decimal_value_vec(f);
    if value > 255 {
        return None;
    }
    Some(value as u8)
}

/// `str::parse::<Ipv4Addr>` followed by `Ipv4Addr::octets`.
pub fn parse_ipv4_vec(v: &Vec<char>) -> (r: Option<[u8; 4]>)
    ensures
        r is Some <==> parse_ipv4(v@) is Some,
        r matches Some(o) ==> o@ == parse_ipv4(v@)->0,
{
    let fields = split_vec(v, '.');
    if fields.len() != 4 {
        return None;
    }
    assert(vec_views(fields@)[0] == fields@[0]@);
    assert(vec_views(fields@)[1] == fields@[1]@);
    assert(vec_views(fields@)[2] == fields@[2]@);
    assert(vec_views(fields@)[3] == fields@[3]@);
    let a = match octet_of_field(&fields[0]) {
        Some(x) => x,
        None => return None,
    };
    let b = match octet_of_field(&fields[1]) {
        Some(x) => x,
        None => return None,
    };
    let c = match octet_of_field(&fields[2]) {
        Some(x) => x,
        None => return None,
    };
    let d = match octet_of_field(&fields[3]) {
        Some(x) => x,
        None => return None,
    };
    let r = [a, b, c, d];
    assert(r@ =~= parse_ipv4(v@)->0);
    Some(r)
}

/// `Ipv4Addr::is_loopback`: the block 127.0.0.0/8.
pub open spec fn is_loopback(o: Seq<u8>) -> bool {
    o[0] == 127
}

/// `Ipv4Addr::is_link_local`: the block 169.254.0.0/16.
pub open spec fn is_link_local(o: Seq<u8>) -> bool {
    o[0] == 169 && o[1] == 254
}

/// `Ipv4Addr::is_unspecified`: the address 0.0.0.0.
pub open spec fn is_unspecified(o: Seq<u8>) -> bool {
    o[0] == 0 && o[1] == 0 && o[2] == 0 && o[3] == 0
}

/// An address that a neighbor row may name: an IPv4 address that is neither
/// loopback, link-local nor unspecified.
pub open spec fn is_neighbor_ip(s: Seq<char>) -> bool {
    match parse_ipv4(s) {
        Some(o) => !is_loopback(o) && !is_link_local(o) && !is_unspecified(o),
        None => false,
    }
}

/// A neighbor address is exactly a dotted IPv4 address outside the loopback
/// block 127.0.0.0/8, the link-local block 169.254.0.0/16 and the address
/// 0.0.0.0: every other address, private or public, gateway or host, is one.
pub proof fn lemma_neighbor_ip_blocks(s: Seq<char>)
    ensures
        is_neighbor_ip(s) <==> (parse_ipv4(s) matches Some(o) && !(o[0] == 127u8) && !(o[0] == 169u8
            && o[1] == 254u8) && !(o[0] == 0u8 && o[1] == 0u8 && o[2] == 0u8 && o[3] == 0u8)),
{
}

/// Whether `ip` names a usable neighbor address.
pub fn is_valid_neighbor_ip(ip: &str) -> (r: bool)
    ensures
        r == is_neighbor_ip(ip@),
{
    let v = chars_of(ip);
    match parse_ipv4_vec(&v) {
        Some(o) => {
            let loopback = o[0] == 127;
            let link_local = o[0] == 169 && o[1] == 254;
            let unspecified = o[0] == 0 && o[1] == 0 && o[2] == 0 && o[3] == 0;
            !loopback && !link_local && !unspecified
        },
        None => false,
    }
}

} // verus!
