//! The order of scan results: by IPv4 value where both addresses parse, by
//! text otherwise, then by id; a stable insertion sort over it; and removal of
//! repeated addresses.
use std::cmp::Ordering;
use vstd::prelude::*;
use crate::ipv4::{parse_ipv4, parse_ipv4_vec};
use crate::text::chars_of;

verus! {

broadcast use vstd::seq_lib::group_to_multiset_ensures;

/// Lexicographic order of two character sequences by code point, as a sign
/// (-1 before, 0 equal, 1 after); for valid UTF-8 this is the byte order that
/// `str::cmp` uses.
pub open spec fn lex_order(a: Seq<char>, b: Seq<char>) -> int
    decreases a.len(),
{
    if a.len() == 0 {
        if b.len() == 0 {
            0
        } else {
            -1
        }
    } else if b.len() == 0 {
        1
    } else if a[0] < b[0] {
        -1
    } else if b[0] < a[0] {
        1
    } else {
        lex_order(a.drop_first(), b.drop_first())
    }
}

/// Lexicographic order of two four-octet addresses (`[u8; 4]::cmp`), as a sign.
pub open spec fn octet_order(a: Seq<u8>, b: Seq<u8>) -> int {
    if a[0] != b[0] {
        if a[0] < b[0] { -1 } else { 1 }
    } else if a[1] != b[1] {
        if a[1] < b[1] { -1 } else { 1 }
    } else if a[2] != b[2] {
        if a[2] < b[2] { -1 } else { 1 }
    } else if a[3] != b[3] {
        if a[3] < b[3] { -1 } else { 1 }
    } else {
        0
    }
}

/// `Ordering::then` on signs.
pub open spec fn then_order(first: int, second: int) -> int {
    if first == 0 { second } else { first }
}

/// `Ordering::reverse` on signs.
pub open spec fn reversed(o: int) -> int {
    -o
}

/// The order of two (address, id) pairs: by address value when both
/// addresses parse as IPv4, by address text otherwise, ties broken by id.
pub open spec fn ip_id_order(left_ip: Seq<char>, left_id: Seq<char>, right_ip: Seq<char>, right_id: Seq<char>) -> int {
    match (parse_ipv4(left_ip), parse_ipv4(right_ip)) {
        (Some(a), Some(b)) => then_order(octet_order(a, b), lex_order(left_id, right_id)),
        _ => then_order(lex_order(left_ip, right_ip), lex_order(left_id, right_id)),
    }
}

pub proof fn lemma_lex_reverse(a: Seq<char>, b: Seq<char>)
    ensures
        lex_order(b, a) == reversed(lex_order(a, b)),
        -1 <= lex_order(a, b) <= 1,
    decreases a.len(),
{
    if a.len() > 0 && b.len() > 0 && a[0] == b[0] {
        lemma_lex_reverse(a.drop_first(), b.drop_first());
    }
}

pub proof fn lemma_lex_equal(a: Seq<char>, b: Seq<char>)
    ensures
        (lex_order(a, b) == 0) <==> a == b,
    decreases a.len(),
{
    if a.len() > 0 && b.len() > 0 && a[0] == b[0] {
        lemma_lex_equal(a.drop_first(), b.drop_first());
        if a.drop_first() == b.drop_first() {
            assert(a =~= seq![a[0]] + a.drop_first());
            assert(b =~= seq![b[0]] + b.drop_first());
        }
        if a == b {
            assert(a.drop_first() =~= b.drop_first());
        }
    } else if a.len() == 0 && b.len() == 0 {
        assert(a =~= b);
    }
}

/// Swapping the two sides reverses the order, and the order is a sign.
pub proof fn lemma_ip_id_order_reverse(li: Seq<char>, lid: Seq<char>, ri: Seq<char>, rid: Seq<char>)
    ensures
        ip_id_order(ri, rid, li, lid) == reversed(ip_id_order(li, lid, ri, rid)),
        -1 <= ip_id_order(li, lid, ri, rid) <= 1,
{
    lemma_lex_reverse(li, ri);
    lemma_lex_reverse(lid, rid);
}

/// Two keys are equal in the order exactly when they are the same pair.
pub proof fn lemma_ip_id_order_equal(li: Seq<char>, lid: Seq<char>, ri: Seq<char>, rid: Seq<char>)
    ensures
        ip_id_order(li, lid, ri, rid) == 0 ==> lid == rid,
        (li == ri && lid == rid) ==> ip_id_order(li, lid, ri, rid) == 0,
{
    lemma_lex_equal(li, ri);
    lemma_lex_equal(lid, rid);
}

fn lex_compare(a: &Vec<char>, b: &Vec<char>) -> (r: i8)
    ensures
        r as int == lex_order(a@, b@),
{
    let mut i: usize = 0;
    assert(a@.skip(0) =~= a@);
    assert(b@.skip(0) =~= b@);
    while i < a.len() && i < b.len() && a[i] == b[i]
        invariant
            i <= a.len(),
            i <= b.len(),
            lex_order(a@, b@) == lex_order(a@.skip(i as int), b@.skip(i as int)),
        decreases a.len() - i,
    {
        proof {
            assert(a@.skip(i as int).drop_first() =~= a@.skip(i + 1));
            assert(b@.skip(i as int).drop_first() =~= b@.skip(i + 1));
        }
        i = i + 1;
    }
    if i == a.len() {
        if i == b.len() {
            0
        } else {
            -1
        }
    } else if i == b.len() {
        1
    } else if a[i] < b[i] {
        -1
    } else {
        1
    }
}

fn octet_compare(a: &[u8; 4], b: &[u8; 4]) -> (r: i8)
    ensures
        r as int == octet_order(a@, b@),
{
    let mut i: usize = 0;
    while i < 4
        invariant
            i <= 4,
            forall|k: int| 0 <= k < i ==> a@[k] == b@[k],
        decreases 4 - i,
    {
        if a[i] < b[i] {
            return -1;
        }
        if b[i] < a[i] {
            return 1;
        }
        i = i + 1;
    }
    0
}

/// The scan-result order of two (address, id) pairs as a sign.
pub fn ip_id_sign(left_ip: &str, left_id: &str, right_ip: &str, right_id: &str) -> (r: i8)
    ensures
        r as int == ip_id_order(left_ip@, left_id@, right_ip@, right_id@),
{
    let li = chars_of(left_ip);
    let ri = chars_of(right_ip);
    let lid = chars_of(left_id);
    let rid = chars_of(right_id);
    let by_id = lex_compare(&lid, &rid);
    let first = match (parse_ipv4_vec(&li), parse_ipv4_vec(&ri)) {
        (Some(a), Some(b)) => octet_compare(&a, &b),
        _ => lex_compare(&li, &ri),
    };
    if first == 0 {
        by_id
    } else {
        first
    }
}

/// The `Ordering` that a sign stands for.
pub open spec fn ordering_of(sign: int) -> Ordering {
    if sign < 0 {
        Ordering::Less
    } else if sign == 0 {
        Ordering::Equal
    } else {
        Ordering::Greater
    }
}

/// Order of two scan entries given by address and id: numeric IPv4 order where
/// both addresses parse, text order otherwise, ties broken by the id.
pub fn compare_ip_and_id(left_ip: &str, left_id: &str, right_ip: &str, right_id: &str) -> (r: Ordering)
    ensures
        r == ordering_of(ip_id_order(left_ip@, left_id@, right_ip@, right_id@)),
{
    let sign = ip_id_sign(left_ip, left_id, right_ip, right_id);
    if sign < 0 {
        Ordering::Less
    } else if sign == 0 {
        Ordering::Equal
    } else {
        Ordering::Greater
    }
}

/// A value placed in scan-result order by an address and an id.
pub trait IpKeyed: View {
    spec fn ip_key(&self) -> Seq<char>;

    spec fn id_key(&self) -> Seq<char>;

    fn ip_text(&self) -> (r: &str)
        ensures
            r@ == self.ip_key(),
    ;

    fn id_text(&self) -> (r: &str)
        ensures
            r@ == self.id_key(),
    ;
}

/// The position of two keyed values in scan-result order.
pub open spec fn key_order<T: IpKeyed>(a: T, b: T) -> int {
    ip_id_order(a.ip_key(), a.id_key(), b.ip_key(), b.id_key())
}

/// No element comes after its successor.
pub open spec fn ip_sorted<T: IpKeyed>(s: Seq<T>) -> bool {
    forall|i: int| 0 <= i && i + 1 < s.len() ==> #[trigger] key_order(s[i], s[i + 1]) != 1
}

/// Each element comes strictly before its successor.
pub open spec fn ip_strictly_sorted<T: IpKeyed>(s: Seq<T>) -> bool {
    forall|i: int| 0 <= i && i + 1 < s.len() ==> #[trigger] key_order(s[i], s[i + 1]) == -1
}

pub fn compare_keyed<T: IpKeyed>(a: &T, b: &T) -> (r: i8)
    ensures
        r as int == key_order(*a, *b),
{
    ip_id_sign(a.ip_text(), a.id_text(), b.ip_text(), b.id_text())
}

/// The views of the elements of a sequence.
pub open spec fn views_of<T: View>(s: Seq<T>) -> Seq<T::V> {
    s.map_values(|x: T| x@)
}

/// `p` lists distinct positions below `n`, one for each of its entries.
pub open spec fn distinct_positions(p: Seq<int>, n: int) -> bool {
    &&& forall|i: int| 0 <= i < p.len() ==> 0 <= #[trigger] p[i] < n
    &&& forall|i: int, j: int| 0 <= i < j < p.len() ==> #[trigger] p[i] != #[trigger] p[j]
}

/// `output` takes its i-th element from position `p[i]` of `input`, each
/// position once, and elements that the order holds equal keep the order
/// they had in `input`.
pub open spec fn stably_arranged<T: IpKeyed>(input: Seq<T>, output: Seq<T>, p: Seq<int>) -> bool {
    &&& output.len() == input.len()
    &&& p.len() == output.len()
    &&& distinct_positions(p, input.len() as int)
    &&& forall|i: int| 0 <= i < output.len() ==> #[trigger] output[i] == input[p[i]]
    &&& forall|i: int, j: int|
        0 <= i < j < output.len() && #[trigger] key_order(output[i], output[j]) == 0 ==> p[i] < p[j]
}

/// `output` is `input` sorted in scan-result order by a stable sort.
pub open spec fn stable_sort_of<T: IpKeyed>(input: Seq<T>, output: Seq<T>) -> bool {
    &&& ip_sorted(output)
    &&& exists|p: Seq<int>| stably_arranged(input, output, p)
}

/// `output` is a stable sort, in scan-result order, of elements whose views
/// are `source`, in that order.
pub open spec fn stable_sort_of_views<T: IpKeyed>(source: Seq<T::V>, output: Seq<T>) -> bool {
    exists|input: Seq<T>| #[trigger] views_of(input) == source && stable_sort_of(input, output)
}

/// Sorts `v` in scan-result order, keeping equal elements in their order.
pub fn sort_by_ip<T: IpKeyed>(v: &mut Vec<T>)
    ensures
        final(v)@.to_multiset() == old(v)@.to_multiset(),
        views_of(final(v)@).to_multiset() == views_of(old(v)@).to_multiset(),
        ip_sorted(final(v)@),
        stable_sort_of(old(v)@, final(v)@),
{
    let ghost initial = old(v)@;
    let mut src: Vec<T> = Vec::new();
    std::mem::swap(&mut src, v);
    let mut out: Vec<T> = Vec::new();
    let ghost mut p: Seq<int> = Seq::empty();
    while src.len() > 0
        invariant
            out@.to_multiset().add(src@.to_multiset()) == initial.to_multiset(),
            views_of(out@).to_multiset().add(views_of(src@).to_multiset()) == views_of(initial).to_multiset(),
            ip_sorted(out@),
            out@.len() + src@.len() == initial.len(),
            src@ == initial.subrange(out@.len() as int, initial.len() as int),
            p.len() == out@.len(),
            distinct_positions(p, out@.len() as int),
            forall|i: int| 0 <= i < out@.len() ==> #[trigger] out@[i] == initial[p[i]],
            forall|i: int, j: int|
                0 <= i < j < out@.len() && #[trigger] key_order(out@[i], out@[j]) == 0 ==> p[i] < p[j],
        decreases src.len(),
    {
        let ghost src_before = src@;
        let ghost m: int = out@.len() as int;
        let x = src.remove(0);
        proof {
            assert(src_before.remove(0) == src@);
            assert(x == initial[m]);
            assert(src@ =~= initial.subrange(m + 1, initial.len() as int));
        }
        let mut j: usize = out.len();
        while j > 0 && compare_keyed(&out[j - 1], &x) == 1
            invariant
                j <= out.len(),
                forall|k: int| j <= k < out.len() ==> #[trigger] key_order(out@[k], x)
                    == 1,
            decreases j,
        {
            j = j - 1;
        }
        let ghost out_before = out@;
        let ghost p_before = p;
        out.insert(j, x);
        proof {
            assert(out@ == out_before.insert(j as int, x));
            p = p_before.insert(j as int, m);
            assert forall|i: int| 0 <= i < out@.len() implies #[trigger] out@[i] == initial[p[i]] by {
                if i < j {
                    assert(out@[i] == out_before[i] && p[i] == p_before[i]);
                } else if i > j {
                    assert(out@[i] == out_before[i - 1] && p[i] == p_before[i - 1]);
                }
            }
            assert forall|i: int| 0 <= i < p.len() implies 0 <= #[trigger] p[i] < m + 1 by {
                if i < j {
                    assert(p[i] == p_before[i]);
                } else if i > j {
                    assert(p[i] == p_before[i - 1]);
                }
            }
            assert forall|a: int, b: int| 0 <= a < b < p.len() implies #[trigger] p[a] != #[trigger] p[b] by {
                if a < j && b < j {
                    assert(p_before[a] != p_before[b]);
                } else if a < j && b == j {
                    assert(p_before[a] < m);
                } else if a < j && b > j {
                    assert(p_before[a] != p_before[b - 1]);
                } else if a == j {
                    assert(p_before[b - 1] < m);
                } else {
                    assert(p_before[a - 1] != p_before[b - 1]);
                }
            }
            assert forall|a: int, b: int|
                0 <= a < b < out@.len() && #[trigger] key_order(out@[a], out@[b]) == 0 implies p[a] < p[b] by {
                if a < j && b < j {
                    assert(out@[a] == out_before[a] && out@[b] == out_before[b]);
                } else if a < j && b == j {
                    assert(p_before[a] < m);
                } else if a < j && b > j {
                    assert(out@[a] == out_before[a] && out@[b] == out_before[b - 1]);
                } else if a == j {
                    assert(out@[b] == out_before[b - 1]);
                    assert(key_order(out_before[b - 1], x) == 1);
                    lemma_ip_id_order_reverse(
                        out_before[b - 1].ip_key(),
                        out_before[b - 1].id_key(),
                        x.ip_key(),
                        x.id_key(),
                    );
                } else {
                    assert(out@[a] == out_before[a - 1] && out@[b] == out_before[b - 1]);
                }
            }
            assert forall|i: int| 0 <= i && i + 1 < out@.len() implies #[trigger] key_order(
                out@[i],
                out@[i + 1],
            ) != 1 by {
                if i + 1 < j {
                    assert(out@[i] == out_before[i] && out@[i + 1] == out_before[i + 1]);
                    assert(key_order(out_before[i], out_before[i + 1]) != 1);
                } else if i + 1 == j {
                } else if i == j {
                    assert(out@[i + 1] == out_before[i]);
                    assert(key_order(out_before[i], x) == 1);
                    lemma_ip_id_order_reverse(
                        out_before[i].ip_key(),
                        out_before[i].id_key(),
                        x.ip_key(),
                        x.id_key(),
                    );
                } else {
                    assert(out@[i] == out_before[i - 1] && out@[i + 1] == out_before[i]);
                    assert(key_order(out_before[i - 1], out_before[(i - 1) + 1]) != 1);
                }
            }
            assert(src_before.to_multiset() =~= src@.to_multiset().insert(x));
            assert(out@.to_multiset() =~= out_before.to_multiset().insert(x));
            assert(out@.to_multiset().add(src@.to_multiset()) =~= out_before.to_multiset().add(
                src_before.to_multiset(),
            ));
            assert(views_of(src_before) == views_of(src@).insert(0, x@)) by {
                assert(views_of(src_before) =~= views_of(src@).insert(0, x@));
            }
            assert(views_of(out@) == views_of(out_before).insert(j as int, x@)) by {
                assert(views_of(out@) =~= views_of(out_before).insert(j as int, x@));
            }
            assert(views_of(out@).to_multiset().add(views_of(src@).to_multiset()) =~= views_of(
                out_before,
            ).to_multiset().add(views_of(src_before).to_multiset()));
        }
    }
    proof {
        assert(stably_arranged(initial, out@, p));
        assert(src@ =~= Seq::<T>::empty());
        assert(out@.to_multiset().add(src@.to_multiset()) =~= out@.to_multiset());
        assert(views_of(src@) =~= Seq::<T::V>::empty());
        assert(views_of(out@).to_multiset().add(views_of(src@).to_multiset()) =~= views_of(out@).to_multiset());
    }
    *v = out;
}

impl IpKeyed for String {
    open spec fn ip_key(&self) -> Seq<char> {
        self@
    }

    open spec fn id_key(&self) -> Seq<char> {
        self@
    }

    fn ip_text(&self) -> (r: &str) {
        self.as_str()
    }

    fn id_text(&self) -> (r: &str) {
        self.as_str()
    }
}

/// The views of a sequence of strings.
pub open spec fn string_views(s: Seq<String>) -> Seq<Seq<char>> {
    s.map_values(|x: String| x@)
}

/// Adding `y` at the end adds `y` and nothing else to what a sequence contains.
pub proof fn lemma_push_contains<A>(s: Seq<A>, y: A, x: A)
    ensures
        s.push(y).contains(x) <==> (s.contains(x) || x == y),
{
    if s.push(y).contains(x) {
        let k = choose|k: int| 0 <= k < s.push(y).len() && s.push(y)[k] == x;
        if k < s.len() {
            assert(s[k] == x);
        }
    }
    if s.contains(x) {
        let k = choose|k: int| 0 <= k < s.len() && s[k] == x;
        assert(s.push(y)[k] == x);
    }
    if x == y {
        assert(s.push(y)[s.len() as int] == x);
    }
}

/// `Vec::dedup` on strings already in scan-result order: each run of equal
/// neighbours reduced to one, which leaves the order strict.
pub fn dedup_sorted_strings(v: Vec<String>) -> (r: Vec<String>)
    requires
        ip_sorted(v@),
    ensures
        forall|x: Seq<char>| string_views(r@).contains(x) <==> string_views(v@).contains(x),
        ip_strictly_sorted(r@),
{
    let mut r: Vec<String> = Vec::new();
    let mut i: usize = 0;
    while i < v.len()
        invariant
            i <= v.len(),
            ip_sorted(v@),
            i == 0 ==> r@.len() == 0,
            i > 0 ==> r@.len() > 0 && r@.last()@ == v@[i - 1]@,
            forall|x: Seq<char>| string_views(r@).contains(x) <==> string_views(v@.subrange(0, i as int)).contains(x),
            ip_strictly_sorted(r@),
        decreases v.len() - i,
    {
        let ghost before = r@;
        let ghost sub_before = v@.subrange(0, i as int);
        let ghost sub_after = v@.subrange(0, i + 1);
        let ghost y = v@[i as int]@;
        proof {
            assert(sub_after =~= sub_before.push(v@[i as int]));
            assert(string_views(sub_after) =~= string_views(sub_before).push(y));
        }
        if i == 0 || !(v[i] == v[i - 1]) {
            r.push(v[i].clone());
            proof {
                assert(string_views(r@) =~= string_views(before).push(y));
                if i > 0 {
                    let p = v@[i - 1];
                    let q = v@[i as int];
                    assert(key_order(v@[i - 1], v@[(i - 1) + 1]) != 1);
                    lemma_ip_id_order_equal(p@, p@, q@, q@);
                    lemma_ip_id_order_reverse(p@, p@, q@, q@);
                    assert(key_order(r@[r@.len() - 2], r@[r@.len() - 1]) == -1);
                }
                assert forall|k: int| 0 <= k && k + 1 < r@.len() implies #[trigger] key_order(r@[k], r@[k + 1]) == -1 by {
                    if k + 1 < before.len() {
                        assert(r@[k] == before[k] && r@[k + 1] == before[k + 1]);
                    }
                }
                assert forall|x: Seq<char>| string_views(r@).contains(x) <==> string_views(sub_after).contains(x) by {
                    lemma_push_contains(string_views(before), y, x);
                    lemma_push_contains(string_views(sub_before), y, x);
                }
            }
        } else {
            proof {
                assert forall|x: Seq<char>| string_views(r@).contains(x) <==> string_views(sub_after).contains(x) by {
                    lemma_push_contains(string_views(sub_before), y, x);
                    if x == y {
                        assert(string_views(r@)[r@.len() - 1] == x);
                    }
                }
            }
        }
        i = i + 1;
    }
    proof {
        assert(v@.subrange(0, v.len() as int) =~= v@);
    }
    r
}

// ---------------------------------------------------------------------------
// Transitivity where every address parses, or none does
// ---------------------------------------------------------------------------

proof fn lemma_lex_transitive(a: Seq<char>, b: Seq<char>, c: Seq<char>)
    requires
        lex_order(a, b) != 1,
        lex_order(b, c) != 1,
    ensures
        lex_order(a, c) != 1,
        (lex_order(a, b) == -1 || lex_order(b, c) == -1) ==> lex_order(a, c) == -1,
    decreases a.len(),
{
    lemma_lex_reverse(a, b);
    lemma_lex_reverse(b, c);
    lemma_lex_reverse(a, c);
    if a.len() > 0 && b.len() > 0 && c.len() > 0 && a[0] == b[0] && b[0] == c[0] {
        lemma_lex_transitive(a.drop_first(), b.drop_first(), c.drop_first());
    }
}

/// Whether both addresses parse as IPv4 or neither does.
pub open spec fn same_address_form(a: Seq<char>, b: Seq<char>) -> bool {
    parse_ipv4(a) is Some <==> parse_ipv4(b) is Some
}

/// The scan-result order is transitive over addresses of one form: all
/// dotted IPv4 addresses, or all other text.
pub proof fn lemma_ip_id_order_transitive(
    ai: Seq<char>,
    aid: Seq<char>,
    bi: Seq<char>,
    bid: Seq<char>,
    ci: Seq<char>,
    cid: Seq<char>,
)
    requires
        same_address_form(ai, bi),
        same_address_form(bi, ci),
        ip_id_order(ai, aid, bi, bid) != 1,
        ip_id_order(bi, bid, ci, cid) != 1,
    ensures
        ip_id_order(ai, aid, ci, cid) != 1,
{
    lemma_lex_reverse(ai, bi);
    lemma_lex_reverse(bi, ci);
    lemma_lex_reverse(aid, bid);
    lemma_lex_reverse(bid, cid);
    lemma_lex_reverse(ai, ci);
    lemma_lex_reverse(aid, cid);
    match (parse_ipv4(ai), parse_ipv4(bi), parse_ipv4(ci)) {
        (Some(a), Some(b), Some(c)) => {
            if octet_order(a, b) == 0 && octet_order(b, c) == 0 {
                lemma_lex_transitive(aid, bid, cid);
            }
        },
        _ => {
            lemma_lex_equal(ai, bi);
            lemma_lex_equal(bi, ci);
            if lex_order(ai, bi) == 0 && lex_order(bi, ci) == 0 {
                lemma_lex_equal(ai, ci);
                lemma_lex_transitive(aid, bid, cid);
            } else {
                lemma_lex_transitive(ai, bi, ci);
            }
        },
    }
}

/// Whether every address in a sequence has the same form.
pub open spec fn uniform_addresses<T: IpKeyed>(s: Seq<T>) -> bool {
    forall|i: int, j: int| 0 <= i < s.len() && 0 <= j < s.len() ==> same_address_form(
        #[trigger] s[i].ip_key(),
        #[trigger] s[j].ip_key(),
    )
}

/// In a sequence sorted by neighbours whose addresses all have one form, no
/// element comes after any later element: the sequence is sorted through.
pub proof fn lemma_sorted_throughout<T: IpKeyed>(s: Seq<T>)
    requires
        ip_sorted(s),
        uniform_addresses(s),
    ensures
        forall|i: int, j: int| 0 <= i < j < s.len() ==> key_order(s[i], s[j]) != 1,
{
    assert forall|i: int, j: int| 0 <= i < j < s.len() implies key_order(s[i], s[j]) != 1 by {
        lemma_sorted_span(s, i, j);
    }
}

proof fn lemma_sorted_span<T: IpKeyed>(s: Seq<T>, i: int, j: int)
    requires
        ip_sorted(s),
        uniform_addresses(s),
        0 <= i < j < s.len(),
    ensures
        key_order(s[i], s[j]) != 1,
    decreases j - i,
{
    if j == i + 1 {
        assert(key_order(s[i], s[i + 1]) != 1);
    } else {
        lemma_sorted_span(s, i, j - 1);
        assert(key_order(s[j - 1], s[(j - 1) + 1]) != 1);
        assert(same_address_form(s[i].ip_key(), s[j - 1].ip_key()));
        assert(same_address_form(s[j - 1].ip_key(), s[j].ip_key()));
        lemma_ip_id_order_transitive(
            s[i].ip_key(),
            s[i].id_key(),
            s[j - 1].ip_key(),
            s[j - 1].id_key(),
            s[j].ip_key(),
            s[j].id_key(),
        );
    }
}

/// The keys of a keyed value are read from its view.
pub open spec fn keys_follow_views<T: IpKeyed>() -> bool {
    forall|x: T, y: T| #[trigger] x@ == #[trigger] y@ ==> x.ip_key() == y.ip_key() && x.id_key() == y.id_key()
}

/// Within `s`, values in the same place of the order have the same view.
pub open spec fn order_separates_views<T: IpKeyed>(s: Seq<T>) -> bool {
    forall|i: int, j: int|
        0 <= i < s.len() && 0 <= j < s.len() && key_order(#[trigger] s[i], #[trigger] s[j]) == 0 ==> s[i]@
            == s[j]@
}

proof fn lemma_view_in<T: View>(s: Seq<T>, v: T::V) -> (k: int)
    requires
        views_of(s).to_multiset().count(v) > 0,
    ensures
        0 <= k < s.len(),
        s[k]@ == v,
{
    broadcast use vstd::seq_lib::group_to_multiset_ensures;
    assert(views_of(s).contains(v));
    let k = choose|k: int| 0 <= k < views_of(s).len() && views_of(s)[k] == v;
    k
}

/// Two arrangements in scan-result order of the same values, whose
/// addresses all have one form and where the order tells apart values with
/// different views, are the same: the order fixes the result.
pub proof fn lemma_sorted_arrangement_is_unique<T: IpKeyed>(s: Seq<T>, t: Seq<T>)
    requires
        views_of(s).to_multiset() == views_of(t).to_multiset(),
        ip_sorted(s),
        ip_sorted(t),
        uniform_addresses(s),
        keys_follow_views::<T>(),
        order_separates_views(s),
    ensures
        views_of(s) == views_of(t),
    decreases s.len(),
{
    broadcast use vstd::seq_lib::group_to_multiset_ensures;
    if s.len() == 0 {
        assert(views_of(t).to_multiset().len() == 0);
        assert(views_of(t).len() == 0);
        assert(views_of(s) =~= views_of(t));
        return;
    }
    assert(views_of(s).len() == s.len());
    assert(views_of(t).len() == t.len());
    assert(views_of(s).to_multiset().len() == views_of(t).to_multiset().len());
    let a = s[0]@;
    assert(views_of(s)[0] == a);
    assert(views_of(s).to_multiset().count(a) > 0);
    let k = lemma_view_in(t, a);
    assert(views_of(t)[0] == t[0]@);
    assert(views_of(t).to_multiset().count(t[0]@) > 0);
    let m = lemma_view_in(s, t[0]@);
    // every value of t has the view of a value of s, so its address form too
    assert(uniform_addresses(t)) by {
        assert forall|i: int, j: int| 0 <= i < t.len() && 0 <= j < t.len() implies same_address_form(
            #[trigger] t[i].ip_key(),
            #[trigger] t[j].ip_key(),
        ) by {
            assert(views_of(t)[i] == t[i]@);
            assert(views_of(t)[j] == t[j]@);
            assert(views_of(t).to_multiset().count(t[i]@) > 0);
            assert(views_of(t).to_multiset().count(t[j]@) > 0);
            let p = lemma_view_in(s, t[i]@);
            let q = lemma_view_in(s, t[j]@);
            assert(same_address_form(s[p].ip_key(), s[q].ip_key()));
        }
    }
    lemma_sorted_throughout(s);
    lemma_sorted_throughout(t);
    // t[0] is not after s[0], and s[0] is not after t[0]
    if k > 0 {
        assert(key_order(t[0], t[k]) != 1);
    }
    if m > 0 {
        assert(key_order(s[0], s[m]) != 1);
    }
    lemma_ip_id_order_equal(s[0].ip_key(), s[0].id_key(), s[0].ip_key(), s[0].id_key());
    lemma_ip_id_order_equal(t[0].ip_key(), t[0].id_key(), t[0].ip_key(), t[0].id_key());
    assert(key_order(t[0], s[0]) != 1);
    assert(key_order(s[0], t[0]) != 1);
    lemma_ip_id_order_reverse(s[0].ip_key(), s[0].id_key(), t[0].ip_key(), t[0].id_key());
    assert(key_order(s[0], s[m]) == 0);
    assert(s[0]@ == t[0]@);
    // the rest
    let s2 = s.drop_first();
    let t2 = t.drop_first();
    assert(views_of(s2) =~= views_of(s).drop_first());
    assert(views_of(t2) =~= views_of(t).drop_first());
    assert(views_of(s).drop_first() =~= views_of(s).remove(0));
    assert(views_of(t).drop_first() =~= views_of(t).remove(0));
    assert(views_of(s2).to_multiset() == views_of(s).to_multiset().remove(a));
    assert(views_of(t2).to_multiset() == views_of(t).to_multiset().remove(a));
    assert(ip_sorted(s2)) by {
        assert forall|i: int| 0 <= i && i + 1 < s2.len() implies #[trigger] key_order(s2[i], s2[i + 1]) != 1 by {
            assert(s2[i] == s[i + 1] && s2[i + 1] == s[i + 2]);
            assert(key_order(s[i + 1], s[(i + 1) + 1]) != 1);
        }
    }
    assert(ip_sorted(t2)) by {
        assert forall|i: int| 0 <= i && i + 1 < t2.len() implies #[trigger] key_order(t2[i], t2[i + 1]) != 1 by {
            assert(t2[i] == t[i + 1] && t2[i + 1] == t[i + 2]);
            assert(key_order(t[i + 1], t[(i + 1) + 1]) != 1);
        }
    }
    assert(uniform_addresses(s2)) by {
        assert forall|i: int, j: int| 0 <= i < s2.len() && 0 <= j < s2.len() implies same_address_form(
            #[trigger] s2[i].ip_key(),
            #[trigger] s2[j].ip_key(),
        ) by {
            assert(s2[i] == s[i + 1] && s2[j] == s[j + 1]);
        }
    }
    assert(order_separates_views(s2)) by {
        assert forall|i: int, j: int|
            0 <= i < s2.len() && 0 <= j < s2.len() && key_order(#[trigger] s2[i], #[trigger] s2[j]) == 0 implies s2[i]@
                == s2[j]@ by {
            assert(s2[i] == s[i + 1] && s2[j] == s[j + 1]);
        }
    }
    lemma_sorted_arrangement_is_unique(s2, t2);
    assert(views_of(s) =~= seq![a] + views_of(s2));
    assert(views_of(t) =~= seq![a] + views_of(t2));
}

} // verus!
