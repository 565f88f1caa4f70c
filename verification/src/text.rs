//! Character classes and small string algorithms over `Seq<char>`, with the
//! executable versions the rest of the crate builds on.
use vstd::prelude::*;

verus! {

// ---------------------------------------------------------------------------
// Character classes
// ---------------------------------------------------------------------------

/// The Unicode `White_Space` property, the set that `char::is_whitespace` tests.
pub open spec fn is_white_space(c: char) -> bool {
    ('\t' <= c && c <= '\r') || c == ' ' || c == '\u{85}' || c == '\u{a0}' || c == '\u{1680}'
        || ('\u{2000}' <= c && c <= '\u{200a}') || c == '\u{2028}' || c == '\u{2029}'
        || c == '\u{202f}' || c == '\u{205f}' || c == '\u{3000}'
}

/// The general category `Cc`, the set that `char::is_control` tests.
pub open spec fn is_control(c: char) -> bool {
    c <= '\u{1f}' || ('\u{7f}' <= c && c <= '\u{9f}')
}

pub open spec fn is_ascii_digit(c: char) -> bool {
    '0' <= c && c <= '9'
}

pub open spec fn is_ascii_lower(c: char) -> bool {
    'a' <= c && c <= 'z'
}

pub open spec fn is_ascii_upper(c: char) -> bool {
    'A' <= c && c <= 'Z'
}

pub open spec fn is_ascii_alpha(c: char) -> bool {
    is_ascii_lower(c) || is_ascii_upper(c)
}

pub open spec fn is_ascii_alnum(c: char) -> bool {
    is_ascii_alpha(c) || is_ascii_digit(c)
}

pub open spec fn is_ascii_hexdigit(c: char) -> bool {
    is_ascii_digit(c) || ('a' <= c && c <= 'f') || ('A' <= c && c <= 'F')
}

/// ASCII lower-casing of one character; every other character is unchanged.
pub open spec fn lower_char(c: char) -> char {
    if is_ascii_upper(c) {
        ((c as u32) + 32) as char
    } else {
        c
    }
}

/// ASCII upper-casing of one character; every other character is unchanged.
pub open spec fn upper_char(c: char) -> char {
    if is_ascii_lower(c) {
        ((c as u32) - 32) as char
    } else {
        c
    }
}

/// Value of an ASCII hex digit.
pub open spec fn hex_value(c: char) -> int {
    if is_ascii_digit(c) {
        (c as u32) - ('0' as u32)
    } else if 'a' <= c && c <= 'f' {
        (c as u32) - ('a' as u32) + 10
    } else {
        (c as u32) - ('A' as u32) + 10
    }
}

pub fn char_is_white_space(c: char) -> (r: bool)
    ensures
        r == is_white_space(c),
{
    ('\t' <= c && c <= '\r') || c == ' ' || c == '\u{85}' || c == '\u{a0}' || c == '\u{1680}'
        || ('\u{2000}' <= c && c <= '\u{200a}') || c == '\u{2028}' || c == '\u{2029}'
        || c == '\u{202f}' || c == '\u{205f}' || c == '\u{3000}'
}

pub fn char_is_control(c: char) -> (r: bool)
    ensures
        r == is_control(c),
{
    c <= '\u{1f}' || ('\u{7f}' <= c && c <= '\u{9f}')
}

pub fn char_is_ascii_digit(c: char) -> (r: bool)
    ensures
        r == is_ascii_digit(c),
{
    '0' <= c && c <= '9'
}

pub fn char_is_ascii_alpha(c: char) -> (r: bool)
    ensures
        r == is_ascii_alpha(c),
{
    ('a' <= c && c <= 'z') || ('A' <= c && c <= 'Z')
}

pub fn char_is_ascii_alnum(c: char) -> (r: bool)
    ensures
        r == is_ascii_alnum(c),
{
    ('a' <= c && c <= 'z') || ('A' <= c && c <= 'Z') || ('0' <= c && c <= '9')
}

pub fn char_is_ascii_hexdigit(c: char) -> (r: bool)
    ensures
        r == is_ascii_hexdigit(c),
{
    ('0' <= c && c <= '9') || ('a' <= c && c <= 'f') || ('A' <= c && c <= 'F')
}

pub fn char_to_lower(c: char) -> (r: char)
    ensures
        r == lower_char(c),
{
    if 'A' <= c && c <= 'Z' {
        let b: u8 = c as u8;
        (b + 32) as char
    } else {
        c
    }
}

pub fn char_to_upper(c: char) -> (r: char)
    ensures
        r == upper_char(c),
{
    if 'a' <= c && c <= 'z' {
        let b: u8 = c as u8;
        (b - 32) as char
    } else {
        c
    }
}

pub fn hex_digit_value(c: char) -> (r: u8)
    requires
        is_ascii_hexdigit(c),
    ensures
        r as int == hex_value(c),
        r < 16,
{
    let b: u8 = c as u8;
    if '0' <= c && c <= '9' {
        b - 48
    } else if 'a' <= c && c <= 'f' {
        b - 87
    } else {
        b - 55
    }
}

// ---------------------------------------------------------------------------
// Sequence views of strings
// ---------------------------------------------------------------------------

#[verifier::external_body]
fn string_push(s: &mut String, c: char)
    ensures
        final(s)@ == old(s)@.push(c),
{
    s.push(c);
}

/// The characters of `s`, in order.
pub fn chars_of(s: &str) -> (v: Vec<char>)
    ensures
        v@ == s@,
{
    let n = s.unicode_len();
    let mut v: Vec<char> = Vec::new();
    let mut i: usize = 0;
    while i < n
        invariant
            n == s@.len(),
            i <= n,
            v@ == s@.subrange(0, i as int),
        decreases n - i,
    {
        v.push(s.get_char(i));
        i = i + 1;
    }
    v
}

/// A string made of the characters of `v`.
pub fn string_of(v: &Vec<char>) -> (s: String)
    ensures
        s@ == v@,
{
    let mut s = String::new();
    let mut i: usize = 0;
    while i < v.len()
        invariant
            i <= v.len(),
            s@ == v@.subrange(0, i as int),
        decreases v.len() - i,
    {
        string_push(&mut s, v[i]);
        i = i + 1;
    }
    s
}

/// `a` followed by `b`.
pub fn concat_str(a: String, b: &str) -> (s: String)
    ensures
        s@ == a@ + b@,
{
    let mut a = a;
    a.append(b);
    a
}

/// A fresh string holding `s`.
pub fn owned(s: &str) -> (r: String)
    ensures
        r@ == s@,
{
    String::from_str(s)
}

/// The characters of `v` between `a` (inclusive) and `b` (exclusive).
pub fn sub_vec(v: &Vec<char>, a: usize, b: usize) -> (r: Vec<char>)
    requires
        a <= b <= v.len(),
    ensures
        r@ == v@.subrange(a as int, b as int),
{
    let mut r: Vec<char> = Vec::new();
    let mut i: usize = a;
    while i < b
        invariant
            a <= i <= b <= v.len(),
            r@ == v@.subrange(a as int, i as int),
        decreases b - i,
    {
        r.push(v[i]);
        i = i + 1;
    }
    r
}

/// Whether two character vectors are equal.
pub fn chars_eq(a: &Vec<char>, b: &Vec<char>) -> (r: bool)
    ensures
        r == (a@ == b@),
{
    if a.len() != b.len() {
        return false;
    }
    let mut i: usize = 0;
    while i < a.len()
        invariant
            a.len() == b.len(),
            i <= a.len(),
            forall|k: int| 0 <= k < i ==> a@[k] == b@[k],
        decreases a.len() - i,
    {
        if a[i] != b[i] {
            return false;
        }
        i = i + 1;
    }
    assert(a@ =~= b@);
    true
}

/// Whether two strings hold the same characters.
pub fn str_eq(a: &str, b: &str) -> (r: bool)
    ensures
        r == (a@ == b@),
{
    chars_eq(&chars_of(a), &chars_of(b))
}

// ---------------------------------------------------------------------------
// Case mapping
// ---------------------------------------------------------------------------

pub open spec fn lower_seq(s: Seq<char>) -> Seq<char> {
    s.map_values(|c: char| lower_char(c))
}

pub open spec fn upper_seq(s: Seq<char>) -> Seq<char> {
    s.map_values(|c: char| upper_char(c))
}

pub fn to_lower_vec(v: &Vec<char>) -> (r: Vec<char>)
    ensures
        r@ == lower_seq(v@),
{
    let mut r: Vec<char> = Vec::new();
    let mut i: usize = 0;
    while i < v.len()
        invariant
            i <= v.len(),
            r@ == lower_seq(v@.subrange(0, i as int)),
        decreases v.len() - i,
    {
        r.push(char_to_lower(v[i]));
        i = i + 1;
        assert(lower_seq(v@.subrange(0, i as int)) =~= lower_seq(v@.subrange(0, i - 1)).push(
            lower_char(v@[i - 1]),
        ));
    }
    assert(v@.subrange(0, v.len() as int) =~= v@);
    r
}

// ---------------------------------------------------------------------------
// Stripping characters at the ends
// ---------------------------------------------------------------------------

/// Which characters a strip removes.
#[derive(Clone, Copy)]
pub enum CharClass {
    WhiteSpace,
    Exactly(char),
}

pub open spec fn in_class(c: char, class: CharClass) -> bool {
    match class {
        CharClass::WhiteSpace => is_white_space(c),
        CharClass::Exactly(d) => c == d,
    }
}

fn char_in_class(c: char, class: CharClass) -> (r: bool)
    ensures
        r == in_class(c, class),
{
    match class {
        CharClass::WhiteSpace => char_is_white_space(c),
        CharClass::Exactly(d) => c == d,
    }
}

/// `s` without its leading characters of `class`.
pub open spec fn strip_start(s: Seq<char>, class: CharClass) -> Seq<char>
    decreases s.len(),
{
    if s.len() > 0 && in_class(s[0], class) {
        strip_start(s.drop_first(), class)
    } else {
        s
    }
}

/// `s` without its trailing characters of `class`.
pub open spec fn strip_end(s: Seq<char>, class: CharClass) -> Seq<char>
    decreases s.len(),
{
    if s.len() > 0 && in_class(s.last(), class) {
        strip_end(s.drop_last(), class)
    } else {
        s
    }
}

/// `s` without the characters of `class` at either end (`str::trim_matches`).
pub open spec fn strip(s: Seq<char>, class: CharClass) -> Seq<char> {
    strip_end(strip_start(s, class), class)
}

/// `str::trim`.
pub open spec fn trim(s: Seq<char>) -> Seq<char> {
    strip(s, CharClass::WhiteSpace)
}

proof fn lemma_strip_start_at(s: Seq<char>, class: CharClass, i: int)
    requires
        0 <= i <= s.len(),
        forall|k: int| 0 <= k < i ==> in_class(#[trigger] s[k], class),
        i == s.len() || !in_class(s[i], class),
    ensures
        strip_start(s, class) == s.subrange(i, s.len() as int),
    decreases i,
{
    if i == 0 {
        assert(s.subrange(0, s.len() as int) =~= s);
    } else {
        assert(in_class(s[0], class));
        let t = s.drop_first();
        assert forall|k: int| 0 <= k < i - 1 implies in_class(#[trigger] t[k], class) by {
            assert(t[k] == s[k + 1]);
        }
        lemma_strip_start_at(t, class, i - 1);
        assert(t.subrange(i - 1, t.len() as int) =~= s.subrange(i, s.len() as int));
    }
}

proof fn lemma_strip_end_at(s: Seq<char>, class: CharClass, j: int)
    requires
        0 <= j <= s.len(),
        forall|k: int| j <= k < s.len() ==> in_class(#[trigger] s[k], class),
        j == 0 || !in_class(s[j - 1], class),
    ensures
        strip_end(s, class) == s.subrange(0, j),
    decreases s.len() - j,
{
    if j == s.len() {
        assert(s.subrange(0, j) =~= s);
    } else {
        assert(in_class(s.last(), class));
        let t = s.drop_last();
        assert forall|k: int| j <= k < t.len() implies in_class(#[trigger] t[k], class) by {
            assert(t[k] == s[k]);
        }
        lemma_strip_end_at(t, class, j);
        assert(t.subrange(0, j) =~= s.subrange(0, j));
    }
}

pub fn strip_start_vec(v: &Vec<char>, class: CharClass) -> (r: Vec<char>)
    ensures
        r@ == strip_start(v@, class),
{
    let mut i: usize = 0;
    while i < v.len() && char_in_class(v[i], class)
        invariant
            i <= v.len(),
            forall|k: int| 0 <= k < i ==> in_class(#[trigger] v@[k], class),
        decreases v.len() - i,
    {
        i = i + 1;
    }
    proof {
        lemma_strip_start_at(v@, class, i as int);
    }
    sub_vec(v, i, v.len())
}

pub fn strip_end_vec(v: &Vec<char>, class: CharClass) -> (r: Vec<char>)
    ensures
        r@ == strip_end(v@, class),
{
    let mut j: usize = v.len();
    while j > 0 && char_in_class(v[j - 1], class)
        invariant
            j <= v.len(),
            forall|k: int| j <= k < v.len() ==> in_class(#[trigger] v@[k], class),
        decreases j,
    {
        j = j - 1;
    }
    proof {
        lemma_strip_end_at(v@, class, j as int);
    }
    sub_vec(v, 0, j)
}

pub fn strip_vec(v: &Vec<char>, class: CharClass) -> (r: Vec<char>)
    ensures
        r@ == strip(v@, class),
{
    let t = strip_start_vec(v, class);
    strip_end_vec(&t, class)
}

pub fn trim_vec(v: &Vec<char>) -> (r: Vec<char>)
    ensures
        r@ == trim(v@),
{
    strip_vec(v, CharClass::WhiteSpace)
}

pub proof fn lemma_strip_start_first(s: Seq<char>, class: CharClass)
    ensures
        strip_start(s, class).len() == 0 || !in_class(strip_start(s, class)[0], class),
        strip_start(s, class).len() <= s.len(),
    decreases s.len(),
{
    if s.len() > 0 && in_class(s[0], class) {
        lemma_strip_start_first(s.drop_first(), class);
    }
}

pub proof fn lemma_strip_end_last(s: Seq<char>, class: CharClass)
    ensures
        strip_end(s, class).len() == 0 || !in_class(strip_end(s, class).last(), class),
        strip_end(s, class).len() <= s.len(),
        strip_end(s, class) == s.subrange(0, strip_end(s, class).len() as int),
    decreases s.len(),
{
    if s.len() > 0 && in_class(s.last(), class) {
        lemma_strip_end_last(s.drop_last(), class);
        assert(s.drop_last().subrange(0, strip_end(s, class).len() as int) =~= s.subrange(
            0,
            strip_end(s, class).len() as int,
        ));
    } else {
        assert(s.subrange(0, s.len() as int) =~= s);
    }
}

/// Stripping a sequence that starts and ends outside `class` leaves it unchanged.
pub proof fn lemma_strip_unchanged(s: Seq<char>, class: CharClass)
    requires
        s.len() == 0 || (!in_class(s[0], class) && !in_class(s.last(), class)),
    ensures
        strip(s, class) == s,
{
}

/// Stripping is idempotent.
pub proof fn lemma_strip_idempotent(s: Seq<char>, class: CharClass)
    ensures
        strip(strip(s, class), class) == strip(s, class),
{
    let a = strip_start(s, class);
    lemma_strip_start_first(s, class);
    lemma_strip_end_last(a, class);
    let b = strip_end(a, class);
    if b.len() > 0 {
        assert(b[0] == a[0]);
    }
    lemma_strip_unchanged(b, class);
}

// ---------------------------------------------------------------------------
// Prefixes, suffixes and substrings
// ---------------------------------------------------------------------------

/// `needle` occurs in `hay` at position `i`.
pub open spec fn occurs_at(hay: Seq<char>, needle: Seq<char>, i: int) -> bool {
    0 <= i && i + needle.len() <= hay.len() && hay.subrange(i, i + needle.len()) == needle
}

/// `str::contains` with a string pattern.
pub open spec fn contains_seq(hay: Seq<char>, needle: Seq<char>) -> bool {
    exists|i: int| #[trigger] occurs_at(hay, needle, i)
}

/// `str::starts_with` with a string pattern.
pub open spec fn starts_with(s: Seq<char>, prefix: Seq<char>) -> bool {
    occurs_at(s, prefix, 0)
}

/// `str::ends_with` with a string pattern.
pub open spec fn ends_with(s: Seq<char>, suffix: Seq<char>) -> bool {
    suffix.len() <= s.len() && s.subrange(s.len() - suffix.len(), s.len() as int) == suffix
}

pub fn occurs_at_vec(hay: &Vec<char>, needle: &Vec<char>, i: usize) -> (r: bool)
    ensures
        r == occurs_at(hay@, needle@, i as int),
{
    if i > hay.len() || needle.len() > hay.len() - i {
        return false;
    }
    let mut k: usize = 0;
    while k < needle.len()
        invariant
            i + needle.len() <= hay.len(),
            k <= needle.len(),
            forall|m: int| 0 <= m < k ==> hay@[i + m] == needle@[m],
        decreases needle.len() - k,
    {
        if hay[i + k] != needle[k] {
            assert(hay@.subrange(i as int, i + needle.len())[k as int] != needle@[k as int]);
            return false;
        }
        k = k + 1;
    }
    assert(hay@.subrange(i as int, i + needle.len()) =~= needle@);
    true
}

pub fn contains_vec(hay: &Vec<char>, needle: &Vec<char>) -> (r: bool)
    ensures
        r == contains_seq(hay@, needle@),
{
    if needle.len() > hay.len() {
        assert forall|i: int| !occurs_at(hay@, needle@, i) by {}
        return false;
    }
    let last = hay.len() - needle.len();
    let mut i: usize = 0;
    loop
        invariant
            last == hay.len() - needle.len(),
            i <= last,
            forall|k: int| 0 <= k < i ==> !occurs_at(hay@, needle@, k),
        decreases last - i,
    {
        if occurs_at_vec(hay, needle, i) {
            return true;
        }
        if i == last {
            assert forall|k: int| !occurs_at(hay@, needle@, k) by {
                if 0 <= k < i {
                }
            }
            return false;
        }
        i = i + 1;
    }
}

pub fn starts_with_vec(s: &Vec<char>, prefix: &Vec<char>) -> (r: bool)
    ensures
        r == starts_with(s@, prefix@),
{
    occurs_at_vec(s, prefix, 0)
}

pub fn ends_with_vec(s: &Vec<char>, suffix: &Vec<char>) -> (r: bool)
    ensures
        r == ends_with(s@, suffix@),
{
    if suffix.len() > s.len() {
        return false;
    }
    let r = occurs_at_vec(s, suffix, s.len() - suffix.len());
    r
}

/// Whether `hay` contains any of the `needles`.
pub open spec fn contains_any(hay: Seq<char>, needles: Seq<Seq<char>>) -> bool {
    exists|k: int| 0 <= k < needles.len() && contains_seq(hay, #[trigger] needles[k])
}

/// The views of a list of string slices.
pub open spec fn str_views(words: Seq<&str>) -> Seq<Seq<char>> {
    words.map_values(|w: &str| w@)
}

/// The characters of each word.
pub fn words_of(words: &[&str]) -> (r: Vec<Vec<char>>)
    ensures
        r@.len() == words@.len(),
        forall|k: int| 0 <= k < words@.len() ==> (#[trigger] r@[k])@ == words@[k]@,
{
    let mut r: Vec<Vec<char>> = Vec::new();
    let mut i: usize = 0;
    while i < words.len()
        invariant
            i <= words@.len(),
            r@.len() == i,
            forall|k: int| 0 <= k < i ==> (#[trigger] r@[k])@ == words@[k]@,
        decreases words@.len() - i,
    {
        r.push(chars_of(words[i]));
        i = i + 1;
    }
    r
}

/// Whether `hay` contains one of `words` (`str::contains` on each).
pub fn contains_any_word(hay: &Vec<char>, words: &[&str]) -> (r: bool)
    ensures
        r == contains_any(hay@, str_views(words@)),
{
    let ws = words_of(words);
    let ghost views = str_views(words@);
    let mut i: usize = 0;
    while i < ws.len()
        invariant
            i <= ws@.len(),
            ws@.len() == words@.len(),
            views.len() == words@.len(),
            views == str_views(words@),
            forall|k: int| 0 <= k < words@.len() ==> (#[trigger] ws@[k])@ == views[k],
            forall|k: int| 0 <= k < i ==> !contains_seq(hay@, #[trigger] views[k]),
        decreases ws@.len() - i,
    {
        if contains_vec(hay, &ws[i]) {
            assert(contains_seq(hay@, views[i as int]));
            assert(views == str_views(words@));
            assert(0 <= i < str_views(words@).len() && contains_seq(hay@, str_views(words@)[i as int]));
            return true;
        }
        i = i + 1;
    }
    false
}

// ---------------------------------------------------------------------------
// Alphanumeric tokens
// ---------------------------------------------------------------------------

/// `s[a..b]` is a maximal run of ASCII alphanumeric characters: one of the
/// pieces that splitting `s` at every other character leaves, empty ones dropped.
pub open spec fn is_token(s: Seq<char>, a: int, b: int) -> bool {
    &&& 0 <= a < b <= s.len()
    &&& forall|k: int| a <= k < b ==> is_ascii_alnum(#[trigger] s[k])
    &&& a == 0 || !is_ascii_alnum(s[a - 1])
    &&& b == s.len() || !is_ascii_alnum(s[b])
}

/// `word` matches the token `s[a..b]`, exactly or as its prefix.
pub open spec fn token_matches(s: Seq<char>, a: int, b: int, word: Seq<char>, as_prefix: bool) -> bool {
    if as_prefix {
        word.len() <= b - a && s.subrange(a, a + word.len()) == word
    } else {
        s.subrange(a, b) == word
    }
}

/// Some token of `s` matches one of `words`.
pub open spec fn has_any_token(s: Seq<char>, words: Seq<Seq<char>>, as_prefix: bool) -> bool {
    exists|a: int, b: int, k: int|
        #[trigger] is_token(s, a, b) && 0 <= k < words.len() && token_matches(
            s,
            a,
            b,
            #[trigger] words[k],
            as_prefix,
        )
}

proof fn lemma_token_end_unique(s: Seq<char>, a: int, b: int, c: int)
    requires
        is_token(s, a, b),
        is_token(s, a, c),
    ensures
        b == c,
{
    if b < c {
        assert(is_ascii_alnum(s[b]));
    }
    if c < b {
        assert(is_ascii_alnum(s[c]));
    }
}

fn token_matches_vec(s: &Vec<char>, a: usize, b: usize, word: &Vec<char>, as_prefix: bool) -> (r:
    bool)
    requires
        a <= b <= s.len(),
    ensures
        r == token_matches(s@, a as int, b as int, word@, as_prefix),
{
    if as_prefix {
        if word.len() > b - a {
            return false;
        }
        occurs_at_vec(s, word, a)
    } else {
        if word.len() != b - a {
            proof {
                if s@.subrange(a as int, b as int) == word@ {
                    assert(s@.subrange(a as int, b as int).len() == word@.len());
                }
            }
            return false;
        }
        occurs_at_vec(s, word, a)
    }
}

/// Whether a token of `s` matches one of `words`.
pub fn has_any_token_vec(s: &Vec<char>, words: &[&str], as_prefix: bool) -> (r: bool)
    ensures
        r == has_any_token(s@, str_views(words@), as_prefix),
{
    let ws = words_of(words);
    let ghost views = str_views(words@);
    let n = s.len();
    let mut i: usize = 0;
    while i < n
        invariant
            n == s@.len(),
            i <= n,
            i == 0 || i == n || !is_ascii_alnum(s@[i - 1]),
            ws@.len() == words@.len(),
            views.len() == words@.len(),
            views == str_views(words@),
            forall|k: int| 0 <= k < words@.len() ==> (#[trigger] ws@[k])@ == views[k],
            forall|a: int, b: int, k: int|
                #![trigger is_token(s@, a, b), views[k]]
                a < i && is_token(s@, a, b) && 0 <= k < views.len() ==> !token_matches(
                    s@,
                    a,
                    b,
                    views[k],
                    as_prefix,
                ),
        decreases n - i,
    {
        if !char_is_ascii_alnum(s[i]) {
            assert forall|a: int, b: int, k: int|
                #![trigger is_token(s@, a, b), views[k]]
                a < i + 1 && is_token(s@, a, b) && 0 <= k < views.len() implies !token_matches(
                s@,
                a,
                b,
                views[k],
                as_prefix,
            ) by {
                if a == i {
                    assert(is_ascii_alnum(s@[a]));
                }
            }
            i = i + 1;
        } else {
            let start = i;
            while i < n && char_is_ascii_alnum(s[i])
                invariant
                    n == s@.len(),
                    start < n,
                    start <= i <= n,
                    start == 0 || !is_ascii_alnum(s@[start - 1]),
                    is_ascii_alnum(s@[start as int]),
                    forall|k: int| start <= k < i ==> is_ascii_alnum(#[trigger] s@[k]),
                decreases n - i,
            {
                i = i + 1;
            }
            assert(is_token(s@, start as int, i as int));
            let mut k: usize = 0;
            while k < ws.len()
                invariant
                    k <= ws@.len(),
                    ws@.len() == views.len(),
                    views == str_views(words@),
                    start < i <= n,
                    n == s@.len(),
                    is_token(s@, start as int, i as int),
                    forall|m: int| 0 <= m < views.len() ==> (#[trigger] ws@[m])@ == views[m],
                    forall|m: int|
                        0 <= m < k ==> !token_matches(
                            s@,
                            start as int,
                            i as int,
                            #[trigger] views[m],
                            as_prefix,
                        ),
                decreases ws@.len() - k,
            {
                if token_matches_vec(s, start, i, &ws[k], as_prefix) {
                    assert(is_token(s@, start as int, i as int));
                    assert(token_matches(s@, start as int, i as int, views[k as int], as_prefix));
                    assert(views == str_views(words@));
                    return true;
                }
                k = k + 1;
            }
            assert forall|a: int, b: int, m: int|
                #![trigger is_token(s@, a, b), views[m]]
                a < i && is_token(s@, a, b) && 0 <= m < views.len() implies !token_matches(
                s@,
                a,
                b,
                views[m],
                as_prefix,
            ) by {
                if a == start {
                    lemma_token_end_unique(s@, a, b, i as int);
                } else if a > start {
                    assert(is_ascii_alnum(s@[a - 1]));
                }
            }
            if i < n {
                assert forall|a: int, b: int, m: int|
                    #![trigger is_token(s@, a, b), views[m]]
                    a < i + 1 && is_token(s@, a, b) && 0 <= m < views.len() implies !token_matches(
                    s@,
                    a,
                    b,
                    views[m],
                    as_prefix,
                ) by {
                    if a == i {
                        assert(is_ascii_alnum(s@[a]));
                    }
                }
                i = i + 1;
            }
        }
    }
    assert forall|a: int, b: int, k: int|
        #[trigger] is_token(s@, a, b) && 0 <= k < views.len() implies !token_matches(
        s@,
        a,
        b,
        #[trigger] views[k],
        as_prefix,
    ) by {}
    false
}

// ---------------------------------------------------------------------------
// Filtering characters
// ---------------------------------------------------------------------------

/// The ASCII hex digits of `s`, in order.
pub open spec fn hex_digits(s: Seq<char>) -> Seq<char> {
    s.filter(|c: char| is_ascii_hexdigit(c))
}

pub fn hex_digits_vec(v: &Vec<char>) -> (r: Vec<char>)
    ensures
        r@ == hex_digits(v@),
{
    let mut r: Vec<char> = Vec::new();
    let mut i: usize = 0;
    while i < v.len()
        invariant
            i <= v.len(),
            r@ == hex_digits(v@.subrange(0, i as int)),
        decreases v.len() - i,
    {
        let c = v[i];
        proof {
            reveal_with_fuel(Seq::filter, 1);
            assert(v@.subrange(0, i + 1).drop_last() =~= v@.subrange(0, i as int));
        }
        if char_is_ascii_hexdigit(c) {
            r.push(c);
        }
        i = i + 1;
    }
    assert(v@.subrange(0, v.len() as int) =~= v@);
    r
}

/// Whether some character of `v` is a control character.
pub fn any_control(v: &Vec<char>) -> (r: bool)
    ensures
        r == exists|k: int| 0 <= k < v@.len() && is_control(#[trigger] v@[k]),
{
    let mut i: usize = 0;
    while i < v.len()
        invariant
            i <= v.len(),
            forall|k: int| 0 <= k < i ==> !is_control(#[trigger] v@[k]),
        decreases v.len() - i,
    {
        if char_is_control(v[i]) {
            return true;
        }
        i = i + 1;
    }
    false
}

// ---------------------------------------------------------------------------
// Searching and splitting at white space
// ---------------------------------------------------------------------------

/// The first position at or after `i` where `needle` occurs in `hay`.
pub open spec fn find_from(hay: Seq<char>, needle: Seq<char>, i: int) -> Option<int>
    decreases hay.len() + 1 - i,
{
    if i < 0 || i + needle.len() > hay.len() {
        None
    } else if occurs_at(hay, needle, i) {
        Some(i)
    } else {
        find_from(hay, needle, i + 1)
    }
}

/// `str::find` with a string pattern, as a character position.
pub open spec fn find_seq(hay: Seq<char>, needle: Seq<char>) -> Option<int> {
    find_from(hay, needle, 0)
}

pub fn find_vec(hay: &Vec<char>, needle: &Vec<char>) -> (r: Option<usize>)
    ensures
        match r {
            Some(i) => find_seq(hay@, needle@) == Some(i as int),
            None => find_seq(hay@, needle@) is None,
        },
{
    let mut i: usize = 0;
    while i <= hay.len()
        invariant
            find_seq(hay@, needle@) == find_from(hay@, needle@, i as int),
        decreases hay.len() + 1 - i,
    {
        if needle.len() > hay.len() - i {
            return None;
        }
        if occurs_at_vec(hay, needle, i) {
            return Some(i);
        }
        if i == hay.len() {
            assert(hay@.subrange(i as int, i as int) =~= needle@);
            return None;
        }
        i = i + 1;
    }
    None
}

/// The words finished so far and the word being read, after reading `s`
/// from the left and cutting at white space.
pub open spec fn words_state(s: Seq<char>) -> (Seq<Seq<char>>, Seq<char>)
    decreases s.len(),
{
    if s.len() == 0 {
        (Seq::empty(), Seq::empty())
    } else {
        let (done, cur) = words_state(s.drop_last());
        if is_white_space(s.last()) {
            if cur.len() > 0 {
                (done.push(cur), Seq::empty())
            } else {
                (done, cur)
            }
        } else {
            (done, cur.push(s.last()))
        }
    }
}

/// `str::split_whitespace`: the maximal runs of characters that are not white
/// space, in order.
pub open spec fn split_white(s: Seq<char>) -> Seq<Seq<char>> {
    let (done, cur) = words_state(s);
    if cur.len() > 0 {
        done.push(cur)
    } else {
        done
    }
}

pub fn split_white_vec(v: &Vec<char>) -> (r: Vec<Vec<char>>)
    ensures
        r@.map_values(|x: Vec<char>| x@) == split_white(v@),
{
    let mut done: Vec<Vec<char>> = Vec::new();
    let mut cur: Vec<char> = Vec::new();
    let mut i: usize = 0;
    while i < v.len()
        invariant
            i <= v.len(),
            (done@.map_values(|x: Vec<char>| x@), cur@) == words_state(v@.subrange(0, i as int)),
        decreases v.len() - i,
    {
        let c = v[i];
        proof {
            assert(v@.subrange(0, i + 1).drop_last() =~= v@.subrange(0, i as int));
        }
        if char_is_white_space(c) {
            if cur.len() > 0 {
                let mut word: Vec<char> = Vec::new();
                std::mem::swap(&mut word, &mut cur);
                let ghost before = done@;
                done.push(word);
                proof {
                    assert(done@.map_values(|x: Vec<char>| x@) =~= before.map_values(
                        |x: Vec<char>| x@,
                    ).push(word@));
                    assert(cur@ =~= Seq::<char>::empty());
                }
            }
        } else {
            cur.push(c);
        }
        i = i + 1;
    }
    assert(v@.subrange(0, v.len() as int) =~= v@);
    if cur.len() > 0 {
        let ghost before = done@;
        done.push(cur);
        assert(done@.map_values(|x: Vec<char>| x@) =~= before.map_values(|x: Vec<char>| x@).push(
            cur@,
        ));
    }
    done
}

// ---------------------------------------------------------------------------
// Decimal text of numbers
// ---------------------------------------------------------------------------

/// The decimal digit for a value below ten.
pub open spec fn digit_char(d: int) -> char {
    if d == 0 { '0' } else if d == 1 { '1' } else if d == 2 { '2' } else if d == 3 { '3' } else if d
        == 4 { '4' } else if d == 5 { '5' } else if d == 6 { '6' } else if d == 7 { '7' } else if d
        == 8 { '8' } else { '9' }
}

/// The decimal text of a number, without leading zeros.
pub open spec fn decimal_text(n: nat) -> Seq<char>
    decreases n,
{
    if n < 10 {
        seq![digit_char(n as int)]
    } else {
        decimal_text(n / 10).push(digit_char((n % 10) as int))
    }
}

fn digit_of(d: u8) -> (r: char)
    requires
        d < 10,
    ensures
        r == digit_char(d as int),
{
    match d {
        0 => '0',
        1 => '1',
        2 => '2',
        3 => '3',
        4 => '4',
        5 => '5',
        6 => '6',
        7 => '7',
        8 => '8',
        _ => '9',
    }
}

/// The decimal text of a byte.
pub fn decimal_text_u8(n: u8) -> (r: Vec<char>)
    ensures
        r@ == decimal_text(n as nat),
{
    let mut r: Vec<char> = Vec::new();
    if n >= 100 {
        r.push(digit_of(n / 100));
    }
    if n >= 10 {
        r.push(digit_of((n / 10) % 10));
    }
    r.push(digit_of(n % 10));
    proof {
        reveal_with_fuel(decimal_text, 3);
        if n >= 100 {
            assert((n / 10) / 10 == n / 100);
            assert(decimal_text((n / 10) as nat) =~= seq![digit_char((n / 100) as int), digit_char(((n / 10) % 10) as int)]);
        }
    }
    assert(r@ =~= decimal_text(n as nat));
    r
}

/// The decimal text of a count.
pub fn decimal_text_usize(n: usize) -> (r: Vec<char>)
    ensures
        r@ == decimal_text(n as nat),
    decreases n,
{
    if n < 10 {
        let mut r: Vec<char> = Vec::new();
        r.push(digit_of((n % 10) as u8));
        return r;
    }
    let mut r = decimal_text_usize(n / 10);
    r.push(digit_of((n % 10) as u8));
    r
}

/// The decimal text of a count, as a string.
pub fn usize_to_string(n: usize) -> (r: String)
    ensures
        r@ == decimal_text(n as nat),
{
    string_of(&decimal_text_usize(n))
}

} // verus!
