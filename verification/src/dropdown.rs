//! The texts of the drop-down selectors: which details of an option are
//! shown, how a compact trigger is titled, and the label of the footer
//! action, read from the placeholder's wording.
use vstd::prelude::*;
use crate::text::{
    chars_of, concat_str, is_ascii_alpha, lower_seq, owned, starts_with, strip_end, strip_start,
    string_of, sub_vec, to_lower_vec, trim, trim_vec, CharClass, starts_with_vec,
    strip_start_vec, ends_with, ends_with_vec, str_views,
};

verus! {

/// An icon of the interface.
#[derive(Debug, Clone, Copy, PartialEq, Eq, Structural)]
pub enum Glyph {
    ChevronDown,
    ChevronUp,
    Close,
    Docker,
    Ethernet,
    Help,
    KeyRound,
    Languages,
    Lock,
    Maximize,
    Minimize,
    Moon,
    Network,
    Plus,
    Radar,
    Refresh,
    RefreshCw,
    Restore,
    Search,
    Sun,
    Wifi,
}

/// What a selector shows while nothing is selected.
#[derive(Debug, Clone, Copy)]
pub struct DropdownPlaceholder<'a> {
    pub glyph: Glyph,
    pub title: &'a str,
    pub subtitle: Option<&'a str>,
}

/// One option of a selector: an icon, a title and detail lines.
#[derive(Debug, Clone)]
pub struct DropdownEntry {
    pub glyph: Glyph,
    pub title: String,
    pub details: Vec<String>,
}

/// Whether a text reads as English: it holds an ASCII letter.
pub open spec fn reads_english(text: Seq<char>) -> bool {
    exists|k: int| 0 <= k < text.len() && is_ascii_alpha(#[trigger] text[k])
}

/// Whether a text holds an ASCII letter, the sign that its copy is English.
pub fn prefers_english_copy(text: &str) -> (r: bool)
    ensures
        r == reads_english(text@),
{
    let v = chars_of(text);
    let mut i: usize = 0;
    while i < v.len()
        invariant
            i <= v@.len(),
            v@ == text@,
            forall|k: int| 0 <= k < i ==> !is_ascii_alpha(#[trigger] v@[k]),
        decreases v@.len() - i,
    {
        if crate::text::char_is_ascii_alpha(v[i]) {
            return true;
        }
        i = i + 1;
    }
    false
}

/// Whether `text` starts with `prefix` up to ASCII case.
pub open spec fn starts_with_ci(text: Seq<char>, prefix: Seq<char>) -> bool {
    starts_with(lower_seq(text), lower_seq(prefix))
}

/// Whether `text` starts with one of `prefixes` up to ASCII case.
pub open spec fn starts_with_any_ci(text: Seq<char>, prefixes: Seq<Seq<char>>) -> bool {
    exists|k: int| 0 <= k < prefixes.len() && starts_with_ci(text, #[trigger] prefixes[k])
}

fn starts_with_ci_vec(text: &Vec<char>, prefix: &str) -> (r: bool)
    ensures
        r == starts_with_ci(text@, prefix@),
{
    starts_with_vec(&to_lower_vec(text), &to_lower_vec(&chars_of(prefix)))
}

/// Whether `text` starts with one of `prefixes`, up to ASCII case.
pub fn starts_with_any(text: &str, prefixes: &[&str]) -> (r: bool)
    ensures
        r == starts_with_any_ci(text@, str_views(prefixes@)),
{
    let v = chars_of(text);
    let ghost views = str_views(prefixes@);
    let mut i: usize = 0;
    while i < prefixes.len()
        invariant
            i <= prefixes@.len(),
            v@ == text@,
            views == str_views(prefixes@),
            views.len() == prefixes@.len(),
            forall|k: int| 0 <= k < i ==> !starts_with_ci(text@, #[trigger] views[k]),
        decreases prefixes@.len() - i,
    {
        if starts_with_ci_vec(&v, prefixes[i]) {
            assert(starts_with_ci(text@, views[i as int]));
            return true;
        }
        i = i + 1;
    }
    false
}

/// `text` without the first of `prefixes` that it starts with up to ASCII
/// case, and without the white space after it; `text` itself if none.
pub open spec fn trim_prefix_ci(text: Seq<char>, prefixes: Seq<Seq<char>>) -> Seq<char>
    decreases prefixes.len(),
{
    if prefixes.len() == 0 {
        text
    } else if starts_with_ci(text, prefixes[0]) {
        strip_start(text.subrange(prefixes[0].len() as int, text.len() as int), CharClass::WhiteSpace)
    } else {
        trim_prefix_ci(text, prefixes.drop_first())
    }
}

/// `text` without the first of `prefixes` it starts with, up to ASCII case,
/// and the white space after it.
pub fn trim_prefix_case_insensitive(text: &str, prefixes: &[&str]) -> (r: String)
    ensures
        r@ == trim_prefix_ci(text@, str_views(prefixes@)),
{
    let v = chars_of(text);
    let ghost views = str_views(prefixes@);
    assert(views.subrange(0, views.len() as int) =~= views);
    let mut i: usize = 0;
    while i < prefixes.len()
        invariant
            i <= prefixes@.len(),
            v@ == text@,
            views == str_views(prefixes@),
            views.len() == prefixes@.len(),
            trim_prefix_ci(text@, views) == trim_prefix_ci(text@, views.subrange(i as int, views.len() as int)),
        decreases prefixes@.len() - i,
    {
        let ghost rest = views.subrange(i as int, views.len() as int);
        assert(rest[0] == views[i as int]);
        assert(rest.drop_first() =~= views.subrange(i + 1, views.len() as int));
        let p = chars_of(prefixes[i]);
        if starts_with_ci_vec(&v, prefixes[i]) {
            proof {
                assert(lower_seq(p@).len() == p@.len());
            }
            let tail = sub_vec(&v, p.len(), v.len());
            return string_of(&strip_start_vec(&tail, CharClass::WhiteSpace));
        }
        i = i + 1;
    }
    assert(views.subrange(views.len() as int, views.len() as int) =~= Seq::<Seq<char>>::empty());
    string_of(&v)
}

/// The two kinds of tagged detail lines.
#[derive(Debug, Clone, Copy, PartialEq, Eq, Structural)]
pub enum DetailKind {
    Subnet,
    Interface,
}

/// The kind of a detail line, from its leading word in either language.
pub open spec fn kind_of_detail(detail: Seq<char>) -> Option<DetailKind> {
    let t = trim(detail);
    if starts_with_any_ci(t, seq!["网段 "@, "subnet "@]) {
        Some(DetailKind::Subnet)
    } else if starts_with_any_ci(t, seq!["接口 "@, "interface "@]) {
        Some(DetailKind::Interface)
    } else {
        None
    }
}

/// The kind of a detail line.
pub fn detail_kind(detail: &str) -> (r: Option<DetailKind>)
    ensures
        r == kind_of_detail(detail@),
{
    let t = string_of(&trim_vec(&chars_of(detail)));
    let subnet = ["网段 ", "subnet "];
    let iface = ["接口 ", "interface "];
    proof {
        assert(str_views(subnet@) =~= seq!["网段 "@, "subnet "@]);
        assert(str_views(iface@) =~= seq!["接口 "@, "interface "@]);
    }
    if starts_with_any(t.as_str(), &subnet) {
        Some(DetailKind::Subnet)
    } else if starts_with_any(t.as_str(), &iface) {
        Some(DetailKind::Interface)
    } else {
        None
    }
}

/// A detail line without its leading tag word.
pub open spec fn body_of_detail(detail: Seq<char>) -> Seq<char> {
    trim_prefix_ci(trim(detail), seq!["网段 "@, "接口 "@, "Subnet "@, "Interface "@])
}

/// A detail line without its leading tag word.
pub fn detail_body(detail: &str) -> (r: String)
    ensures
        r@ == body_of_detail(detail@),
{
    let t = string_of(&trim_vec(&chars_of(detail)));
    let tags = ["网段 ", "接口 ", "Subnet ", "Interface "];
    assert(str_views(tags@) =~= seq!["网段 "@, "接口 "@, "Subnet "@, "Interface "@]);
    trim_prefix_case_insensitive(t.as_str(), &tags)
}

/// A detail line without its tag word, trimmed.
pub fn strip_detail_prefix(detail: &str) -> (r: String)
    ensures
        r@ == trim(body_of_detail(detail@)),
{
    let b = detail_body(detail);
    string_of(&trim_vec(&chars_of(b.as_str())))
}

/// `s` without the copies of `suffix` at its end (`str::trim_end_matches`).
pub open spec fn strip_suffix_all(s: Seq<char>, suffix: Seq<char>) -> Seq<char>
    decreases s.len(),
{
    if suffix.len() > 0 && ends_with(s, suffix) {
        strip_suffix_all(s.subrange(0, s.len() - suffix.len()), suffix)
    } else {
        s
    }
}

fn strip_suffix_all_vec(s: &Vec<char>, suffix: &Vec<char>) -> (r: Vec<char>)
    ensures
        r@ == strip_suffix_all(s@, suffix@),
{
    let mut cur = sub_vec(s, 0, s.len());
    assert(cur@ =~= s@);
    while suffix.len() > 0 && ends_with_vec(&cur, suffix)
        invariant
            strip_suffix_all(cur@, suffix@) == strip_suffix_all(s@, suffix@),
        decreases cur@.len(),
    {
        cur = sub_vec(&cur, 0, cur.len() - suffix.len());
    }
    cur
}

/// What a placeholder asks to select: its title without a trailing
/// ellipsis and without a leading "select".
pub open spec fn subject_of(title: Seq<char>) -> Seq<char> {
    trim(trim_prefix_ci(trim(strip_suffix_all(title, "..."@)), seq!["请选择"@, "选择"@, "Select "@]))
}

/// What a placeholder asks to select.
pub fn dropdown_subject(title: &str) -> (r: String)
    ensures
        r@ == subject_of(title@),
{
    let base = strip_suffix_all_vec(&chars_of(title), &chars_of("..."));
    let t = string_of(&trim_vec(&base));
    let words = ["请选择", "选择", "Select "];
    assert(str_views(words@) =~= seq!["请选择"@, "选择"@, "Select "@]);
    let s = trim_prefix_case_insensitive(t.as_str(), &words);
    string_of(&trim_vec(&chars_of(s.as_str())))
}

/// The label of the action that adds an option: "Add <subject>..." in the
/// language of the placeholder's title.
pub open spec fn footer_text(title: Seq<char>) -> Seq<char> {
    let t = trim(title);
    let subject = subject_of(t);
    if subject.len() == 0 {
        if reads_english(t) {
            "Add Option..."@
        } else {
            "添加选项..."@
        }
    } else if reads_english(t) {
        "Add "@ + subject + "..."@
    } else {
        "添加"@ + subject + "..."@
    }
}

/// The label of the action that adds an option.
pub fn footer_label(placeholder: DropdownPlaceholder<'_>) -> (r: String)
    ensures
        r@ == footer_text(placeholder.title@),
{
    let title = string_of(&trim_vec(&chars_of(placeholder.title)));
    let subject = dropdown_subject(title.as_str());
    let english = prefers_english_copy(title.as_str());
    if subject.as_str().unicode_len() == 0 {
        if english {
            owned("Add Option...")
        } else {
            owned("添加选项...")
        }
    } else if english {
        concat_str(concat_str(owned("Add "), subject.as_str()), "...")
    } else {
        concat_str(concat_str(owned("添加"), subject.as_str()), "...")
    }
}

/// The position of the first detail of a kind, or -1.
pub open spec fn first_of_kind(details: Seq<Seq<char>>, kind: Option<DetailKind>) -> int
    decreases details.len(),
{
    if details.len() == 0 {
        -1
    } else {
        let f = first_of_kind(details.drop_last(), kind);
        if f >= 0 {
            f
        } else if kind_of_detail(details.last()) == kind {
            details.len() - 1
        } else {
            -1
        }
    }
}

proof fn lemma_first_of_kind(details: Seq<Seq<char>>, kind: Option<DetailKind>, i: int)
    requires
        0 <= i <= details.len(),
        forall|k: int| 0 <= k < i ==> kind_of_detail(#[trigger] details[k]) != kind,
        i < details.len() ==> kind_of_detail(details[i]) == kind,
    ensures
        first_of_kind(details, kind) == if i < details.len() { i } else { -1 },
    decreases details.len(),
{
    if details.len() > 0 {
        let t = details.drop_last();
        if i < details.len() - 1 {
            assert(t[i] == details[i]);
            assert forall|k: int| 0 <= k < i implies kind_of_detail(#[trigger] t[k]) != kind by {
                assert(t[k] == details[k]);
            }
            lemma_first_of_kind(t, kind, i);
        } else {
            assert forall|k: int| 0 <= k < t.len() implies kind_of_detail(#[trigger] t[k]) != kind by {
                assert(t[k] == details[k]);
            }
            lemma_first_of_kind(t, kind, t.len() as int);
        }
    }
}

fn find_kind(details: &Vec<String>, kind: Option<DetailKind>) -> (r: Option<usize>)
    ensures
        match r {
            Some(i) => i < details@.len() && i == first_of_kind(details@.map_values(|d: String| d@), kind),
            None => first_of_kind(details@.map_values(|d: String| d@), kind) == -1,
        },
{
    let ghost views = details@.map_values(|d: String| d@);
    let mut i: usize = 0;
    while i < details.len()
        invariant
            i <= details@.len(),
            views == details@.map_values(|d: String| d@),
            forall|k: int| 0 <= k < i ==> kind_of_detail(#[trigger] views[k]) != kind,
        decreases details@.len() - i,
    {
        if detail_kind(details[i].as_str()) == kind {
            proof {
                lemma_first_of_kind(views, kind, i as int);
            }
            return Some(i);
        }
        i = i + 1;
    }
    proof {
        lemma_first_of_kind(views, kind, views.len() as int);
    }
    None
}

/// The title of a compact trigger: the title with the body of its interface
/// detail, else of its subnet detail, else of its first detail, in
/// parentheses; nothing without details.
pub open spec fn trigger_title(title: Seq<char>, details: Seq<Seq<char>>) -> Option<Seq<char>> {
    let i = first_of_kind(details, Some(DetailKind::Interface));
    let s = first_of_kind(details, Some(DetailKind::Subnet));
    let chosen = if i >= 0 {
        i
    } else if s >= 0 {
        s
    } else if details.len() > 0 {
        0
    } else {
        -1
    };
    if chosen < 0 {
        None
    } else {
        Some(title + " ("@ + trim(body_of_detail(details[chosen])) + ")"@)
    }
}

/// The title of a compact trigger.
pub fn summarize_trigger_title(title: &str, details: &Vec<String>) -> (r: Option<String>)
    ensures
        crate::identity::opt_string_view(r) == trigger_title(title@, details@.map_values(|d: String| d@)),
{
    let chosen = match find_kind(details, Some(DetailKind::Interface)) {
        Some(i) => i,
        None => match find_kind(details, Some(DetailKind::Subnet)) {
            Some(s) => s,
            None => if details.len() > 0 {
                0
            } else {
                return None;
            },
        },
    };
    let body = strip_detail_prefix(details[chosen].as_str());
    Some(concat_str(concat_str(concat_str(owned(title), " ("), body.as_str()), ")"))
}

/// The details an option shows: its untagged line, then the body of its
/// subnet line, with the body of its interface line when that makes two;
/// without an untagged or a subnet line, its first two lines.
pub open spec fn visible_details(details: Seq<Seq<char>>) -> Seq<Seq<char>> {
    let k = first_of_kind(details, None);
    let s = first_of_kind(details, Some(DetailKind::Subnet));
    let i = first_of_kind(details, Some(DetailKind::Interface));
    if s >= 0 || k >= 0 {
        let a = if k >= 0 {
            seq![trim(details[k])]
        } else {
            Seq::empty()
        };
        let b = if s >= 0 {
            a.push(trim(body_of_detail(details[s])))
        } else {
            a
        };
        if b.len() < 2 && i >= 0 {
            b.push(trim(body_of_detail(details[i])))
        } else {
            b
        }
    } else {
        details.take(if details.len() < 2 { details.len() as int } else { 2 }).map_values(
            |d: Seq<char>| trim(d),
        )
    }
}

/// The details an option shows.
pub fn option_visible_details(details: &Vec<String>) -> (r: Vec<String>)
    ensures
        r@.map_values(|d: String| d@) == visible_details(details@.map_values(|d: String| d@)),
{
    let ghost views = details@.map_values(|d: String| d@);
    let kind = find_kind(details, None);
    let subnet = find_kind(details, Some(DetailKind::Subnet));
    let iface = find_kind(details, Some(DetailKind::Interface));
    let mut visible: Vec<String> = Vec::new();
    if subnet.is_some() || kind.is_some() {
        if let Some(k) = kind {
            visible.push(string_of(&trim_vec(&chars_of(details[k].as_str()))));
        }
        if let Some(s) = subnet {
            visible.push(strip_detail_prefix(details[s].as_str()));
        }
        if visible.len() < 2 {
            if let Some(i) = iface {
                visible.push(strip_detail_prefix(details[i].as_str()));
            }
        }
        assert(visible@.map_values(|d: String| d@) =~= visible_details(views));
        return visible;
    }
    let n = if details.len() < 2 { details.len() } else { 2 };
    let mut j: usize = 0;
    while j < n
        invariant
            j <= n,
            n <= details@.len(),
            n == (if details@.len() < 2 { details@.len() } else { 2 }),
            views == details@.map_values(|d: String| d@),
            visible@.len() == j,
            forall|m: int| 0 <= m < j ==> (#[trigger] visible@[m])@ == trim(views[m]),
        decreases n - j,
    {
        visible.push(string_of(&trim_vec(&chars_of(details[j].as_str()))));
        j = j + 1;
    }
    assert(visible@.map_values(|d: String| d@) =~= visible_details(views));
    visible
}

/// What a click on a selector's trigger does.
#[derive(Debug, Clone, Copy, PartialEq, Eq, Structural)]
pub enum DropdownToggle {
    Open,
    Close,
}

/// The toggle of the network selector: none while there are no networks or
/// while a scan, a refresh, a verification, a connection or a dialog runs;
/// else it closes an open selector and opens a closed one.
pub fn network_dropdown_toggle(
    has_networks: bool,
    is_scanning: bool,
    is_refreshing_networks: bool,
    is_verifying: bool,
    is_connecting: bool,
    modal_open: bool,
    is_open: bool,
) -> (r: Option<DropdownToggle>)
    ensures
        r is None <==> (!has_networks || is_scanning || is_refreshing_networks || is_verifying
            || is_connecting || modal_open),
        r matches Some(t) ==> t == (if is_open { DropdownToggle::Close } else { DropdownToggle::Open }),
{
    if has_networks && !is_scanning && !is_refreshing_networks && !is_verifying && !is_connecting
        && !modal_open {
        Some(if is_open { DropdownToggle::Close } else { DropdownToggle::Open })
    } else {
        None
    }
}

/// The toggle of the user selector: none while there are no saved
/// credentials or while a verification, a connection or a dialog runs.
pub fn user_dropdown_toggle(
    has_credentials: bool,
    is_verifying: bool,
    is_connecting: bool,
    modal_open: bool,
    is_open: bool,
) -> (r: Option<DropdownToggle>)
    ensures
        r is None <==> (!has_credentials || is_verifying || is_connecting || modal_open),
        r matches Some(t) ==> t == (if is_open { DropdownToggle::Close } else { DropdownToggle::Open }),
{
    if has_credentials && !is_verifying && !is_connecting && !modal_open {
        Some(if is_open { DropdownToggle::Close } else { DropdownToggle::Open })
    } else {
        None
    }
}

/// The texts of a selector's trigger: its title, summarized when compact,
/// and its details joined by a middle dot unless compact or empty.
pub open spec fn trigger_texts(title: Seq<char>, details: Seq<Seq<char>>, compact: bool) -> (Seq<char>, Option<Seq<char>>) {
    let shown = if compact {
        match trigger_title(title, details) {
            Some(t) => t,
            None => title,
        }
    } else {
        title
    };
    let detail = if details.len() == 0 || compact {
        None
    } else {
        Some(crate::notice::joined(details, "  ·  "@))
    };
    (shown, detail)
}

/// The texts of a selector's trigger.
pub fn trigger_copy_text(title: &str, details: &Vec<String>, compact: bool) -> (r: (String, Option<String>))
    ensures
        (r.0@, crate::identity::opt_string_view(r.1)) == trigger_texts(
            title@,
            details@.map_values(|d: String| d@),
            compact,
        ),
{
    let shown = if compact {
        match summarize_trigger_title(title, details) {
            Some(t) => t,
            None => owned(title),
        }
    } else {
        owned(title)
    };
    let detail = if details.len() == 0 || compact {
        None
    } else {
        Some(crate::notice::join_texts(details, "  ·  "))
    };
    (shown, detail)
}

/// The detail lines an option shows: at most two of its visible details.
pub fn option_copy_details(details: &Vec<String>) -> (r: Vec<String>)
    ensures
        r@.map_values(|d: String| d@) == {
            let v = visible_details(details@.map_values(|d: String| d@));
            v.take(if v.len() < 2 { v.len() as int } else { 2 })
        },
{
    let visible = option_visible_details(details);
    let ghost v = visible@.map_values(|d: String| d@);
    let n = if visible.len() < 2 { visible.len() } else { 2 };
    let mut r: Vec<String> = Vec::new();
    let mut i: usize = 0;
    while i < n
        invariant
            i <= n,
            n <= visible@.len(),
            v == visible@.map_values(|d: String| d@),
            r@.len() == i,
            forall|k: int| 0 <= k < i ==> (#[trigger] r@[k])@ == v[k],
        decreases n - i,
    {
        r.push(visible[i].clone());
        i = i + 1;
    }
    assert(r@.map_values(|d: String| d@) =~= v.take(n as int));
    r
}

} // verus!
