//! Small SIP helpers that several modules share.
use crate::maps::StringMap;
use crate::sip::Header;
use crate::{maps, text};
use vstd::prelude::*;
use vstd::string::*;

verus! {

/// A URI with a scheme in front.
pub open spec fn with_sip_scheme(uri: Seq<char>) -> Seq<char> {
    if "sip:"@.is_prefix_of(uri) || "sips:"@.is_prefix_of(uri) {
        uri
    } else {
        "sip:"@ + uri
    }
}

/// Puts `sip:` in front of a URI that has neither a `sip:` nor a `sips:` scheme.
pub fn ensure_sip_scheme(uri: String) -> (r: String)
    ensures
        r@ == with_sip_scheme(uri@),
{
    if text::starts_with(uri.as_str(), "sip:") || text::starts_with(uri.as_str(), "sips:") {
        uri
    } else {
        text::concat2("sip:", uri.as_str())
    }
}

/// A URI that has a scheme keeps it: making sure twice is making sure once.
pub proof fn law_scheme_once(uri: Seq<char>)
    ensures
        with_sip_scheme(with_sip_scheme(uri)) == with_sip_scheme(uri),
{
    if !("sip:"@.is_prefix_of(uri) || "sips:"@.is_prefix_of(uri)) {
        assert("sip:"@ =~= ("sip:"@ + uri).take("sip:"@.len() as int));
    }
}

/// The place of the last `c`; -1 where there is none.
pub open spec fn last_of(s: Seq<char>, c: char) -> int
    decreases s.len(),
{
    if s.len() == 0 {
        -1
    } else if s.last() == c {
        s.len() - 1
    } else {
        last_of(s.drop_last(), c)
    }
}

/// The place of the quote that closes a quoted text whose inside starts at
/// place `i`; -1 where none does. A backslash takes the next character's meaning
/// away.
pub open spec fn closing_quote(s: Seq<char>, i: int) -> int
    decreases s.len() + 1 - i,
{
    if i < 0 || i >= s.len() {
        -1
    } else if s[i] == '"' {
        i
    } else if s[i] == '\\' {
        closing_quote(s, i + 2)
    } else {
        closing_quote(s, i + 1)
    }
}

/// The place of the first `<` from place `i` on that stands in no quoted text;
/// -1 where there is none. A quote that is not closed begins no quoted text.
pub open spec fn opening_bracket(s: Seq<char>, i: int) -> int
    decreases s.len() - i,
{
    if i < 0 || i >= s.len() {
        -1
    } else if s[i] == '<' {
        i
    } else if s[i] == '"' && i < closing_quote(s, i + 1) < s.len() {
        opening_bracket(s, closing_quote(s, i + 1) + 1)
    } else {
        opening_bracket(s, i + 1)
    }
}

/// A value that begins with the scheme of a URI that can be dialled, in letters of
/// any size: it is no display name.
pub open spec fn begins_with_uri(s: Seq<char>) -> bool {
    let low = text::ascii_lower_of(s);
    "sip:"@.is_prefix_of(low) || "sips:"@.is_prefix_of(low) || "tel:"@.is_prefix_of(low)
}

/// The part of a value in which angle brackets may open: of a value that begins
/// with a URI, what stands in front of its parameters and query; else the whole.
pub open spec fn address_part(s: Seq<char>) -> Seq<char> {
    if begins_with_uri(s) {
        text::before_first_of(s, ';', '?')
    } else {
        s
    }
}

/// A `<` at a place, with a `>` behind it.
pub open spec fn closes_behind(s: Seq<char>, start: int) -> bool {
    start >= 0 && text::first_from(s, '>', start + 1) > start
}

/// The place at which the angle brackets of a value open: the first `<` outside
/// any quoted text, or the first of all where no `>` follows that one; -1 where
/// there are no brackets.
pub open spec fn bracket_start(s: Seq<char>) -> int {
    let outside = opening_bracket(address_part(s), 0);
    let any = text::first_from(address_part(s), '<', 0);
    if closes_behind(s, outside) {
        outside
    } else if closes_behind(s, any) {
        any
    } else {
        -1
    }
}

/// A value that holds an address in angle brackets.
pub open spec fn is_bracketed(s: Seq<char>) -> bool {
    bracket_start(s) >= 0
}

/// What the angle brackets of a value hold: the first `>` behind their start
/// closes them, and where a further `<` stands between the two, the last one
/// counts. Without brackets, the whole.
pub open spec fn in_brackets(s: Seq<char>) -> Seq<char> {
    let start = bracket_start(s);
    if is_bracketed(s) {
        let inner = s.subrange(start + 1, text::first_from(s, '>', start + 1));
        inner.skip(last_of(inner, '<') + 1)
    } else {
        s
    }
}

/// The target in a `Refer-To` value, without display name, brackets, parameters
/// and query.
pub open spec fn refer_target(value: Seq<char>) -> Seq<char> {
    text::trim_of(text::before_first_of(in_brackets(text::trim_of(value)), ';', '?'))
}

proof fn lemma_last_of(s: Seq<char>, c: char, i: int)
    requires
        0 <= i < s.len(),
        s[i] == c,
        forall|j: int| i < j < s.len() ==> s[j] != c,
    ensures
        last_of(s, c) == i,
    decreases s.len(),
{
    if i < s.len() - 1 {
        assert(s.last() == s[s.len() - 1]);
        lemma_last_of(s.drop_last(), c, i);
    }
}

proof fn lemma_last_of_none(s: Seq<char>, c: char)
    requires
        forall|j: int| 0 <= j < s.len() ==> s[j] != c,
    ensures
        last_of(s, c) == -1,
    decreases s.len(),
{
    if s.len() > 0 {
        lemma_last_of_none(s.drop_last(), c);
    }
}

/// The place of the quote that closes a quoted text whose inside starts at
/// place `from`.
fn find_closing_quote(chars: &Vec<char>, from: usize) -> (r: Option<usize>)
    ensures
        match r {
            Some(i) => from <= i < chars@.len() && closing_quote(chars@, from as int) == i,
            None => closing_quote(chars@, from as int) == -1,
        },
{
    let mut i: usize = from;
    while i < chars.len()
        invariant
            from <= i,
            closing_quote(chars@, i as int) == closing_quote(chars@, from as int),
        decreases chars@.len() - i,
    {
        if chars[i] == '"' {
            return Some(i);
        }
        if chars[i] == '\\' {
            if chars.len() - i <= 2 {
                assert(closing_quote(chars@, i + 2) == -1);
                return None;
            }
            i = i + 2;
        } else {
            i = i + 1;
        }
    }
    None
}

/// The place of the first `<` that stands in no quoted text.
fn find_opening_bracket(chars: &Vec<char>) -> (r: Option<usize>)
    ensures
        match r {
            Some(i) => i < chars@.len() && opening_bracket(chars@, 0) == i,
            None => opening_bracket(chars@, 0) == -1,
        },
{
    let mut i: usize = 0;
    while i < chars.len()
        invariant
            opening_bracket(chars@, i as int) == opening_bracket(chars@, 0),
        decreases chars@.len() - i,
    {
        if chars[i] == '<' {
            return Some(i);
        }
        let closed: Option<usize> = if chars[i] == '"' {
            find_closing_quote(chars, i + 1)
        } else {
            None
        };
        i = match closed {
            Some(end) => end + 1,
            None => i + 1,
        };
    }
    None
}

/// The part of a value in which angle brackets may open.
fn find_address_part(value: &String) -> (r: String)
    ensures
        r@ == address_part(value@),
{
    let low: String = text::to_ascii_lower(value.as_str());
    if text::starts_with(low.as_str(), "sip:") || text::starts_with(low.as_str(), "sips:")
        || text::starts_with(low.as_str(), "tel:") {
        text::before_first(value.as_str(), ';', '?')
    } else {
        value.clone()
    }
}

/// The places at which the angle brackets of a value open and close.
fn find_brackets(value: &String) -> (r: Option<(usize, usize)>)
    ensures
        match r {
            Some((start, end)) => {
                &&& bracket_start(value@) == start
                &&& text::first_from(value@, '>', start + 1) == end
                &&& start < end < value@.len()
            },
            None => !is_bracketed(value@),
        },
{
    let chars: Vec<char> = text::chars_of(value.as_str());
    let part: String = find_address_part(value);
    let part_chars: Vec<char> = text::chars_of(part.as_str());
    proof {
        lemma_address_part(value@);
        assert(part_chars@.len() <= chars@.len());
    }
    if let Some(start) = find_opening_bracket(&part_chars) {
        if let Some(end) = text::find_from(&chars, '>', start + 1) {
            proof {
                lemma_first_from(value@, '>', start + 1);
            }
            return Some((start, end));
        }
    }
    if let Some(start) = text::find_from(&part_chars, '<', 0) {
        if let Some(end) = text::find_from(&chars, '>', start + 1) {
            proof {
                lemma_first_from(value@, '>', start + 1);
            }
            return Some((start, end));
        }
    }
    None
}

/// What the angle brackets of a value hold; the whole where there are none.
fn inside_brackets(value: String) -> (r: String)
    ensures
        r@ == in_brackets(value@),
{
    match find_brackets(&value) {
        Some((start, end)) => {
            let inner: String = text::slice(value.as_str(), start + 1, end);
            let further: Option<usize> = text::rfind_char(inner.as_str(), '<');
            proof {
                match further {
                    Some(i) => lemma_last_of(inner@, '<', i as int),
                    None => lemma_last_of_none(inner@, '<'),
                }
            }
            match further {
                Some(i) => text::skip(inner.as_str(), i + 1),
                None => {
                    assert(inner@.skip(0) =~= inner@);
                    inner
                },
            }
        },
        None => value,
    }
}

/// What stands before the first `a` or `b` is not longer than the whole.
proof fn lemma_before_first_len(s: Seq<char>, a: char, b: char)
    ensures
        text::before_first_of(s, a, b).len() <= s.len(),
    decreases s.len(),
{
    if s.len() > 0 {
        lemma_before_first_len(s.drop_first(), a, b);
    }
}

/// The part in which brackets may open is a part of the value.
proof fn lemma_address_part(s: Seq<char>)
    ensures
        address_part(s).len() <= s.len(),
{
    lemma_before_first_len(s, ';', '?');
}

/// The first `c` from `i` on stands at `i` or behind it, with no `c` between.
proof fn lemma_first_from(s: Seq<char>, c: char, i: int)
    requires
        0 <= i,
    ensures
        text::first_from(s, c, i) >= 0 ==> i <= text::first_from(s, c, i) < s.len(),
        forall|j: int| i <= j < text::first_from(s, c, i) ==> s[j] != c,
    decreases s.len() - i,
{
    if i < s.len() && s[i] != c {
        lemma_first_from(s, c, i + 1);
    }
}

/// No `c` stands behind the last one.
proof fn lemma_behind_last(s: Seq<char>, c: char)
    ensures
        -1 <= last_of(s, c) < s.len(),
        forall|j: int| last_of(s, c) < j < s.len() ==> s[j] != c,
    decreases s.len(),
{
    if s.len() > 0 && s.last() != c {
        lemma_behind_last(s.drop_last(), c);
        assert forall|j: int| last_of(s, c) < j < s.len() implies s[j] != c by {
            if j < s.len() - 1 {
                assert(s.drop_last()[j] == s[j]);
            }
        }
    }
}

/// The URI to dial in a `Refer-To` value; `None` where nothing is left of it.
pub fn parse_refer_to_target(refer_to: &str) -> (r: Option<String>)
    ensures
        text::opt_view(r) == if refer_target(refer_to@).len() == 0 {
            None
        } else {
            Some(refer_target(refer_to@))
        },
{
    let inner: String = inside_brackets(text::trim(refer_to));
    let plain: String = text::before_first(inner.as_str(), ';', '?');
    let target: String = text::trim(plain.as_str());
    if target.as_str().unicode_len() == 0 {
        None
    } else {
        Some(target)
    }
}

/// Headers that carry names and texts one for one.
pub open spec fn other_headers(
    headers: Seq<Header>,
    pairs: Seq<(Seq<char>, Seq<char>)>,
) -> bool {
    &&& headers.len() == pairs.len()
    &&& forall|i: int|
        0 <= i < headers.len() ==> ((#[trigger] headers[i]) matches Header::Other(name, value)
            && name@ == pairs[i].0 && value@ == pairs[i].1)
}

/// A SIP header for each entry of a map.
pub fn sip_headers_from_map(headers: &StringMap) -> (r: Vec<Header>)
    ensures
        other_headers(r@, headers.pairs()),
{
    let n: usize = headers.entries.len();
    let mut out: Vec<Header> = Vec::new();
    let mut i: usize = 0;
    while i < n
        invariant
            0 <= i <= n,
            n == headers.entries@.len(),
            out@.len() == i,
            forall|j: int|
                0 <= j < i ==> ((#[trigger] out@[j]) matches Header::Other(name, value) && name@
                    == headers.pairs()[j].0 && value@ == headers.pairs()[j].1),
        decreases n - i,
    {
        out.push(Header::Other(headers.entries[i].0.clone(), headers.entries[i].1.clone()));
        i = i + 1;
    }
    out
}

/// Key under which the headers for a hangup are kept.
pub const HANGUP_HEADERS_KEY: &'static str = "_hangup_headers";

/// The names and texts that [`parse_string_map`] reads in a JSON text.
pub uninterp spec fn json_string_map(json: Seq<char>) -> Option<Seq<(Seq<char>, Seq<char>)>>;

/// Reads a JSON text as an object whose values are strings, with
/// [`serde_json::from_str`] into a `BTreeMap`. What it reads is a function of
/// the text alone, and no name stands in it twice; the grammar is left open
/// here.
#[verifier::external_body]
fn parse_string_map(json: &str) -> (r: Option<StringMap>)
    ensures
        maps::opt_pairs(r) == json_string_map(json@),
        r matches Some(m) ==> m.wf(),
{
    serde_json::from_str::<std::collections::BTreeMap<String, String>>(json).ok().map(
        |m| StringMap { entries: m.into_iter().collect() },
    )
}

/// The headers of a map that was found; `None` where it is empty.
pub fn hangup_headers(found: Option<StringMap>) -> (r: Option<Vec<Header>>)
    ensures
        match (found, r) {
            (Some(m), Some(h)) => m.pairs().len() > 0 && other_headers(h@, m.pairs()),
            (Some(m), None) => m.pairs().len() == 0,
            (None, r) => r is None,
        },
{
    match found {
        Some(map) => {
            let headers: Vec<Header> = sip_headers_from_map(&map);
            if headers.len() == 0 {
                None
            } else {
                Some(headers)
            }
        },
        None => None,
    }
}

/// The names and texts that are kept for a hangup.
pub open spec fn kept_hangup_headers(extras: Map<Seq<char>, Seq<char>>) -> Option<
    Seq<(Seq<char>, Seq<char>)>,
> {
    if extras.contains_key(HANGUP_HEADERS_KEY@) {
        json_string_map(extras[HANGUP_HEADERS_KEY@])
    } else {
        None
    }
}

/// The headers for a hangup that are kept among the extra values of a call,
/// which are JSON texts.
pub fn hangup_headers_from_extras(extras: &StringMap) -> (r: Option<Vec<Header>>)
    requires
        extras.wf(),
    ensures
        match (kept_hangup_headers(extras@), r) {
            (Some(pairs), Some(h)) => pairs.len() > 0 && other_headers(h@, pairs),
            (Some(pairs), None) => pairs.len() == 0,
            (None, r) => r is None,
        },
{
    match extras.get(HANGUP_HEADERS_KEY) {
        Some(json) => hangup_headers(parse_string_map(json.as_str())),
        None => None,
    }
}

/// What stands before the first `a` or `b` is a beginning of the whole without
/// either.
proof fn lemma_before_first(s: Seq<char>, a: char, b: char, i: int)
    requires
        0 <= i < text::before_first_of(s, a, b).len(),
    ensures
        text::before_first_of(s, a, b)[i] != a,
        text::before_first_of(s, a, b)[i] != b,
        i < s.len(),
        text::before_first_of(s, a, b)[i] == s[i],
    decreases s.len(),
{
    if i > 0 {
        lemma_before_first(s.drop_first(), a, b, i - 1);
    }
}

/// The target of a transfer carries no parameters, no query and no white space
/// around it; one that came in angle brackets carries none of them.
pub proof fn law_target_is_plain(value: Seq<char>)
    ensures
        ({
            let t = refer_target(value);
            &&& forall|i: int| 0 <= i < t.len() ==> #[trigger] t[i] != ';' && t[i] != '?'
            &&& text::trim_of(t) == t
            &&& is_bracketed(text::trim_of(value)) ==> forall|i: int|
                0 <= i < t.len() ==> #[trigger] t[i] != '<' && t[i] != '>'
        }),
{
    let whole = text::trim_of(value);
    let inner = in_brackets(whole);
    let plain = text::before_first_of(inner, ';', '?');
    let t = refer_target(value);
    text::law_trim_once(plain);
    text::law_trim_is_a_part(plain);
    let at = choose|at: int|
        0 <= at && at + t.len() <= plain.len() && #[trigger] plain.subrange(at, at + t.len()) == t;
    assert forall|i: int| 0 <= i < t.len() implies #[trigger] t[i] != ';' && t[i] != '?' by {
        assert(plain.subrange(at, at + t.len())[i] == plain[at + i]);
        lemma_before_first(inner, ';', '?', at + i);
    }
    if is_bracketed(whole) {
        let start = bracket_start(whole);
        let end = text::first_from(whole, '>', start + 1);
        let between = whole.subrange(start + 1, end);
        lemma_first_from(whole, '>', start + 1);
        lemma_behind_last(between, '<');
        let skipped = last_of(between, '<') + 1;
        assert forall|i: int| 0 <= i < t.len() implies #[trigger] t[i] != '<' && t[i] != '>' by {
            assert(plain.subrange(at, at + t.len())[i] == plain[at + i]);
            lemma_before_first(inner, ';', '?', at + i);
            assert(inner[at + i] == between[skipped + at + i]);
            assert(between[skipped + at + i] == whole[start + 1 + skipped + at + i]);
        }
    }
}

/// A text without `a` and `b` stands whole before the first of them.
proof fn lemma_before_none(s: Seq<char>, a: char, b: char)
    requires
        forall|i: int| 0 <= i < s.len() ==> s[i] != a && s[i] != b,
    ensures
        text::before_first_of(s, a, b) == s,
    decreases s.len(),
{
    if s.len() > 0 {
        let rest = s.drop_first();
        assert forall|i: int| 0 <= i < rest.len() implies rest[i] != a && rest[i] != b by {
            assert(rest[i] == s[i + 1]);
        }
        lemma_before_none(rest, a, b);
        assert(seq![s[0]] + rest =~= s);
    }
}

/// What stands before the first `a` or `b` reaches as far as neither stands.
proof fn lemma_before_reaches(s: Seq<char>, a: char, b: char, k: int)
    requires
        0 <= k <= s.len(),
        forall|j: int| 0 <= j < k ==> s[j] != a && s[j] != b,
    ensures
        k <= text::before_first_of(s, a, b).len() <= s.len(),
    decreases k,
{
    lemma_before_first_len(s, a, b);
    if k > 0 {
        let rest = s.drop_first();
        assert forall|j: int| 0 <= j < k - 1 implies rest[j] != a && rest[j] != b by {
            assert(rest[j] == s[j + 1]);
        }
        lemma_before_reaches(rest, a, b, k - 1);
    }
}

/// The place of the first `c` from `i` on.
proof fn lemma_first_is(s: Seq<char>, c: char, i: int, at: int)
    requires
        0 <= i <= at < s.len(),
        s[at] == c,
        forall|j: int| i <= j < at ==> s[j] != c,
    ensures
        text::first_from(s, c, i) == at,
    decreases at - i,
{
    if i < at {
        lemma_first_is(s, c, i + 1, at);
    }
}

/// A `<` outside quoted text is a `<`.
proof fn lemma_opening_bracket(s: Seq<char>, i: int)
    requires
        0 <= i,
    ensures
        -1 <= opening_bracket(s, i) < s.len(),
        opening_bracket(s, i) >= 0 ==> s[opening_bracket(s, i)] == '<',
    decreases s.len() - i,
{
    if i < s.len() && s[i] != '<' {
        if s[i] == '"' && i < closing_quote(s, i + 1) < s.len() {
            lemma_opening_bracket(s, closing_quote(s, i + 1) + 1);
        } else {
            lemma_opening_bracket(s, i + 1);
        }
    }
}

/// The brackets of a value with one pair of them open at the first `<`.
proof fn lemma_one_pair(name: Seq<char>, uri: Seq<char>, params: Seq<char>)
    requires
        forall|i: int| 0 <= i < name.len() ==> name[i] != '<',
        forall|i: int| 0 <= i < uri.len() ==> uri[i] != '<' && uri[i] != '>',
        forall|i: int| 0 <= i < params.len() ==> params[i] != '>',
        begins_with_uri(name + seq!['<'] + uri + seq!['>'] + params) ==> forall|i: int|
            0 <= i < name.len() ==> name[i] != ';' && name[i] != '?',
    ensures
        in_brackets(name + seq!['<'] + uri + seq!['>'] + params) == uri,
{
    let s = name + seq!['<'] + uri + seq!['>'] + params;
    let at = name.len() as int;
    let end = at + 1 + uri.len();
    assert(s[at] == '<' && s[end] == '>');
    assert forall|j: int| 0 <= j < at implies s[j] != '<' by {
        assert(s[j] == name[j]);
    }
    assert forall|j: int| at + 1 <= j < end implies s[j] != '<' && s[j] != '>' by {
        assert(s[j] == uri[j - at - 1]);
    }
    assert forall|j: int| end < j < s.len() implies s[j] != '>' by {
        assert(s[j] == params[j - end - 1]);
    }
    let part = address_part(s);
    if begins_with_uri(s) {
        assert forall|j: int| 0 <= j <= at implies s[j] != ';' && s[j] != '?' by {
            if j < at {
                assert(s[j] == name[j]);
            }
        }
        lemma_before_reaches(s, ';', '?', at + 1);
    }
    assert(at < part.len() <= s.len());
    assert forall|j: int| 0 <= j < part.len() implies part[j] == s[j] by {
        if begins_with_uri(s) {
            lemma_before_first(s, ';', '?', j);
        }
    }
    lemma_first_is(s, '>', at + 1, end);
    lemma_first_is(part, '<', 0, at);
    let outside = opening_bracket(part, 0);
    lemma_opening_bracket(part, 0);
    if outside >= 0 && outside != at {
        assert(outside > end);
        lemma_first_from(s, '>', outside + 1);
        if text::first_from(s, '>', outside + 1) >= 0 {
            lemma_first_holds(s, '>', outside + 1);
        }
    }
    assert(bracket_start(s) == at);
    let inner = s.subrange(at + 1, end);
    assert(inner =~= uri);
    lemma_last_of_none(uri, '<');
    assert(uri.skip(0) =~= uri);
}

/// At the place of the first `c` stands `c`.
proof fn lemma_first_holds(s: Seq<char>, c: char, i: int)
    requires
        text::first_from(s, c, i) >= 0,
    ensures
        s[text::first_from(s, c, i)] == c,
    decreases s.len() - i,
{
    if 0 <= i < s.len() && s[i] != c {
        lemma_first_holds(s, c, i + 1);
    }
}

/// A display name in front of the brackets, the brackets and what follows them
/// never change the target of a transfer: it is the URI between them, as it is
/// where the URI stands alone. This leaves out a value that begins with a URI of
/// its own and has parameters or a query in front of the brackets.
pub proof fn law_display_name_changes_nothing(name: Seq<char>, uri: Seq<char>, params: Seq<char>)
    requires
        forall|i: int| 0 <= i < name.len() ==> name[i] != '<',
        uri.len() > 0,
        text::trim_of(uri) == uri,
        forall|i: int|
            0 <= i < uri.len() ==> #[trigger] uri[i] != '<' && uri[i] != '>' && uri[i] != ';'
                && uri[i] != '?',
        forall|i: int| 0 <= i < params.len() ==> params[i] != '>',
        begins_with_uri(text::trim_of(name + "<"@ + uri + ">"@ + params)) ==> forall|i: int|
            0 <= i < name.len() ==> name[i] != ';' && name[i] != '?',
    ensures
        refer_target(name + "<"@ + uri + ">"@ + params) == uri,
        refer_target(uri) == uri,
{
    reveal_strlit("<");
    reveal_strlit(">");
    assert("<"@ =~= seq!['<']);
    assert(">"@ =~= seq!['>']);
    lemma_before_none(uri, ';', '?');
    let middle = seq!['<'] + uri + seq!['>'];
    let value = name + "<"@ + uri + ">"@ + params;
    let front = text::trim_start_of(name);
    let back = text::trim_end_of(params);
    assert(middle.first() == '<' && middle.last() == '>');
    text::lemma_trim_around(name, middle, params);
    assert(value =~= name + middle + params);
    assert(front + middle + back =~= front + seq!['<'] + uri + seq!['>'] + back);
    text::lemma_trim_parts(name, params);
    lemma_one_pair(front, uri, back);
    assert(in_brackets(text::trim_of(value)) == uri);
    // The URI alone holds no bracket.
    lemma_address_part(uri);
    assert(address_part(uri) == uri);
    lemma_opening_bracket(uri, 0);
    if text::first_from(uri, '<', 0) >= 0 {
        lemma_first_holds(uri, '<', 0);
        lemma_first_from(uri, '<', 0);
    }
}

/// What stands before the first `a` or `b` is all that is in front of it.
proof fn lemma_before_at(s: Seq<char>, tail: Seq<char>, a: char, b: char)
    requires
        forall|i: int| 0 <= i < s.len() ==> s[i] != a && s[i] != b,
        tail.len() > 0,
        tail[0] == a || tail[0] == b,
    ensures
        text::before_first_of(s + tail, a, b) == s,
    decreases s.len(),
{
    if s.len() == 0 {
        assert(s + tail =~= tail);
        assert(s =~= Seq::<char>::empty());
    } else {
        let rest = s.drop_first();
        assert forall|i: int| 0 <= i < rest.len() implies rest[i] != a && rest[i] != b by {
            assert(rest[i] == s[i + 1]);
        }
        lemma_before_at(rest, tail, a, b);
        assert((s + tail).drop_first() =~= rest + tail);
        assert(seq![s[0]] + rest =~= s);
    }
}

/// The parameters and the query of a URI never change the target of a transfer,
/// whatever they hold.
pub proof fn law_parameters_change_nothing(uri: Seq<char>, tail: Seq<char>)
    requires
        begins_with_uri(uri),
        text::trim_of(uri) == uri,
        forall|i: int|
            0 <= i < uri.len() ==> #[trigger] uri[i] != '<' && uri[i] != ';' && uri[i] != '?',
        tail.len() > 0,
        tail[0] == ';' || tail[0] == '?',
    ensures
        refer_target(uri + tail) == uri,
{
    reveal_strlit("sip:");
    reveal_strlit("sips:");
    reveal_strlit("tel:");
    text::law_trimmed_ends(uri);
    let none = Seq::<char>::empty();
    text::lemma_trim_around(none, uri, tail);
    let kept = text::trim_end_of(tail);
    text::lemma_kept_front(tail);
    let s = uri + kept;
    assert(none + uri + tail =~= uri + tail);
    assert(none + uri + kept =~= s);
    assert(text::trim_of(uri + tail) == s);
    let low = text::ascii_lower_of(uri);
    let lows = text::ascii_lower_of(s);
    assert(lows.take(low.len() as int) =~= low);
    assert(begins_with_uri(s)) by {
        if "sip:"@.is_prefix_of(low) {
            assert("sip:"@ =~= lows.take(4));
        } else if "sips:"@.is_prefix_of(low) {
            assert("sips:"@ =~= lows.take(5));
        } else {
            assert("tel:"@ =~= lows.take(4));
        }
    }
    lemma_before_at(uri, kept, ';', '?');
    lemma_opening_bracket(uri, 0);
    if text::first_from(uri, '<', 0) >= 0 {
        lemma_first_holds(uri, '<', 0);
        lemma_first_from(uri, '<', 0);
    }
    assert(!is_bracketed(s));
}

/// A URI with one of the two schemes of SIP stays as it is; any other gets the
/// plain one in front.
pub proof fn law_scheme_goes_in_front(uri: Seq<char>)
    ensures
        with_sip_scheme("sip:"@ + uri) == "sip:"@ + uri,
        with_sip_scheme("sips:"@ + uri) == "sips:"@ + uri,
        !"sip:"@.is_prefix_of(uri) && !"sips:"@.is_prefix_of(uri) ==> with_sip_scheme(uri)
            == "sip:"@ + uri,
{
    assert("sip:"@ =~= ("sip:"@ + uri).take("sip:"@.len() as int));
    assert("sips:"@ =~= ("sips:"@ + uri).take("sips:"@.len() as int));
}

/// The headers that are made of names and texts are those, one for one and in
/// their order.
pub proof fn law_headers_carry_the_pairs(
    headers: Seq<Header>,
    pairs: Seq<(Seq<char>, Seq<char>)>,
    i: int,
)
    requires
        other_headers(headers, pairs),
        0 <= i < pairs.len(),
    ensures
        headers.len() == pairs.len(),
        headers[i] matches Header::Other(name, value) && name@ == pairs[i].0 && value@
            == pairs[i].1,
{
}

/// The headers for a hangup are those that the extra value of their name holds.
pub proof fn law_hangup_headers_have_their_key(extras: Map<Seq<char>, Seq<char>>)
    ensures
        extras.contains_key("_hangup_headers"@) ==> kept_hangup_headers(extras) == json_string_map(
            extras["_hangup_headers"@],
        ),
        !extras.contains_key("_hangup_headers"@) ==> kept_hangup_headers(extras) is None,
{
}

/// Angle brackets in a quoted display name do not count: the target is what stands
/// in the brackets behind the name.
#[verifier::spinoff_prover]
pub proof fn law_quoted_brackets_do_not_count(
    quoted: Seq<char>,
    uri: Seq<char>,
    params: Seq<char>,
)
    requires
        forall|i: int| 0 <= i < quoted.len() ==> #[trigger] quoted[i] != '"' && quoted[i] != '\\',
        uri.len() > 0,
        text::trim_of(uri) == uri,
        forall|i: int|
            0 <= i < uri.len() ==> #[trigger] uri[i] != '<' && uri[i] != '>' && uri[i] != ';'
                && uri[i] != '?',
    ensures
        refer_target(seq!['"'] + quoted + seq!['"', '<'] + uri + seq!['>'] + params) == uri,
{
    let value = seq!['"'] + quoted + seq!['"', '<'] + uri + seq!['>'] + params;
    let front = seq!['"'] + quoted + seq!['"', '<'] + uri + seq!['>'];
    let none = Seq::<char>::empty();
    let kept = text::trim_end_of(params);
    let s = front + kept;
    text::lemma_trim_around(none, front, params);
    assert(none + front + params =~= value);
    assert(text::trim_start_of(none) == none);
    assert(none + front + kept =~= s);
    assert(text::trim_of(value) == s);
    let at = quoted.len() as int + 2;
    assert(s[0] == '"' && s[at - 1] == '"' && s[at] == '<');
    assert forall|i: int| 1 <= i < at - 1 implies #[trigger] s[i] != '"' && s[i] != '\\' by {
        assert(s[i] == quoted[i - 1]);
    }
    assert(!begins_with_uri(s)) by {
        reveal_strlit("sip:");
        reveal_strlit("sips:");
        reveal_strlit("tel:");
        assert(text::ascii_lower_of(s)[0] == '"');
        assert("sip:"@[0] == 's' && "sips:"@[0] == 's' && "tel:"@[0] == 't');
    }
    lemma_quote_closes(s, 1, at - 1);
    assert(opening_bracket(s, at) == at);
    assert(opening_bracket(s, 0) == at);
    let close = at + 1 + uri.len();
    assert(s[close] == '>');
    assert forall|i: int| at < i < close implies #[trigger] s[i] != '>' by {
        assert(s[i] == uri[i - at - 1]);
    }
    lemma_first_is(s, '>', at + 1, close);
    let inner = s.subrange(at + 1, close);
    assert(inner =~= uri);
    lemma_last_of_none(uri, '<');
    assert(uri.skip(0) =~= uri);
    lemma_before_none(uri, ';', '?');
}

proof fn lemma_quote_closes(s: Seq<char>, i: int, end: int)
    requires
        0 <= i <= end < s.len(),
        s[end] == '"',
        forall|j: int| i <= j < end ==> #[trigger] s[j] != '"' && s[j] != '\\',
    ensures
        closing_quote(s, i) == end,
    decreases end - i,
{
    if i < end {
        assert(s[i] != '"');
        lemma_quote_closes(s, i + 1, end);
    }
}

/// A value begins with a URI where it begins with one of three schemes, in letters
/// of any size.
pub proof fn law_uris_in_letters_of_any_size(rest: Seq<char>, s: Seq<char>)
    ensures
        begins_with_uri("sip:"@ + rest) && begins_with_uri("sips:"@ + rest) && begins_with_uri(
            "tel:"@ + rest,
        ),
        begins_with_uri(s) <==> begins_with_uri(text::ascii_lower_of(s)),
        begins_with_uri(s) ==> s.contains(':'),
{
    reveal_strlit("sip:");
    reveal_strlit("sips:");
    reveal_strlit("tel:");
    assert("sip:"@ =~= text::ascii_lower_of("sip:"@ + rest).take(4));
    assert("sips:"@ =~= text::ascii_lower_of("sips:"@ + rest).take(5));
    assert("tel:"@ =~= text::ascii_lower_of("tel:"@ + rest).take(4));
    let low = text::ascii_lower_of(s);
    assert(text::ascii_lower_of(low) =~= low);
    if begins_with_uri(s) {
        assert("sip:"@[3] == ':' && "sips:"@[4] == ':' && "tel:"@[3] == ':');
        if "sip:"@.is_prefix_of(low) || "tel:"@.is_prefix_of(low) {
            assert(low[3] == ':');
            assert(s[3] == ':');
        } else {
            assert(low[4] == ':');
            assert(s[4] == ':');
        }
    }
}

/// A backslash takes the meaning of the character behind it away: a quote there does
/// not close the quoted text.
pub proof fn law_escaped_quote_does_not_close(
    a: Seq<char>,
    escaped: char,
    b: Seq<char>,
    rest: Seq<char>,
)
    requires
        forall|i: int| 0 <= i < a.len() ==> #[trigger] a[i] != '"' && a[i] != '\\',
        forall|i: int| 0 <= i < b.len() ==> #[trigger] b[i] != '"' && b[i] != '\\',
    ensures
        closing_quote(a + seq!['\\', escaped] + b + seq!['"'] + rest, 0) == a.len() + 2 + b.len(),
{
    let s = a + seq!['\\', escaped] + b + seq!['"'] + rest;
    let k = a.len() as int;
    assert forall|i: int| 0 <= i < k implies #[trigger] s[i] != '"' && s[i] != '\\' by {
        assert(s[i] == a[i]);
    }
    lemma_quote_runs(s, 0, k);
    assert(s[k] == '\\');
    assert forall|i: int| k + 2 <= i < k + 2 + b.len() implies #[trigger] s[i] != '"' && s[i]
        != '\\' by {
        assert(s[i] == b[i - k - 2]);
    }
    lemma_quote_closes(s, k + 2, k + 2 + b.len());
}

proof fn lemma_quote_runs(s: Seq<char>, i: int, k: int)
    requires
        0 <= i <= k < s.len(),
        forall|j: int| i <= j < k ==> #[trigger] s[j] != '"' && s[j] != '\\',
    ensures
        closing_quote(s, i) == closing_quote(s, k),
    decreases k - i,
{
    if i < k {
        assert(s[i] != '"');
        lemma_quote_runs(s, i + 1, k);
    }
}

/// Where brackets open more than once before they close, the last opening counts.
pub proof fn law_last_opening_counts(junk: Seq<char>, uri: Seq<char>, params: Seq<char>)
    requires
        forall|i: int| 0 <= i < junk.len() ==> #[trigger] junk[i] != '>',
        uri.len() > 0,
        text::trim_of(uri) == uri,
        forall|i: int|
            0 <= i < uri.len() ==> #[trigger] uri[i] != '<' && uri[i] != '>' && uri[i] != ';'
                && uri[i] != '?',
    ensures
        refer_target(seq!['<'] + junk + seq!['<'] + uri + seq!['>'] + params) == uri,
{
    let value = seq!['<'] + junk + seq!['<'] + uri + seq!['>'] + params;
    let front = seq!['<'] + junk + seq!['<'] + uri + seq!['>'];
    let none = Seq::<char>::empty();
    let kept = text::trim_end_of(params);
    let s = front + kept;
    text::lemma_trim_around(none, front, params);
    assert(none + front + params =~= value);
    assert(text::trim_start_of(none) == none);
    assert(none + front + kept =~= s);
    assert(!begins_with_uri(s)) by {
        reveal_strlit("sip:");
        reveal_strlit("sips:");
        reveal_strlit("tel:");
        assert(text::ascii_lower_of(s)[0] == '<');
        assert("sip:"@[0] == 's' && "sips:"@[0] == 's' && "tel:"@[0] == 't');
    }
    assert(opening_bracket(s, 0) == 0);
    let close = junk.len() as int + 2 + uri.len();
    assert(s[close] == '>');
    assert forall|i: int| 1 <= i < close implies #[trigger] s[i] != '>' by {
        if i < 1 + junk.len() {
            assert(s[i] == junk[i - 1]);
        } else if i > 1 + junk.len() {
            assert(s[i] == uri[i - 2 - junk.len()]);
        }
    }
    lemma_first_is(s, '>', 1, close);
    let inner = s.subrange(1, close);
    let at = junk.len() as int;
    assert(inner[at] == '<');
    assert forall|j: int| at < j < inner.len() implies inner[j] != '<' by {
        assert(inner[j] == uri[j - at - 1]);
    }
    lemma_last_of(inner, '<', at);
    assert(inner.skip(at + 1) =~= uri);
    lemma_before_none(uri, ';', '?');
}

}
