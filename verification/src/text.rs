//! Text helpers over strings seen as sequences of characters.
use vstd::prelude::*;
use vstd::string::*;

verus! {

/// `String::push` appends one character at the end of the string.
pub assume_specification[ String::push ](s: &mut String, c: char)
    ensures
        final(s)@ == old(s)@.push(c),
;

/// The characters with the Unicode `White_Space` property.
pub open spec fn is_white_space(c: char) -> bool {
    let u = c as u32;
    ||| 0x09 <= u <= 0x0d
    ||| u == 0x20
    ||| u == 0x85
    ||| u == 0xa0
    ||| u == 0x1680
    ||| 0x2000 <= u <= 0x200a
    ||| u == 0x2028
    ||| u == 0x2029
    ||| u == 0x202f
    ||| u == 0x205f
    ||| u == 0x3000
}

/// Whether `c` has the Unicode `White_Space` property.
pub fn white_space(c: char) -> (r: bool)
    ensures
        r == is_white_space(c),
{
    let u: u32 = c as u32;
    (0x09 <= u && u <= 0x0d) || u == 0x20 || u == 0x85 || u == 0xa0 || u == 0x1680 || (0x2000 <= u
        && u <= 0x200a) || u == 0x2028 || u == 0x2029 || u == 0x202f || u == 0x205f || u == 0x3000
}

/// `s` without its leading white space.
pub open spec fn trim_start_of(s: Seq<char>) -> Seq<char>
    decreases s.len(),
{
    if s.len() > 0 && is_white_space(s[0]) {
        trim_start_of(s.drop_first())
    } else {
        s
    }
}

/// `s` without its trailing white space.
pub open spec fn trim_end_of(s: Seq<char>) -> Seq<char>
    decreases s.len(),
{
    if s.len() > 0 && is_white_space(s.last()) {
        trim_end_of(s.drop_last())
    } else {
        s
    }
}

/// `s` without leading and trailing white space.
pub open spec fn trim_of(s: Seq<char>) -> Seq<char> {
    trim_end_of(trim_start_of(s))
}

/// `s` without the trailing run of `c`.
pub open spec fn trim_end_char_of(s: Seq<char>, c: char) -> Seq<char>
    decreases s.len(),
{
    if s.len() > 0 && s.last() == c {
        trim_end_char_of(s.drop_last(), c)
    } else {
        s
    }
}

/// The part of `s` in front of the first character that is `a` or `b`; all of
/// `s` when neither occurs.
pub open spec fn before_first_of(s: Seq<char>, a: char, b: char) -> Seq<char>
    decreases s.len(),
{
    if s.len() == 0 || s[0] == a || s[0] == b {
        Seq::empty()
    } else {
        seq![s[0]] + before_first_of(s.drop_first(), a, b)
    }
}

/// The place of the first `c` from place `i` on; -1 where there is none.
pub open spec fn first_from(s: Seq<char>, c: char, i: int) -> int
    decreases s.len() - i,
{
    if i < 0 || i >= s.len() {
        -1
    } else if s[i] == c {
        i
    } else {
        first_from(s, c, i + 1)
    }
}

/// The ASCII lower-case form of one character; other characters stay.
pub open spec fn ascii_lower_char(c: char) -> char {
    if 'A' <= c && c <= 'Z' {
        (c as u32 + 32) as u32 as char
    } else {
        c
    }
}

/// `s` with every ASCII letter in lower case.
pub open spec fn ascii_lower_of(s: Seq<char>) -> Seq<char> {
    Seq::new(s.len(), |i: int| ascii_lower_char(s[i]))
}

/// Whether `needle` occurs in `s`.
pub open spec fn occurs_in(needle: Seq<char>, s: Seq<char>) -> bool {
    exists|i: int| #[trigger] occurs_at(needle, s, i)
}

/// Whether `needle` occurs in `s` at position `i`.
pub open spec fn occurs_at(needle: Seq<char>, s: Seq<char>, i: int) -> bool {
    &&& 0 <= i
    &&& i + needle.len() <= s.len()
    &&& s.subrange(i, i + needle.len()) == needle
}

/// How often `c` occurs in `s`.
pub open spec fn count_of(s: Seq<char>, c: char) -> nat
    decreases s.len(),
{
    if s.len() == 0 {
        0
    } else {
        count_of(s.drop_last(), c) + if s.last() == c {
            1nat
        } else {
            0nat
        }
    }
}

/// The pieces of `s` between the occurrences of `c`.
pub open spec fn split_of(s: Seq<char>, c: char) -> Seq<Seq<char>>
    decreases s.len(),
{
    if s.len() == 0 {
        seq![Seq::<char>::empty()]
    } else {
        let rest = split_of(s.drop_last(), c);
        if s.last() == c {
            rest.push(Seq::empty())
        } else {
            rest.drop_last().push(rest.last().push(s.last()))
        }
    }
}

/// `parts` in one sequence, with `sep` between neighbours.
pub open spec fn join_of(parts: Seq<Seq<char>>, sep: Seq<char>) -> Seq<char>
    decreases parts.len(),
{
    if parts.len() == 0 {
        Seq::empty()
    } else if parts.len() == 1 {
        parts[0]
    } else {
        join_of(parts.drop_last(), sep) + sep + parts.last()
    }
}

/// The views of the strings in a vector.
pub open spec fn views_of(v: Seq<String>) -> Seq<Seq<char>> {
    Seq::new(v.len(), |i: int| v[i]@)
}

/// The view of an optional string.
pub open spec fn opt_view(o: Option<String>) -> Option<Seq<char>> {
    match o {
        Some(s) => Some(s@),
        None => None,
    }
}

/// The characters of a string, in order.
pub fn chars_of(s: &str) -> (r: Vec<char>)
    ensures
        r@ == s@,
{
    let mut r: Vec<char> = Vec::new();
    for c in it: s.chars()
        invariant
            r@ == s@.subrange(0, it.index() as int),
            it.seq() == s@,
    {
        r.push(c);
    }
    assert(s@.subrange(0, s@.len() as int) =~= s@);
    r
}

/// The string made of the characters `v[from..to]`.
pub fn string_of(v: &Vec<char>, from: usize, to: usize) -> (r: String)
    requires
        from <= to <= v@.len(),
    ensures
        r@ == v@.subrange(from as int, to as int),
{
    let mut r: String = String::new();
    let mut i: usize = from;
    assert(r@ =~= v@.subrange(from as int, from as int));
    while i < to
        invariant
            from <= i <= to <= v@.len(),
            r@ == v@.subrange(from as int, i as int),
        decreases to - i,
    {
        r.push(v[i]);
        i = i + 1;
        assert(r@ =~= v@.subrange(from as int, i as int));
    }
    r
}

/// Whether two strings hold the same characters.
pub fn str_eq(a: &str, b: &str) -> (r: bool)
    ensures
        r == (a@ == b@),
{
    let x: String = a.to_owned();
    let y: String = b.to_owned();
    x == y
}

proof fn lemma_trim_start(s: Seq<char>, i: int)
    requires
        0 <= i <= s.len(),
        forall|j: int| 0 <= j < i ==> is_white_space(#[trigger] s[j]),
        i < s.len() ==> !is_white_space(s[i]),
    ensures
        trim_start_of(s) == s.subrange(i, s.len() as int),
    decreases i,
{
    if i == 0 {
        assert(s.subrange(0, s.len() as int) =~= s);
    } else {
        let t = s.drop_first();
        assert forall|j: int| 0 <= j < i - 1 implies is_white_space(#[trigger] t[j]) by {
            assert(t[j] == s[j + 1]);
        }
        lemma_trim_start(t, i - 1);
        assert(t.subrange(i - 1, t.len() as int) =~= s.subrange(i, s.len() as int));
    }
}

proof fn lemma_trim_end(s: Seq<char>, i: int)
    requires
        0 <= i <= s.len(),
        forall|j: int| i <= j < s.len() ==> is_white_space(#[trigger] s[j]),
        i > 0 ==> !is_white_space(s[i - 1]),
    ensures
        trim_end_of(s) == s.subrange(0, i),
    decreases s.len() - i,
{
    if i == s.len() {
        assert(s.subrange(0, i) =~= s);
    } else {
        lemma_trim_end(s.drop_last(), i);
        assert(s.drop_last().subrange(0, i) =~= s.subrange(0, i));
    }
}

/// `s` without leading and trailing white space.
pub fn trim(s: &str) -> (r: String)
    ensures
        r@ == trim_of(s@),
{
    let v: Vec<char> = chars_of(s);
    let mut from: usize = 0;
    while from < v.len() && white_space(v[from])
        invariant
            0 <= from <= v@.len(),
            forall|j: int| 0 <= j < from ==> is_white_space(#[trigger] v@[j]),
        decreases v@.len() - from,
    {
        from = from + 1;
    }
    proof {
        lemma_trim_start(v@, from as int);
    }
    let mut to: usize = v.len();
    while from < to && white_space(v[to - 1])
        invariant
            from <= to <= v@.len(),
            forall|j: int| to <= j < v@.len() ==> is_white_space(#[trigger] v@[j]),
        decreases to,
    {
        to = to - 1;
    }
    proof {
        let t = v@.subrange(from as int, v@.len() as int);
        assert forall|j: int| to - from <= j < t.len() implies is_white_space(#[trigger] t[j]) by {
            assert(t[j] == v@[j + from]);
        }
        lemma_trim_end(t, to - from);
        assert(t.subrange(0, to - from) =~= v@.subrange(from as int, to as int));
    }
    string_of(&v, from, to)
}

proof fn lemma_trim_end_char(s: Seq<char>, c: char, i: int)
    requires
        0 <= i <= s.len(),
        forall|j: int| i <= j < s.len() ==> #[trigger] s[j] == c,
        i > 0 ==> s[i - 1] != c,
    ensures
        trim_end_char_of(s, c) == s.subrange(0, i),
    decreases s.len() - i,
{
    if i == s.len() {
        assert(s.subrange(0, i) =~= s);
    } else {
        lemma_trim_end_char(s.drop_last(), c, i);
        assert(s.drop_last().subrange(0, i) =~= s.subrange(0, i));
    }
}

/// `s` without the trailing run of `c`.
pub fn trim_end_char(s: &str, c: char) -> (r: String)
    ensures
        r@ == trim_end_char_of(s@, c),
{
    let v: Vec<char> = chars_of(s);
    let mut to: usize = v.len();
    while 0 < to && v[to - 1] == c
        invariant
            0 <= to <= v@.len(),
            forall|j: int| to <= j < v@.len() ==> #[trigger] v@[j] == c,
        decreases to,
    {
        to = to - 1;
    }
    proof {
        lemma_trim_end_char(v@, c, to as int);
    }
    string_of(&v, 0, to)
}

/// Whether `v[at..]` begins with `p`.
fn chars_match_at(v: &Vec<char>, p: &Vec<char>, at: usize) -> (r: bool)
    requires
        at + p@.len() <= v@.len(),
    ensures
        r == (v@.subrange(at as int, at + p@.len()) == p@),
{
    let n: usize = v.len();
    let mut i: usize = 0;
    while i < p.len()
        invariant
            n == v@.len(),
            0 <= i <= p@.len(),
            at + p@.len() <= v@.len(),
            v@.subrange(at as int, at + i) == p@.subrange(0, i as int),
        decreases p@.len() - i,
    {
        if v[at + i] != p[i] {
            assert(v@.subrange(at as int, at + p@.len())[i as int] == v@[at + i]);
            return false;
        }
        i = i + 1;
        assert(v@.subrange(at as int, at + i) =~= p@.subrange(0, i as int)) by {
            assert(v@.subrange(at as int, at + i) =~= v@.subrange(at as int, at + i - 1).push(
                v@[at + i - 1],
            ));
            assert(p@.subrange(0, i as int) =~= p@.subrange(0, i - 1).push(p@[i - 1]));
        }
    }
    assert(p@.subrange(0, p@.len() as int) =~= p@);
    true
}

/// Whether `s` begins with `p`.
pub fn starts_with(s: &str, p: &str) -> (r: bool)
    ensures
        r == p@.is_prefix_of(s@),
{
    let v: Vec<char> = chars_of(s);
    let q: Vec<char> = chars_of(p);
    if q.len() > v.len() {
        return false;
    }
    chars_match_at(&v, &q, 0)
}

/// `s` from the character at `at` on.
pub fn skip(s: &str, at: usize) -> (r: String)
    requires
        at <= s@.len(),
    ensures
        r@ == s@.skip(at as int),
{
    let v: Vec<char> = chars_of(s);
    assert(v@.subrange(at as int, v@.len() as int) =~= v@.skip(at as int));
    string_of(&v, at, v.len())
}

/// What follows the prefix `p` in `s`, where `s` begins with `p`.
pub fn strip_prefix(s: &str, p: &str) -> (r: Option<String>)
    ensures
        r is Some <==> p@.is_prefix_of(s@),
        r matches Some(t) ==> t@ == s@.skip(p@.len() as int),
{
    if starts_with(s, p) {
        let n: usize = chars_of(p).len();
        Some(skip(s, n))
    } else {
        None
    }
}

/// Whether `needle` occurs in `s`.
pub fn contains(s: &str, needle: &str) -> (r: bool)
    ensures
        r == occurs_in(needle@, s@),
{
    let v: Vec<char> = chars_of(s);
    let q: Vec<char> = chars_of(needle);
    if q.len() > v.len() {
        return false;
    }
    let last: usize = v.len() - q.len();
    let mut at: usize = 0;
    loop
        invariant
            v@ == s@,
            q@ == needle@,
            q@.len() <= v@.len(),
            last == v@.len() - q@.len(),
            0 <= at <= last,
            forall|i: int| 0 <= i < at ==> !#[trigger] occurs_at(needle@, s@, i),
        decreases last - at,
    {
        if chars_match_at(&v, &q, at) {
            assert(occurs_at(needle@, s@, at as int));
            return true;
        }
        assert(!occurs_at(needle@, s@, at as int));
        if at == last {
            assert forall|i: int| !#[trigger] occurs_at(needle@, s@, i) by {}
            return false;
        }
        at = at + 1;
    }
}

/// The ASCII lower-case form of one character.
fn lower_char(c: char) -> (r: char)
    ensures
        r == ascii_lower_char(c),
{
    if 'A' <= c && c <= 'Z' {
        let b: u8 = c as u8;
        let l: u8 = b + 32;
        l as char
    } else {
        c
    }
}

/// `s` with every ASCII letter in lower case.
pub fn to_ascii_lower(s: &str) -> (r: String)
    ensures
        r@ == ascii_lower_of(s@),
{
    let v: Vec<char> = chars_of(s);
    let mut r: String = String::new();
    let mut i: usize = 0;
    while i < v.len()
        invariant
            0 <= i <= v@.len(),
            v@ == s@,
            r@ == ascii_lower_of(s@).subrange(0, i as int),
        decreases v@.len() - i,
    {
        r.push(lower_char(v[i]));
        i = i + 1;
        assert(r@ =~= ascii_lower_of(s@).subrange(0, i as int));
    }
    assert(ascii_lower_of(s@).subrange(0, s@.len() as int) =~= ascii_lower_of(s@));
    r
}

/// Whether two strings are equal but for the case of ASCII letters.
pub fn eq_ignore_ascii_case(a: &str, b: &str) -> (r: bool)
    ensures
        r == (ascii_lower_of(a@) == ascii_lower_of(b@)),
{
    let x: String = to_ascii_lower(a);
    let y: String = to_ascii_lower(b);
    x == y
}

/// How often `c` occurs in `s`.
pub fn count_char(s: &str, c: char) -> (r: usize)
    ensures
        r == count_of(s@, c),
{
    let v: Vec<char> = chars_of(s);
    let mut n: usize = 0;
    let mut i: usize = 0;
    while i < v.len()
        invariant
            0 <= i <= v@.len(),
            n == count_of(v@.subrange(0, i as int), c),
            n <= i,
        decreases v@.len() - i,
    {
        assert(v@.subrange(0, i + 1).drop_last() =~= v@.subrange(0, i as int));
        if v[i] == c {
            n = n + 1;
        }
        i = i + 1;
    }
    assert(v@.subrange(0, v@.len() as int) =~= v@);
    n
}

/// The place of the first `c` from place `from` on.
pub fn find_from(chars: &Vec<char>, c: char, from: usize) -> (r: Option<usize>)
    ensures
        match r {
            Some(i) => i < chars@.len() && first_from(chars@, c, from as int) == i,
            None => first_from(chars@, c, from as int) == -1,
        },
{
    let mut i: usize = from;
    while i < chars.len()
        invariant
            first_from(chars@, c, i as int) == first_from(chars@, c, from as int),
        decreases chars@.len() - i,
    {
        if chars[i] == c {
            return Some(i);
        }
        i = i + 1;
    }
    None
}

/// The place of the first `c` in a text.
pub fn find_char(s: &str, c: char) -> (r: Option<usize>)
    ensures
        match r {
            Some(i) => i < s@.len() && first_from(s@, c, 0) == i,
            None => first_from(s@, c, 0) == -1,
        },
{
    let chars: Vec<char> = chars_of(s);
    find_from(&chars, c, 0)
}

/// Position of the last `c` in `s`.
pub fn rfind_char(s: &str, c: char) -> (r: Option<usize>)
    ensures
        r is Some <==> s@.contains(c),
        r matches Some(i) ==> i < s@.len() && s@[i as int] == c && forall|j: int|
            i < j < s@.len() ==> s@[j] != c,
{
    let v: Vec<char> = chars_of(s);
    let mut i: usize = v.len();
    while 0 < i
        invariant
            0 <= i <= v@.len(),
            v@ == s@,
            forall|j: int| i <= j < s@.len() ==> s@[j] != c,
        decreases i,
    {
        i = i - 1;
        if v[i] == c {
            return Some(i);
        }
    }
    None
}

/// The characters of `s` in `from..to`.
pub fn slice(s: &str, from: usize, to: usize) -> (r: String)
    requires
        from <= to <= s@.len(),
    ensures
        r@ == s@.subrange(from as int, to as int),
{
    let v: Vec<char> = chars_of(s);
    string_of(&v, from, to)
}

proof fn lemma_before_first(s: Seq<char>, a: char, b: char, i: int)
    requires
        0 <= i <= s.len(),
        forall|j: int| 0 <= j < i ==> #[trigger] s[j] != a && s[j] != b,
        i < s.len() ==> s[i] == a || s[i] == b,
    ensures
        before_first_of(s, a, b) == s.subrange(0, i),
    decreases i,
{
    if i == 0 {
        assert(s.subrange(0, 0) =~= Seq::<char>::empty());
    } else {
        let t = s.drop_first();
        assert forall|j: int| 0 <= j < i - 1 implies #[trigger] t[j] != a && t[j] != b by {
            assert(t[j] == s[j + 1]);
        }
        lemma_before_first(t, a, b, i - 1);
        assert(seq![s[0]] + t.subrange(0, i - 1) =~= s.subrange(0, i));
    }
}

/// The part of `s` in front of the first `a` or `b`.
pub fn before_first(s: &str, a: char, b: char) -> (r: String)
    ensures
        r@ == before_first_of(s@, a, b),
{
    let v: Vec<char> = chars_of(s);
    let mut i: usize = 0;
    while i < v.len() && v[i] != a && v[i] != b
        invariant
            0 <= i <= v@.len(),
            forall|j: int| 0 <= j < i ==> #[trigger] v@[j] != a && v@[j] != b,
        decreases v@.len() - i,
    {
        i = i + 1;
    }
    proof {
        lemma_before_first(v@, a, b, i as int);
    }
    string_of(&v, 0, i)
}

/// The pieces of `s` between the occurrences of `c`.
pub fn split_char(s: &str, c: char) -> (r: Vec<String>)
    ensures
        views_of(r@) == split_of(s@, c),
{
    let v: Vec<char> = chars_of(s);
    let mut r: Vec<String> = Vec::new();
    let mut start: usize = 0;
    let mut i: usize = 0;
    assert(v@.subrange(0, 0) =~= Seq::<char>::empty());
    while i < v.len()
        invariant
            0 <= start <= i <= v@.len(),
            views_of(r@).push(v@.subrange(start as int, i as int)) == split_of(
                v@.subrange(0, i as int),
                c,
            ),
        decreases v@.len() - i,
    {
        let ghost done = views_of(r@);
        assert(v@.subrange(0, i + 1).drop_last() =~= v@.subrange(0, i as int));
        assert(done.push(v@.subrange(start as int, i as int)).drop_last() =~= done);
        if v[i] == c {
            let ghost piece = v@.subrange(start as int, i as int);
            r.push(string_of(&v, start, i));
            start = i + 1;
            assert(views_of(r@) =~= done.push(piece));
            assert(v@.subrange(i + 1, i + 1) =~= Seq::<char>::empty());
        } else {
            assert(v@.subrange(start as int, i as int).push(v@[i as int]) =~= v@.subrange(
                start as int,
                i + 1,
            ));
        }
        i = i + 1;
    }
    assert(v@.subrange(0, v@.len() as int) =~= v@);
    let ghost done = views_of(r@);
    r.push(string_of(&v, start, v.len()));
    assert(views_of(r@) =~= done.push(v@.subrange(start as int, v@.len() as int)));
    r
}

/// `parts` in one string, with `sep` between neighbours.
pub fn join(parts: &Vec<String>, sep: &str) -> (r: String)
    ensures
        r@ == join_of(views_of(parts@), sep@),
{
    let mut r: String = String::new();
    let mut i: usize = 0;
    assert(views_of(parts@).take(0) =~= Seq::<Seq<char>>::empty());
    while i < parts.len()
        invariant
            0 <= i <= parts@.len(),
            r@ == join_of(views_of(parts@).take(i as int), sep@),
        decreases parts@.len() - i,
    {
        let ghost w = views_of(parts@);
        assert(w.take(i + 1).drop_last() =~= w.take(i as int));
        assert(w.take(i + 1).last() == parts@[i as int]@);
        if i > 0 {
            r.append(sep);
        } else {
            assert(r@ =~= Seq::<char>::empty());
        }
        r.append(parts[i].as_str());
        assert(i == 0 ==> r@ =~= parts@[0]@);
        i = i + 1;
    }
    assert(views_of(parts@).take(parts@.len() as int) =~= views_of(parts@));
    r
}

/// `a` followed by `b`.
pub fn concat2(a: &str, b: &str) -> (r: String)
    ensures
        r@ == a@ + b@,
{
    let mut r: String = a.to_owned();
    r.append(b);
    r
}

/// What is left after trimming begins and ends with no white space.
pub proof fn law_trimmed_ends(s: Seq<char>)
    ensures
        trim_of(s).len() > 0 ==> !is_white_space(trim_of(s).first()) && !is_white_space(
            trim_of(s).last(),
        ),
{
    lemma_start_trimmed(s);
    lemma_end_trimmed(trim_start_of(s));
}

/// Trimming twice is trimming once.
pub proof fn law_trim_once(s: Seq<char>)
    ensures
        trim_of(trim_of(s)) == trim_of(s),
{
    law_trimmed_ends(s);
    lemma_plain_is_trimmed(trim_of(s));
}

/// A text that begins and ends with no white space is its own trimmed form.
pub proof fn lemma_plain_is_trimmed(s: Seq<char>)
    requires
        s.len() > 0 ==> !is_white_space(s.first()) && !is_white_space(s.last()),
    ensures
        trim_of(s) == s,
{
}

proof fn lemma_start_trimmed(s: Seq<char>)
    ensures
        trim_start_of(s).len() > 0 ==> !is_white_space(trim_start_of(s).first()),
    decreases s.len(),
{
    if s.len() > 0 && is_white_space(s[0]) {
        lemma_start_trimmed(s.drop_first());
    }
}

proof fn lemma_end_trimmed(s: Seq<char>)
    ensures
        trim_end_of(s).len() > 0 ==> !is_white_space(trim_end_of(s).last()),
        s.len() > 0 && !is_white_space(s.first()) ==> trim_end_of(s).len() > 0 && trim_end_of(
            s,
        ).first() == s.first(),
    decreases s.len(),
{
    if s.len() > 0 && is_white_space(s.last()) {
        lemma_end_trimmed(s.drop_last());
    }
}

/// Trimming leaves a part of the text.
pub proof fn law_trim_is_a_part(s: Seq<char>)
    ensures
        exists|at: int|
            0 <= at && at + trim_of(s).len() <= s.len() && #[trigger] s.subrange(
                at,
                at + trim_of(s).len(),
            ) == trim_of(s),
{
    lemma_start_is_suffix(s);
    lemma_end_is_prefix(trim_start_of(s));
    let at = s.len() - trim_start_of(s).len();
    assert(s.subrange(at, at + trim_of(s).len()) =~= trim_of(s));
}

proof fn lemma_start_is_suffix(s: Seq<char>)
    ensures
        trim_start_of(s).len() <= s.len(),
        s.skip(s.len() - trim_start_of(s).len()) == trim_start_of(s),
    decreases s.len(),
{
    if s.len() > 0 && is_white_space(s[0]) {
        let rest = s.drop_first();
        lemma_start_is_suffix(rest);
        assert(s.skip(s.len() - trim_start_of(s).len()) =~= rest.skip(
            rest.len() - trim_start_of(rest).len(),
        ));
    } else {
        assert(s.skip(0) =~= s);
    }
}

proof fn lemma_end_is_prefix(s: Seq<char>)
    ensures
        trim_end_of(s).len() <= s.len(),
        s.take(trim_end_of(s).len() as int) == trim_end_of(s),
    decreases s.len(),
{
    if s.len() > 0 && is_white_space(s.last()) {
        let rest = s.drop_last();
        lemma_end_is_prefix(rest);
        assert(s.take(trim_end_of(s).len() as int) =~= rest.take(
            trim_end_of(rest).len() as int,
        ));
    } else {
        assert(s.take(s.len() as int) =~= s);
    }
}

/// Trimming stops at a part that begins and ends with no white space.
pub(crate) proof fn lemma_trim_around(a: Seq<char>, middle: Seq<char>, b: Seq<char>)
    requires
        middle.len() > 0,
        !is_white_space(middle.first()),
        !is_white_space(middle.last()),
    ensures
        trim_of(a + middle + b) == trim_start_of(a) + middle + trim_end_of(b),
{
    lemma_start_up_to(a, middle + b);
    assert(a + (middle + b) =~= a + middle + b);
    assert(trim_start_of(a) + (middle + b) =~= (trim_start_of(a) + middle) + b);
    lemma_end_up_to(trim_start_of(a) + middle, b);
}

proof fn lemma_start_up_to(a: Seq<char>, b: Seq<char>)
    requires
        b.len() > 0,
        !is_white_space(b.first()),
    ensures
        trim_start_of(a + b) == trim_start_of(a) + b,
    decreases a.len(),
{
    if a.len() == 0 {
        assert(a + b =~= b);
    } else if is_white_space(a[0]) {
        assert((a + b).drop_first() =~= a.drop_first() + b);
        lemma_start_up_to(a.drop_first(), b);
    }
}

proof fn lemma_end_up_to(a: Seq<char>, b: Seq<char>)
    requires
        a.len() > 0,
        !is_white_space(a.last()),
    ensures
        trim_end_of(a + b) == a + trim_end_of(b),
    decreases b.len(),
{
    if b.len() == 0 {
        assert(a + b =~= a);
    } else if is_white_space(b.last()) {
        assert((a + b).drop_last() =~= a + b.drop_last());
        lemma_end_up_to(a, b.drop_last());
    }
}

/// What trimming leaves of either end holds no other characters.
pub(crate) proof fn lemma_trim_parts(a: Seq<char>, b: Seq<char>)
    ensures
        forall|i: int|
            0 <= i < trim_start_of(a).len() ==> a.contains(#[trigger] trim_start_of(a)[i]),
        forall|i: int| 0 <= i < trim_end_of(b).len() ==> b.contains(#[trigger] trim_end_of(b)[i]),
{
    lemma_start_is_suffix(a);
    lemma_end_is_prefix(b);
    assert forall|i: int| 0 <= i < trim_start_of(a).len() implies a.contains(
        #[trigger] trim_start_of(a)[i],
    ) by {
        assert(a.skip(a.len() - trim_start_of(a).len())[i] == a[a.len() - trim_start_of(a).len()
            + i]);
    }
    assert forall|i: int| 0 <= i < trim_end_of(b).len() implies b.contains(
        #[trigger] trim_end_of(b)[i],
    ) by {
        assert(b.take(trim_end_of(b).len() as int)[i] == b[i]);
    }
}

/// A first character that is no white space stays when the end is trimmed.
pub(crate) proof fn lemma_kept_front(s: Seq<char>)
    requires
        s.len() > 0,
        !is_white_space(s.first()),
    ensures
        trim_end_of(s).len() > 0,
        trim_end_of(s)[0] == s[0],
{
    lemma_end_trimmed(s);
}

proof fn lemma_split_some(s: Seq<char>, c: char)
    ensures
        split_of(s, c).len() > 0,
    decreases s.len(),
{
    if s.len() > 0 {
        lemma_split_some(s.drop_last(), c);
    }
}

proof fn lemma_split_extend(s: Seq<char>, t: Seq<char>, c: char)
    requires
        forall|i: int| 0 <= i < t.len() ==> t[i] != c,
    ensures
        split_of(s + t, c) == split_of(s, c).drop_last().push(split_of(s, c).last() + t),
    decreases t.len(),
{
    lemma_split_some(s, c);
    let parts = split_of(s, c);
    if t.len() == 0 {
        assert(s + t =~= s);
        assert(parts.last() + t =~= parts.last());
        assert(parts =~= parts.drop_last().push(parts.last()));
    } else {
        let head = t.drop_last();
        lemma_split_extend(s, head, c);
        assert((s + t).drop_last() =~= s + head);
        assert((s + t).last() == t.last());
        assert(t.last() == t[t.len() - 1]);
        let before = split_of(s + head, c);
        assert(before.drop_last() =~= parts.drop_last());
        assert(before.last() == parts.last() + head);
        assert((parts.last() + head).push(t.last()) =~= parts.last() + t);
    }
}

/// What was joined with a separator is what splitting gives, where no part
/// holds the separator.
pub proof fn law_split_undoes_join(parts: Seq<Seq<char>>, c: char)
    requires
        parts.len() > 0,
        forall|i: int, j: int|
            0 <= i < parts.len() && 0 <= j < parts[i].len() ==> (#[trigger] parts[i][j]) != c,
    ensures
        split_of(join_of(parts, seq![c]), c) == parts,
    decreases parts.len(),
{
    let last = parts.last();
    assert forall|j: int| 0 <= j < last.len() implies last[j] != c by {
        assert(parts[parts.len() - 1][j] != c);
    }
    if parts.len() == 1 {
        lemma_split_extend(Seq::empty(), last, c);
        assert(Seq::<char>::empty() + last =~= last);
        assert(split_of(Seq::<char>::empty(), c) =~= seq![Seq::<char>::empty()]);
        assert(split_of(last, c) =~= parts);
    } else {
        let head = parts.drop_last();
        assert forall|i: int, j: int| 0 <= i < head.len() && 0 <= j < head[i].len() implies (
        #[trigger] head[i][j]) != c by {
            assert(parts[i][j] != c);
        }
        law_split_undoes_join(head, c);
        let s = join_of(head, seq![c]) + seq![c];
        assert(s.drop_last() =~= join_of(head, seq![c]));
        assert(split_of(s, c) == head.push(Seq::empty()));
        lemma_split_extend(s, last, c);
        assert(head.push(Seq::<char>::empty()).drop_last() =~= head);
        assert(Seq::<char>::empty() + last =~= last);
        assert(join_of(parts, seq![c]) =~= s + last);
        assert(head.push(last) =~= parts);
    }
}

/// Printable ASCII characters are no white space but for the space; tabs, line
/// ends and the spaces of other scripts are, and no letter of any script is.
pub proof fn law_white_space(c: char)
    ensures
        c == '\u{b}' || c == '\u{c}' || c == '\u{85}' || c == '\u{1680}' ==> is_white_space(c),
        '\u{2000}' <= c <= '\u{200a}' || '\u{2028}' <= c <= '\u{2029}' ==> is_white_space(c),
        c == '\u{202f}' || c == '\u{205f}' ==> is_white_space(c),
        c < '\t' || '\u{e}' <= c < ' ' || '\u{a1}' <= c < '\u{1680}' ==> !is_white_space(c),
        '\u{1681}' <= c < '\u{2000}' || '\u{200b}' <= c < '\u{2028}' ==> !is_white_space(c),
        '\u{2060}' <= c < '\u{3000}' || '\u{3000}' < c ==> !is_white_space(c),
        0x21 <= c as u32 <= 0x7e ==> !is_white_space(c),
        c == ' ' || c == '\t' || c == '\n' || c == '\r' ==> is_white_space(c),
        c == '\u{a0}' || c == '\u{2003}' || c == '\u{3000}' ==> is_white_space(c),
{
}

/// Trimming takes away the white space around a text and nothing else; of white
/// space alone it leaves nothing.
pub proof fn law_trim_takes_white_space(a: Seq<char>, middle: Seq<char>, b: Seq<char>)
    requires
        forall|i: int| 0 <= i < a.len() ==> is_white_space(#[trigger] a[i]),
        forall|i: int| 0 <= i < b.len() ==> is_white_space(#[trigger] b[i]),
        middle.len() > 0,
        !is_white_space(middle.first()),
        !is_white_space(middle.last()),
    ensures
        trim_of(a + middle + b) == middle,
        trim_of(a) == Seq::<char>::empty(),
{
    lemma_trim_around(a, middle, b);
    lemma_trim_start(a, a.len() as int);
    lemma_trim_end(b, 0);
    assert(trim_start_of(a) =~= Seq::empty());
    assert(trim_end_of(b) =~= Seq::empty());
    assert(Seq::<char>::empty() + middle + Seq::<char>::empty() =~= middle);
}

/// What stands in front of the first of two characters is all that comes before
/// it; where neither occurs, it is the whole text.
pub proof fn law_before_the_first(head: Seq<char>, at: char, rest: Seq<char>, a: char, b: char)
    requires
        forall|i: int| 0 <= i < head.len() ==> (#[trigger] head[i]) != a && head[i] != b,
        at == a || at == b,
    ensures
        before_first_of(head + seq![at] + rest, a, b) == head,
        before_first_of(head, a, b) == head,
{
    let s = head + seq![at] + rest;
    lemma_before_first(s, a, b, head.len() as int);
    assert(s.subrange(0, head.len() as int) =~= head);
    lemma_before_first(head, a, b, head.len() as int);
    assert(head.subrange(0, head.len() as int) =~= head);
}

/// The place of the first of a character is one where it stands, with none in
/// front of it; it is -1 where there is none.
pub proof fn law_place_of_the_first(s: Seq<char>, c: char, i: int, k: int)
    requires
        0 <= i,
    ensures
        ({
            let at = first_from(s, c, i);
            &&& at >= 0 ==> i <= at < s.len() && s[at] == c
            &&& at >= 0 && i <= k < at ==> s[k] != c
            &&& at < 0 ==> at == -1
            &&& at < 0 && i <= k < s.len() ==> s[k] != c
        }),
    decreases s.len() - i,
{
    if i < s.len() && s[i] != c {
        law_place_of_the_first(s, c, i + 1, k);
    }
}

/// Small letters: each of the twenty-six capital letters of ASCII becomes the
/// small one 32 places behind it, and no other character changes. Doing so twice
/// is doing so once.
pub proof fn law_small_letters(s: Seq<char>, i: int)
    requires
        0 <= i < s.len(),
    ensures
        ascii_lower_of(s).len() == s.len(),
        0x41 <= s[i] as u32 <= 0x5a ==> ascii_lower_of(s)[i] as u32 == s[i] as u32 + 32,
        !(0x41 <= s[i] as u32 <= 0x5a) ==> ascii_lower_of(s)[i] == s[i],
        ascii_lower_of(ascii_lower_of(s)) == ascii_lower_of(s),
{
    assert(ascii_lower_of(ascii_lower_of(s)) =~= ascii_lower_of(s));
}

/// A text occurs in whatever is put around it, and in nothing that it is not a
/// part of.
pub proof fn law_parts_occur(before: Seq<char>, part: Seq<char>, behind: Seq<char>, s: Seq<char>)
    ensures
        occurs_in(part, before + part + behind),
        occurs_in(part, s) ==> exists|i: int|
            0 <= i <= s.len() - part.len() && #[trigger] s.subrange(i, i + part.len()) == part,
        part.len() > s.len() ==> !occurs_in(part, s),
{
    let whole = before + part + behind;
    let at = before.len() as int;
    assert(whole.subrange(at, at + part.len()) =~= part);
    assert(occurs_at(part, whole, at));
    if occurs_in(part, s) {
        let i = choose|i: int| #[trigger] occurs_at(part, s, i);
        assert(s.subrange(i, i + part.len()) == part);
    }
}

/// Characters are counted one by one: in two texts together there are as many as
/// in each.
#[verifier::spinoff_prover]
pub proof fn law_counts_add_up(a: Seq<char>, b: Seq<char>, c: char)
    ensures
        count_of(a + b, c) == count_of(a, c) + count_of(b, c),
        count_of(seq![c], c) == 1,
        count_of(Seq::empty(), c) == 0,
        a.contains(c) <==> count_of(a, c) > 0,
    decreases a.len() + b.len(),
{
    reveal_with_fuel(count_of, 2);
    assert(seq![c].drop_last() =~= Seq::empty());
    if b.len() == 0 {
        assert(a + b =~= a);
        if a.len() > 0 {
            let rest = a.drop_last();
            law_counts_add_up(rest, b, c);
            assert(rest + b =~= rest);
            if rest.contains(c) {
                let i = choose|i: int| 0 <= i < rest.len() && rest[i] == c;
                assert(a[i] == c);
            }
            if a.contains(c) && a.last() != c {
                let i = choose|i: int| 0 <= i < a.len() && a[i] == c;
                assert(rest[i] == c);
            }
            if a.last() == c {
                assert(a[a.len() - 1] == c);
            }
        }
    } else {
        law_counts_add_up(a, b.drop_last(), c);
        assert((a + b).drop_last() =~= a + b.drop_last());
        assert((a + b).last() == b.last());
    }
}

/// A run of one character at the end of a text is taken away, however long it is;
/// a text that ends otherwise stays.
pub proof fn law_trailing_run_leaves(s: Seq<char>, c: char)
    ensures
        trim_end_char_of(s.push(c), c) == trim_end_char_of(s, c),
        s.len() > 0 && s.last() != c ==> trim_end_char_of(s, c) == s,
        trim_end_char_of(s, c).len() > 0 ==> trim_end_char_of(s, c).last() != c,
        trim_end_char_of(s, c).is_prefix_of(s),
    decreases s.len(),
{
    assert(s.push(c).drop_last() =~= s);
    if s.len() > 0 && s.last() == c {
        law_trailing_run_leaves(s.drop_last(), c);
        let kept = trim_end_char_of(s, c);
        assert(kept =~= s.take(kept.len() as int));
    } else {
        assert(s =~= s.take(s.len() as int));
    }
}

/// A text that was split is what joining its pieces gives, and no piece holds the
/// character at which it was split.
#[verifier::spinoff_prover]
pub proof fn law_join_undoes_split(s: Seq<char>, c: char, i: int, j: int)
    ensures
        split_of(s, c).len() == count_of(s, c) + 1,
        join_of(split_of(s, c), seq![c]) == s,
        0 <= i < split_of(s, c).len() && 0 <= j < split_of(s, c)[i].len() ==> split_of(
            s,
            c,
        )[i][j] != c,
    decreases s.len(),
{
    let parts = split_of(s, c);
    if s.len() > 0 {
        let head = s.drop_last();
        law_join_undoes_split(head, c, i, j);
        law_join_undoes_split(head, c, parts.len() - 1, j);
        let before = split_of(head, c);
        lemma_split_some(head, c);
        assert(s =~= head.push(s.last()));
        if s.last() == c {
            assert(parts.drop_last() =~= before);
            assert(join_of(parts, seq![c]) == join_of(before, seq![c]) + seq![c] + Seq::<
                char,
            >::empty());
            assert(join_of(parts, seq![c]) =~= s);
        } else {
            assert(parts.drop_last() =~= before.drop_last());
            assert(parts.last() == before.last().push(s.last()));
            if parts.len() == 1 {
                assert(join_of(before, seq![c]) == before[0]);
                assert(join_of(parts, seq![c]) =~= s);
            } else {
                assert(join_of(parts, seq![c]) =~= join_of(before, seq![c]).push(s.last()));
            }
        }
    } else {
        assert(parts =~= seq![Seq::<char>::empty()]);
    }
}

/// The views of texts are those of each, in their order.
pub proof fn law_views_in_order(v: Seq<String>, i: int, s: String)
    requires
        0 <= i < v.len(),
    ensures
        views_of(v).len() == v.len(),
        views_of(v)[i] == v[i]@,
        opt_view(Some(s)) == Some(s@),
        opt_view(None) is None,
{
}

}
