//! The parameters with which a client asks for a call.
use crate::text;
use vstd::prelude::*;
use vstd::string::*;

verus! {

/// The parameters with which a client asks for a call.
#[derive(Debug, PartialEq, Eq)]
pub struct CallParams {
    pub id: Option<String>,
    pub dump_events: Option<bool>,
    /// Seconds between pings.
    pub ping_interval: Option<u32>,
    pub server_side_track: Option<String>,
    /// The request comes from another node that looks for the call.
    pub forward: Option<bool>,
    /// The nodes that were asked before, separated by commas.
    pub visited: Option<String>,
}

/// A byte stands for itself in a query: a letter, a digit, or one of `-`, `.`,
/// `_` and `~`.
pub open spec fn unreserved(b: u8) -> bool {
    ||| 0x41 <= b <= 0x5a
    ||| 0x61 <= b <= 0x7a
    ||| 0x30 <= b <= 0x39
    ||| b == 0x2d || b == 0x2e || b == 0x5f || b == 0x7e
}

/// The hexadecimal digit of a number below sixteen.
pub open spec fn hex_digit(n: u8) -> char {
    if n < 10 {
        (0x30 + n) as u8 as char
    } else {
        (0x41 + n - 10) as u8 as char
    }
}

/// What stands for a byte in a query.
pub open spec fn encoded_byte(b: u8) -> Seq<char> {
    if unreserved(b) {
        seq![b as char]
    } else {
        seq!['%', hex_digit(b / 16), hex_digit(b % 16)]
    }
}

/// What stands for bytes in a query.
pub open spec fn encoded_bytes(bytes: Seq<u8>) -> Seq<char>
    decreases bytes.len(),
{
    if bytes.len() == 0 {
        Seq::empty()
    } else {
        encoded_bytes(bytes.drop_last()) + encoded_byte(bytes.last())
    }
}

/// What stands for a text in a query: its UTF-8 bytes, encoded one by one.
pub open spec fn encoded(s: Seq<char>) -> Seq<char> {
    encoded_bytes(vstd::utf8::encode_utf8(s))
}

/// The decimal digits of a number.
pub open spec fn decimal(n: nat) -> Seq<char>
    decreases n,
{
    if n < 10 {
        seq![(0x30 + n) as u8 as char]
    } else {
        decimal(n / 10).push((0x30 + n % 10) as u8 as char)
    }
}

/// A query with one more parameter.
pub open spec fn with_param(query: Seq<char>, key: Seq<char>, value: Seq<char>) -> Seq<char> {
    let sep = if query.len() == 0 {
        Seq::empty()
    } else {
        "&"@
    };
    query + sep + key + "="@ + value
}

/// The word for a truth value.
pub open spec fn bool_word(b: bool) -> Seq<char> {
    if b {
        "true"@
    } else {
        "false"@
    }
}

impl CallParams {
    /// The query with which another node is asked for the call.
    pub open spec fn forward_query(self, visited: Seq<char>) -> Seq<char> {
        let q0 = match self.id {
            Some(id) => with_param(Seq::empty(), "id"@, encoded(id@)),
            None => Seq::empty(),
        };
        let q1 = match self.dump_events {
            Some(b) => with_param(q0, "dump"@, bool_word(b)),
            None => q0,
        };
        let q2 = match self.ping_interval {
            Some(n) => with_param(q1, "ping"@, decimal(n as nat)),
            None => q1,
        };
        let q3 = match self.server_side_track {
            Some(t) => with_param(q2, "server_side_track"@, encoded(t@)),
            None => q2,
        };
        with_param(with_param(q3, "forward"@, "true"@), "visited"@, encoded(visited))
    }

    /// The nodes that were asked before.
    pub open spec fn visited_nodes(self) -> Seq<Seq<char>> {
        match self.visited {
            Some(v) => trimmed(text::split_of(v@, ',')),
            None => Seq::empty(),
        }
    }

    /// The query with which another node is asked for the call; `visited` names
    /// the nodes that were asked before.
    pub fn to_forward_query(&self, visited: &str) -> (r: String)
        ensures
            r@ == self.forward_query(visited@),
    {
        let mut query: String = String::new();
        if let Some(id) = &self.id {
            let value: String = encode(id.as_str());
            query = add_param(query, "id", value.as_str());
        }
        if let Some(b) = self.dump_events {
            query = if b {
                add_param(query, "dump", "true")
            } else {
                add_param(query, "dump", "false")
            };
        }
        if let Some(n) = self.ping_interval {
            let value: String = decimal_text(n);
            query = add_param(query, "ping", value.as_str());
        }
        if let Some(t) = &self.server_side_track {
            let value: String = encode(t.as_str());
            query = add_param(query, "server_side_track", value.as_str());
        }
        query = add_param(query, "forward", "true");
        let value: String = encode(visited);
        add_param(query, "visited", value.as_str())
    }

    /// The nodes that were asked before.
    pub fn visited_list(&self) -> (r: Vec<String>)
        ensures
            text::views_of(r@) == self.visited_nodes(),
    {
        let mut out: Vec<String> = Vec::new();
        assert(text::views_of(out@) =~= Seq::empty());
        if let Some(visited) = &self.visited {
            let parts: Vec<String> = text::split_char(visited.as_str(), ',');
            let ghost all = text::views_of(parts@);
            let n: usize = parts.len();
            let mut i: usize = 0;
            while i < n
                invariant
                    0 <= i <= n,
                    n == parts@.len(),
                    all == text::views_of(parts@),
                    text::views_of(out@) == trimmed(all.take(i as int)),
                decreases n - i,
            {
                proof {
                    assert(all.take(i + 1).drop_last() =~= all.take(i as int));
                    assert(all.take(i + 1).last() == parts@[i as int]@);
                }
                let ghost before = out@;
                let part: String = text::trim(parts[i].as_str());
                if part.as_str().unicode_len() != 0 {
                    out.push(part);
                    assert(text::views_of(out@) =~= text::views_of(before).push(part@));
                }
                i = i + 1;
            }
            assert(all.take(n as int) =~= all);
        }
        out
    }
}

/// Texts without the white space around them; blank ones are left out.
pub open spec fn trimmed(parts: Seq<Seq<char>>) -> Seq<Seq<char>>
    decreases parts.len(),
{
    if parts.len() == 0 {
        Seq::empty()
    } else {
        let rest = trimmed(parts.drop_last());
        let last = text::trim_of(parts.last());
        if last.len() == 0 {
            rest
        } else {
            rest.push(last)
        }
    }
}

/// A query with one more parameter.
fn add_param(query: String, key: &str, value: &str) -> (r: String)
    ensures
        r@ == with_param(query@, key@, value@),
{
    let query: String = if query.as_str().unicode_len() == 0 {
        query
    } else {
        text::concat2(query.as_str(), "&")
    };
    let a: String = text::concat2(query.as_str(), key);
    let b: String = text::concat2(a.as_str(), "=");
    let out: String = text::concat2(b.as_str(), value);
    out
}

/// The hexadecimal digit of a number below sixteen.
fn hex(n: u8) -> (r: char)
    requires
        n < 16,
    ensures
        r == hex_digit(n),
{
    if n < 10 {
        (0x30 + n) as char
    } else {
        (0x41 + (n - 10)) as char
    }
}

/// What stands for a text in a query.
pub fn encode(s: &str) -> (r: String)
    ensures
        r@ == encoded(s@),
{
    let bytes: Vec<u8> = s.as_bytes_vec();
    let n: usize = bytes.len();
    let mut out: String = String::new();
    let mut i: usize = 0;
    while i < n
        invariant
            0 <= i <= n,
            n == bytes@.len(),
            out@ == encoded_bytes(bytes@.take(i as int)),
        decreases n - i,
    {
        proof {
            assert(bytes@.take(i + 1).drop_last() =~= bytes@.take(i as int));
            assert(bytes@.take(i + 1).last() == bytes@[i as int]);
        }
        let ghost before = out@;
        let b: u8 = bytes[i];
        if (b >= 0x41 && b <= 0x5a) || (b >= 0x61 && b <= 0x7a) || (b >= 0x30 && b <= 0x39) || b
            == 0x2d || b == 0x2e || b == 0x5f || b == 0x7e {
            out.push(b as char);
        } else {
            out.push('%');
            out.push(hex(b / 16));
            out.push(hex(b % 16));
        }
        assert(out@ =~= before + encoded_byte(b));
        i = i + 1;
    }
    assert(bytes@.take(n as int) =~= bytes@);
    out
}

/// The decimal digits of a number.
pub fn decimal_text(n: u32) -> (r: String)
    ensures
        r@ == decimal(n as nat),
    decreases n,
{
    let digit: char = (0x30 + (n % 10) as u8) as char;
    let mut out: String = if n < 10 {
        String::new()
    } else {
        decimal_text(n / 10)
    };
    out.push(digit);
    assert(out@ =~= decimal(n as nat));
    out
}

proof fn lemma_encoded_byte_is_safe(b: u8, i: int)
    requires
        0 <= i < encoded_byte(b).len(),
    ensures
        ({
            let c = encoded_byte(b)[i];
            c == '%' || unreserved(c as u8) && c as u32 <= 0x7e
        }),
{
    if !unreserved(b) {
        assert(b / 16 < 16 && b % 16 < 16);
    }
}

/// An encoded text holds no character that has a meaning of its own in a query.
pub proof fn law_encoded_is_safe(bytes: Seq<u8>, i: int)
    requires
        0 <= i < encoded_bytes(bytes).len(),
    ensures
        ({
            let c = encoded_bytes(bytes)[i];
            c == '%' || unreserved(c as u8) && c as u32 <= 0x7e
        }),
    decreases bytes.len(),
{
    let head = encoded_bytes(bytes.drop_last());
    if i < head.len() {
        law_encoded_is_safe(bytes.drop_last(), i);
    } else {
        lemma_encoded_byte_is_safe(bytes.last(), i - head.len());
    }
}

proof fn lemma_trimmed_plain(parts: Seq<Seq<char>>)
    requires
        forall|i: int|
            0 <= i < parts.len() ==> (#[trigger] parts[i]).len() > 0 && text::trim_of(parts[i])
                == parts[i],
    ensures
        trimmed(parts) == parts,
    decreases parts.len(),
{
    if parts.len() > 0 {
        let head = parts.drop_last();
        assert forall|i: int| 0 <= i < head.len() implies (#[trigger] head[i]).len() > 0
            && text::trim_of(head[i]) == head[i] by {
            assert(head[i] == parts[i]);
        }
        lemma_trimmed_plain(head);
        assert(parts.last() == parts[parts.len() - 1]);
        assert(parts =~= head.push(parts.last()));
    }
}

/// The nodes that one node names as asked are those that the next node reads,
/// where each name is trimmed and holds no comma.
pub proof fn law_visited_is_read_back(visited: Seq<Seq<char>>)
    requires
        forall|i: int|
            0 <= i < visited.len() ==> (#[trigger] visited[i]).len() > 0 && text::trim_of(
                visited[i],
            ) == visited[i],
        forall|i: int, j: int|
            0 <= i < visited.len() && 0 <= j < visited[i].len() ==> (#[trigger] visited[i][j])
                != ',',
    ensures
        trimmed(text::split_of(text::join_of(visited, ","@), ',')) == visited,
{
    reveal_strlit(",");
    assert(","@ =~= seq![',']);
    if visited.len() > 0 {
        text::law_split_undoes_join(visited, ',');
        lemma_trimmed_plain(visited);
    } else {
        let empty = Seq::<char>::empty();
        assert(text::join_of(visited, ","@) == empty);
        assert(text::split_of(empty, ',') =~= seq![empty]);
        reveal_with_fuel(trimmed, 2);
        assert(seq![empty].drop_last() =~= Seq::<Seq<char>>::empty());
        assert(seq![empty].last() == empty);
        assert(text::trim_of(empty) == empty);
        assert(trimmed(seq![empty]) =~= visited);
    }
}

/// The number that a hexadecimal digit stands for.
pub open spec fn hex_value(c: char) -> int {
    if '0' <= c <= '9' {
        c as u32 - 0x30
    } else {
        c as u32 - 0x41 + 10
    }
}

/// From what stands for a byte in a query the byte can be read again: it stands for
/// itself, or two digits behind a percent sign give its sixteens and its ones.
pub proof fn law_encoded_byte_is_read_back(b: u8)
    ensures
        ({
            let e = encoded_byte(b);
            ||| e.len() == 1 && e[0] as u32 == b && e[0] != '%'
            ||| e.len() == 3 && e[0] == '%' && hex_value(e[1]) * 16 + hex_value(e[2]) == b
        }),
        0x30 <= b <= 0x39 || 0x41 <= b <= 0x5a || 0x61 <= b <= 0x7a ==> encoded_byte(b).len() == 1,
        b == 0x26 || b == 0x3d || b == 0x25 || b == 0x2b || b == 0x20 || b >= 0x80 ==> encoded_byte(
            b,
        ).len() == 3,
{
    if !unreserved(b) {
        let hi = b / 16;
        let lo = b % 16;
        assert(hi < 16 && lo < 16 && hi * 16 + lo == b);
        assert(hex_value(hex_digit(hi)) == hi);
        assert(hex_value(hex_digit(lo)) == lo);
    }
}

/// Bytes are encoded one by one, in their order.
pub proof fn law_bytes_are_encoded_one_by_one(a: Seq<u8>, b: Seq<u8>, byte: u8)
    ensures
        encoded_bytes(a + b) == encoded_bytes(a) + encoded_bytes(b),
        encoded_bytes(seq![byte]) == encoded_byte(byte),
        encoded_bytes(Seq::empty()).len() == 0,
    decreases b.len(),
{
    reveal_with_fuel(encoded_bytes, 2);
    assert(seq![byte].drop_last() =~= Seq::empty());
    assert(encoded_bytes(seq![byte]) =~= encoded_byte(byte));
    if b.len() == 0 {
        assert(a + b =~= a);
        assert(encoded_bytes(a) + encoded_bytes(b) =~= encoded_bytes(a));
    } else {
        law_bytes_are_encoded_one_by_one(a, b.drop_last(), byte);
        assert((a + b).drop_last() =~= a + b.drop_last());
        assert((a + b).last() == b.last());
        assert(encoded_bytes(a + b) =~= encoded_bytes(a) + encoded_bytes(b));
    }
}

/// The decimal text of a number has the digit of its ones at its end, and before
/// it the text of its tens; a number below ten is one digit.
pub proof fn law_decimal_digits(n: nat, ones: nat)
    requires
        ones < 10,
    ensures
        decimal(ones).len() == 1 && decimal(ones)[0] as u32 == 0x30 + ones,
        n > 0 ==> decimal(10 * n + ones).len() == decimal(n).len() + 1 && decimal(
            10 * n + ones,
        ).drop_last() == decimal(n) && decimal(10 * n + ones).last() as u32 == 0x30 + ones,
{
    if n > 0 {
        let all = 10 * n + ones;
        assert(all / 10 == n && all % 10 == ones);
        assert(decimal(all).drop_last() =~= decimal(n));
    }
}

/// A parameter is put behind those that are there, with one sign between them, and
/// with its name before its value.
pub proof fn law_parameter_comes_last(query: Seq<char>, key: Seq<char>, value: Seq<char>)
    ensures
        query.is_prefix_of(with_param(query, key, value)),
        (key + "="@ + value).is_suffix_of(with_param(query, key, value)),
        with_param(query, key, value).len() == query.len() + key.len() + 1 + value.len() + if query.len()
            > 0 {
            1int
        } else {
            0
        },
        query.len() > 0 ==> with_param(query, key, value)[query.len() as int] == '&',
{
    reveal_strlit("&");
    reveal_strlit("=");
    let all = with_param(query, key, value);
    assert(query =~= all.take(query.len() as int));
    assert(key + "="@ + value =~= all.skip(all.len() - (key + "="@ + value).len()));
}

/// The query for another node says that the request is sent on and who was asked,
/// and hands on what the client asked for: the name of the call, whether its events
/// are dumped, the seconds between pings and the track, each where it is given.
#[verifier::spinoff_prover]
pub proof fn law_query_hands_all_on(params: CallParams, visited: Seq<char>)
    ensures
        ({
            let q = params.forward_query(visited);
            &&& text::occurs_in("forward=true"@, q)
            &&& text::occurs_in("visited="@ + encoded(visited), q)
            &&& params.id matches Some(id) ==> text::occurs_in("id="@ + encoded(id@), q)
            &&& params.dump_events == Some(true) ==> text::occurs_in("dump=true"@, q)
            &&& params.dump_events == Some(false) ==> text::occurs_in("dump=false"@, q)
            &&& params.ping_interval matches Some(n) ==> text::occurs_in(
                "ping="@ + decimal(n as nat),
                q,
            )
            &&& params.server_side_track matches Some(t) ==> text::occurs_in(
                "server_side_track="@ + encoded(t@),
                q,
            )
        }),
{
    let e = Seq::<char>::empty();
    let q0 = match params.id {
        Some(id) => with_param(e, "id"@, encoded(id@)),
        None => e,
    };
    let q1 = match params.dump_events {
        Some(b) => with_param(q0, "dump"@, bool_word(b)),
        None => q0,
    };
    let q2 = match params.ping_interval {
        Some(n) => with_param(q1, "ping"@, decimal(n as nat)),
        None => q1,
    };
    let q3 = match params.server_side_track {
        Some(t) => with_param(q2, "server_side_track"@, encoded(t@)),
        None => q2,
    };
    let q4 = with_param(q3, "forward"@, "true"@);
    let q = with_param(q4, "visited"@, encoded(visited));
    lemma_words();
    lemma_there(q4, "visited"@, encoded(visited), q, "visited="@);
    lemma_there(q3, "forward"@, "true"@, q4, "forward="@);
    lemma_still_there("forward="@ + "true"@, q4, q, "visited"@, encoded(visited));
    if let Some(t) = params.server_side_track {
        let piece = "server_side_track="@ + encoded(t@);
        lemma_there(q2, "server_side_track"@, encoded(t@), q3, "server_side_track="@);
        lemma_still_there(piece, q3, q4, "forward"@, "true"@);
        lemma_still_there(piece, q4, q, "visited"@, encoded(visited));
    }
    if let Some(n) = params.ping_interval {
        let piece = "ping="@ + decimal(n as nat);
        lemma_there(q1, "ping"@, decimal(n as nat), q2, "ping="@);
        lemma_carried(params, piece, q2, q3, q4, q, visited);
    }
    if let Some(b) = params.dump_events {
        let piece = "dump="@ + bool_word(b);
        lemma_there(q0, "dump"@, bool_word(b), q1, "dump="@);
        if let Some(n) = params.ping_interval {
            lemma_still_there(piece, q1, q2, "ping"@, decimal(n as nat));
        }
        lemma_carried(params, piece, q2, q3, q4, q, visited);
    }
    if let Some(id) = params.id {
        let piece = "id="@ + encoded(id@);
        lemma_there(e, "id"@, encoded(id@), q0, "id="@);
        if let Some(b) = params.dump_events {
            lemma_still_there(piece, q0, q1, "dump"@, bool_word(b));
        }
        if let Some(n) = params.ping_interval {
            lemma_still_there(piece, q1, q2, "ping"@, decimal(n as nat));
        }
        lemma_carried(params, piece, q2, q3, q4, q, visited);
    }
}

/// A name with the sign behind it is the name and the sign.
#[verifier::spinoff_prover]
proof fn lemma_words()
    ensures
        "id"@ + "="@ == "id="@,
        "dump"@ + "="@ == "dump="@,
        "ping"@ + "="@ == "ping="@,
        "server_side_track"@ + "="@ == "server_side_track="@,
        "forward"@ + "="@ == "forward="@,
        "visited"@ + "="@ == "visited="@,
        "forward="@ + "true"@ == "forward=true"@,
        "dump="@ + "true"@ == "dump=true"@,
        "dump="@ + "false"@ == "dump=false"@,
{
    reveal_strlit("=");
    reveal_strlit("id");
    reveal_strlit("id=");
    reveal_strlit("dump");
    reveal_strlit("dump=");
    reveal_strlit("ping");
    reveal_strlit("ping=");
    reveal_strlit("server_side_track");
    reveal_strlit("server_side_track=");
    reveal_strlit("forward");
    reveal_strlit("forward=");
    reveal_strlit("forward=true");
    reveal_strlit("visited");
    reveal_strlit("visited=");
    reveal_strlit("true");
    reveal_strlit("false");
    reveal_strlit("dump=true");
    reveal_strlit("dump=false");
    assert("id"@ + "="@ =~= "id="@);
    assert("dump"@ + "="@ =~= "dump="@);
    assert("ping"@ + "="@ =~= "ping="@);
    assert("server_side_track"@ + "="@ =~= "server_side_track="@);
    assert("forward"@ + "="@ =~= "forward="@);
    assert("visited"@ + "="@ =~= "visited="@);
    assert("forward="@ + "true"@ =~= "forward=true"@);
    assert("dump="@ + "true"@ =~= "dump=true"@);
    assert("dump="@ + "false"@ =~= "dump=false"@);
}

proof fn lemma_there(
    before: Seq<char>,
    key: Seq<char>,
    value: Seq<char>,
    after: Seq<char>,
    named: Seq<char>,
)
    requires
        after == with_param(before, key, value),
        named == key + "="@,
    ensures
        text::occurs_in(named + value, after),
{
    let front = after.take(after.len() - (named + value).len());
    assert(after =~= front + (named + value) + Seq::<char>::empty());
    text::law_parts_occur(front, named + value, Seq::empty(), after);
}

proof fn lemma_still_there(
    piece: Seq<char>,
    before: Seq<char>,
    after: Seq<char>,
    key: Seq<char>,
    value: Seq<char>,
)
    requires
        text::occurs_in(piece, before),
        after == with_param(before, key, value),
    ensures
        text::occurs_in(piece, after),
{
    let i = choose|i: int| #[trigger] text::occurs_at(piece, before, i);
    assert(after.subrange(i, i + piece.len()) =~= before.subrange(i, i + piece.len()));
    assert(text::occurs_at(piece, after, i));
}

proof fn lemma_carried(
    params: CallParams,
    piece: Seq<char>,
    q2: Seq<char>,
    q3: Seq<char>,
    q4: Seq<char>,
    q: Seq<char>,
    visited: Seq<char>,
)
    requires
        text::occurs_in(piece, q2),
        q3 == match params.server_side_track {
            Some(t) => with_param(q2, "server_side_track"@, encoded(t@)),
            None => q2,
        },
        q4 == with_param(q3, "forward"@, "true"@),
        q == with_param(q4, "visited"@, encoded(visited)),
    ensures
        text::occurs_in(piece, q),
{
    if let Some(t) = params.server_side_track {
        lemma_still_there(piece, q2, q3, "server_side_track"@, encoded(t@));
    }
    lemma_still_there(piece, q3, q4, "forward"@, "true"@);
    lemma_still_there(piece, q4, q, "visited"@, encoded(visited));
}

/// The nodes that were asked are the pieces between commas, without the white
/// space around them and without blank ones, in their order.
pub proof fn law_blank_names_are_left_out(parts: Seq<Seq<char>>, part: Seq<char>)
    ensures
        trimmed(Seq::empty()).len() == 0,
        text::trim_of(part).len() > 0 ==> trimmed(parts.push(part)) == trimmed(parts).push(
            text::trim_of(part),
        ),
        text::trim_of(part).len() == 0 ==> trimmed(parts.push(part)) == trimmed(parts),
{
    assert(parts.push(part).drop_last() =~= parts);
}

/// Who names no nodes has asked none.
pub proof fn law_nobody_was_asked(params: CallParams)
    ensures
        params.visited is None ==> params.visited_nodes().len() == 0,
        params.visited matches Some(v) ==> params.visited_nodes() == trimmed(
            text::split_of(v@, ','),
        ),
{
}

}
