//! Who gets an answer to an OPTIONS request outside of a dialog.
use crate::addr::{IpAddr, IpNet};
use crate::clock::TimeSpan;
use crate::config::RegisterOption;
use crate::{addr, text};
use vstd::prelude::*;
use vstd::string::*;

verus! {

/// Settings for the answers to OPTIONS requests outside of dialogs.
#[derive(Debug, PartialEq, Eq)]
pub struct OptionsResponseConfig {
    /// Answer such requests.
    pub enabled: Option<bool>,
    /// The access list: addresses, networks and host names.
    pub allow: Vec<String>,
    /// Also answer the hosts of registration servers.
    pub allow_registered_servers: Option<bool>,
    /// Learn the addresses of other sides from calls, and answer them too.
    pub auto_learn: Option<bool>,
    /// How long a learned address counts.
    pub learn_ttl: Option<String>,
    /// Headers that are added to answers.
    pub extra_headers: Vec<(String, String)>,
}

/// How long a learned address counts unless told otherwise.
pub const DEFAULT_LEARN_TTL: &'static str = "7d";

impl OptionsResponseConfig {
    /// A copy of the settings, with what was left open filled in.
    pub open spec fn copied_from(self, o: OptionsResponseConfig) -> bool {
        &&& self.enabled == o.enabled
        &&& self.allow@ == o.allow@
        &&& self.allow_registered_servers == crate::media::ambiance::or_else(
            o.allow_registered_servers,
            Some(true),
        )
        &&& self.auto_learn == crate::media::ambiance::or_else(o.auto_learn, Some(true))
        &&& match o.learn_ttl {
            Some(_) => self.learn_ttl == o.learn_ttl,
            None => text::opt_view(self.learn_ttl) == Some(DEFAULT_LEARN_TTL@),
        }
        &&& self.extra_headers@ == o.extra_headers@
    }

    /// The settings hold the same as others.
    pub open spec fn same(self, o: OptionsResponseConfig) -> bool {
        &&& self.enabled == o.enabled
        &&& self.allow@ == o.allow@
        &&& self.allow_registered_servers == o.allow_registered_servers
        &&& self.auto_learn == o.auto_learn
        &&& self.learn_ttl == o.learn_ttl
        &&& self.extra_headers@ == o.extra_headers@
    }

    /// A copy of the settings, with what was left open filled in.
    pub(crate) fn filled_copy(&self) -> (r: Self)
        ensures
            r.copied_from(*self),
    {
        OptionsResponseConfig {
            enabled: self.enabled,
            allow: crate::config::copy_strings(&self.allow),
            allow_registered_servers: match self.allow_registered_servers {
                Some(b) => Some(b),
                None => Some(true),
            },
            auto_learn: match self.auto_learn {
                Some(b) => Some(b),
                None => Some(true),
            },
            learn_ttl: match &self.learn_ttl {
                Some(t) => Some(t.clone()),
                None => Some(DEFAULT_LEARN_TTL.to_string()),
            },
            extra_headers: crate::maps::copy_pairs(&self.extra_headers),
        }
    }
}

impl Clone for OptionsResponseConfig {
    fn clone(&self) -> (r: Self)
        ensures
            r.same(*self),
    {
        OptionsResponseConfig {
            enabled: self.enabled,
            allow: crate::config::copy_strings(&self.allow),
            allow_registered_servers: self.allow_registered_servers,
            auto_learn: self.auto_learn,
            learn_ttl: self.learn_ttl.clone(),
            extra_headers: crate::maps::copy_pairs(&self.extra_headers),
        }
    }
}

impl Default for OptionsResponseConfig {
    fn default() -> (r: Self)
        ensures
            r.enabled is None,
            r.allow@.len() == 0,
            r.allow_registered_servers is None,
            r.auto_learn is None,
            r.learn_ttl is None,
            r.extra_headers@.len() == 0,
    {
        OptionsResponseConfig {
            enabled: None,
            allow: Vec::new(),
            allow_registered_servers: None,
            auto_learn: None,
            learn_ttl: None,
            extra_headers: Vec::new(),
        }
    }
}

/// An entry of the access list: an address, a network or a host name.
#[derive(Debug, PartialEq, Eq)]
pub enum OptionsAclEntry {
    Ip(IpAddr),
    Cidr(IpNet),
    Host(String),
}

/// What an [`OptionsAclEntry`] holds.
#[verifier::ext_equal]
pub enum AclView {
    Ip { v6: bool, bits: u128 },
    Cidr { v6: bool, bits: u128, prefix: u8 },
    Host { name: Seq<char> },
}

impl View for OptionsAclEntry {
    type V = AclView;

    open spec fn view(&self) -> AclView {
        match *self {
            OptionsAclEntry::Ip(ip) => AclView::Ip { v6: ip.is_v6(), bits: ip.bits() },
            OptionsAclEntry::Cidr(net) => AclView::Cidr {
                v6: net.addr.is_v6(),
                bits: net.addr.bits(),
                prefix: net.prefix,
            },
            OptionsAclEntry::Host(name) => AclView::Host { name: name@ },
        }
    }
}

/// An address of a version.
pub open spec fn ip_from(v6: bool, bits: u128) -> IpAddr {
    if v6 {
        IpAddr::V6(bits)
    } else {
        IpAddr::V4(bits as u32)
    }
}

/// An entry speaks of a source: the source has that address, its address is in
/// that network, or it has that name.
pub open spec fn acl_matches(entry: AclView, ip: Option<IpAddr>, host: Seq<char>) -> bool {
    match entry {
        AclView::Ip { v6, bits } => ip == Some(ip_from(v6, bits)),
        AclView::Cidr { v6, bits, prefix } => ip matches Some(ip) && (IpNet {
            addr: ip_from(v6, bits),
            prefix,
        }).has(ip),
        AclView::Host { name } => text::ascii_lower_of(name) == text::ascii_lower_of(host),
    }
}

/// The entry that a text stands for; `None` for a blank text.
pub open spec fn acl_entry_of(raw: Seq<char>) -> Option<AclView> {
    let t = text::trim_of(raw);
    if t.len() == 0 {
        None
    } else {
        match (addr::ip_in(t), addr::net_in(t)) {
            (Some((v6, bits)), _) => Some(AclView::Ip { v6, bits }),
            (None, Some((v6, bits, prefix))) => Some(AclView::Cidr { v6, bits, prefix }),
            (None, None) => Some(AclView::Host { name: text::ascii_lower_of(t) }),
        }
    }
}

/// The entries that texts stand for.
pub open spec fn acl_of(raws: Seq<Seq<char>>) -> Seq<AclView>
    decreases raws.len(),
{
    if raws.len() == 0 {
        Seq::empty()
    } else {
        match acl_entry_of(raws.last()) {
            Some(e) => acl_of(raws.drop_last()).push(e),
            None => acl_of(raws.drop_last()),
        }
    }
}

/// The views of a list of entries.
pub open spec fn acl_views(entries: Seq<OptionsAclEntry>) -> Seq<AclView> {
    Seq::new(entries.len(), |i: int| entries[i]@)
}

impl Clone for OptionsAclEntry {
    fn clone(&self) -> (r: Self)
        ensures
            r == *self,
    {
        match self {
            OptionsAclEntry::Ip(ip) => OptionsAclEntry::Ip(*ip),
            OptionsAclEntry::Cidr(net) => OptionsAclEntry::Cidr(*net),
            OptionsAclEntry::Host(host) => OptionsAclEntry::Host(host.clone()),
        }
    }
}

impl OptionsAclEntry {
    /// A network has no more leading bits than bits.
    pub open spec fn wf(self) -> bool {
        self matches OptionsAclEntry::Cidr(net) ==> net.wf()
    }

    /// The entry out of what was read in a text that is not blank.
    pub fn from_read(text: &str, ip: Option<IpAddr>, net: Option<IpNet>) -> (r: Self)
        requires
            net matches Some(net) ==> net.wf(),
        ensures
            r.wf(),
            r@ == match (ip, net) {
                (Some(ip), _) => AclView::Ip { v6: ip.is_v6(), bits: ip.bits() },
                (None, Some(net)) => AclView::Cidr {
                    v6: net.addr.is_v6(),
                    bits: net.addr.bits(),
                    prefix: net.prefix,
                },
                (None, None) => AclView::Host { name: text::ascii_lower_of(text@) },
            },
    {
        match (ip, net) {
            (Some(ip), _) => OptionsAclEntry::Ip(ip),
            (None, Some(net)) => OptionsAclEntry::Cidr(net),
            (None, None) => OptionsAclEntry::Host(text::to_ascii_lower(text)),
        }
    }

    /// Reads an entry; `None` for a blank text.
    pub fn parse(raw: &str) -> (r: Option<Self>)
        ensures
            match (r, acl_entry_of(raw@)) {
                (Some(e), Some(v)) => e@ == v && e.wf(),
                (None, None) => true,
                _ => false,
            },
    {
        let raw: String = text::trim(raw);
        if raw.as_str().unicode_len() == 0 {
            return None;
        }
        let ip: Option<IpAddr> = addr::parse_ip(raw.as_str());
        let net: Option<IpNet> = addr::parse_net(raw.as_str());
        Some(OptionsAclEntry::from_read(raw.as_str(), ip, net))
    }

    /// Whether the entry speaks of a source.
    pub fn matches(&self, source_ip: Option<IpAddr>, source_host: &str) -> (r: bool)
        requires
            self.wf(),
        ensures
            r == acl_matches(self@, source_ip, source_host@),
    {
        match self {
            OptionsAclEntry::Ip(ip) => match source_ip {
                Some(source) => source == *ip,
                None => false,
            },
            OptionsAclEntry::Cidr(net) => match source_ip {
                Some(source) => net.contains(source),
                None => false,
            },
            OptionsAclEntry::Host(host) => text::eq_ignore_ascii_case(host.as_str(), source_host),
        }
    }
}

/// Reads the entries of an access list; blank texts are left out.
pub fn parse_acl(raws: &Vec<String>) -> (r: Vec<OptionsAclEntry>)
    ensures
        acl_views(r@) == acl_of(text::views_of(raws@)),
        forall|i: int| 0 <= i < r@.len() ==> (#[trigger] r@[i]).wf(),
{
    let n: usize = raws.len();
    let ghost all = text::views_of(raws@);
    let mut out: Vec<OptionsAclEntry> = Vec::new();
    let mut i: usize = 0;
    assert(acl_views(out@) =~= Seq::empty());
    while i < n
        invariant
            0 <= i <= n,
            n == raws@.len(),
            all == text::views_of(raws@),
            acl_views(out@) == acl_of(all.take(i as int)),
            forall|j: int| 0 <= j < out@.len() ==> (#[trigger] out@[j]).wf(),
        decreases n - i,
    {
        proof {
            assert(all.take(i + 1).drop_last() =~= all.take(i as int));
            assert(all.take(i + 1).last() == raws@[i as int]@);
        }
        let ghost before = out@;
        if let Some(entry) = OptionsAclEntry::parse(raws[i].as_str()) {
            out.push(entry);
            assert(acl_views(out@) =~= acl_views(before).push(entry@));
        }
        i = i + 1;
    }
    assert(all.take(n as int) =~= all);
    out
}

/// The host in the address of a server: `host`, `host:port` or `[ipv6]:port`.
pub open spec fn server_host(server: Seq<char>) -> Option<Seq<char>> {
    let s = text::trim_of(server);
    if s.len() == 0 {
        None
    } else if s.first() == '[' {
        Some(text::ascii_lower_of(text::before_first_of(s.skip(1), ']', ']')))
    } else if text::count_of(s, ':') > 1 {
        Some(text::ascii_lower_of(s))
    } else {
        Some(text::ascii_lower_of(text::before_first_of(s, ':', ':')))
    }
}

/// The host in the address of a server, in small letters; `None` for a blank
/// address.
pub fn host_of_server(server: &str) -> (r: Option<String>)
    ensures
        text::opt_view(r) == server_host(server@),
{
    let server: String = text::trim(server);
    if server.as_str().unicode_len() == 0 {
        return None;
    }
    if server.as_str().get_char(0) == '[' {
        let rest: String = text::skip(server.as_str(), 1);
        let host: String = text::before_first(rest.as_str(), ']', ']');
        return Some(text::to_ascii_lower(host.as_str()));
    }
    if text::count_char(server.as_str(), ':') > 1 {
        return Some(text::to_ascii_lower(server.as_str()));
    }
    let host: String = text::before_first(server.as_str(), ':', ':');
    Some(text::to_ascii_lower(host.as_str()))
}

/// The hosts of the servers with which users are registered.
pub open spec fn hosts_of(users: Seq<RegisterOption>) -> Seq<Seq<char>>
    decreases users.len(),
{
    if users.len() == 0 {
        Seq::empty()
    } else {
        match server_host(users.last().server@) {
            Some(h) => hosts_of(users.drop_last()).push(h),
            None => hosts_of(users.drop_last()),
        }
    }
}

/// The hosts of the servers with which users are registered.
pub fn registered(users: &Vec<RegisterOption>) -> (r: Vec<String>)
    ensures
        text::views_of(r@) == hosts_of(users@),
{
    let n: usize = users.len();
    let mut out: Vec<String> = Vec::new();
    let mut i: usize = 0;
    assert(text::views_of(out@) =~= Seq::empty());
    while i < n
        invariant
            0 <= i <= n,
            n == users@.len(),
            text::views_of(out@) == hosts_of(users@.take(i as int)),
        decreases n - i,
    {
        proof {
            assert(users@.take(i + 1).drop_last() =~= users@.take(i as int));
            assert(users@.take(i + 1).last() == users@[i as int]);
        }
        let ghost before = out@;
        if let Some(host) = host_of_server(users[i].server.as_str()) {
            out.push(host);
            assert(text::views_of(out@) =~= text::views_of(before).push(host@));
        }
        i = i + 1;
    }
    assert(users@.take(n as int) =~= users@);
    out
}

/// The number of decimal digits in a text.
pub open spec fn digits(s: Seq<char>) -> nat
    decreases s.len(),
{
    if s.len() == 0 {
        0
    } else {
        digits(s.drop_last()) + if '0' <= s.last() <= '9' {
            1nat
        } else {
            0nat
        }
    }
}

/// A character without which no text speaks of parts of a second.
pub open spec fn part_of_second(c: char) -> bool {
    c == '.' || c == 'n' || c == 'u' || c == '\u{b5}' || c == 'm'
}

/// A text that cannot make a span of the largest number of seconds together
/// with a full second of nanoseconds: it has too few digits for that, or it
/// does not speak of parts of a second.
pub open spec fn span_fits(t: Seq<char>) -> bool {
    digits(t) < 16 || forall|i: int| 0 <= i < t.len() ==> !part_of_second(#[trigger] t[i])
}

/// Whether a text can be read as a span without fear of a sum that is too large.
pub fn is_span_safe(t: &str) -> (r: bool)
    ensures
        r == span_fits(t@),
{
    let v: Vec<char> = text::chars_of(t);
    let mut count: usize = 0;
    let mut whole: bool = true;
    let mut i: usize = 0;
    assert(v@.take(0) =~= Seq::<char>::empty());
    while i < v.len()
        invariant
            0 <= i <= v@.len(),
            v@ == t@,
            count <= i,
            count == digits(v@.take(i as int)),
            whole == forall|j: int| 0 <= j < i ==> !part_of_second(#[trigger] v@[j]),
        decreases v@.len() - i,
    {
        proof {
            assert(v@.take(i + 1).drop_last() =~= v@.take(i as int));
            assert(v@.take(i + 1).last() == v@[i as int]);
        }
        let c: char = v[i];
        if '0' <= c && c <= '9' {
            count = count + 1;
        }
        if c == '.' || c == 'n' || c == 'u' || c == '\u{b5}' || c == 'm' {
            assert(part_of_second(v@[i as int]));
            whole = false;
        }
        i = i + 1;
    }
    assert(v@.take(v@.len() as int) =~= v@);
    count < 16 || whole
}

/// The seconds and nanoseconds that [`parse_span`] reads in a text.
pub uninterp spec fn span_in(text: Seq<char>) -> Option<TimeSpan>;

/// Reads a text such as `7d` as a span of time, with
/// [`humantime::parse_duration`]. What it reads is a function of the text
/// alone; the grammar is left open here. The one sum that it fails to hold is
/// the largest number of seconds together with a full second of nanoseconds:
/// the numbers for it take at least sixteen digits and a unit below the second,
/// or a fraction.
#[verifier::external_body]
pub(crate) fn parse_span(raw: &str) -> (r: Option<TimeSpan>)
    requires
        span_fits(raw@),
    ensures
        r == span_in(raw@),
{
    humantime::parse_duration(raw).ok().map(
        |d| TimeSpan { secs: d.as_secs(), nanos: d.subsec_nanos() },
    )
}

/// Seconds in seven days.
pub const DEFAULT_LEARN_TTL_SECS: u64 = 604_800;

/// How long a learned address counts, given what was read.
pub open spec fn ttl_of(read: Option<TimeSpan>) -> TimeSpan {
    match read {
        Some(span) => span,
        None => TimeSpan { secs: DEFAULT_LEARN_TTL_SECS, nanos: 0 },
    }
}

/// How long a learned address counts, given what was read.
pub fn ttl_or_default(read: Option<TimeSpan>) -> (r: TimeSpan)
    ensures
        r == ttl_of(read),
{
    match read {
        Some(span) => span,
        None => TimeSpan::from_secs(DEFAULT_LEARN_TTL_SECS),
    }
}

/// An entry with an address speaks of the source that has just that address, one
/// with a network of those whose address is in it, and one with a name of that
/// name, whatever the size of its letters. Neither of the first two looks at the
/// name, and the last does not look at the address.
pub proof fn law_entries_speak_of_their_own(
    own: IpAddr,
    net: IpNet,
    name: String,
    ip: IpAddr,
    host: Seq<char>,
)
    ensures
        acl_matches(OptionsAclEntry::Ip(own)@, Some(ip), host) <==> ip == own,
        !acl_matches(OptionsAclEntry::Ip(own)@, None, host),
        acl_matches(OptionsAclEntry::Cidr(net)@, Some(ip), host) <==> net.has(ip),
        !acl_matches(OptionsAclEntry::Cidr(net)@, None, host),
        acl_matches(OptionsAclEntry::Host(name)@, Some(ip), host) <==> text::ascii_lower_of(name@)
            == text::ascii_lower_of(host),
        acl_matches(OptionsAclEntry::Host(name)@, None, host) <==> text::ascii_lower_of(name@)
            == text::ascii_lower_of(host),
{
}

/// A text in the access list is an address where it can be read as one, else a
/// network, else a name; white space around it does not count, and a blank one is
/// no entry.
pub proof fn law_entries_are_read(raw: Seq<char>)
    ensures
        ({
            let t = text::trim_of(raw);
            &&& t.len() == 0 ==> acl_entry_of(raw) is None
            &&& t.len() > 0 ==> (addr::ip_in(t) matches Some(read) ==> acl_entry_of(raw) == Some(
                AclView::Ip { v6: read.0, bits: read.1 },
            ))
            &&& t.len() > 0 && addr::ip_in(t) is None ==> (addr::net_in(t) matches Some(read)
                ==> acl_entry_of(raw) == Some(
                AclView::Cidr { v6: read.0, bits: read.1, prefix: read.2 },
            ))
            &&& t.len() > 0 && addr::ip_in(t) is None && addr::net_in(t) is None ==> acl_entry_of(
                raw,
            ) == Some(AclView::Host { name: text::ascii_lower_of(t) })
        }),
{
}

/// Every text that is an entry is in the access list, each in its order.
pub proof fn law_list_keeps_its_order(raws: Seq<Seq<char>>, raw: Seq<char>, i: int)
    ensures
        acl_of(Seq::empty()).len() == 0,
        acl_entry_of(raw) matches Some(e) ==> acl_of(raws.push(raw)) == acl_of(raws).push(e),
        acl_entry_of(raw) is None ==> acl_of(raws.push(raw)) == acl_of(raws),
        0 <= i < raws.len() && acl_entry_of(raws[i]) is Some ==> acl_of(raws).contains(
            acl_entry_of(raws[i])->0,
        ),
    decreases raws.len(),
{
    assert(raws.push(raw).drop_last() =~= raws);
    if 0 <= i < raws.len() && acl_entry_of(raws[i]) is Some {
        let e = acl_entry_of(raws[i])->0;
        let head = raws.drop_last();
        if i == raws.len() - 1 {
            assert(acl_of(raws)[acl_of(head).len() as int] == e);
        } else {
            law_list_keeps_its_order(head, raw, i);
            assert(head[i] == raws[i]);
            let k = choose|k: int| 0 <= k < acl_of(head).len() && acl_of(head)[k] == e;
            assert(acl_of(raws)[k] == e);
        }
    }
}

/// The host of a server is what stands before its port, in small letters; within
/// brackets it is what stands there, and a text with more than one colon and no
/// brackets is a host as a whole.
#[verifier::spinoff_prover]
pub proof fn law_host_stands_before_the_port(host: Seq<char>, rest: Seq<char>)
    requires
        host.len() > 0,
    ensures
        ({
            let plain = host + ":"@ + rest;
            let bracketed = "["@ + host + "]"@ + rest;
            &&& text::trim_of(host) == host && host[0] != '[' && !host.contains(':')
                ==> server_host(host) == Some(text::ascii_lower_of(host))
            &&& text::trim_of(plain) == plain && host[0] != '[' && !host.contains(':')
                && !rest.contains(':') ==> server_host(plain) == Some(text::ascii_lower_of(host))
            &&& text::trim_of(bracketed) == bracketed && !host.contains(']') ==> server_host(
                bracketed,
            ) == Some(text::ascii_lower_of(host))
            &&& text::trim_of(host) == host && host[0] != '[' && text::count_of(host, ':') > 1
                ==> server_host(host) == Some(text::ascii_lower_of(host))
        }),
        server_host(Seq::empty()) is None,
{
    reveal_strlit(":");
    reveal_strlit("[");
    reveal_strlit("]");
    let colon = seq![':'];
    assert(":"@ =~= colon);
    let plain = host + ":"@ + rest;
    let bracketed = "["@ + host + "]"@ + rest;
    text::law_counts_add_up(host, Seq::empty(), ':');
    text::law_counts_add_up(rest, Seq::empty(), ':');
    if !host.contains(':') {
        text::law_before_the_first(host, ':', rest, ':', ':');
        text::law_counts_add_up(host + colon, rest, ':');
        text::law_counts_add_up(host, colon, ':');
        assert(plain =~= host + seq![':'] + rest);
        assert(plain[0] == host[0]);
    }
    if !host.contains(']') {
        text::law_before_the_first(host, ']', rest, ']', ']');
        assert(bracketed.skip(1) =~= host + seq![']'] + rest);
        assert(bracketed[0] == '[');
    }
    assert(text::trim_of(Seq::<char>::empty()) == Seq::<char>::empty());
}

/// The hosts of all servers that name one are there, each in its order.
pub proof fn law_every_server_is_there(users: Seq<RegisterOption>, user: RegisterOption, i: int)
    ensures
        hosts_of(Seq::empty()).len() == 0,
        server_host(user.server@) matches Some(h) ==> hosts_of(users.push(user)) == hosts_of(
            users,
        ).push(h),
        server_host(user.server@) is None ==> hosts_of(users.push(user)) == hosts_of(users),
        0 <= i < users.len() && server_host(users[i].server@) is Some ==> hosts_of(users).contains(
            server_host(users[i].server@)->0,
        ),
    decreases users.len(),
{
    assert(users.push(user).drop_last() =~= users);
    if 0 <= i < users.len() && server_host(users[i].server@) is Some {
        let h = server_host(users[i].server@)->0;
        let head = users.drop_last();
        if i == users.len() - 1 {
            assert(hosts_of(users)[hosts_of(head).len() as int] == h);
        } else {
            law_every_server_is_there(head, user, i);
            assert(head[i] == users[i]);
            let k = choose|k: int| 0 <= k < hosts_of(head).len() && hosts_of(head)[k] == h;
            assert(hosts_of(users)[k] == h);
        }
    }
}

/// A learned address counts as long as the text says, and for seven days where it
/// cannot be read.
pub proof fn law_addresses_count_a_week(span: TimeSpan)
    ensures
        ttl_of(Some(span)) == span,
        ttl_of(None).total() == 7 * 24 * 60 * 60 * 1_000_000_000,
{
}

/// A copy of the settings keeps what is set, and fills what is open with what
/// would be taken for it anyway.
pub proof fn law_copy_fills_what_is_open(copy: OptionsResponseConfig, o: OptionsResponseConfig)
    requires
        copy.copied_from(o),
    ensures
        copy.enabled == o.enabled,
        copy.allow@ == o.allow@,
        copy.extra_headers@ == o.extra_headers@,
        o.allow_registered_servers is Some ==> copy.allow_registered_servers
            == o.allow_registered_servers,
        o.allow_registered_servers is None ==> copy.allow_registered_servers == Some(true),
        o.auto_learn is Some ==> copy.auto_learn == o.auto_learn,
        o.auto_learn is None ==> copy.auto_learn == Some(true),
        o.learn_ttl is Some ==> copy.learn_ttl == o.learn_ttl,
        o.learn_ttl is None ==> (copy.learn_ttl matches Some(t) && t@ == "7d"@),
{
}

/// What is seen of an [`OptionsAclEntry`] is all that it holds, and nothing else.
pub proof fn law_view_of_options_acl_entry(it: OptionsAclEntry)
    ensures
        it matches OptionsAclEntry::Ip(ip) ==> it@ == (AclView::Ip {
            v6: ip.is_v6(),
            bits: ip.bits(),
        }),
        it matches OptionsAclEntry::Cidr(net) ==> it@ == (AclView::Cidr {
            v6: net.addr.is_v6(),
            bits: net.addr.bits(),
            prefix: net.prefix,
        }),
        it matches OptionsAclEntry::Host(name) ==> it@ == (AclView::Host { name: name@ }),
{
}

/// A text with fewer than sixteen digits can be read, and so can one that does not
/// speak of parts of a second. Each digit is counted once.
pub proof fn law_short_texts_can_be_read(t: Seq<char>, c: char)
    ensures
        digits(t) < 16 ==> span_fits(t),
        (forall|i: int| 0 <= i < t.len() ==> !part_of_second(#[trigger] t[i])) ==> span_fits(t),
        digits(t.push(c)) == digits(t) + if '0' <= c <= '9' {
            1int
        } else {
            0
        },
        digits(Seq::empty()) == 0,
        t.len() < 16 ==> span_fits(t),
    decreases t.len(),
{
    assert(t.push(c).drop_last() =~= t);
    lemma_digits_bound(t);
}

proof fn lemma_digits_bound(t: Seq<char>)
    ensures
        digits(t) <= t.len(),
    decreases t.len(),
{
    if t.len() > 0 {
        lemma_digits_bound(t.drop_last());
    }
}

/// The entries of a list are seen in their order.
pub proof fn law_view_of_entries(entries: Seq<OptionsAclEntry>, i: int)
    requires
        0 <= i < entries.len(),
    ensures
        acl_views(entries).len() == entries.len(),
        acl_views(entries)[i] == entries[i]@,
{
}

/// A text that names neither a fraction nor a unit below the second can be read,
/// however many digits it has; with sixteen digits or more, one that does cannot.
pub proof fn law_whole_seconds_can_be_read(t: Seq<char>, i: int)
    ensures
        (forall|j: int|
            0 <= j < t.len() ==> (#[trigger] t[j]) != '.' && t[j] != 'n' && t[j] != 'u' && t[j]
                != '\u{b5}' && t[j] != 'm') ==> span_fits(t),
        0 <= i < t.len() && (t[i] == '.' || t[i] == 'n' || t[i] == 'u' || t[i] == '\u{b5}' || t[i]
            == 'm') && digits(t) >= 16 ==> !span_fits(t),
{
}

}
