//! Rules that rewrite outgoing calls.
use crate::sip::{Auth, HostView, HostWithPort, InviteOption, Uri};
use crate::{sip, text};
use vstd::prelude::*;

verus! {

/// A rule for outgoing calls. Rules are tried in their order, and the first
/// whose conditions all hold is applied; a rule without conditions always
/// holds.
#[derive(Debug, PartialEq, Eq)]
pub struct TrunkRule {
    pub rule: TrunkRuleDef,
}

/// The conditions and the actions of a rule.
#[derive(Debug, PartialEq, Eq)]
pub struct TrunkRuleDef {
    pub matching: TrunkMatch,
    pub rewrite: TrunkRewrite,
}

/// Conditions on the caller and the callee. All that are there must hold.
#[derive(Debug, PartialEq, Eq)]
pub struct TrunkMatch {
    pub from: Option<UriMatch>,
    pub to: Option<UriMatch>,
}

/// Patterns for the user and the host of a URI.
#[derive(Debug, PartialEq, Eq)]
pub struct UriMatch {
    pub user: Option<String>,
    pub host: Option<String>,
}

/// What a rule does to the caller, the callee and the contact.
#[derive(Debug, PartialEq, Eq)]
pub struct TrunkRewrite {
    pub from: Option<UriRewrite>,
    pub to: Option<UriRewrite>,
    pub contact: Option<UriRewrite>,
}

/// A new user and a new host for a URI. A host without a port keeps the port
/// of the URI.
#[derive(Debug, PartialEq, Eq)]
pub struct UriRewrite {
    pub user: Option<String>,
    pub host: Option<String>,
}

impl Clone for UriMatch {
    fn clone(&self) -> (r: Self)
        ensures
            r == *self,
    {
        UriMatch { user: self.user.clone(), host: self.host.clone() }
    }
}

impl Clone for UriRewrite {
    fn clone(&self) -> (r: Self)
        ensures
            r == *self,
    {
        UriRewrite { user: self.user.clone(), host: self.host.clone() }
    }
}

impl Clone for TrunkMatch {
    fn clone(&self) -> (r: Self)
        ensures
            r == *self,
    {
        TrunkMatch { from: self.from.clone(), to: self.to.clone() }
    }
}

impl Clone for TrunkRewrite {
    fn clone(&self) -> (r: Self)
        ensures
            r == *self,
    {
        TrunkRewrite {
            from: self.from.clone(),
            to: self.to.clone(),
            contact: self.contact.clone(),
        }
    }
}

impl Clone for TrunkRuleDef {
    fn clone(&self) -> (r: Self)
        ensures
            r == *self,
    {
        TrunkRuleDef { matching: self.matching.clone(), rewrite: self.rewrite.clone() }
    }
}

impl Clone for TrunkRule {
    fn clone(&self) -> (r: Self)
        ensures
            r == *self,
    {
        TrunkRule { rule: self.rule.clone() }
    }
}

impl Default for UriMatch {
    fn default() -> (r: Self)
        ensures
            r == (UriMatch { user: None, host: None }),
    {
        UriMatch { user: None, host: None }
    }
}

impl Default for UriRewrite {
    fn default() -> (r: Self)
        ensures
            r == (UriRewrite { user: None, host: None }),
    {
        UriRewrite { user: None, host: None }
    }
}

impl Default for TrunkMatch {
    fn default() -> (r: Self)
        ensures
            r == (TrunkMatch { from: None, to: None }),
    {
        TrunkMatch { from: None, to: None }
    }
}

impl Default for TrunkRewrite {
    fn default() -> (r: Self)
        ensures
            r == (TrunkRewrite { from: None, to: None, contact: None }),
    {
        TrunkRewrite { from: None, to: None, contact: None }
    }
}

/// What a [`Uri`] holds.
#[verifier::ext_equal]
pub struct UriView {
    pub scheme: Option<Seq<char>>,
    /// The user and the password.
    pub auth: Option<(Seq<char>, Option<Seq<char>>)>,
    pub host: HostView,
    pub host_text: Seq<char>,
    pub port: Option<u16>,
    pub tail: Seq<char>,
}

/// What an [`InviteOption`] holds.
#[verifier::ext_equal]
pub struct InviteView {
    pub caller: UriView,
    pub callee: UriView,
    pub contact: UriView,
    pub offer: Option<Seq<u8>>,
}

impl View for Uri {
    type V = UriView;

    open spec fn view(&self) -> UriView {
        UriView {
            scheme: text::opt_view(self.scheme),
            auth: match self.auth {
                Some(a) => Some((a.user@, text::opt_view(a.password))),
                None => None,
            },
            host: self.host_with_port.host@,
            host_text: self.host_with_port.host.text_of(),
            port: self.host_with_port.port,
            tail: self.tail@,
        }
    }
}

impl View for InviteOption {
    type V = InviteView;

    open spec fn view(&self) -> InviteView {
        InviteView {
            caller: self.caller@,
            callee: self.callee@,
            contact: self.contact@,
            offer: match self.offer {
                Some(o) => Some(o@),
                None => None,
            },
        }
    }
}

/// The text of a host.
pub open spec fn host_text_of(h: HostView) -> Seq<char> {
    match h {
        HostView::Domain { name } => name,
        HostView::Ip { v6, bits } => crate::addr::ip_text(v6, bits),
    }
}

/// What [`try_regex`] finds; `None` where the pattern cannot be read.
pub uninterp spec fn regex_match(pattern: Seq<char>, value: Seq<char>) -> Option<bool>;

/// Looks for a pattern in a text, with [`regex::Regex::new`] and
/// [`regex::Regex::is_match`]; `None` where the pattern cannot be read. What
/// comes out is a function of the two texts alone; the language of patterns is
/// left open here.
#[verifier::external_body]
fn try_regex(pattern: &str, value: &str) -> (r: Option<bool>)
    ensures
        r == regex_match(pattern@, value@),
{
    regex::Regex::new(pattern).ok().map(|re| re.is_match(value))
}

/// A pattern occurs in a text. One that cannot be read occurs nowhere.
pub open spec fn pattern_holds(pattern: Seq<char>, value: Seq<char>) -> bool {
    regex_match(pattern, value) == Some(true)
}

/// Whether a pattern occurs in a text.
pub fn regex_is_match(pattern: &str, value: &str) -> (r: bool)
    ensures
        r == pattern_holds(pattern@, value@),
{
    match try_regex(pattern, value) {
        Some(b) => b,
        None => false,
    }
}

impl UriMatch {
    /// The patterns occur in the user and the host of a URI; a pattern for the
    /// user does not hold of a URI without one.
    pub open spec fn holds(self, uri: UriView) -> bool {
        &&& self.user matches Some(p) ==> (uri.auth matches Some(a) && pattern_holds(p@, a.0))
        &&& self.host matches Some(p) ==> pattern_holds(p@, uri.host_text)
    }

    /// Whether the patterns occur in the user and the host of a URI.
    pub fn matches(&self, uri: &Uri) -> (r: bool)
        ensures
            r == self.holds(uri@),
    {
        let user_ok: bool = match &self.user {
            Some(user) => match &uri.auth {
                Some(auth) => regex_is_match(user.as_str(), auth.user.as_str()),
                None => false,
            },
            None => true,
        };
        let host_ok: bool = match &self.host {
            Some(host) => {
                let text: String = uri.host_with_port.host.text();
                regex_is_match(host.as_str(), text.as_str())
            },
            None => true,
        };
        user_ok && host_ok
    }
}

impl TrunkMatch {
    /// All conditions hold of a call.
    pub open spec fn holds(self, invite: InviteView) -> bool {
        &&& self.from matches Some(m) ==> m.holds(invite.caller)
        &&& self.to matches Some(m) ==> m.holds(invite.callee)
    }

    /// Whether all conditions hold of a call.
    pub fn matches(&self, invite: &InviteOption) -> (r: bool)
        ensures
            r == self.holds(invite@),
    {
        let from_ok: bool = match &self.from {
            Some(from) => from.matches(&invite.caller),
            None => true,
        };
        let to_ok: bool = match &self.to {
            Some(to) => to.matches(&invite.callee),
            None => true,
        };
        from_ok && to_ok
    }
}

impl UriRewrite {
    /// A URI after its user was replaced.
    pub open spec fn with_user(self, uri: UriView) -> UriView {
        match self.user {
            Some(user) => UriView {
                auth: Some(
                    (
                        user@,
                        match uri.auth {
                            Some(a) => a.1,
                            None => None,
                        },
                    ),
                ),
                ..uri
            },
            None => uri,
        }
    }

    /// A URI after its host was replaced; a host that cannot be read changes
    /// nothing.
    pub open spec fn with_host(self, uri: UriView) -> UriView {
        match self.host {
            Some(host) => match sip::host_in(host@) {
                Some((h, port)) => UriView {
                    host: h,
                    host_text: host_text_of(h),
                    port: if port is Some {
                        port
                    } else {
                        uri.port
                    },
                    ..uri
                },
                None => uri,
            },
            None => uri,
        }
    }

    /// A URI after the rewrite.
    pub open spec fn applied(self, uri: UriView) -> UriView {
        self.with_host(self.with_user(uri))
    }

    /// Replaces the user of a URI.
    fn apply_user(&self, uri: &mut Uri)
        ensures
            final(uri)@ == self.with_user(old(uri)@),
    {
        if let Some(user) = &self.user {
            let mut auth: Option<Auth> = None;
            std::mem::swap(&mut auth, &mut uri.auth);
            let password: Option<String> = match auth {
                Some(a) => a.password,
                None => None,
            };
            uri.auth = Some(Auth { user: user.clone(), password });
        }
    }

    /// Puts a host that was read into a URI.
    pub fn put_host(uri: &mut Uri, read: Option<HostWithPort>)
        ensures
            match read {
                Some(h) => final(uri)@ == (UriView {
                    host: h.host@,
                    host_text: h.host.text_of(),
                    port: if h.port is Some {
                        h.port
                    } else {
                        old(uri)@.port
                    },
                    ..old(uri)@
                }),
                None => final(uri)@ == old(uri)@,
            },
    {
        if let Some(host_with_port) = read {
            let mut host_with_port: HostWithPort = host_with_port;
            if host_with_port.port.is_none() {
                host_with_port.port = uri.host_with_port.port;
            }
            uri.host_with_port = host_with_port;
        }
    }

    /// Rewrites a URI.
    pub fn apply(&self, uri: &mut Uri)
        ensures
            final(uri)@ == self.applied(old(uri)@),
    {
        self.apply_user(uri);
        if let Some(host) = &self.host {
            let read: Option<HostWithPort> = sip::parse_host_with_port(host.as_str());
            Self::put_host(uri, read);
        }
    }
}

impl TrunkRewrite {
    /// A call after the rewrite.
    pub open spec fn applied(self, invite: InviteView) -> InviteView {
        InviteView {
            caller: match self.from {
                Some(r) => r.applied(invite.caller),
                None => invite.caller,
            },
            callee: match self.to {
                Some(r) => r.applied(invite.callee),
                None => invite.callee,
            },
            contact: match self.contact {
                Some(r) => r.applied(invite.contact),
                None => invite.contact,
            },
            ..invite
        }
    }

    /// Rewrites a call.
    pub fn apply(&self, invite: &mut InviteOption)
        ensures
            final(invite)@ == self.applied(old(invite)@),
    {
        if let Some(from) = &self.from {
            from.apply(&mut invite.caller);
        }
        if let Some(to) = &self.to {
            to.apply(&mut invite.callee);
        }
        if let Some(contact) = &self.contact {
            contact.apply(&mut invite.contact);
        }
    }
}

impl TrunkRule {
    /// Whether the rule speaks of a call.
    pub fn matches(&self, invite: &InviteOption) -> (r: bool)
        ensures
            r == self.rule.matching.holds(invite@),
    {
        self.rule.matching.matches(invite)
    }

    /// Applies the rule to a call.
    pub fn apply(&self, invite: &mut InviteOption)
        ensures
            final(invite)@ == self.rule.rewrite.applied(old(invite)@),
    {
        self.rule.rewrite.apply(invite);
    }
}

/// A call after the first rule that speaks of it was applied.
pub open spec fn trunk_applied(rules: Seq<TrunkRule>, invite: InviteView) -> InviteView
    decreases rules.len(),
{
    if rules.len() == 0 {
        invite
    } else if rules.first().rule.matching.holds(invite) {
        rules.first().rule.rewrite.applied(invite)
    } else {
        trunk_applied(rules.drop_first(), invite)
    }
}

/// Applies the first rule that speaks of a call.
pub fn apply_first(rules: &Vec<TrunkRule>, invite: &mut InviteOption)
    ensures
        final(invite)@ == trunk_applied(rules@, old(invite)@),
{
    let n: usize = rules.len();
    let mut i: usize = 0;
    assert(rules@.skip(0) =~= rules@);
    while i < n
        invariant
            0 <= i <= n,
            n == rules@.len(),
            *invite == *old(invite),
            trunk_applied(rules@, invite@) == trunk_applied(rules@.skip(i as int), invite@),
        decreases n - i,
    {
        assert(rules@.skip(i as int).drop_first() =~= rules@.skip(i + 1));
        if rules[i].matches(invite) {
            rules[i].apply(invite);
            return;
        }
        i = i + 1;
    }
}

/// The first rule that speaks of a call decides: those before it do not speak
/// of the call, and those behind it are not looked at.
pub proof fn law_first_match_wins(rules: Seq<TrunkRule>, invite: InviteView, i: int)
    requires
        0 <= i < rules.len(),
        rules[i].rule.matching.holds(invite),
        forall|j: int| 0 <= j < i ==> !(#[trigger] rules[j]).rule.matching.holds(invite),
    ensures
        trunk_applied(rules, invite) == rules[i].rule.rewrite.applied(invite),
    decreases i,
{
    if i > 0 {
        assert(!rules[0].rule.matching.holds(invite));
        let rest = rules.drop_first();
        assert forall|j: int| 0 <= j < i - 1 implies !(#[trigger] rest[j]).rule.matching.holds(
            invite,
        ) by {
            assert(rest[j] == rules[j + 1]);
        }
        law_first_match_wins(rest, invite, i - 1);
    }
}

/// Where no rule speaks of a call, the call is left as it is.
pub proof fn law_no_match_no_change(rules: Seq<TrunkRule>, invite: InviteView)
    requires
        forall|j: int| 0 <= j < rules.len() ==> !(#[trigger] rules[j]).rule.matching.holds(invite),
    ensures
        trunk_applied(rules, invite) == invite,
    decreases rules.len(),
{
    if rules.len() > 0 {
        assert(!rules[0].rule.matching.holds(invite));
        let rest = rules.drop_first();
        assert forall|j: int| 0 <= j < rest.len() implies !(#[trigger] rest[j]).rule.matching.holds(
            invite,
        ) by {
            assert(rest[j] == rules[j + 1]);
        }
        law_no_match_no_change(rest, invite);
    }
}

/// A rule without conditions speaks of every call.
pub proof fn law_empty_match_is_catch_all(m: TrunkMatch, invite: InviteView)
    requires
        m.from is None,
        m.to is None,
    ensures
        m.holds(invite),
{
}

/// A rewrite whose host names no port keeps the port of the URI.
pub proof fn law_port_is_kept(rewrite: UriRewrite, uri: UriView)
    requires
        rewrite.host matches Some(h) ==> (sip::host_in(h@) matches Some(x) ==> x.1 is None),
    ensures
        rewrite.applied(uri).port == uri.port,
{
}

/// A rewrite touches the user and the host of a URI and nothing else, and a
/// password stays with the new user.
pub proof fn law_rewrite_keeps_the_rest(rewrite: UriRewrite, uri: UriView)
    ensures
        rewrite.applied(uri).scheme == uri.scheme,
        rewrite.applied(uri).tail == uri.tail,
        uri.auth matches Some(a) ==> (rewrite.applied(uri).auth matches Some(b) && b.1 == a.1),
        rewrite.user is None ==> rewrite.applied(uri).auth == uri.auth,
        rewrite.host is None ==> rewrite.applied(uri).host == uri.host,
{
}

/// Every condition that a rule has counts: one on the caller is not made up for
/// by one on the callee, nor the other way round. Where all that are there hold,
/// the rule speaks of the call.
pub proof fn law_every_condition_counts(m: TrunkMatch, invite: InviteOption)
    ensures
        m.from matches Some(from) && !from.holds(invite.caller@) ==> !m.holds(invite@),
        m.to matches Some(to) && !to.holds(invite.callee@) ==> !m.holds(invite@),
        (m.from matches Some(from) ==> from.holds(invite.caller@)) && (m.to matches Some(to)
            ==> to.holds(invite.callee@)) ==> m.holds(invite@),
{
}

/// What the pattern for a user is looked for in is the user, and what that for a
/// host is looked for in is the host, written as a name or as an address. A
/// pattern that is not found, or cannot be read, rules the URI out; so does a
/// pattern for the user where there is none. Nothing else does.
pub proof fn law_every_pattern_counts(m: UriMatch, uri: Uri)
    ensures
        m.user is Some && uri.auth is None ==> !m.holds(uri@),
        m.user matches Some(p) && (uri.auth matches Some(a) && regex_match(p@, a.user@) != Some(
            true,
        )) ==> !m.holds(uri@),
        m.host matches Some(p) && (uri.host_with_port.host matches sip::Host::Domain(d)
            && regex_match(p@, d@) != Some(true)) ==> !m.holds(uri@),
        m.host matches Some(p) && (uri.host_with_port.host matches sip::Host::Ip(ip) && regex_match(
            p@,
            crate::addr::ip_text(ip.is_v6(), ip.bits()),
        ) != Some(true)) ==> !m.holds(uri@),
        ({
            let user_found = m.user matches Some(p) ==> (uri.auth matches Some(a) && regex_match(
                p@,
                a.user@,
            ) == Some(true));
            let host_found = m.host matches Some(p) ==> match uri.host_with_port.host {
                sip::Host::Domain(d) => regex_match(p@, d@) == Some(true),
                sip::Host::Ip(ip) => regex_match(p@, crate::addr::ip_text(ip.is_v6(), ip.bits()))
                    == Some(true),
            };
            user_found && host_found ==> m.holds(uri@)
        }),
{
}

/// After a rewrite that names a user, that is the user, whoever it was before;
/// the password is the one that was there.
pub proof fn law_new_user_is_in_place(rewrite: UriRewrite, uri: UriView, user: String)
    requires
        rewrite.user == Some(user),
    ensures
        rewrite.applied(uri).auth matches Some(a) && a.0 == user@,
        uri.auth is None ==> (rewrite.applied(uri).auth matches Some(a) && a.1 is None),
        uri.auth matches Some(was) ==> (rewrite.applied(uri).auth matches Some(a) && a.1 == was.1),
{
}

/// After a rewrite that names a host that can be read, that is the host, and so
/// is its port where it names one. One that cannot be read changes neither.
pub proof fn law_new_host_is_in_place(rewrite: UriRewrite, uri: UriView, host: String)
    requires
        rewrite.host == Some(host),
    ensures
        sip::host_in(host@) matches Some(read) ==> {
            &&& rewrite.applied(uri).host == read.0
            &&& read.0 matches HostView::Domain { name } ==> rewrite.applied(uri).host_text == name
            &&& read.0 matches HostView::Ip { v6, bits } ==> rewrite.applied(uri).host_text
                == crate::addr::ip_text(v6, bits)
            &&& read.1 is Some ==> rewrite.applied(uri).port == read.1
            &&& read.1 is None ==> rewrite.applied(uri).port == uri.port
        },
        sip::host_in(host@) is None ==> {
            &&& rewrite.applied(uri).host == uri.host
            &&& rewrite.applied(uri).host_text == uri.host_text
            &&& rewrite.applied(uri).port == uri.port
        },
{
}

/// The three URIs of a call are rewritten apart from each other: what a rule says
/// of one does not reach another, one of which it says nothing stays, and the
/// offer stays in any case.
pub proof fn law_rewrites_are_apart(rewrite: TrunkRewrite, invite: InviteOption)
    ensures
        rewrite.from matches Some(r) ==> rewrite.applied(invite@).caller == r.applied(
            invite.caller@,
        ),
        rewrite.to matches Some(r) ==> rewrite.applied(invite@).callee == r.applied(
            invite.callee@,
        ),
        rewrite.contact matches Some(r) ==> rewrite.applied(invite@).contact == r.applied(
            invite.contact@,
        ),
        rewrite.from is None ==> rewrite.applied(invite@).caller == invite.caller@,
        rewrite.to is None ==> rewrite.applied(invite@).callee == invite.callee@,
        rewrite.contact is None ==> rewrite.applied(invite@).contact == invite.contact@,
        invite.offer matches Some(offer) ==> rewrite.applied(invite@).offer == Some(offer@),
        invite.offer is None ==> rewrite.applied(invite@).offer is None,
{
}

/// Rules behind one that speaks of a call change nothing.
pub proof fn law_later_rules_do_not_count(
    rules: Seq<TrunkRule>,
    more: Seq<TrunkRule>,
    invite: InviteView,
)
    requires
        exists|i: int| 0 <= i < rules.len() && (#[trigger] rules[i]).rule.matching.holds(invite),
    ensures
        trunk_applied(rules + more, invite) == trunk_applied(rules, invite),
    decreases rules.len(),
{
    let i = choose|i: int|
        0 <= i < rules.len() && (#[trigger] rules[i]).rule.matching.holds(invite);
    assert((rules + more).first() == rules.first());
    if !rules.first().rule.matching.holds(invite) {
        let rest = rules.drop_first();
        assert(rest[i - 1] == rules[i]);
        law_later_rules_do_not_count(rest, more, invite);
        assert((rules + more).drop_first() =~= rest + more);
    }
}

}
