//! SIP values as the call logic reads them.
use crate::addr::IpAddr;
use crate::{addr, text};
use vstd::prelude::*;

verus! {

/// The user part of a URI.
#[derive(Debug, PartialEq, Eq)]
pub struct Auth {
    pub user: String,
    pub password: Option<String>,
}

/// A host: a name, or an IP address.
#[derive(Debug, PartialEq, Eq)]
pub enum Host {
    Domain(String),
    Ip(IpAddr),
}

/// A host and an optional port.
#[derive(Debug, PartialEq, Eq)]
pub struct HostWithPort {
    pub host: Host,
    pub port: Option<u16>,
}

/// A SIP URI.
#[derive(Debug, PartialEq, Eq)]
pub struct Uri {
    pub scheme: Option<String>,
    pub auth: Option<Auth>,
    pub host_with_port: HostWithPort,
    /// The text of the parameters and headers behind the host.
    pub tail: String,
}

/// An INVITE or REFER that is about to be sent.
#[derive(Debug, PartialEq, Eq)]
pub struct InviteOption {
    pub caller: Uri,
    pub callee: Uri,
    pub contact: Uri,
    pub offer: Option<Vec<u8>>,
}

/// The name of a dialog.
#[derive(Debug, PartialEq, Eq)]
pub struct DialogId {
    pub call_id: String,
    pub local_tag: String,
    pub remote_tag: String,
}

/// A header of a request, as far as the call logic tells headers apart.
#[derive(Debug, PartialEq, Eq)]
pub enum Header {
    ContentType(String),
    ReferTo(String),
    ReferredBy(String),
    CSeq(String),
    From(String),
    To(String),
    Reason(String),
    /// A header that SIP does not name itself.
    Other(String, String),
    /// A header that the call logic does not read.
    Unread,
}

/// The headers that the call logic looks for.
#[derive(Debug, Clone, Copy, PartialEq, Eq, Structural)]
pub enum HeaderName {
    ContentType,
    ReferTo,
    ReferredBy,
    CSeq,
    From,
    To,
    Reason,
}

impl Header {
    /// The value of a header that has the name.
    pub open spec fn value_of(&self, name: HeaderName) -> Option<Seq<char>> {
        match (*self, name) {
            (Header::ContentType(v), HeaderName::ContentType) => Some(v@),
            (Header::ReferTo(v), HeaderName::ReferTo) => Some(v@),
            (Header::ReferredBy(v), HeaderName::ReferredBy) => Some(v@),
            (Header::CSeq(v), HeaderName::CSeq) => Some(v@),
            (Header::From(v), HeaderName::From) => Some(v@),
            (Header::To(v), HeaderName::To) => Some(v@),
            (Header::Reason(v), HeaderName::Reason) => Some(v@),
            _ => None,
        }
    }

    /// The value of a header that has the name.
    pub fn value(&self, name: HeaderName) -> (r: Option<String>)
        ensures
            text::opt_view(r) == self.value_of(name),
    {
        match (self, name) {
            (Header::ContentType(v), HeaderName::ContentType) => Some(v.clone()),
            (Header::ReferTo(v), HeaderName::ReferTo) => Some(v.clone()),
            (Header::ReferredBy(v), HeaderName::ReferredBy) => Some(v.clone()),
            (Header::CSeq(v), HeaderName::CSeq) => Some(v.clone()),
            (Header::From(v), HeaderName::From) => Some(v.clone()),
            (Header::To(v), HeaderName::To) => Some(v.clone()),
            (Header::Reason(v), HeaderName::Reason) => Some(v.clone()),
            _ => None,
        }
    }
}

/// The value of the first header that has a name.
pub open spec fn first_value(headers: Seq<Header>, name: HeaderName) -> Option<Seq<char>>
    decreases headers.len(),
{
    if headers.len() == 0 {
        None
    } else if headers.first().value_of(name) is Some {
        headers.first().value_of(name)
    } else {
        first_value(headers.drop_first(), name)
    }
}

/// The value of the first header that has a name.
pub fn find_value(headers: &Vec<Header>, name: HeaderName) -> (r: Option<String>)
    ensures
        text::opt_view(r) == first_value(headers@, name),
{
    let n: usize = headers.len();
    let mut i: usize = 0;
    assert(headers@.skip(0) =~= headers@);
    while i < n
        invariant
            0 <= i <= n,
            n == headers@.len(),
            first_value(headers@, name) == first_value(headers@.skip(i as int), name),
        decreases n - i,
    {
        assert(headers@.skip(i as int).drop_first() =~= headers@.skip(i + 1));
        let found: Option<String> = headers[i].value(name);
        if found.is_some() {
            return found;
        }
        i = i + 1;
    }
    None
}

/// The URI that [`from_uri`] reads in a `From` value.
pub uninterp spec fn from_uri_in(value: Seq<char>) -> Option<Seq<char>>;

/// The URI in a `From` value, read by the `uri` function of rsipstack's untyped
/// `From` header and written by the `Display` impl of its `Uri`. It is a function
/// of the value alone; the grammar is left open here.
#[verifier::external_body]
pub(crate) fn from_uri(value: &str) -> (r: Option<String>)
    ensures
        text::opt_view(r) == from_uri_in(value@),
{
    rsipstack::sip::headers::untyped::From::new(value).uri().ok().map(|u| u.to_string())
}

/// The URI that [`to_uri`] reads in a `To` value.
pub uninterp spec fn to_uri_in(value: Seq<char>) -> Option<Seq<char>>;

/// The URI in a `To` value, read by the `uri` function of rsipstack's untyped
/// `To` header and written by the `Display` impl of its `Uri`. It is a function
/// of the value alone; the grammar is left open here.
#[verifier::external_body]
pub(crate) fn to_uri(value: &str) -> (r: Option<String>)
    ensures
        text::opt_view(r) == to_uri_in(value@),
{
    rsipstack::sip::headers::untyped::To::new(value).uri().ok().map(|u| u.to_string())
}

/// The text that [`status_text`] makes of a status code and its words.
pub uninterp spec fn status_text_in(code: u16, words: Seq<char>) -> Seq<char>;

/// A status code with its usual words, from the `TryFrom<(u16, &str)>` impl of
/// rsipstack's `StatusCode`, which does not fail, and its `Display` impl. A code
/// that SIP does not name keeps the words that came with it. The text is a
/// function of the code and those words; the table of usual words is left open
/// here.
#[verifier::external_body]
pub(crate) fn status_text(code: u16, words: &str) -> (r: String)
    ensures
        r@ == status_text_in(code, words@),
{
    match rsipstack::sip::StatusCode::try_from((code, words)) {
        Ok(status) => status.to_string(),
        Err(e) => e.to_string(),
    }
}

/// A SIP method.
#[derive(Debug, Clone, Copy, PartialEq, Eq, Structural)]
pub enum Method {
    Ack,
    Bye,
    Cancel,
    Info,
    Invite,
    Message,
    Notify,
    Options,
    PRack,
    Publish,
    Refer,
    Register,
    Subscribe,
    Update,
}

/// Why a dialog came to its end.
#[derive(Debug, Clone, Copy, PartialEq, Eq, Structural)]
pub enum TerminatedReason {
    Timeout,
    UacCancel,
    UacBye,
    UasBye,
    UacBusy,
    UasBusy,
    UasDecline,
    ProxyError(u16),
    ProxyAuthRequired,
    UacOther(u16),
    UasOther(u16),
}

/// Status code of a request that cannot be carried out with these media.
pub const NOT_ACCEPTABLE_HERE: u16 = 488;

/// Why a call could not be set up.
#[derive(Debug, PartialEq, Eq)]
pub enum SipError {
    /// The other side refused.
    DialogError { reason: String, dialog_id: DialogId, code: u16 },
    /// Something else went wrong.
    Error { message: String },
}

/// What a [`DialogId`] holds.
#[verifier::ext_equal]
pub struct DialogIdView {
    pub call_id: Seq<char>,
    pub local_tag: Seq<char>,
    pub remote_tag: Seq<char>,
}

impl View for DialogId {
    type V = DialogIdView;

    open spec fn view(&self) -> DialogIdView {
        DialogIdView {
            call_id: self.call_id@,
            local_tag: self.local_tag@,
            remote_tag: self.remote_tag@,
        }
    }
}

/// What a [`SipError`] holds.
#[verifier::ext_equal]
pub enum SipErrorView {
    DialogError { reason: Seq<char>, dialog_id: DialogIdView, code: u16 },
    Error { message: Seq<char> },
}

impl View for SipError {
    type V = SipErrorView;

    open spec fn view(&self) -> SipErrorView {
        match *self {
            SipError::DialogError { reason, dialog_id, code } => SipErrorView::DialogError {
                reason: reason@,
                dialog_id: dialog_id@,
                code,
            },
            SipError::Error { message } => SipErrorView::Error { message: message@ },
        }
    }
}

impl Clone for Auth {
    fn clone(&self) -> (r: Self)
        ensures
            r == *self,
    {
        Auth { user: self.user.clone(), password: self.password.clone() }
    }
}

impl Clone for Host {
    fn clone(&self) -> (r: Self)
        ensures
            r == *self,
    {
        match self {
            Host::Domain(d) => Host::Domain(d.clone()),
            Host::Ip(ip) => Host::Ip(*ip),
        }
    }
}

impl Clone for HostWithPort {
    fn clone(&self) -> (r: Self)
        ensures
            r == *self,
    {
        HostWithPort { host: self.host.clone(), port: self.port }
    }
}

impl Clone for Uri {
    fn clone(&self) -> (r: Self)
        ensures
            r == *self,
    {
        Uri {
            scheme: self.scheme.clone(),
            auth: match &self.auth {
                Some(a) => Some(a.clone()),
                None => None,
            },
            host_with_port: self.host_with_port.clone(),
            tail: self.tail.clone(),
        }
    }
}

impl Clone for DialogId {
    fn clone(&self) -> (r: Self)
        ensures
            r == *self,
    {
        DialogId {
            call_id: self.call_id.clone(),
            local_tag: self.local_tag.clone(),
            remote_tag: self.remote_tag.clone(),
        }
    }
}

impl DialogId {
    /// The name in one text.
    pub open spec fn text_of(&self) -> Seq<char> {
        self.call_id@ + "-"@ + self.local_tag@ + "-"@ + self.remote_tag@
    }

    /// The name in one text.
    pub fn text(&self) -> (r: String)
        ensures
            r@ == self.text_of(),
    {
        let a: String = text::concat2(self.call_id.as_str(), "-");
        let b: String = text::concat2(a.as_str(), self.local_tag.as_str());
        let c: String = text::concat2(b.as_str(), "-");
        text::concat2(c.as_str(), self.remote_tag.as_str())
    }

    /// The three parts of the name are the same.
    pub open spec fn same(&self, other: &DialogId) -> bool {
        &&& self.call_id@ == other.call_id@
        &&& self.local_tag@ == other.local_tag@
        &&& self.remote_tag@ == other.remote_tag@
    }

    /// Whether two names are the same.
    pub fn equals(&self, other: &DialogId) -> (r: bool)
        ensures
            r == self.same(other),
    {
        text::str_eq(self.call_id.as_str(), other.call_id.as_str()) && text::str_eq(
            self.local_tag.as_str(),
            other.local_tag.as_str(),
        ) && text::str_eq(self.remote_tag.as_str(), other.remote_tag.as_str())
    }
}

impl Host {
    /// The text of the host in a URI.
    pub open spec fn text_of(&self) -> Seq<char> {
        match *self {
            Host::Domain(d) => d@,
            Host::Ip(ip) => addr::ip_text(ip.is_v6(), ip.bits()),
        }
    }

    /// The text of the host in a URI.
    pub fn text(&self) -> (r: String)
        ensures
            r@ == self.text_of(),
    {
        match self {
            Host::Domain(d) => d.clone(),
            Host::Ip(ip) => addr::ip_host_text(*ip),
        }
    }
}

/// What a [`Host`] holds.
#[verifier::ext_equal]
pub enum HostView {
    Domain { name: Seq<char> },
    Ip { v6: bool, bits: u128 },
}

impl View for Host {
    type V = HostView;

    open spec fn view(&self) -> HostView {
        match *self {
            Host::Domain(d) => HostView::Domain { name: d@ },
            Host::Ip(ip) => HostView::Ip { v6: ip.is_v6(), bits: ip.bits() },
        }
    }
}

/// The host and the port in an optional [`HostWithPort`].
pub open spec fn opt_host(h: Option<HostWithPort>) -> Option<(HostView, Option<u16>)> {
    match h {
        Some(h) => Some((h.host@, h.port)),
        None => None,
    }
}

/// The host and the port that [`parse_host_with_port`] reads in a text.
pub uninterp spec fn host_in(text: Seq<char>) -> Option<(HostView, Option<u16>)>;

/// Reads a text as a host with an optional port, with the `TryFrom<&str>` impl
/// of [`rsipstack::sip::HostWithPort`]. What it reads is a function of the text
/// alone; the grammar is left open here.
#[verifier::external_body]
pub(crate) fn parse_host_with_port(raw: &str) -> (r: Option<HostWithPort>)
    ensures
        opt_host(r) == host_in(raw@),
{
    let parsed = rsipstack::sip::HostWithPort::try_from(raw).ok()?;
    let host = match parsed.host {
        rsipstack::sip::Host::Domain(d) => Host::Domain(d.to_string()),
        rsipstack::sip::Host::IpAddr(ip) => match ipnet::IpNet::new(ip, 0).ok()? {
            ipnet::IpNet::V4(n) => Host::Ip(IpAddr::V4(u32::from_be_bytes(n.addr().octets()))),
            ipnet::IpNet::V6(n) => Host::Ip(IpAddr::V6(u128::from_be_bytes(n.addr().octets()))),
        },
    };
    Some(HostWithPort { host, port: parsed.port.map(|p| p.0) })
}

/// Of several headers with a name the first one counts, whatever stands before it
/// under other names; where none has the name, there is no value.
pub proof fn law_first_header_counts(headers: Seq<Header>, name: HeaderName, i: int)
    requires
        0 <= i <= headers.len(),
        forall|j: int| 0 <= j < i ==> (#[trigger] headers[j]).value_of(name) is None,
        i < headers.len() ==> headers[i].value_of(name) is Some,
    ensures
        i < headers.len() ==> first_value(headers, name) == headers[i].value_of(name),
        i == headers.len() ==> first_value(headers, name) is None,
    decreases i,
{
    if i > 0 {
        assert(headers[0].value_of(name) is None);
        let rest = headers.drop_first();
        assert forall|j: int| 0 <= j < i - 1 implies (#[trigger] rest[j]).value_of(name) is None by {
            assert(rest[j] == headers[j + 1]);
        }
        law_first_header_counts(rest, name, i - 1);
    }
}

/// A header has its own name and no other, and its value is its text. One that SIP
/// does not name, and one that is not read, has none of these names.
pub proof fn law_headers_have_their_names(v: String, name: HeaderName, header: Header)
    ensures
        Header::ContentType(v).value_of(name) == if name == HeaderName::ContentType {
            Some(v@)
        } else {
            None
        },
        Header::ReferTo(v).value_of(name) == if name == HeaderName::ReferTo {
            Some(v@)
        } else {
            None
        },
        Header::ReferredBy(v).value_of(name) == if name == HeaderName::ReferredBy {
            Some(v@)
        } else {
            None
        },
        Header::CSeq(v).value_of(name) == if name == HeaderName::CSeq {
            Some(v@)
        } else {
            None
        },
        Header::From(v).value_of(name) == if name == HeaderName::From {
            Some(v@)
        } else {
            None
        },
        Header::To(v).value_of(name) == if name == HeaderName::To {
            Some(v@)
        } else {
            None
        },
        Header::Reason(v).value_of(name) == if name == HeaderName::Reason {
            Some(v@)
        } else {
            None
        },
        header is Other || header is Unread ==> header.value_of(name) is None,
{
}

/// Two names of dialogs are the same where all three of their parts are, and then
/// they have one text, which holds the parts in their order with hyphens between.
pub proof fn law_dialogs_go_by_three_parts(a: DialogId, b: DialogId)
    ensures
        a.same(&b) <==> a@ == b@,
        a.same(&b) ==> a.text_of() == b.text_of(),
        a.call_id@.is_prefix_of(a.text_of()),
        a.remote_tag@.is_suffix_of(a.text_of()),
        a.text_of().len() == a.call_id@.len() + a.local_tag@.len() + a.remote_tag@.len() + 2,
        a.text_of()[a.call_id@.len() as int] == '-',
        a.text_of().subrange(
            (a.call_id@.len() + 1) as int,
            (a.call_id@.len() + 1 + a.local_tag@.len()) as int,
        ) == a.local_tag@,
        a.text_of()[(a.call_id@.len() + 1 + a.local_tag@.len()) as int] == '-',
{
    reveal_strlit("-");
    let text = a.text_of();
    assert(a.call_id@ =~= text.take(a.call_id@.len() as int));
    assert(a.remote_tag@ =~= text.skip(text.len() - a.remote_tag@.len()));
    assert(text.subrange(
        (a.call_id@.len() + 1) as int,
        (a.call_id@.len() + 1 + a.local_tag@.len()) as int,
    ) =~= a.local_tag@);
}

/// The text of a host is its name, or the text of its address.
pub proof fn law_host_text(name: String, ip: IpAddr)
    ensures
        Host::Domain(name).text_of() == name@,
        Host::Ip(ip).text_of() == addr::ip_text(ip.is_v6(), ip.bits()),
{
}

/// What is seen of a [`SipError`] is all that it holds, and nothing else.
pub proof fn law_view_of_sip_error(it: SipError)
    ensures
        it matches SipError::DialogError { reason, dialog_id, code } ==> it@ == (
        SipErrorView::DialogError {
            reason: reason@,
            dialog_id: dialog_id@,
            code,
        }),
        it matches SipError::Error { message } ==> it@ == (SipErrorView::Error {
            message: message@,
        }),
{
}

/// What is seen of a [`Host`] is all that it holds, and nothing else.
pub proof fn law_view_of_host(it: Host)
    ensures
        it matches Host::Domain(d) ==> it@ == (HostView::Domain { name: d@ }),
        it matches Host::Ip(ip) ==> it@ == (HostView::Ip { v6: ip.is_v6(), bits: ip.bits() }),
{
}

}
