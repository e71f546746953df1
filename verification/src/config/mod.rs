//! The configuration of a node.
use crate::clock::TimeSpan;
use crate::media::ambiance::AmbianceOption;
use crate::option::RecorderFormat;
use crate::text;
use vstd::prelude::*;
use vstd::string::*;

pub mod options;
pub mod recording;
pub mod trunk;

use crate::addr::IpAddr;
use crate::config::options::{OptionsAclEntry, OptionsResponseConfig};
use crate::config::recording::RecordingPolicy;
use crate::config::trunk::TrunkRule;
use crate::maps::StringMap;
use crate::sip::InviteOption;

verus! {

/// The command line.
#[derive(Debug, PartialEq, Eq)]
pub struct Cli {
    /// Path to the configuration file.
    pub conf: Option<String>,
    /// HTTP listening address.
    pub http: Option<String>,
    /// SIP listening port.
    pub sip: Option<String>,
    /// Handler of invitations: the URL of a webhook, or a playbook file.
    pub handler: Option<String>,
    /// A SIP address to call at once.
    pub call: Option<String>,
    /// External IP address for SIP and RTP.
    pub external_ip: Option<String>,
    /// Supported codecs.
    pub codecs: Option<Vec<String>>,
}

/// A rule that rewrites a text.
#[derive(Debug, PartialEq, Eq)]
pub struct RewriteRule {
    pub matching: String,
    pub rewrite: String,
}

impl Clone for RewriteRule {
    fn clone(&self) -> (r: Self)
        ensures
            r == *self,
    {
        RewriteRule { matching: self.matching.clone(), rewrite: self.rewrite.clone() }
    }
}

/// A user whom the node registers with a server.
#[derive(Debug, PartialEq, Eq)]
pub struct RegisterOption {
    pub server: String,
    pub username: String,
}

impl Clone for RegisterOption {
    fn clone(&self) -> (r: Self)
        ensures
            r == *self,
    {
        RegisterOption { server: self.server.clone(), username: self.username.clone() }
    }
}

/// A server that helps peers find each other.
#[derive(Debug, PartialEq, Eq)]
pub struct IceServer {
    pub urls: Vec<String>,
    pub username: Option<String>,
    pub credential: Option<String>,
    /// The credential is an OAuth token, not a password.
    pub oauth: bool,
}

/// What an [`IceServer`] holds.
#[verifier::ext_equal]
pub struct IceServerView {
    pub urls: Seq<String>,
    pub username: Option<String>,
    pub credential: Option<String>,
    pub oauth: bool,
}

impl View for IceServer {
    type V = IceServerView;

    open spec fn view(&self) -> IceServerView {
        IceServerView {
            urls: self.urls@,
            username: self.username,
            credential: self.credential,
            oauth: self.oauth,
        }
    }
}

impl Clone for IceServer {
    fn clone(&self) -> (r: Self)
        ensures
            r@ == self@,
    {
        IceServer {
            urls: copy_strings(&self.urls),
            username: self.username.clone(),
            credential: self.credential.clone(),
            oauth: self.oauth,
        }
    }
}

/// What an optional list of servers holds.
pub open spec fn opt_ice(v: Option<Vec<IceServer>>) -> Option<Seq<IceServerView>> {
    match v {
        Some(v) => Some(Seq::new(v@.len(), |i: int| v@[i]@)),
        None => None,
    }
}

/// An optional list with the same servers.
pub fn copy_ice(v: &Option<Vec<IceServer>>) -> (r: Option<Vec<IceServer>>)
    ensures
        opt_ice(r) == opt_ice(*v),
{
    match v {
        Some(v) => {
            let c: Vec<IceServer> = v.clone();
            assert(opt_ice(Some(c))->0 =~= opt_ice(Some(*v))->0);
            Some(c)
        },
        None => None,
    }
}

/// Which playbook a call gets.
#[derive(Debug, PartialEq, Eq)]
pub struct PlaybookRule {
    pub caller: Option<String>,
    pub callee: Option<String>,
    pub playbook: String,
}

impl Clone for PlaybookRule {
    fn clone(&self) -> (r: Self)
        ensures
            r == *self,
    {
        PlaybookRule {
            caller: self.caller.clone(),
            callee: self.callee.clone(),
            playbook: self.playbook.clone(),
        }
    }
}

/// Who decides on an incoming call.
#[derive(Debug, PartialEq, Eq)]
pub enum InviteHandlerConfig {
    Webhook {
        url: Option<String>,
        urls: Option<Vec<String>>,
        method: Option<String>,
        headers: Option<Vec<(String, String)>>,
    },
    Playbook { rules: Option<Vec<PlaybookRule>>, default: Option<String> },
}

/// A kind of object storage.
#[derive(Debug, Clone, Copy, PartialEq, Eq, Structural)]
pub enum S3Vendor {
    Aliyun,
    Tencent,
    Minio,
    AWS,
    GCP,
    Azure,
    DigitalOcean,
}

/// Where records of calls are kept.
#[derive(Debug, PartialEq, Eq)]
pub enum CallRecordConfig {
    Local { root: String },
    S3 {
        vendor: S3Vendor,
        bucket: String,
        region: String,
        access_key: String,
        secret_key: String,
        endpoint: String,
        root: String,
        with_media: Option<bool>,
        keep_media_copy: Option<bool>,
    },
    Http {
        url: String,
        headers: Option<StringMap>,
        with_media: Option<bool>,
        keep_media_copy: Option<bool>,
    },
}

/// The items of an optional list.
pub open spec fn opt_seq<T>(v: Option<Vec<T>>) -> Option<Seq<T>> {
    match v {
        Some(v) => Some(v@),
        None => None,
    }
}

impl InviteHandlerConfig {
    /// Two handlers are configured alike.
    pub open spec fn same(self, other: Self) -> bool {
        match (self, other) {
            (
                InviteHandlerConfig::Webhook { url, urls, method, headers },
                InviteHandlerConfig::Webhook {
                    url: url2,
                    urls: urls2,
                    method: method2,
                    headers: headers2,
                },
            ) => url == url2 && opt_seq(urls) == opt_seq(urls2) && method == method2 && opt_seq(
                headers,
            ) == opt_seq(headers2),
            (
                InviteHandlerConfig::Playbook { rules, default },
                InviteHandlerConfig::Playbook { rules: rules2, default: default2 },
            ) => opt_seq(rules) == opt_seq(rules2) && default == default2,
            _ => false,
        }
    }
}

/// A list with the same texts.
pub fn copy_strings(v: &Vec<String>) -> (r: Vec<String>)
    ensures
        r@ == v@,
{
    let r: Vec<String> = v.clone();
    assert(r@ =~= v@);
    r
}

/// An optional list with the same texts.
fn copy_strings_opt(v: &Option<Vec<String>>) -> (r: Option<Vec<String>>)
    ensures
        opt_seq(r) == opt_seq(*v),
{
    match v {
        Some(v) => Some(copy_strings(v)),
        None => None,
    }
}

impl Clone for InviteHandlerConfig {
    fn clone(&self) -> (r: Self)
        ensures
            r.same(*self),
    {
        match self {
            InviteHandlerConfig::Webhook { url, urls, method, headers } =>
                InviteHandlerConfig::Webhook {
                url: url.clone(),
                urls: copy_strings_opt(urls),
                method: method.clone(),
                headers: match headers {
                    Some(h) => Some(crate::maps::copy_pairs(h)),
                    None => None,
                },
            },
            InviteHandlerConfig::Playbook { rules, default } => InviteHandlerConfig::Playbook {
                rules: match rules {
                    Some(v) => {
                        let c: Vec<PlaybookRule> = v.clone();
                        assert(c@ =~= v@);
                        Some(c)
                    },
                    None => None,
                },
                default: default.clone(),
            },
        }
    }
}

/// Where records of calls are kept unless told otherwise.
pub const DEFAULT_CDR_ROOT: &'static str = "./config/cdr";

impl Default for CallRecordConfig {
    fn default() -> (r: Self)
        ensures
            r matches CallRecordConfig::Local { root } && root@ == DEFAULT_CDR_ROOT@,
    {
        CallRecordConfig::Local { root: DEFAULT_CDR_ROOT.to_string() }
    }
}

impl CallRecordConfig {
    /// Two places for records are the same.
    pub open spec fn same(self, other: Self) -> bool {
        match (self, other) {
            (
                CallRecordConfig::Http { url, headers, with_media, keep_media_copy },
                CallRecordConfig::Http {
                    url: url2,
                    headers: headers2,
                    with_media: with_media2,
                    keep_media_copy: keep_media_copy2,
                },
            ) => url == url2 && crate::maps::opt_pairs(headers) == crate::maps::opt_pairs(headers2)
                && with_media == with_media2 && keep_media_copy == keep_media_copy2,
            _ => self == other,
        }
    }
}

impl Clone for CallRecordConfig {
    fn clone(&self) -> (r: Self)
        ensures
            r.same(*self),
    {
        match self {
            CallRecordConfig::Local { root } => CallRecordConfig::Local { root: root.clone() },
            CallRecordConfig::S3 {
                vendor,
                bucket,
                region,
                access_key,
                secret_key,
                endpoint,
                root,
                with_media,
                keep_media_copy,
            } => CallRecordConfig::S3 {
                vendor: *vendor,
                bucket: bucket.clone(),
                region: region.clone(),
                access_key: access_key.clone(),
                secret_key: secret_key.clone(),
                endpoint: endpoint.clone(),
                root: root.clone(),
                with_media: *with_media,
                keep_media_copy: *keep_media_copy,
            },
            CallRecordConfig::Http { url, headers, with_media, keep_media_copy } =>
                CallRecordConfig::Http {
                url: url.clone(),
                headers: match headers {
                    Some(h) => Some(h.clone()),
                    None => None,
                },
                with_media: *with_media,
                keep_media_copy: *keep_media_copy,
            },
        }
    }
}

/// The configuration of a node.
#[derive(Debug, PartialEq, Eq)]
pub struct Config {
    pub http_addr: String,
    pub addr: String,
    pub udp_port: u16,
    pub auto_learn_public_address: Option<bool>,
    pub log_level: Option<String>,
    pub log_file: Option<String>,
    pub http_access_skip_paths: Vec<String>,
    /// The other nodes, by the addresses of their HTTP endpoints. A request for
    /// a call that is not here is tried at each of them, unless it comes from
    /// one of them.
    pub peers: Vec<String>,
    pub useragent: Option<String>,
    pub register_users: Option<Vec<RegisterOption>>,
    pub graceful_shutdown: Option<bool>,
    /// Seconds for which a shutdown waits for calls and registrations.
    pub graceful_shutdown_timeout: Option<u64>,
    pub handler: Option<InviteHandlerConfig>,
    pub accept_timeout: Option<String>,
    pub codecs: Option<Vec<String>>,
    pub external_ip: Option<String>,
    pub rtp_start_port: Option<u16>,
    pub rtp_end_port: Option<u16>,
    pub enable_rtp_latching: Option<bool>,
    pub enable_ice_lite: Option<bool>,
    pub rtp_bind_ip: Option<String>,
    pub tls_port: Option<u16>,
    pub tls_cert_file: Option<String>,
    pub tls_key_file: Option<String>,
    pub enable_srtp: Option<bool>,
    pub callrecord: Option<CallRecordConfig>,
    pub media_cache_path: String,
    pub ambiance: Option<AmbianceOption>,
    pub ice_servers: Option<Vec<IceServer>>,
    pub recording: Option<RecordingPolicy>,
    pub rewrites: Option<Vec<RewriteRule>>,
    pub trunk_rules: Option<Vec<TrunkRule>>,
    pub enable_options_response: Option<bool>,
    pub options_response: Option<OptionsResponseConfig>,
    /// Follow transfers that the other side asks for.
    pub auto_refer: Option<bool>,
    /// Seconds for which the target of such a transfer may ring.
    pub auto_refer_timeout: Option<u32>,
}

/// The version of this node.
pub const VERSION: &'static str = "0.3.0";

/// HTTP address unless told otherwise.
pub const DEFAULT_HTTP_ADDR: &'static str = "0.0.0.0:8080";

/// SIP address unless told otherwise.
pub const DEFAULT_SIP_ADDR: &'static str = "0.0.0.0";

/// SIP port unless told otherwise.
pub const DEFAULT_SIP_PORT: u16 = 25060;

/// First RTP port unless told otherwise.
pub const DEFAULT_RTP_START_PORT: u16 = 12000;

/// Last RTP port unless told otherwise.
pub const DEFAULT_RTP_END_PORT: u16 = 42000;

/// Seconds for a shutdown unless told otherwise.
pub const DEFAULT_SHUTDOWN_SECS: u64 = 30;

/// Place of cached media unless told otherwise.
pub const DEFAULT_MEDIA_CACHE: &'static str = "./config/mediacache";

/// Time for accepting a call unless told otherwise.
pub const DEFAULT_ACCEPT_TIMEOUT: &'static str = "50s";

/// The name that the node gives itself.
pub open spec fn default_useragent() -> Seq<char> {
    "active-call("@ + VERSION@ + " miuda.ai)"@
}

/// The codecs that are offered unless told otherwise.
pub open spec fn default_codec_names() -> Seq<Seq<char>> {
    seq!["pcmu"@, "pcma"@, "g722"@, "g729"@, "opus"@, "telephone_event"@]
}

/// The name that the node gives itself.
pub fn default_config_useragent() -> (r: Option<String>)
    ensures
        text::opt_view(r) == Some(default_useragent()),
{
    let head: String = text::concat2("active-call(", VERSION);
    Some(text::concat2(head.as_str(), " miuda.ai)"))
}

/// The codecs that are offered unless told otherwise.
pub fn default_codecs() -> (r: Option<Vec<String>>)
    ensures
        r matches Some(v) && text::views_of(v@) == default_codec_names(),
{
    let mut v: Vec<String> = Vec::new();
    v.push("pcmu".to_string());
    v.push("pcma".to_string());
    v.push("g722".to_string());
    v.push("g729".to_string());
    v.push("opus".to_string());
    v.push("telephone_event".to_string());
    assert(text::views_of(v@) =~= default_codec_names());
    Some(v)
}

impl Config {
    /// The settings of a node that was told nothing.
    pub open spec fn fresh(self) -> bool {
        &&& self.http_addr@ == DEFAULT_HTTP_ADDR@
        &&& self.addr@ == DEFAULT_SIP_ADDR@
        &&& self.udp_port == DEFAULT_SIP_PORT
        &&& self.auto_learn_public_address is None
        &&& self.log_level is None && self.log_file is None
        &&& self.http_access_skip_paths@.len() == 0 && self.peers@.len() == 0
        &&& self.useragent is None && self.register_users is None
        &&& self.graceful_shutdown == Some(true)
        &&& self.graceful_shutdown_timeout == Some(DEFAULT_SHUTDOWN_SECS)
        &&& self.handler is None
        &&& text::opt_view(self.accept_timeout) == Some(DEFAULT_ACCEPT_TIMEOUT@)
        &&& self.codecs is None && self.external_ip is None
        &&& self.rtp_start_port == Some(DEFAULT_RTP_START_PORT)
        &&& self.rtp_end_port == Some(DEFAULT_RTP_END_PORT)
        &&& self.enable_rtp_latching == Some(true)
        &&& self.enable_ice_lite is None && self.rtp_bind_ip is None
        &&& self.tls_port is None && self.tls_cert_file is None && self.tls_key_file is None
        &&& self.enable_srtp is None && self.callrecord is None
        &&& self.media_cache_path@ == DEFAULT_MEDIA_CACHE@
        &&& self.ambiance is None && self.ice_servers is None && self.recording is None
        &&& self.rewrites is None && self.trunk_rules is None
        &&& self.enable_options_response == Some(true)
        &&& self.options_response is None
        &&& self.auto_refer is None && self.auto_refer_timeout is None
    }

    /// A copy of a configuration. What a copy finds unset, and what a node that
    /// reads its configuration fills in, the copy has filled in.
    pub open spec fn copied_from(self, c: Config) -> bool {
        &&& self.http_addr == c.http_addr && self.addr == c.addr && self.udp_port == c.udp_port
        &&& self.auto_learn_public_address == c.auto_learn_public_address
        &&& self.log_level == c.log_level && self.log_file == c.log_file
        &&& self.http_access_skip_paths@ == c.http_access_skip_paths@
        &&& self.peers@ == c.peers@
        &&& match c.useragent {
            Some(_) => self.useragent == c.useragent,
            None => text::opt_view(self.useragent) == Some(default_useragent()),
        }
        &&& opt_seq(self.register_users) == opt_seq(c.register_users)
        &&& self.graceful_shutdown == crate::media::ambiance::or_else(
            c.graceful_shutdown,
            Some(true),
        )
        &&& self.graceful_shutdown_timeout == crate::media::ambiance::or_else(
            c.graceful_shutdown_timeout,
            Some(DEFAULT_SHUTDOWN_SECS),
        )
        &&& match (self.handler, c.handler) {
            (Some(a), Some(b)) => a.same(b),
            (None, None) => true,
            _ => false,
        }
        &&& self.accept_timeout == c.accept_timeout
        &&& match c.codecs {
            Some(v) => self.codecs is Some && self.codecs->0@ == v@,
            None => self.codecs is Some && text::views_of(self.codecs->0@)
                == default_codec_names(),
        }
        &&& self.external_ip == c.external_ip
        &&& self.rtp_start_port == crate::media::ambiance::or_else(
            c.rtp_start_port,
            Some(DEFAULT_RTP_START_PORT),
        )
        &&& self.rtp_end_port == crate::media::ambiance::or_else(
            c.rtp_end_port,
            Some(DEFAULT_RTP_END_PORT),
        )
        &&& self.enable_rtp_latching == crate::media::ambiance::or_else(
            c.enable_rtp_latching,
            Some(true),
        )
        &&& self.enable_ice_lite == c.enable_ice_lite && self.rtp_bind_ip == c.rtp_bind_ip
        &&& self.tls_port == c.tls_port && self.tls_cert_file == c.tls_cert_file
        &&& self.tls_key_file == c.tls_key_file && self.enable_srtp == c.enable_srtp
        &&& match (self.callrecord, c.callrecord) {
            (Some(a), Some(b)) => a.same(b),
            (None, None) => true,
            _ => false,
        }
        &&& self.media_cache_path == c.media_cache_path
        &&& self.ambiance == c.ambiance
        &&& opt_ice(self.ice_servers) == opt_ice(c.ice_servers)
        &&& self.recording == c.recording
        &&& opt_seq(self.rewrites) == opt_seq(c.rewrites)
        &&& opt_seq(self.trunk_rules) == opt_seq(c.trunk_rules)
        &&& self.enable_options_response == crate::media::ambiance::or_else(
            c.enable_options_response,
            Some(true),
        )
        &&& match (self.options_response, c.options_response) {
            (Some(a), Some(b)) => a.copied_from(b),
            (None, None) => true,
            _ => false,
        }
        &&& self.auto_refer == c.auto_refer && self.auto_refer_timeout == c.auto_refer_timeout
    }

    /// Whether transfers that the other side asks for are followed.
    pub fn auto_refer(&self) -> (r: bool)
        ensures
            r == (self.auto_refer != Some(false)),
    {
        match self.auto_refer {
            Some(b) => b,
            None => true,
        }
    }

    /// Seconds for which the target of a followed transfer may ring.
    pub fn auto_refer_timeout(&self) -> (r: u32)
        ensures
            r == match self.auto_refer_timeout {
                Some(t) => t,
                None => 30,
            },
    {
        match self.auto_refer_timeout {
            Some(t) => t,
            None => 30,
        }
    }

    /// Whether OPTIONS requests outside of dialogs are answered at all.
    pub fn options_response_enabled(&self) -> (r: bool)
        ensures
            r == match self.options_response {
                Some(OptionsResponseConfig { enabled: Some(b), .. }) => b,
                _ => self.enable_options_response != Some(false),
            },
    {
        if let Some(o) = &self.options_response {
            if let Some(b) = o.enabled {
                return b;
            }
        }
        match self.enable_options_response {
            Some(b) => b,
            None => true,
        }
    }

    /// Whether the addresses of other sides are learned from calls.
    pub fn options_auto_learn(&self) -> (r: bool)
        ensures
            r == match self.options_response {
                Some(o) => o.auto_learn != Some(false),
                None => true,
            },
    {
        match &self.options_response {
            Some(o) => match o.auto_learn {
                Some(b) => b,
                None => true,
            },
            None => true,
        }
    }

    /// The text that says how long a learned address counts.
    pub open spec fn learn_ttl_text(&self) -> Option<Seq<char>> {
        match self.options_response {
            Some(o) => text::opt_view(o.learn_ttl),
            None => None,
        }
    }

    /// How long a learned address counts: seven days, unless the text is there
    /// and can be read.
    pub fn options_learn_ttl(&self) -> (r: TimeSpan)
        requires
            self.learn_ttl_text() matches Some(t) ==> options::span_fits(t),
        ensures
            r == options::ttl_of(
                match self.learn_ttl_text() {
                    Some(t) => options::span_in(t),
                    None => None,
                },
            ),
    {
        if let Some(o) = &self.options_response {
            if let Some(raw) = &o.learn_ttl {
                return options::ttl_or_default(options::parse_span(raw.as_str()));
            }
        }
        options::ttl_or_default(None)
    }

    /// The entries of the access list, in their order.
    pub open spec fn acl(&self) -> Seq<options::AclView> {
        match self.options_response {
            Some(o) => options::acl_of(text::views_of(o.allow@)),
            None => Seq::empty(),
        }
    }

    /// The entries of the access list for OPTIONS requests.
    pub fn options_acl_entries(&self) -> (r: Vec<OptionsAclEntry>)
        ensures
            options::acl_views(r@) == self.acl(),
            forall|i: int| 0 <= i < r@.len() ==> (#[trigger] r@[i]).wf(),
    {
        match &self.options_response {
            Some(o) => options::parse_acl(&o.allow),
            None => {
                let none: Vec<OptionsAclEntry> = Vec::new();
                assert(options::acl_views(none@) =~= Seq::empty());
                none
            },
        }
    }

    /// The hosts of registration servers count as allowed.
    pub open spec fn allows_registered(&self) -> bool {
        match self.options_response {
            Some(o) => o.allow_registered_servers != Some(false),
            None => true,
        }
    }

    /// The hosts of registration servers, where they count as allowed.
    pub open spec fn registered_hosts(&self) -> Seq<Seq<char>> {
        if self.allows_registered() && self.register_users is Some {
            options::hosts_of(self.register_users->0@)
        } else {
            Seq::empty()
        }
    }

    /// The hosts of registration servers, where they count as allowed.
    pub fn options_registered_hosts(&self) -> (r: Vec<String>)
        ensures
            text::views_of(r@) == self.registered_hosts(),
    {
        let enabled: bool = match &self.options_response {
            Some(o) => match o.allow_registered_servers {
                Some(b) => b,
                None => true,
            },
            None => true,
        };
        if enabled {
            if let Some(users) = &self.register_users {
                return options::registered(users);
            }
        }
        let none: Vec<String> = Vec::new();
        assert(text::views_of(none@) =~= Seq::empty());
        none
    }

    /// Headers that are added to the answers to OPTIONS requests.
    pub fn options_extra_headers(&self) -> (r: Vec<(String, String)>)
        ensures
            r@ == match self.options_response {
                Some(o) => o.extra_headers@,
                None => Seq::empty(),
            },
    {
        match &self.options_response {
            Some(o) => crate::maps::copy_pairs(&o.extra_headers),
            None => Vec::new(),
        }
    }

    /// A source is allowed by the access list or as a registration server.
    pub open spec fn allows(&self, ip: Option<IpAddr>, host: Seq<char>) -> bool {
        ||| exists|i: int|
            0 <= i < self.acl().len() && options::acl_matches(#[trigger] self.acl()[i], ip, host)
        ||| exists|i: int|
            0 <= i < self.registered_hosts().len() && text::ascii_lower_of(
                #[trigger] self.registered_hosts()[i],
            ) == text::ascii_lower_of(host)
    }

    /// Whether a source is allowed by the access list or as a registration
    /// server.
    pub fn options_matches_static(&self, source_ip: Option<IpAddr>, source_host: &str) -> (r: bool)
        ensures
            r == self.allows(source_ip, source_host@),
    {
        let entries: Vec<OptionsAclEntry> = self.options_acl_entries();
        let n: usize = entries.len();
        let mut i: usize = 0;
        while i < n
            invariant
                0 <= i <= n,
                n == entries@.len(),
                options::acl_views(entries@) == self.acl(),
                forall|j: int| 0 <= j < n ==> (#[trigger] entries@[j]).wf(),
                forall|j: int|
                    0 <= j < i ==> !options::acl_matches(
                        #[trigger] self.acl()[j],
                        source_ip,
                        source_host@,
                    ),
            decreases n - i,
        {
            assert(self.acl()[i as int] == entries@[i as int]@);
            if entries[i].matches(source_ip, source_host) {
                return true;
            }
            i = i + 1;
        }
        let hosts: Vec<String> = self.options_registered_hosts();
        let m: usize = hosts.len();
        let mut k: usize = 0;
        while k < m
            invariant
                0 <= k <= m,
                m == hosts@.len(),
                text::views_of(hosts@) == self.registered_hosts(),
                forall|j: int|
                    0 <= j < k ==> text::ascii_lower_of(#[trigger] self.registered_hosts()[j])
                        != text::ascii_lower_of(source_host@),
            decreases m - k,
        {
            assert(self.registered_hosts()[k as int] == hosts@[k as int]@);
            if text::eq_ignore_ascii_case(hosts[k].as_str(), source_host) {
                return true;
            }
            k = k + 1;
        }
        assert(self.acl().len() == n);
        assert(self.registered_hosts().len() == m);
        false
    }

    /// The directory for recordings.
    pub fn recorder_path(&self) -> (r: String)
        ensures
            r@ == match self.recording {
                Some(policy) => policy.path_of(),
                None => recording::DEFAULT_RECORDER_PATH@,
            },
    {
        match &self.recording {
            Some(policy) => policy.recorder_path(),
            None => recording::DEFAULT_RECORDER_PATH.to_string(),
        }
    }

    /// The format of recordings.
    pub fn recorder_format(&self) -> (r: RecorderFormat)
        ensures
            r == match self.recording {
                Some(RecordingPolicy { format: Some(f), .. }) => f,
                _ => RecorderFormat::Wav,
            },
    {
        match &self.recording {
            Some(policy) => policy.recorder_format(),
            None => RecorderFormat::default(),
        }
    }

    /// Whether recordings keep the rate of their source.
    pub fn recorder_native_samplerate(&self) -> (r: bool)
        ensures
            r == match self.recording {
                Some(policy) => policy.native_samplerate == Some(true),
                None => false,
            },
    {
        match &self.recording {
            Some(policy) => match policy.native_samplerate {
                Some(b) => b,
                None => false,
            },
            None => false,
        }
    }

    /// Fills in what the settings for recordings leave open. Nothing is ever
    /// taken back for it.
    pub fn ensure_recording_defaults(&mut self) -> (r: bool)
        ensures
            !r,
            *final(self) == (Config { recording: final(self).recording, ..*old(self) }),
            match (old(self).recording, final(self).recording) {
                (Some(before), Some(after)) => after.filled_from(before),
                (None, None) => true,
                _ => false,
            },
    {
        let mut recording: Option<RecordingPolicy> = None;
        std::mem::swap(&mut recording, &mut self.recording);
        let mut fallback: bool = false;
        self.recording = match recording {
            Some(policy) => {
                let mut policy: RecordingPolicy = policy;
                fallback = policy.ensure_defaults();
                Some(policy)
            },
            None => None,
        };
        fallback
    }

    /// Applies the first trunk rule that matches an outgoing call; where none
    /// does, the call is left as it is.
    pub fn apply_trunk_rules(&self, invite: &mut InviteOption)
        ensures
            final(invite)@ == match self.trunk_rules {
                Some(rules) => trunk::trunk_applied(rules@, old(invite)@),
                None => old(invite)@,
            },
    {
        if let Some(rules) = &self.trunk_rules {
            trunk::apply_first(rules, invite);
        }
    }

    /// An address that names a scheme: `//` follows its first colon.
    pub open spec fn names_scheme(address: Seq<char>) -> bool {
        let colon = text::first_from(address, ':', 0);
        colon >= 0 && "://"@.is_prefix_of(address.skip(colon))
    }

    /// The WebSocket address of a node; `None` where its address is blank or
    /// names another scheme than those of HTTP and WebSocket.
    pub open spec fn ws_endpoint(peer: Seq<char>) -> Option<Seq<char>> {
        let p = text::trim_of(peer);
        if p.len() == 0 {
            None
        } else if "wss://"@.is_prefix_of(p) || "ws://"@.is_prefix_of(p) {
            Some(p)
        } else if "https://"@.is_prefix_of(p) {
            Some("wss://"@ + p.skip("https://"@.len() as int))
        } else if "http://"@.is_prefix_of(p) {
            Some("ws://"@ + p.skip("http://"@.len() as int))
        } else if Self::names_scheme(p) {
            None
        } else {
            Some("ws://"@ + p)
        }
    }

    /// The WebSocket address of a node; `None` where its address is blank or
    /// names a scheme that is of no use here.
    pub fn peer_ws_endpoint(peer: &str) -> (r: Option<String>)
        ensures
            text::opt_view(r) == Self::ws_endpoint(peer@),
    {
        let peer: String = text::trim(peer);
        if peer.as_str().unicode_len() == 0 {
            return None;
        }
        if text::starts_with(peer.as_str(), "wss://") || text::starts_with(
            peer.as_str(),
            "ws://",
        ) {
            return Some(peer);
        }
        if let Some(rest) = text::strip_prefix(peer.as_str(), "https://") {
            return Some(text::concat2("wss://", rest.as_str()));
        }
        if let Some(rest) = text::strip_prefix(peer.as_str(), "http://") {
            return Some(text::concat2("ws://", rest.as_str()));
        }
        if let Some(colon) = text::find_char(peer.as_str(), ':') {
            if text::starts_with(text::skip(peer.as_str(), colon).as_str(), "://") {
                return None;
            }
        }
        Some(text::concat2("ws://", peer.as_str()))
    }
}

/// The WebSocket address of a node is its own WebSocket address: it begins with
/// a WebSocket scheme.
pub proof fn law_ws_endpoint_once(peer: Seq<char>)
    requires
        Config::ws_endpoint(peer) is Some,
    ensures
        Config::ws_endpoint(Config::ws_endpoint(peer)->0) == Config::ws_endpoint(peer),
        "ws://"@.is_prefix_of(Config::ws_endpoint(peer)->0) || "wss://"@.is_prefix_of(
            Config::ws_endpoint(peer)->0,
        ),
{
    reveal_strlit("wss://");
    reveal_strlit("ws://");
    reveal_strlit("https://");
    reveal_strlit("http://");
    let p = text::trim_of(peer);
    let e = Config::ws_endpoint(peer)->0;
    text::law_trimmed_ends(peer);
    if "wss://"@.is_prefix_of(p) || "ws://"@.is_prefix_of(p) {
    } else if "https://"@.is_prefix_of(p) {
        assert(e.last() == if p.len() > 8 { p.last() } else { '/' });
        assert(e.first() == 'w');
        assert("wss://"@ =~= e.take(6));
    } else {
        assert(e.last() == if "http://"@.is_prefix_of(p) && p.len() == 7 { '/' } else { p.last() });
        assert(e.first() == 'w');
        assert("ws://"@ =~= e.take(5));
    }
    text::lemma_plain_is_trimmed(e);
}

impl Default for Config {
    fn default() -> (r: Self)
        ensures
            r.fresh(),
    {
        Config {
            http_addr: DEFAULT_HTTP_ADDR.to_string(),
            addr: DEFAULT_SIP_ADDR.to_string(),
            udp_port: DEFAULT_SIP_PORT,
            auto_learn_public_address: None,
            log_level: None,
            log_file: None,
            http_access_skip_paths: Vec::new(),
            peers: Vec::new(),
            useragent: None,
            register_users: None,
            graceful_shutdown: Some(true),
            graceful_shutdown_timeout: Some(DEFAULT_SHUTDOWN_SECS),
            handler: None,
            accept_timeout: Some(DEFAULT_ACCEPT_TIMEOUT.to_string()),
            codecs: None,
            external_ip: None,
            rtp_start_port: Some(DEFAULT_RTP_START_PORT),
            rtp_end_port: Some(DEFAULT_RTP_END_PORT),
            enable_rtp_latching: Some(true),
            enable_ice_lite: None,
            rtp_bind_ip: None,
            tls_port: None,
            tls_cert_file: None,
            tls_key_file: None,
            enable_srtp: None,
            callrecord: None,
            media_cache_path: DEFAULT_MEDIA_CACHE.to_string(),
            ambiance: None,
            ice_servers: None,
            recording: None,
            rewrites: None,
            trunk_rules: None,
            enable_options_response: Some(true),
            options_response: None,
            auto_refer: None,
            auto_refer_timeout: None,
        }
    }
}

/// The value that is there, else the fallback.
fn or_value<T: Copy>(there: Option<T>, fallback: T) -> (r: Option<T>)
    ensures
        r == crate::media::ambiance::or_else(there, Some(fallback)),
{
    match there {
        Some(_) => there,
        None => Some(fallback),
    }
}

impl Clone for Config {
    fn clone(&self) -> (r: Self)
        ensures
            r.copied_from(*self),
    {
        Config {
            http_addr: self.http_addr.clone(),
            addr: self.addr.clone(),
            udp_port: self.udp_port,
            auto_learn_public_address: self.auto_learn_public_address,
            log_level: self.log_level.clone(),
            log_file: self.log_file.clone(),
            http_access_skip_paths: copy_strings(&self.http_access_skip_paths),
            peers: copy_strings(&self.peers),
            useragent: match &self.useragent {
                Some(u) => Some(u.clone()),
                None => default_config_useragent(),
            },
            register_users: match &self.register_users {
                Some(v) => {
                    let c: Vec<RegisterOption> = v.clone();
                    assert(c@ =~= v@);
                    Some(c)
                },
                None => None,
            },
            graceful_shutdown: or_value(self.graceful_shutdown, true),
            graceful_shutdown_timeout: or_value(
                self.graceful_shutdown_timeout,
                DEFAULT_SHUTDOWN_SECS,
            ),
            handler: match &self.handler {
                Some(h) => Some(h.clone()),
                None => None,
            },
            accept_timeout: self.accept_timeout.clone(),
            codecs: match &self.codecs {
                Some(v) => Some(copy_strings(v)),
                None => default_codecs(),
            },
            external_ip: self.external_ip.clone(),
            rtp_start_port: or_value(self.rtp_start_port, DEFAULT_RTP_START_PORT),
            rtp_end_port: or_value(self.rtp_end_port, DEFAULT_RTP_END_PORT),
            enable_rtp_latching: or_value(self.enable_rtp_latching, true),
            enable_ice_lite: self.enable_ice_lite,
            rtp_bind_ip: self.rtp_bind_ip.clone(),
            tls_port: self.tls_port,
            tls_cert_file: self.tls_cert_file.clone(),
            tls_key_file: self.tls_key_file.clone(),
            enable_srtp: self.enable_srtp,
            callrecord: match &self.callrecord {
                Some(c) => Some(c.clone()),
                None => None,
            },
            media_cache_path: self.media_cache_path.clone(),
            ambiance: match &self.ambiance {
                Some(a) => Some(a.clone()),
                None => None,
            },
            ice_servers: copy_ice(&self.ice_servers),
            recording: match &self.recording {
                Some(p) => Some(p.clone()),
                None => None,
            },
            rewrites: match &self.rewrites {
                Some(v) => {
                    let c: Vec<RewriteRule> = v.clone();
                    assert(c@ =~= v@);
                    Some(c)
                },
                None => None,
            },
            trunk_rules: match &self.trunk_rules {
                Some(v) => {
                    let c: Vec<TrunkRule> = v.clone();
                    assert(c@ =~= v@);
                    Some(c)
                },
                None => None,
            },
            enable_options_response: or_value(self.enable_options_response, true),
            options_response: match &self.options_response {
                Some(o) => Some(o.filled_copy()),
                None => None,
            },
            auto_refer: self.auto_refer,
            auto_refer_timeout: self.auto_refer_timeout,
        }
    }
}

/// A copy has nothing left to fill in: a copy of it is a copy of what it was
/// made from.
pub proof fn law_copy_of_copy(a: Config, b: Config, c: Config)
    requires
        b.copied_from(a),
        c.copied_from(b),
    ensures
        c.copied_from(a),
        c.graceful_shutdown is Some,
        c.codecs is Some,
        c.useragent is Some,
{
}

/// A source of which an entry of the access list speaks is allowed.
pub proof fn law_listed_source_is_allowed(
    config: Config,
    o: OptionsResponseConfig,
    i: int,
    ip: Option<IpAddr>,
    host: Seq<char>,
)
    requires
        config.options_response == Some(o),
        0 <= i < o.allow@.len(),
        options::acl_entry_of(o.allow@[i]@) matches Some(e) && options::acl_matches(e, ip, host),
    ensures
        config.allows(ip, host),
{
    let raws = text::views_of(o.allow@);
    let e = options::acl_entry_of(raws[i])->0;
    options::law_list_keeps_its_order(raws, raws[i], i);
    let k = choose|k: int| 0 <= k < config.acl().len() && config.acl()[k] == e;
    assert(options::acl_matches(config.acl()[k], ip, host));
}

/// A server with which a user is registered is allowed, under its name in letters
/// of any size, unless the settings say that such servers are not.
pub proof fn law_registered_server_is_allowed(
    config: Config,
    users: Vec<RegisterOption>,
    i: int,
    ip: Option<IpAddr>,
    host: Seq<char>,
)
    requires
        config.register_users == Some(users),
        config.options_response matches Some(o) ==> o.allow_registered_servers != Some(false),
        0 <= i < users@.len(),
        options::server_host(users@[i].server@) matches Some(h) && text::ascii_lower_of(h)
            == text::ascii_lower_of(host),
    ensures
        config.allows(ip, host),
{
    let h = options::server_host(users@[i].server@)->0;
    options::law_every_server_is_there(users@, users@[i], i);
    let all = config.registered_hosts();
    let k = choose|k: int| 0 <= k < all.len() && all[k] == h;
    assert(text::ascii_lower_of(all[k]) == text::ascii_lower_of(host));
}

/// Nobody else is allowed: without an access list, and without registered servers
/// or where these do not count, every source is a stranger.
pub proof fn law_strangers_are_not_allowed(config: Config, ip: Option<IpAddr>, host: Seq<char>)
    requires
        config.options_response matches Some(o) ==> o.allow@.len() == 0,
        config.register_users is None || (config.options_response matches Some(o)
            && o.allow_registered_servers == Some(false)),
    ensures
        !config.allows(ip, host),
{
    if let Some(o) = config.options_response {
        assert(text::views_of(o.allow@) =~= Seq::empty());
    }
}

/// A blank address has no WebSocket address. One of HTTP has that of WebSocket for
/// the same host and path, with encryption where HTTP had it; one without a scheme
/// has it without encryption, and one of WebSocket is its own. Any other scheme is
/// of no use.
#[verifier::spinoff_prover]
pub proof fn law_ws_endpoint_keeps_the_host(rest: Seq<char>)
    requires
        rest.len() > 0,
        !text::is_white_space(rest.first()),
        !text::is_white_space(rest.last()),
    ensures
        Config::ws_endpoint("https://"@ + rest) == Some("wss://"@ + rest),
        Config::ws_endpoint("http://"@ + rest) == Some("ws://"@ + rest),
        Config::ws_endpoint("wss://"@ + rest) == Some("wss://"@ + rest),
        Config::ws_endpoint("ws://"@ + rest) == Some("ws://"@ + rest),
        !rest.contains(':') ==> Config::ws_endpoint(rest) == Some("ws://"@ + rest),
        Config::ws_endpoint("ftp://"@ + rest) is None,
        Config::ws_endpoint("://"@ + rest) is None,
        Config::ws_endpoint(Seq::empty()) is None,
{
    reveal_strlit("wss://");
    reveal_strlit("ws://");
    reveal_strlit("https://");
    reveal_strlit("http://");
    reveal_strlit("ftp://");
    reveal_strlit("://");
    let a = "https://"@ + rest;
    let b = "http://"@ + rest;
    let c = "wss://"@ + rest;
    let d = "ws://"@ + rest;
    let e = "ftp://"@ + rest;
    text::lemma_plain_is_trimmed(a);
    text::lemma_plain_is_trimmed(b);
    text::lemma_plain_is_trimmed(c);
    text::lemma_plain_is_trimmed(d);
    text::lemma_plain_is_trimmed(e);
    text::lemma_plain_is_trimmed(rest);
    assert(a[0] == 'h' && a[4] == 's');
    assert("https://"@ =~= a.take(8));
    assert(a.skip(8) =~= rest);
    assert(b[0] == 'h' && b[4] == ':');
    assert("http://"@ =~= b.take(7));
    assert(b.skip(7) =~= rest);
    assert("https://"@[4] == 's');
    assert(!"https://"@.is_prefix_of(b));
    assert("wss://"@ =~= c.take(6));
    assert("ws://"@ =~= d.take(5));
    assert("wss://"@[0] == 'w' && "ws://"@[0] == 'w' && "https://"@[0] == 'h' && "http://"@[0]
        == 'h');
    assert(!"wss://"@.is_prefix_of(a) && !"ws://"@.is_prefix_of(a));
    assert(!"wss://"@.is_prefix_of(b) && !"ws://"@.is_prefix_of(b));
    assert(e[0] == 'f' && e[1] == 't' && e[2] == 'p' && e[3] == ':');
    reveal_with_fuel(text::first_from, 5);
    assert(text::first_from(e, ':', 0) == 3);
    assert("://"@ =~= e.skip(3).take(3));
    let f = "://"@ + rest;
    text::lemma_plain_is_trimmed(f);
    assert(f[0] == ':');
    assert(text::first_from(f, ':', 0) == 0);
    assert("://"@ =~= f.skip(0).take(3));
    if !rest.contains(':') {
        text::law_place_of_the_first(rest, ':', 0, 0);
        assert("https://"@[5] == ':' && "http://"@[4] == ':' && "wss://"@[3] == ':'
            && "ws://"@[2] == ':');
        if "https://"@.is_prefix_of(rest) {
            assert(rest[5] == ':');
        }
        if "http://"@.is_prefix_of(rest) {
            assert(rest[4] == ':');
        }
        if "wss://"@.is_prefix_of(rest) {
            assert(rest[3] == ':');
        }
        if "ws://"@.is_prefix_of(rest) {
            assert(rest[2] == ':');
        }
    }
    assert(text::trim_of(Seq::<char>::empty()) == Seq::<char>::empty());
}

/// A node that was told nothing listens on the usual ports, shuts down gracefully,
/// follows the source of its media and answers OPTIONS; it records nothing,
/// rewrites nothing and knows no other nodes.
pub proof fn law_fresh_node(c: Config)
    requires
        c.fresh(),
    ensures
        c.udp_port == 25060,
        c.peers@.len() == 0 && c.register_users is None && c.trunk_rules is None,
        c.graceful_shutdown == Some(true) && c.enable_rtp_latching == Some(true),
        c.enable_options_response == Some(true) && c.options_response is None,
        c.rtp_start_port == Some(12000u16) && c.rtp_end_port == Some(42000u16),
        c.recording is None && c.ambiance is None && c.callrecord is None && c.handler is None,
        c.codecs is None && c.useragent is None && c.enable_srtp is None,
{
}

/// A copy of a configuration keeps what is set and fills what is open: the name of
/// the node, its codecs, its ports, and the ways in which it shuts down and follows
/// its media.
pub proof fn law_copy_keeps_what_is_set(copy: Config, c: Config)
    requires
        copy.copied_from(c),
    ensures
        copy.http_addr == c.http_addr && copy.addr == c.addr && copy.udp_port == c.udp_port,
        copy.peers@ == c.peers@ && copy.external_ip == c.external_ip,
        c.useragent is Some ==> copy.useragent == c.useragent,
        c.graceful_shutdown is Some ==> copy.graceful_shutdown == c.graceful_shutdown,
        c.graceful_shutdown is None ==> copy.graceful_shutdown == Some(true),
        c.codecs matches Some(v) ==> (copy.codecs matches Some(w) && w@ == v@),
        c.codecs is None ==> (copy.codecs matches Some(w) && w@.len() == 6),
        c.rtp_start_port is Some ==> copy.rtp_start_port == c.rtp_start_port,
        c.rtp_end_port is Some ==> copy.rtp_end_port == c.rtp_end_port,
        c.enable_rtp_latching is Some ==> copy.enable_rtp_latching == c.enable_rtp_latching,
        c.enable_rtp_latching is None ==> copy.enable_rtp_latching == Some(true),
        copy.enable_srtp == c.enable_srtp && copy.ambiance == c.ambiance,
{
    if c.codecs is None {
        assert(text::views_of(copy.codecs->0@).len() == 6);
    }
}

/// What a copy of a handler decides by is what the handler decides by.
pub proof fn law_copied_handlers_decide_alike(a: InviteHandlerConfig, b: InviteHandlerConfig)
    requires
        a.same(b),
    ensures
        a is Webhook <==> b is Webhook,
        a is Webhook ==> {
            &&& a->url == b->url && a->method == b->method
            &&& a->urls is Some <==> b->urls is Some
            &&& a->urls is Some ==> a->urls->0@ == b->urls->0@
            &&& a->headers is Some <==> b->headers is Some
            &&& a->headers is Some ==> a->headers->0@ == b->headers->0@
        },
        a is Playbook ==> {
            &&& a->default == b->default
            &&& a->rules is Some <==> b->rules is Some
            &&& a->rules is Some ==> a->rules->0@ == b->rules->0@
        },
{
}

/// Records of calls are kept in the same place by a copy, with the same secrets and
/// with as much of the media.
pub proof fn law_copied_records_have_one_place(a: CallRecordConfig, b: CallRecordConfig)
    requires
        a.same(b),
    ensures
        a !is Http ==> a == b,
        a is Http ==> {
            &&& b is Http && a->url == b->url
            &&& a->Http_with_media == b->Http_with_media
            &&& a->Http_keep_media_copy == b->Http_keep_media_copy
            &&& a->headers is Some <==> b->headers is Some
            &&& a->headers is Some ==> a->headers->0.pairs() == b->headers->0.pairs()
        },
{
}

/// A copy of a configuration names the node as the node names itself, offers the
/// usual codecs where none are named, and keeps its rules, its recordings, its
/// registrations and its servers.
pub proof fn law_copy_keeps_the_rules(copy: Config, c: Config)
    requires
        copy.copied_from(c),
    ensures
        c.useragent is None ==> (copy.useragent matches Some(u) && u@ == "active-call("@ + VERSION@
            + " miuda.ai)"@),
        c.codecs is None ==> (copy.codecs matches Some(w) && text::views_of(w@) == seq![
            "pcmu"@,
            "pcma"@,
            "g722"@,
            "g729"@,
            "opus"@,
            "telephone_event"@,
        ]),
        c.trunk_rules matches Some(v) ==> (copy.trunk_rules matches Some(w) && w@ == v@),
        c.trunk_rules is None ==> copy.trunk_rules is None,
        c.register_users matches Some(v) ==> (copy.register_users matches Some(w) && w@ == v@),
        c.register_users is None ==> copy.register_users is None,
        copy.recording == c.recording && copy.accept_timeout == c.accept_timeout,
        copy.auto_refer == c.auto_refer && copy.auto_refer_timeout == c.auto_refer_timeout,
        copy.enable_ice_lite == c.enable_ice_lite && copy.rtp_bind_ip == c.rtp_bind_ip,
        c.ice_servers matches Some(v) ==> (copy.ice_servers matches Some(w) && w@.len() == v@.len()
            && forall|i: int| 0 <= i < v@.len() ==> (#[trigger] w@[i])@ == v@[i]@),
        copy.options_response is Some <==> c.options_response is Some,
        c.enable_options_response is Some ==> copy.enable_options_response
            == c.enable_options_response,
{
    if let Some(v) = c.ice_servers {
        let w = copy.ice_servers->0;
        let seen = opt_ice(copy.ice_servers)->0;
        assert(seen.len() == w@.len());
        assert forall|i: int| 0 <= i < v@.len() implies (#[trigger] w@[i])@ == v@[i]@ by {
            assert(seen[i] == w@[i]@);
            assert(opt_ice(c.ice_servers)->0[i] == v@[i]@);
        }
    }
}

/// How long a learned address counts is what the settings for OPTIONS say, where
/// there are any.
pub proof fn law_time_to_live_is_in_the_settings(config: Config)
    ensures
        config.options_response is None ==> config.learn_ttl_text() is None,
        config.options_response matches Some(o) ==> (o.learn_ttl matches Some(t)
            ==> config.learn_ttl_text() == Some(t@)),
        config.options_response matches Some(o) ==> (o.learn_ttl is None
            ==> config.learn_ttl_text() is None),
{
}

/// Whatever else a configuration holds, its copy holds too: the place of its media,
/// its log, its certificates, its rewrites, and who decides on its calls and keeps
/// their records.
pub proof fn law_copy_keeps_the_rest(copy: Config, c: Config)
    requires
        copy.copied_from(c),
    ensures
        copy.media_cache_path == c.media_cache_path,
        copy.log_level == c.log_level && copy.log_file == c.log_file,
        copy.tls_port == c.tls_port && copy.tls_cert_file == c.tls_cert_file,
        copy.tls_key_file == c.tls_key_file,
        copy.auto_learn_public_address == c.auto_learn_public_address,
        copy.http_access_skip_paths@ == c.http_access_skip_paths@,
        c.rewrites matches Some(v) ==> (copy.rewrites matches Some(w) && w@ == v@),
        c.rewrites is None ==> copy.rewrites is None,
        c.handler is None <==> copy.handler is None,
        c.handler is Some ==> copy.handler->0.same(c.handler->0),
        c.callrecord is None <==> copy.callrecord is None,
        c.callrecord is Some ==> copy.callrecord->0.same(c.callrecord->0),
        c.options_response is Some ==> copy.options_response->0.copied_from(c.options_response->0),
        c.graceful_shutdown_timeout is Some ==> copy.graceful_shutdown_timeout
            == c.graceful_shutdown_timeout,
{
}

}
