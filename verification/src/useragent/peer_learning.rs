//! Learns the addresses of those with whom calls are made, so that their OPTIONS
//! requests can be told from those of strangers.
//!
//! Only calls teach: INVITE requests that come in, and responses to INVITE
//! requests that went out. Anything else would let a stranger teach the node its
//! own address.
use crate::addr::IpAddr;
use crate::clock::TimeSpan;
use crate::sip::{Header, HeaderName, Host, HostWithPort, Method};
use crate::{sip, text};
use vstd::prelude::*;

verus! {

/// How many addresses are remembered unless told otherwise.
pub const LEARNED_PEERS_CAPACITY: usize = 1024;

/// The largest number of addresses that can be remembered.
pub const MAX_CAPACITY: usize = 67_108_864;

/// The cache of the [`lru`] crate.
#[verifier::external_type_specification]
#[verifier::external_body]
#[verifier::reject_recursive_types(K)]
#[verifier::reject_recursive_types(V)]
#[verifier::reject_recursive_types(S)]
pub struct ExLruCache<K, V, S>(lru::LruCache<K, V, S>);

/// The hasher of the [`lru`] crate's cache.
#[verifier::external_type_specification]
#[verifier::external_body]
pub struct ExLruHasher(lru::DefaultHasher);

/// A reading of the machine's steady clock.
#[verifier::external_type_specification]
#[verifier::external_body]
pub struct ExInstant(std::time::Instant);

/// The addresses in a cache and when each was learned, the one learned last in
/// front.
pub uninterp spec fn lru_entries(cache: lru::LruCache<(bool, u128), u128>) -> Seq<
    ((bool, u128), u128),
>;

/// How many addresses a cache can hold.
pub uninterp spec fn lru_capacity(cache: lru::LruCache<(bool, u128), u128>) -> nat;

/// A key stands among entries.
pub open spec fn knows(entries: Seq<((bool, u128), u128)>, key: (bool, u128)) -> bool {
    exists|i: int| 0 <= i < entries.len() && #[trigger] entries[i].0 == key
}

/// No key stands twice among entries.
pub open spec fn distinct_keys(entries: Seq<((bool, u128), u128)>) -> bool {
    forall|i: int, j: int|
        0 <= i < j < entries.len() ==> #[trigger] entries[i].0 != #[trigger] entries[j].0
}

/// The first entry of a key.
pub open spec fn lookup(entries: Seq<((bool, u128), u128)>, key: (bool, u128)) -> Option<u128>
    decreases entries.len(),
{
    if entries.len() == 0 {
        None
    } else if entries.first().0 == key {
        Some(entries.first().1)
    } else {
        lookup(entries.drop_first(), key)
    }
}

/// Entries without those of a key.
pub open spec fn without_key(
    entries: Seq<((bool, u128), u128)>,
    key: (bool, u128),
) -> Seq<((bool, u128), u128)>
    decreases entries.len(),
{
    if entries.len() == 0 {
        entries
    } else if entries.last().0 == key {
        without_key(entries.drop_last(), key)
    } else {
        without_key(entries.drop_last(), key).push(entries.last())
    }
}

/// Entries after a key was put in front. A key that is there already moves; else
/// the last entry leaves where there is no room.
pub open spec fn put_front(
    entries: Seq<((bool, u128), u128)>,
    capacity: nat,
    key: (bool, u128),
    at: u128,
) -> Seq<((bool, u128), u128)> {
    let rest = if knows(entries, key) {
        without_key(entries, key)
    } else if entries.len() == capacity && capacity > 0 {
        entries.drop_last()
    } else {
        entries
    };
    seq![(key, at)] + rest
}

/// An empty cache, from [`lru::LruCache::new`], which makes room for all entries
/// at once.
#[verifier::external_body]
fn lru_new(capacity: usize) -> (r: lru::LruCache<(bool, u128), u128>)
    requires
        1 <= capacity <= MAX_CAPACITY,
    ensures
        lru_entries(r) == Seq::<((bool, u128), u128)>::empty(),
        lru_capacity(r) == capacity,
{
    lru::LruCache::new(std::num::NonZeroUsize::new(capacity).unwrap_or(std::num::NonZeroUsize::MIN))
}

/// Puts a key in front with [`lru::LruCache::put`], which moves a key that is
/// there already, and drops the entry used least recently where a new key finds
/// the cache full.
#[verifier::external_body]
fn lru_put(cache: &mut lru::LruCache<(bool, u128), u128>, key: (bool, u128), at: u128)
    ensures
        lru_entries(*final(cache)) == put_front(
            lru_entries(*old(cache)),
            lru_capacity(*old(cache)),
            key,
            at,
        ),
        lru_capacity(*final(cache)) == lru_capacity(*old(cache)),
{
    cache.put(key, at);
}

/// The value of a key, from [`lru::LruCache::peek`], which does not change the
/// order of the entries.
#[verifier::external_body]
fn lru_peek(cache: &lru::LruCache<(bool, u128), u128>, key: (bool, u128)) -> (r: Option<u128>)
    ensures
        r == lookup(lru_entries(*cache), key),
{
    cache.peek(&key).copied()
}

/// The number of entries, from [`lru::LruCache::len`].
#[verifier::external_body]
fn lru_len(cache: &lru::LruCache<(bool, u128), u128>) -> (r: usize)
    ensures
        r == lru_entries(*cache).len(),
{
    cache.len()
}

/// The entries in the order of [`lru::LruCache::iter`], the one used most
/// recently in front.
#[verifier::external_body]
fn lru_list(cache: &lru::LruCache<(bool, u128), u128>) -> (r: Vec<((bool, u128), u128)>)
    ensures
        r@ == lru_entries(*cache),
{
    cache.iter().map(|(k, v)| (*k, *v)).collect()
}

/// A reading of the steady clock, from [`std::time::Instant::now`].
#[verifier::external_body]
fn instant_now() -> std::time::Instant {
    std::time::Instant::now()
}

/// The nanoseconds since a reading of the steady clock, from
/// [`std::time::Instant::elapsed`]. They depend on the time of the call; all that
/// is known of them is that a span of time can hold them.
#[verifier::external_body]
fn nanos_since(origin: &std::time::Instant) -> (r: u128)
    ensures
        crate::chance::is_age_of(*origin, r),
{
    origin.elapsed().as_nanos()
}

/// The addresses that were learned, and when. Times are nanoseconds since the
/// table was made.
pub struct SharedLearnedPeers {
    cache: lru::LruCache<(bool, u128), u128>,
    origin: std::time::Instant,
}

/// The version and the bits of an address.
pub open spec fn key_of(ip: IpAddr) -> (bool, u128) {
    (ip.is_v6(), ip.bits())
}

/// The version and the bits of an address.
fn make_key(ip: IpAddr) -> (r: (bool, u128))
    ensures
        r == key_of(ip),
{
    match ip {
        IpAddr::V4(b) => (false, b as u128),
        IpAddr::V6(b) => (true, b),
    }
}

/// An address was put in front, at a time counted from `origin`.
pub open spec fn put_now(
    origin: std::time::Instant,
    before: Seq<((bool, u128), u128)>,
    capacity: nat,
    ip: IpAddr,
    after: Seq<((bool, u128), u128)>,
) -> bool {
    exists|at: u128|
        crate::chance::is_age_of(origin, at) && after == #[trigger] put_front(
            before,
            capacity,
            key_of(ip),
            at,
        )
}

/// The sender of a message, as a value.
pub open spec fn sender(from: Option<&HostWithPort>) -> Option<HostWithPort> {
    match from {
        Some(h) => Some(*h),
        None => None,
    }
}

/// An address that was learned a while ago still counts. Nothing counts for no
/// time at all.
pub open spec fn still_counts(age: int, ttl: TimeSpan) -> bool {
    ttl.total() > 0 && age <= ttl.total()
}

/// An address was learned no longer than `ttl` before `now`.
pub open spec fn counts_at(
    entries: Seq<((bool, u128), u128)>,
    ip: IpAddr,
    ttl: TimeSpan,
    now: u128,
) -> bool {
    match lookup(entries, key_of(ip)) {
        Some(at) => still_counts(
            if now >= at {
                now - at
            } else {
                0
            },
            ttl,
        ),
        None => false,
    }
}

/// Whether an address that was learned `age` nanoseconds ago still counts.
pub fn counts(age: u128, ttl: TimeSpan) -> (r: bool)
    ensures
        r == still_counts(age as int, ttl),
{
    let total: u128 = ttl.secs as u128 * 1_000_000_000 + ttl.nanos as u128;
    total > 0 && age <= total
}

proof fn lemma_without_key(entries: Seq<((bool, u128), u128)>, key: (bool, u128))
    requires
        distinct_keys(entries),
    ensures
        distinct_keys(without_key(entries, key)),
        !knows(without_key(entries, key), key),
        without_key(entries, key).len() <= entries.len(),
        knows(entries, key) ==> without_key(entries, key).len() < entries.len(),
        forall|k: (bool, u128)|
            k != key ==> #[trigger] knows(without_key(entries, key), k) == knows(entries, k),
    decreases entries.len(),
{
    if entries.len() > 0 {
        let init = entries.drop_last();
        let last = entries.last();
        assert forall|i: int, j: int| 0 <= i < j < init.len() implies #[trigger] init[i].0
            != #[trigger] init[j].0 by {
            assert(entries[i].0 != entries[j].0);
        }
        lemma_without_key(init, key);
        let out = without_key(entries, key);
        let head = without_key(init, key);
        assert(!knows(init, last.0)) by {
            if knows(init, last.0) {
                let i = choose|i: int| 0 <= i < init.len() && #[trigger] init[i].0 == last.0;
                assert(entries[i].0 != entries[entries.len() - 1].0);
            }
        }
        if last.0 != key {
            assert(!knows(head, last.0));
            assert forall|i: int, j: int| 0 <= i < j < out.len() implies #[trigger] out[i].0
                != #[trigger] out[j].0 by {
                if j < head.len() {
                    assert(head[i].0 != head[j].0);
                } else {
                    assert(head[i].0 != last.0);
                }
            }
            assert(!knows(out, key)) by {
                if knows(out, key) {
                    let i = choose|i: int| 0 <= i < out.len() && #[trigger] out[i].0 == key;
                    assert(i < head.len());
                    assert(head[i].0 == key);
                }
            }
        }
        assert forall|k: (bool, u128)| k != key implies #[trigger] knows(out, k) == knows(
            entries,
            k,
        ) by {
            assert(knows(head, k) == knows(init, k));
            if knows(out, k) {
                let i = choose|i: int| 0 <= i < out.len() && #[trigger] out[i].0 == k;
                if i < head.len() {
                    assert(head[i].0 == k);
                    let j = choose|j: int| 0 <= j < init.len() && #[trigger] init[j].0 == k;
                    assert(entries[j].0 == k);
                } else {
                    assert(entries[entries.len() - 1].0 == k);
                }
            }
            if knows(entries, k) {
                let j = choose|j: int| 0 <= j < entries.len() && #[trigger] entries[j].0 == k;
                if j < init.len() {
                    assert(init[j].0 == k);
                    let i = choose|i: int| 0 <= i < head.len() && #[trigger] head[i].0 == k;
                    assert(out[i].0 == k);
                } else {
                    assert(out[out.len() - 1].0 == k);
                }
            }
        }
        if knows(entries, key) && last.0 != key {
            let j = choose|j: int| 0 <= j < entries.len() && #[trigger] entries[j].0 == key;
            assert(init[j].0 == key);
        }
    }
}

/// A table keeps its keys distinct and its size within its capacity, whatever
/// is learned; and what was learned last is found.
pub proof fn law_put_keeps_table(
    entries: Seq<((bool, u128), u128)>,
    capacity: nat,
    key: (bool, u128),
    at: u128,
)
    requires
        distinct_keys(entries),
        entries.len() <= capacity,
        capacity > 0,
    ensures
        ({
            let after = put_front(entries, capacity, key, at);
            &&& distinct_keys(after)
            &&& after.len() <= capacity
            &&& lookup(after, key) == Some(at)
            &&& after[0] == (key, at)
        }),
{
    let after = put_front(entries, capacity, key, at);
    lemma_without_key(entries, key);
    let rest = after.drop_first();
    assert(rest =~= if knows(entries, key) {
        without_key(entries, key)
    } else if entries.len() == capacity {
        entries.drop_last()
    } else {
        entries
    });
    assert forall|i: int, j: int| 0 <= i < j < after.len() implies #[trigger] after[i].0
        != #[trigger] after[j].0 by {
        assert(after[j] == rest[j - 1]);
        if i > 0 {
            assert(after[i] == rest[i - 1]);
            if !knows(entries, key) {
                assert(entries[i - 1].0 != entries[j - 1].0);
            }
        } else if knows(entries, key) {
            assert(rest[j - 1].0 != key);
        } else {
            assert(entries[j - 1].0 != key);
        }
    }
}

/// Where the table is full, a new address drives out the one learned longest
/// ago, and no other.
pub proof fn law_oldest_leaves(
    entries: Seq<((bool, u128), u128)>,
    capacity: nat,
    key: (bool, u128),
    at: u128,
)
    requires
        distinct_keys(entries),
        entries.len() == capacity,
        capacity > 0,
        !knows(entries, key),
    ensures
        put_front(entries, capacity, key, at).len() == capacity,
        !knows(put_front(entries, capacity, key, at), entries.last().0),
        forall|i: int|
            0 <= i < entries.len() - 1 ==> knows(
                put_front(entries, capacity, key, at),
                (#[trigger] entries[i]).0,
            ),
{
    let after = put_front(entries, capacity, key, at);
    let gone = entries.last().0;
    if knows(after, gone) {
        let i = choose|i: int| 0 <= i < after.len() && #[trigger] after[i].0 == gone;
        if i == 0 {
            assert(entries[entries.len() - 1].0 == key);
        } else {
            assert(after[i] == entries[i - 1]);
            assert(entries[i - 1].0 != entries[entries.len() - 1].0);
        }
    }
    assert forall|i: int| 0 <= i < entries.len() - 1 implies knows(
        after,
        (#[trigger] entries[i]).0,
    ) by {
        assert(after[i + 1] == entries[i]);
    }
}

proof fn lemma_lookup(entries: Seq<((bool, u128), u128)>, key: (bool, u128))
    ensures
        lookup(entries, key) is Some <==> knows(entries, key),
    decreases entries.len(),
{
    if entries.len() > 0 {
        let rest = entries.drop_first();
        lemma_lookup(rest, key);
        if knows(rest, key) {
            let i = choose|i: int| 0 <= i < rest.len() && #[trigger] rest[i].0 == key;
            assert(entries[i + 1].0 == key);
        }
        if knows(entries, key) {
            let i = choose|i: int| 0 <= i < entries.len() && #[trigger] entries[i].0 == key;
            if i > 0 {
                assert(rest[i - 1].0 == key);
            } else {
                assert(entries.first().0 == key);
            }
        }
        if entries.first().0 == key {
            assert(entries[0].0 == key);
        }
    }
}

impl SharedLearnedPeers {
    /// The addresses and when each was learned, the one learned last in front.
    pub closed spec fn entries(&self) -> Seq<((bool, u128), u128)> {
        lru_entries(self.cache)
    }

    /// How many addresses can be remembered.
    pub closed spec fn capacity(&self) -> nat {
        lru_capacity(self.cache)
    }

    /// The reading of the steady clock from which times are counted.
    pub closed spec fn origin(&self) -> std::time::Instant {
        self.origin
    }

    /// No address stands twice, and there are no more than can be remembered.
    pub open spec fn wf(&self) -> bool {
        &&& distinct_keys(self.entries())
        &&& self.entries().len() <= self.capacity()
        &&& self.capacity() > 0
    }

    /// An address was learned and is remembered.
    pub open spec fn learned(&self, ip: IpAddr) -> bool {
        knows(self.entries(), key_of(ip))
    }

    /// An empty table; it remembers one address at least.
    pub fn new(capacity: usize) -> (r: Self)
        requires
            capacity <= MAX_CAPACITY,
        ensures
            r.wf(),
            r.entries().len() == 0,
            r.capacity() == if capacity == 0 {
                1
            } else {
                capacity as nat
            },
    {
        let capacity: usize = if capacity == 0 {
            1
        } else {
            capacity
        };
        SharedLearnedPeers { cache: lru_new(capacity), origin: instant_now() }
    }

    /// Notes that an address was in a call, `at` nanoseconds after the table was
    /// made.
    pub fn learn_at(&mut self, ip: IpAddr, at: u128)
        requires
            old(self).wf(),
        ensures
            final(self).wf(),
            final(self).capacity() == old(self).capacity(),
            final(self).origin() == old(self).origin(),
            final(self).entries() == put_front(
                old(self).entries(),
                old(self).capacity(),
                key_of(ip),
                at,
            ),
            lookup(final(self).entries(), key_of(ip)) == Some(at),
    {
        proof {
            law_put_keeps_table(self.entries(), self.capacity(), key_of(ip), at);
        }
        lru_put(&mut self.cache, make_key(ip), at);
    }

    /// Notes that an address was in a call.
    pub fn learn(&mut self, ip: IpAddr)
        requires
            old(self).wf(),
        ensures
            final(self).wf(),
            final(self).capacity() == old(self).capacity(),
            final(self).origin() == old(self).origin(),
            put_now(
                old(self).origin(),
                old(self).entries(),
                old(self).capacity(),
                ip,
                final(self).entries(),
            ),
            final(self).learned(ip),
    {
        let at: u128 = nanos_since(&self.origin);
        self.learn_at(ip, at);
        assert(self.entries()[0] == (key_of(ip), at)) by {
            law_put_keeps_table(old(self).entries(), old(self).capacity(), key_of(ip), at);
        }
        assert(self.entries() == put_front(
            old(self).entries(),
            old(self).capacity(),
            key_of(ip),
            at,
        ));
    }

    /// Whether an address was learned no longer than `ttl` before `now`, both
    /// counted from when the table was made.
    pub fn contains_within_at(&self, ip: &IpAddr, ttl: TimeSpan, now: u128) -> (r: bool)
        ensures
            r == counts_at(self.entries(), *ip, ttl, now),
    {
        match lru_peek(&self.cache, make_key(*ip)) {
            Some(at) => {
                let age: u128 = if now >= at {
                    now - at
                } else {
                    0
                };
                counts(age, ttl)
            },
            None => false,
        }
    }

    /// Whether an address was learned within `ttl`. The order of the table does
    /// not change.
    pub fn contains_within(&self, ip: &IpAddr, ttl: TimeSpan) -> (r: bool)
        ensures
            r ==> self.learned(*ip),
            r ==> ttl.total() > 0,
            exists|now: u128|
                crate::chance::is_age_of(self.origin(), now) && r == #[trigger] counts_at(
                    self.entries(),
                    *ip,
                    ttl,
                    now,
                ),
    {
        proof {
            lemma_lookup(self.entries(), key_of(*ip));
        }
        let now: u128 = nanos_since(&self.origin);
        self.contains_within_at(ip, ttl, now)
    }

    /// How many addresses are remembered.
    pub fn len(&self) -> (r: usize)
        ensures
            r == self.entries().len(),
    {
        lru_len(&self.cache)
    }

    /// Whether no address is remembered.
    pub fn is_empty(&self) -> (r: bool)
        ensures
            r == (self.entries().len() == 0),
    {
        self.len() == 0
    }

    /// The addresses and when each was learned, the one learned last in front.
    pub fn snapshot(&self) -> (r: Vec<((bool, u128), u128)>)
        ensures
            r@ == self.entries(),
    {
        lru_list(&self.cache)
    }
}

/// A SIP message as far as learning reads it.
#[derive(Debug, PartialEq, Eq)]
pub enum SipMessage {
    Request { method: Method },
    Response { headers: Vec<Header> },
}

/// The name of the method that [`cseq_method`] reads in a CSeq value.
pub uninterp spec fn cseq_method_in(value: Seq<char>) -> Option<Seq<char>>;

/// The name of the method in a CSeq value, read by the `method` function of
/// rsipstack's untyped `CSeq` header and written by the `Display` impl of its
/// `Method`. It is a function of the value alone; the grammar is left open here.
#[verifier::external_body]
fn cseq_method(value: &str) -> (r: Option<String>)
    ensures
        text::opt_view(r) == cseq_method_in(value@),
{
    rsipstack::sip::headers::untyped::CSeq::from(value).method().ok().map(|m| m.to_string())
}

/// A message belongs to the setup of a call.
pub open spec fn call_traffic(msg: SipMessage) -> bool {
    match msg {
        SipMessage::Request { method } => method == Method::Invite,
        SipMessage::Response { headers } => match sip::first_value(headers@, HeaderName::CSeq) {
            Some(v) => cseq_method_in(v) == Some("INVITE"@),
            None => false,
        },
    }
}

/// Whether a message belongs to the setup of a call.
pub fn is_call_traffic(msg: &SipMessage) -> (r: bool)
    ensures
        r == call_traffic(*msg),
{
    match msg {
        SipMessage::Request { method } => *method == Method::Invite,
        SipMessage::Response { headers } => match sip::find_value(headers, HeaderName::CSeq) {
            Some(value) => match cseq_method(value.as_str()) {
                Some(name) => text::str_eq(name.as_str(), "INVITE"),
                None => false,
            },
            None => false,
        },
    }
}

/// The address of a host that is given as one.
pub fn peer_ip(host_with_port: &HostWithPort) -> (r: Option<IpAddr>)
    ensures
        r == match host_with_port.host {
            Host::Ip(ip) => Some(ip),
            Host::Domain(_) => None,
        },
{
    match &host_with_port.host {
        Host::Ip(ip) => Some(*ip),
        Host::Domain(_) => None,
    }
}

/// The address that a message teaches, given whether it belongs to a call.
pub open spec fn taught(call: bool, from: Option<HostWithPort>) -> Option<IpAddr> {
    match from {
        Some(HostWithPort { host: Host::Ip(ip), .. }) if call => Some(ip),
        _ => None,
    }
}

/// The address that a message teaches, given whether it belongs to a call.
pub fn learnable(call: bool, from: Option<&HostWithPort>) -> (r: Option<IpAddr>)
    ensures
        r == taught(call, sender(from)),
{
    if !call {
        return None;
    }
    match from {
        Some(from) => peer_ip(from),
        None => None,
    }
}

/// Watches the messages that come in, and learns from them.
pub struct PeerAddressLearner {
    peers: SharedLearnedPeers,
}

impl PeerAddressLearner {
    /// What was learned.
    pub closed spec fn peers(&self) -> SharedLearnedPeers {
        self.peers
    }

    /// A learner that fills a table.
    pub fn new(peers: SharedLearnedPeers) -> (r: Self)
        ensures
            r.peers() == peers,
    {
        PeerAddressLearner { peers }
    }

    /// What was learned.
    pub fn shared(&self) -> (r: &SharedLearnedPeers)
        ensures
            *r == self.peers(),
    {
        &self.peers
    }

    /// Learns from a message that came in: the address of its sender, where the
    /// message belongs to the setup of a call and the sender is given by its
    /// address.
    pub fn learn_from(&mut self, msg: &SipMessage, from: Option<&HostWithPort>)
        requires
            old(self).peers().wf(),
        ensures
            final(self).peers().wf(),
            final(self).peers().capacity() == old(self).peers().capacity(),
            final(self).peers().origin() == old(self).peers().origin(),
            match taught(call_traffic(*msg), sender(from)) {
                Some(ip) => {
                    &&& final(self).peers().learned(ip)
                    &&& put_now(
                        old(self).peers().origin(),
                        old(self).peers().entries(),
                        old(self).peers().capacity(),
                        ip,
                        final(self).peers().entries(),
                    )
                },
                None => *final(self) == *old(self),
            },
    {
        let call: bool = is_call_traffic(msg);
        if let Some(ip) = learnable(call, from) {
            self.peers.learn(ip);
        }
    }
}

/// Whatever does not belong to the setup of a call teaches nothing.
pub proof fn law_only_calls_teach(from: Option<HostWithPort>)
    ensures
        taught(false, from) is None,
{
}

/// An address that was learned counts from then on for as long as the time to live
/// says, to the nanosecond, and no longer; for no time at all it never counts.
pub proof fn law_learned_address_counts(
    entries: Seq<((bool, u128), u128)>,
    capacity: nat,
    ip: IpAddr,
    at: u128,
    ttl: TimeSpan,
    now: u128,
)
    requires
        distinct_keys(entries),
        entries.len() <= capacity,
        capacity > 0,
        at <= now,
    ensures
        counts_at(put_front(entries, capacity, key_of(ip), at), ip, ttl, now) <==> (ttl.secs
            * 1_000_000_000 + ttl.nanos > 0 && now - at <= ttl.secs * 1_000_000_000 + ttl.nanos),
{
    law_put_keeps_table(entries, capacity, key_of(ip), at);
}

/// An address that was never learned does not count.
pub proof fn law_unknown_address_does_not_count(
    entries: Seq<((bool, u128), u128)>,
    ip: IpAddr,
    ttl: TimeSpan,
    now: u128,
)
    requires
        forall|i: int| 0 <= i < entries.len() ==> (#[trigger] entries[i]).0 != key_of(ip),
    ensures
        !counts_at(entries, ip, ttl, now),
{
    lemma_lookup(entries, key_of(ip));
}

/// Learning an address again, and learning one while there is room, leaves what is
/// known of the others.
pub proof fn law_others_stay_learned(
    entries: Seq<((bool, u128), u128)>,
    capacity: nat,
    key: (bool, u128),
    at: u128,
    other: (bool, u128),
)
    requires
        knows(entries, key) || entries.len() < capacity,
        other != key,
    ensures
        lookup(put_front(entries, capacity, key, at), other) == lookup(entries, other),
{
    let after = put_front(entries, capacity, key, at);
    let rest = if knows(entries, key) {
        without_key(entries, key)
    } else {
        entries
    };
    assert(after.drop_first() =~= rest);
    assert(after.first() == (key, at));
    if knows(entries, key) {
        lemma_lookup_without(entries, key, other);
    }
}

proof fn lemma_lookup_without(
    entries: Seq<((bool, u128), u128)>,
    key: (bool, u128),
    other: (bool, u128),
)
    requires
        other != key,
    ensures
        lookup(without_key(entries, key), other) == lookup(entries, other),
    decreases entries.len(),
{
    if entries.len() > 0 {
        let init = entries.drop_last();
        lemma_lookup_without(init, key, other);
        lemma_lookup_push(init, entries.last(), other);
        assert(entries =~= init.push(entries.last()));
        lemma_lookup_push(without_key(init, key), entries.last(), other);
    }
}

proof fn lemma_lookup_push(
    entries: Seq<((bool, u128), u128)>,
    last: ((bool, u128), u128),
    key: (bool, u128),
)
    ensures
        lookup(entries.push(last), key) == if lookup(entries, key) is Some {
            lookup(entries, key)
        } else if last.0 == key {
            Some(last.1)
        } else {
            None
        },
    decreases entries.len(),
{
    let all = entries.push(last);
    if entries.len() == 0 {
        reveal_with_fuel(lookup, 2);
        assert(all.drop_first() =~= Seq::empty());
        assert(all.first() == last);
    } else {
        assert(all.first() == entries.first());
        assert(all.drop_first() =~= entries.drop_first().push(last));
        lemma_lookup_push(entries.drop_first(), last, key);
    }
}

/// Two addresses share an entry only where they are the same.
pub proof fn law_keys_tell_addresses_apart(a: IpAddr, b: IpAddr)
    ensures
        key_of(a) == key_of(b) <==> a == b,
{
}

/// An INVITE request belongs to a call, and so does the response whose first CSeq
/// header says INVITE. No other request does, and no other response.
pub proof fn law_calls_are_invites(method: Method, headers: Vec<Header>)
    ensures
        call_traffic(SipMessage::Request { method }) <==> method == Method::Invite,
        sip::first_value(headers@, HeaderName::CSeq) is None ==> !call_traffic(
            SipMessage::Response { headers },
        ),
        sip::first_value(headers@, HeaderName::CSeq) matches Some(v) ==> (call_traffic(
            SipMessage::Response { headers },
        ) <==> cseq_method_in(v) == Some("INVITE"@)),
{
}

/// A call teaches the address of its sender where that is given as one, whatever
/// the port; a sender that is given by its name, and one that is not given,
/// teaches nothing.
pub proof fn law_callers_teach_their_address(ip: IpAddr, name: String, port: Option<u16>)
    ensures
        taught(true, Some(HostWithPort { host: Host::Ip(ip), port })) == Some(ip),
        taught(true, Some(HostWithPort { host: Host::Domain(name), port })) is None,
        taught(true, None) is None,
{
}

/// An address that was put in front just now stands first, with the time since the
/// table was made; what was there before comes behind it.
pub proof fn law_learning_is_timed(
    origin: std::time::Instant,
    before: Seq<((bool, u128), u128)>,
    capacity: nat,
    ip: IpAddr,
    after: Seq<((bool, u128), u128)>,
)
    requires
        put_now(origin, before, capacity, ip, after),
    ensures
        after.len() > 0,
        after[0].0 == key_of(ip),
        crate::chance::is_age_of(origin, after[0].1),
        after == put_front(before, capacity, key_of(ip), after[0].1),
{
}

}
