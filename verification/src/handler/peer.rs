//! Handing the WebSocket of a client on to the node that has its call.
use crate::config::Config;
use crate::handler::params::CallParams;
use crate::text;
use vstd::prelude::*;
use vstd::string::*;

verus! {

/// How many nodes may be asked for a call before the search is given up.
pub const MAX_FORWARD_HOPS: usize = 16;

/// Seconds for which the answer of a node is waited for.
pub const FORWARD_TIMEOUT_SECS: u64 = 3;

/// A text without the first of the schemes that it begins with.
pub open spec fn without_scheme(s: Seq<char>) -> Seq<char> {
    if "wss://"@.is_prefix_of(s) {
        s.skip("wss://"@.len() as int)
    } else if "ws://"@.is_prefix_of(s) {
        s.skip("ws://"@.len() as int)
    } else if "https://"@.is_prefix_of(s) {
        s.skip("https://"@.len() as int)
    } else if "http://"@.is_prefix_of(s) {
        s.skip("http://"@.len() as int)
    } else {
        s
    }
}

/// The address of a node without scheme and trailing slashes.
pub open spec fn normalized(addr: Seq<char>) -> Seq<char> {
    text::trim_end_char_of(without_scheme(text::trim_of(addr)), '/')
}

/// A node is this one, or was asked before.
pub open spec fn already_visited(
    peer: Seq<char>,
    visited: Seq<Seq<char>>,
    self_addr: Seq<char>,
) -> bool {
    ||| self_addr.len() > 0 && normalized(self_addr) == normalized(peer)
    ||| exists|i: int| 0 <= i < visited.len() && normalized(#[trigger] visited[i]) == normalized(peer)
}

/// The address of a node without scheme and trailing slashes, so that addresses
/// can be compared.
pub fn normalize_endpoint(addr: &str) -> (r: String)
    ensures
        r@ == normalized(addr@),
{
    let s: String = text::trim(addr);
    let bare: String = if let Some(rest) = text::strip_prefix(s.as_str(), "wss://") {
        rest
    } else if let Some(rest) = text::strip_prefix(s.as_str(), "ws://") {
        rest
    } else if let Some(rest) = text::strip_prefix(s.as_str(), "https://") {
        rest
    } else if let Some(rest) = text::strip_prefix(s.as_str(), "http://") {
        rest
    } else {
        s
    };
    text::trim_end_char(bare.as_str(), '/')
}

/// Whether a node is this one, or was asked before.
pub fn addr_already_visited(peer: &str, visited: &Vec<String>, self_addr: &str) -> (r: bool)
    ensures
        r == already_visited(peer@, text::views_of(visited@), self_addr@),
{
    let wanted: String = normalize_endpoint(peer);
    if self_addr.unicode_len() != 0 {
        let own: String = normalize_endpoint(self_addr);
        if text::str_eq(own.as_str(), wanted.as_str()) {
            return true;
        }
    }
    let ghost all = text::views_of(visited@);
    let n: usize = visited.len();
    let mut i: usize = 0;
    while i < n
        invariant
            0 <= i <= n,
            n == visited@.len(),
            all == text::views_of(visited@),
            wanted@ == normalized(peer@),
            forall|j: int| 0 <= j < i ==> normalized(#[trigger] all[j]) != normalized(peer@),
        decreases n - i,
    {
        let other: String = normalize_endpoint(visited[i].as_str());
        assert(all[i as int] == visited@[i as int]@);
        if text::str_eq(other.as_str(), wanted.as_str()) {
            return true;
        }
        i = i + 1;
    }
    false
}

/// The nodes that a forwarded request names as asked: those before, and this
/// one.
pub open spec fn visited_with_self(visited: Seq<Seq<char>>, self_addr: Seq<char>) -> Seq<
    Seq<char>,
> {
    if self_addr.len() > 0 {
        visited.push(self_addr)
    } else {
        visited
    }
}

/// The address under which a node is asked for a call; `None` where it is not
/// asked.
pub open spec fn forward_url(
    peer: Seq<char>,
    visited: Seq<Seq<char>>,
    self_addr: Seq<char>,
    query: Seq<char>,
) -> Option<Seq<char>> {
    match Config::ws_endpoint(peer) {
        Some(base) => if already_visited(peer, visited, self_addr) {
            None
        } else {
            Some(text::trim_end_char_of(base, '/') + "/call?"@ + query)
        },
        None => None,
    }
}

/// The addresses under which nodes are asked for a call, in their order.
pub open spec fn forward_urls(
    peers: Seq<Seq<char>>,
    visited: Seq<Seq<char>>,
    self_addr: Seq<char>,
    query: Seq<char>,
) -> Seq<Seq<char>>
    decreases peers.len(),
{
    if peers.len() == 0 {
        Seq::empty()
    } else {
        let rest = forward_urls(peers.drop_last(), visited, self_addr, query);
        match forward_url(peers.last(), visited, self_addr, query) {
            Some(url) => rest.push(url),
            None => rest,
        }
    }
}

/// A request is not handed on: its `forward` is set, as it is once a node sent it
/// on, or too many nodes were asked.
pub open spec fn stays_here(params: CallParams) -> bool {
    params.forward is Some || params.visited_nodes().len() >= MAX_FORWARD_HOPS
}

/// The addresses to try for a call that is not here, in their order; the first
/// node that accepts gets the client.
pub open spec fn forward_plan(
    peers: Seq<Seq<char>>,
    http_addr: Seq<char>,
    params: CallParams,
) -> Seq<Seq<char>> {
    if stays_here(params) {
        Seq::empty()
    } else {
        let own = text::trim_of(http_addr);
        let visited = visited_with_self(params.visited_nodes(), own);
        forward_urls(peers, visited, own, params.forward_query(text::join_of(visited, ","@)))
    }
}

/// The addresses to try for a call that is not here, in their order; the first
/// node that accepts gets the client. A request whose `forward` is set is not
/// handed on.
pub fn try_forward(config: &Config, params: &CallParams) -> (r: Vec<String>)
    ensures
        text::views_of(r@) == forward_plan(
            text::views_of(config.peers@),
            config.http_addr@,
            *params,
        ),
{
    let mut urls: Vec<String> = Vec::new();
    assert(text::views_of(urls@) =~= Seq::empty());
    let ghost peers = text::views_of(config.peers@);
    if params.forward.is_some() {
        return urls;
    }
    let mut visited: Vec<String> = params.visited_list();
    if visited.len() >= MAX_FORWARD_HOPS {
        return urls;
    }
    let own: String = text::trim(config.http_addr.as_str());
    let ghost before = visited@;
    if own.as_str().unicode_len() != 0 {
        visited.push(own.clone());
        assert(text::views_of(visited@) =~= text::views_of(before).push(own@));
    }
    let visited_text: String = text::join(&visited, ",");
    let query: String = params.to_forward_query(visited_text.as_str());
    let n: usize = config.peers.len();
    let mut i: usize = 0;
    while i < n
        invariant
            0 <= i <= n,
            n == config.peers@.len(),
            peers == text::views_of(config.peers@),
            text::views_of(urls@) == forward_urls(
                peers.take(i as int),
                text::views_of(visited@),
                own@,
                query@,
            ),
        decreases n - i,
    {
        proof {
            assert(peers.take(i + 1).drop_last() =~= peers.take(i as int));
            assert(peers.take(i + 1).last() == config.peers@[i as int]@);
        }
        let ghost so_far = urls@;
        let peer: &str = config.peers[i].as_str();
        if let Some(base) = Config::peer_ws_endpoint(peer) {
            if !addr_already_visited(peer, &visited, own.as_str()) {
                let base: String = text::trim_end_char(base.as_str(), '/');
                let path: String = text::concat2(base.as_str(), "/call?");
                let url: String = text::concat2(path.as_str(), query.as_str());
                urls.push(url);
                assert(text::views_of(urls@) =~= text::views_of(so_far).push(url@));
            }
        }
        i = i + 1;
    }
    assert(peers.take(n as int) =~= peers);
    urls
}

/// A search never comes back: a node that the request names as asked, and this
/// node itself, are not asked.
pub proof fn law_no_loops(
    peer: Seq<char>,
    visited: Seq<Seq<char>>,
    self_addr: Seq<char>,
    query: Seq<char>,
    i: int,
)
    requires
        0 <= i < visited.len(),
        normalized(visited[i]) == normalized(peer),
    ensures
        forward_url(peer, visited, self_addr, query) is None,
{
}

/// This node names itself to every node that it asks, so it is not asked in
/// turn.
pub proof fn law_self_is_named(visited: Seq<Seq<char>>, self_addr: Seq<char>, query: Seq<char>)
    requires
        self_addr.len() > 0,
    ensures
        visited_with_self(visited, self_addr).contains(self_addr),
        forward_url(self_addr, visited_with_self(visited, self_addr), self_addr, query) is None,
{
    let all = visited_with_self(visited, self_addr);
    assert(all[visited.len() as int] == self_addr);
}

/// Every address that is tried is that of one of the nodes, which is neither
/// this node nor named as asked.
pub proof fn law_only_new_nodes_are_asked(
    peers: Seq<Seq<char>>,
    visited: Seq<Seq<char>>,
    self_addr: Seq<char>,
    query: Seq<char>,
    k: int,
)
    requires
        0 <= k < forward_urls(peers, visited, self_addr, query).len(),
    ensures
        exists|i: int|
            #![trigger peers[i]]
            0 <= i < peers.len() && !already_visited(peers[i], visited, self_addr) && Some(
                forward_urls(peers, visited, self_addr, query)[k],
            ) == forward_url(peers[i], visited, self_addr, query),
    decreases peers.len(),
{
    let head = peers.drop_last();
    let rest = forward_urls(head, visited, self_addr, query);
    if k < rest.len() {
        law_only_new_nodes_are_asked(head, visited, self_addr, query, k);
        let i = choose|i: int|
            #![trigger head[i]]
            0 <= i < head.len() && !already_visited(head[i], visited, self_addr) && Some(rest[k])
                == forward_url(head[i], visited, self_addr, query);
        assert(peers[i] == head[i]);
    } else {
        let last = peers[peers.len() - 1];
        assert(last == peers.last());
        assert(forward_url(last, visited, self_addr, query) is Some);
    }
}

/// A request whose `forward` is set, as it is once a node sent it on, is not sent
/// on.
pub proof fn law_forwarded_stays(
    peers: Seq<Seq<char>>,
    http_addr: Seq<char>,
    params: CallParams,
)
    requires
        params.forward is Some,
    ensures
        forward_plan(peers, http_addr, params).len() == 0,
{
}

/// No more addresses are tried than there are nodes.
pub proof fn law_each_peer_once(
    peers: Seq<Seq<char>>,
    visited: Seq<Seq<char>>,
    self_addr: Seq<char>,
    query: Seq<char>,
)
    ensures
        forward_urls(peers, visited, self_addr, query).len() <= peers.len(),
    decreases peers.len(),
{
    if peers.len() > 0 {
        law_each_peer_once(peers.drop_last(), visited, self_addr, query);
    }
}

/// A message on the client's side of a tunnel.
#[derive(Debug, PartialEq, Eq)]
pub enum ClientMessage {
    Text(String),
    Binary(Vec<u8>),
    Ping(Vec<u8>),
    Pong(Vec<u8>),
    /// The code and the reason of a close.
    Close(Option<(u16, String)>),
}

/// A message on the other node's side of a tunnel.
#[derive(Debug, PartialEq, Eq)]
pub enum PeerMessage {
    Text(String),
    Binary(Vec<u8>),
    Ping(Vec<u8>),
    Pong(Vec<u8>),
    /// The code and the reason of a close.
    Close(Option<(u16, String)>),
    /// A raw frame.
    Frame,
}

/// The message for the other node that a client's message stands for.
pub open spec fn to_peer(m: ClientMessage) -> PeerMessage {
    match m {
        ClientMessage::Text(t) => PeerMessage::Text(t),
        ClientMessage::Binary(b) => PeerMessage::Binary(b),
        ClientMessage::Ping(p) => PeerMessage::Ping(p),
        ClientMessage::Pong(p) => PeerMessage::Pong(p),
        ClientMessage::Close(c) => PeerMessage::Close(c),
    }
}

/// The message for the client that the other node's message stands for; raw
/// frames are not passed on.
pub open spec fn to_client(m: PeerMessage) -> Option<ClientMessage> {
    match m {
        PeerMessage::Text(t) => Some(ClientMessage::Text(t)),
        PeerMessage::Binary(b) => Some(ClientMessage::Binary(b)),
        PeerMessage::Ping(p) => Some(ClientMessage::Ping(p)),
        PeerMessage::Pong(p) => Some(ClientMessage::Pong(p)),
        PeerMessage::Close(c) => Some(ClientMessage::Close(c)),
        PeerMessage::Frame => None,
    }
}

/// The message for the other node that a client's message stands for.
pub fn axum_to_tungstenite(m: ClientMessage) -> (r: Option<PeerMessage>)
    ensures
        r == Some(to_peer(m)),
{
    Some(
        match m {
            ClientMessage::Text(t) => PeerMessage::Text(t),
            ClientMessage::Binary(b) => PeerMessage::Binary(b),
            ClientMessage::Ping(p) => PeerMessage::Ping(p),
            ClientMessage::Pong(p) => PeerMessage::Pong(p),
            ClientMessage::Close(c) => PeerMessage::Close(c),
        },
    )
}

/// The message for the client that the other node's message stands for.
pub fn tungstenite_to_axum(m: PeerMessage) -> (r: Option<ClientMessage>)
    ensures
        r == to_client(m),
{
    match m {
        PeerMessage::Text(t) => Some(ClientMessage::Text(t)),
        PeerMessage::Binary(b) => Some(ClientMessage::Binary(b)),
        PeerMessage::Ping(p) => Some(ClientMessage::Ping(p)),
        PeerMessage::Pong(p) => Some(ClientMessage::Pong(p)),
        PeerMessage::Close(c) => Some(ClientMessage::Close(c)),
        PeerMessage::Frame => None,
    }
}

/// A message comes back unchanged from the other side of a tunnel.
pub proof fn law_relay_keeps_messages(m: ClientMessage)
    ensures
        to_client(to_peer(m)) == Some(m),
{
}

/// What happens at the two ends of a tunnel.
#[derive(Debug, PartialEq, Eq)]
pub enum TunnelEvent {
    FromClient(ClientMessage),
    ClientError(String),
    ClientClosed,
    FromPeer(PeerMessage),
    PeerError(String),
    PeerClosed,
    /// A message could not be handed to the other node.
    ToPeerFailed(String),
    /// A message could not be handed to the client.
    ToClientFailed(String),
}

/// What a tunnel does next.
#[derive(Debug, PartialEq, Eq)]
pub enum TunnelAction {
    SendPeer(PeerMessage),
    SendClient(ClientMessage),
    /// Wait for the next event.
    Wait,
    /// Close both ends.
    End(String),
}

/// The reason for which an event ends a tunnel.
pub open spec fn end_reason(event: TunnelEvent) -> Option<Seq<char>> {
    match event {
        TunnelEvent::ClientError(e) => Some("client websocket error: "@ + e@),
        TunnelEvent::ClientClosed => Some("client websocket closed"@),
        TunnelEvent::PeerError(e) => Some("peer websocket error: "@ + e@),
        TunnelEvent::PeerClosed => Some("peer websocket closed"@),
        TunnelEvent::ToPeerFailed(e) => Some("forward to peer failed: "@ + e@),
        TunnelEvent::ToClientFailed(e) => Some("forward to client failed: "@ + e@),
        TunnelEvent::FromClient(_) => None,
        TunnelEvent::FromPeer(_) => None,
    }
}

/// Relays messages between a client and the node that has its call, until
/// either side closes or fails.
pub fn tunnel(event: TunnelEvent) -> (r: TunnelAction)
    ensures
        match event {
            TunnelEvent::FromClient(m) => r == TunnelAction::SendPeer(to_peer(m)),
            TunnelEvent::FromPeer(m) => match to_client(m) {
                Some(c) => r == TunnelAction::SendClient(c),
                None => r == TunnelAction::Wait,
            },
            _ => r matches TunnelAction::End(reason) && Some(reason@) == end_reason(event),
        },
{
    match event {
        TunnelEvent::FromClient(m) => match axum_to_tungstenite(m) {
            Some(m) => TunnelAction::SendPeer(m),
            None => TunnelAction::Wait,
        },
        TunnelEvent::FromPeer(m) => match tungstenite_to_axum(m) {
            Some(m) => TunnelAction::SendClient(m),
            None => TunnelAction::Wait,
        },
        TunnelEvent::ClientError(e) => TunnelAction::End(
            text::concat2("client websocket error: ", e.as_str()),
        ),
        TunnelEvent::ClientClosed => TunnelAction::End("client websocket closed".to_string()),
        TunnelEvent::PeerError(e) => TunnelAction::End(
            text::concat2("peer websocket error: ", e.as_str()),
        ),
        TunnelEvent::PeerClosed => TunnelAction::End("peer websocket closed".to_string()),
        TunnelEvent::ToPeerFailed(e) => TunnelAction::End(
            text::concat2("forward to peer failed: ", e.as_str()),
        ),
        TunnelEvent::ToClientFailed(e) => TunnelAction::End(
            text::concat2("forward to client failed: ", e.as_str()),
        ),
    }
}

/// A node is the same under any of the four schemes and without one, and with or
/// without slashes behind it.
pub proof fn law_same_node_under_any_scheme(host: Seq<char>)
    requires
        host.len() > 0,
        !text::is_white_space(host.first()),
        !text::is_white_space(host.last()),
        !host.contains(':'),
    ensures
        normalized("wss://"@ + host) == normalized(host),
        normalized("ws://"@ + host) == normalized(host),
        normalized("https://"@ + host) == normalized(host),
        normalized("http://"@ + host) == normalized(host),
        normalized(host.push('/')) == normalized(host),
        host.last() != '/' ==> normalized(host) == host,
{
    text::lemma_plain_is_trimmed(host);
    text::lemma_plain_is_trimmed(host.push('/'));
    lemma_no_scheme(host);
    lemma_no_scheme(host.push('/'));
    lemma_scheme_leaves(host);
    text::law_trailing_run_leaves(host, '/');
}

/// Each of the four schemes leaves, and the host stays.
#[verifier::spinoff_prover]
proof fn lemma_scheme_leaves(host: Seq<char>)
    requires
        host.len() > 0,
        !text::is_white_space(host.last()),
    ensures
        without_scheme(text::trim_of("wss://"@ + host)) == host,
        without_scheme(text::trim_of("ws://"@ + host)) == host,
        without_scheme(text::trim_of("https://"@ + host)) == host,
        without_scheme(text::trim_of("http://"@ + host)) == host,
{
    assert(without_scheme(text::trim_of("wss://"@ + host)) == host) by {
        reveal_strlit("wss://");
        let a = "wss://"@ + host;
        text::lemma_plain_is_trimmed(a);
        assert("wss://"@ =~= a.take(6));
        assert(a.skip(6) =~= host);
    }
    assert(without_scheme(text::trim_of("ws://"@ + host)) == host) by {
        reveal_strlit("wss://");
        reveal_strlit("ws://");
        let b = "ws://"@ + host;
        text::lemma_plain_is_trimmed(b);
        assert("ws://"@ =~= b.take(5));
        assert(b.skip(5) =~= host);
        assert(b[2] == ':' && "wss://"@[2] == 's');
    }
    assert(without_scheme(text::trim_of("https://"@ + host)) == host) by {
        reveal_strlit("wss://");
        reveal_strlit("ws://");
        reveal_strlit("https://");
        let c = "https://"@ + host;
        text::lemma_plain_is_trimmed(c);
        assert("https://"@ =~= c.take(8));
        assert(c.skip(8) =~= host);
        assert(c[0] == 'h' && "wss://"@[0] == 'w' && "ws://"@[0] == 'w');
    }
    assert(without_scheme(text::trim_of("http://"@ + host)) == host) by {
        reveal_strlit("wss://");
        reveal_strlit("ws://");
        reveal_strlit("https://");
        reveal_strlit("http://");
        let d = "http://"@ + host;
        text::lemma_plain_is_trimmed(d);
        assert("http://"@ =~= d.take(7));
        assert(d.skip(7) =~= host);
        assert(d[0] == 'h' && "wss://"@[0] == 'w' && "ws://"@[0] == 'w');
        assert(d[4] == ':' && "https://"@[4] == 's');
    }
}

proof fn lemma_no_scheme(s: Seq<char>)
    requires
        !s.contains(':'),
    ensures
        without_scheme(s) == s,
{
    reveal_strlit("wss://");
    reveal_strlit("ws://");
    reveal_strlit("https://");
    reveal_strlit("http://");
    assert("https://"@[5] == ':' && "http://"@[4] == ':' && "wss://"@[3] == ':' && "ws://"@[2]
        == ':');
    if "https://"@.is_prefix_of(s) {
        assert(s[5] == ':');
    }
    if "http://"@.is_prefix_of(s) {
        assert(s[4] == ':');
    }
    if "wss://"@.is_prefix_of(s) {
        assert(s[3] == ':');
    }
    if "ws://"@.is_prefix_of(s) {
        assert(s[2] == ':');
    }
}

/// A node that was not asked before, and is not this one, is asked, where it has a
/// WebSocket address: at that address without slashes behind it, for the call that
/// the query describes.
pub proof fn law_new_node_is_asked(
    peer: Seq<char>,
    visited: Seq<Seq<char>>,
    self_addr: Seq<char>,
    query: Seq<char>,
    base: Seq<char>,
)
    requires
        Config::ws_endpoint(peer) == Some(base),
        self_addr.len() == 0 || normalized(self_addr) != normalized(peer),
        forall|i: int|
            0 <= i < visited.len() ==> normalized(#[trigger] visited[i]) != normalized(peer),
    ensures
        forward_url(peer, visited, self_addr, query) matches Some(url) && {
            &&& text::trim_end_char_of(base, '/').is_prefix_of(url)
            &&& ("/call?"@ + query).is_suffix_of(url)
            &&& url.len() == text::trim_end_char_of(base, '/').len() + "/call?"@.len()
                + query.len()
        },
{
    let head = text::trim_end_char_of(base, '/');
    let url = forward_url(peer, visited, self_addr, query)->0;
    assert(head =~= url.take(head.len() as int));
    assert("/call?"@ + query =~= url.skip(head.len() as int));
}

/// The nodes are asked in the order in which they are named; one that is not asked
/// takes nobody's place.
pub proof fn law_nodes_are_asked_in_order(
    peers: Seq<Seq<char>>,
    peer: Seq<char>,
    visited: Seq<Seq<char>>,
    self_addr: Seq<char>,
    query: Seq<char>,
)
    ensures
        forward_urls(Seq::empty(), visited, self_addr, query).len() == 0,
        forward_url(peer, visited, self_addr, query) matches Some(url) ==> forward_urls(
            peers.push(peer),
            visited,
            self_addr,
            query,
        ) == forward_urls(peers, visited, self_addr, query).push(url),
        forward_url(peer, visited, self_addr, query) is None ==> forward_urls(
            peers.push(peer),
            visited,
            self_addr,
            query,
        ) == forward_urls(peers, visited, self_addr, query),
{
    assert(peers.push(peer).drop_last() =~= peers);
}

/// A request that was not sent on yet is sent on while fewer than sixteen nodes
/// were asked: to the nodes that are known, with this node added to those that
/// were asked. After the sixteenth the search ends.
pub proof fn law_search_has_an_end(
    peers: Seq<Seq<char>>,
    http_addr: Seq<char>,
    params: CallParams,
)
    ensures
        params.visited_nodes().len() >= 16 ==> forward_plan(peers, http_addr, params).len() == 0,
        params.forward is None && params.visited_nodes().len() < 16 ==> ({
            let own = text::trim_of(http_addr);
            let named = if own.len() > 0 {
                params.visited_nodes().push(own)
            } else {
                params.visited_nodes()
            };
            forward_plan(peers, http_addr, params) == forward_urls(
                peers,
                named,
                own,
                params.forward_query(text::join_of(named, ","@)),
            )
        }),
{
}

/// Messages of a client reach the other node as they are, whatever they are; those
/// of the other node reach the client, but for raw frames.
pub proof fn law_tunnel_keeps_contents(t: String, b: Vec<u8>, c: Option<(u16, String)>)
    ensures
        to_peer(ClientMessage::Text(t)) == PeerMessage::Text(t),
        to_peer(ClientMessage::Binary(b)) == PeerMessage::Binary(b),
        to_peer(ClientMessage::Ping(b)) == PeerMessage::Ping(b),
        to_peer(ClientMessage::Pong(b)) == PeerMessage::Pong(b),
        to_peer(ClientMessage::Close(c)) == PeerMessage::Close(c),
        to_client(PeerMessage::Frame) is None,
{
}

/// A tunnel ends when a side closes or fails, and never for a message; the reason
/// says which side it was, and what it said.
#[verifier::spinoff_prover]
pub proof fn law_tunnel_ends_with_a_side(event: TunnelEvent, words: String)
    ensures
        end_reason(event) is None <==> event is FromClient || event is FromPeer,
        end_reason(TunnelEvent::ClientError(words)) matches Some(r) && words@.is_suffix_of(r)
            && "client"@.is_prefix_of(r),
        end_reason(TunnelEvent::PeerError(words)) matches Some(r) && words@.is_suffix_of(r)
            && "peer"@.is_prefix_of(r),
        end_reason(TunnelEvent::ToPeerFailed(words)) matches Some(r) && words@.is_suffix_of(r)
            && "forward to peer"@.is_prefix_of(r),
        end_reason(TunnelEvent::ToClientFailed(words)) matches Some(r) && words@.is_suffix_of(r)
            && "forward to client"@.is_prefix_of(r),
        end_reason(TunnelEvent::ClientClosed) == Some("client websocket closed"@),
        end_reason(TunnelEvent::PeerClosed) == Some("peer websocket closed"@),
{
    reveal_strlit("client websocket error: ");
    reveal_strlit("peer websocket error: ");
    reveal_strlit("forward to peer failed: ");
    reveal_strlit("forward to client failed: ");
    reveal_strlit("client");
    reveal_strlit("peer");
    reveal_strlit("forward to peer");
    reveal_strlit("forward to client");
    let a = "client websocket error: "@ + words@;
    let b = "peer websocket error: "@ + words@;
    let c = "forward to peer failed: "@ + words@;
    let d = "forward to client failed: "@ + words@;
    assert(words@ =~= a.skip(a.len() - words@.len()));
    assert(words@ =~= b.skip(b.len() - words@.len()));
    assert(words@ =~= c.skip(c.len() - words@.len()));
    assert(words@ =~= d.skip(d.len() - words@.len()));
    assert("client"@ =~= a.take(6));
    assert("peer"@ =~= b.take(4));
    assert("forward to peer"@ =~= c.take(15));
    assert("forward to client"@ =~= d.take(17));
}

/// This node does not ask itself, whoever was asked before; and without an address
/// of its own it takes no node for itself.
pub proof fn law_this_node_is_not_asked(
    peer: Seq<char>,
    visited: Seq<Seq<char>>,
    self_addr: Seq<char>,
    query: Seq<char>,
)
    ensures
        self_addr.len() > 0 && normalized(self_addr) == normalized(peer) ==> forward_url(
            peer,
            visited,
            self_addr,
            query,
        ) is None,
        visited.len() == 0 && self_addr.len() == 0 ==> (forward_url(
            peer,
            visited,
            self_addr,
            query,
        ) is Some <==> Config::ws_endpoint(peer) is Some),
{
}

}
