use active_call::addr::IpAddr;
use active_call::clock::TimeSpan;
use active_call::sip::{Header, Host, HostWithPort, Method};
use active_call::useragent::peer_learning::{
    counts, is_call_traffic, learnable, peer_ip, PeerAddressLearner, SharedLearnedPeers, SipMessage,
};

fn ip(s: &str) -> IpAddr {
    let all: u32 = if s.contains(':') { 128 } else { 32 };
    match format!("{}/{}", s, all).parse::<ipnet::IpNet>().unwrap() {
        ipnet::IpNet::V4(n) => IpAddr::V4(u32::from_be_bytes(n.addr().octets())),
        ipnet::IpNet::V6(n) => IpAddr::V6(u128::from_be_bytes(n.addr().octets())),
    }
}

fn udp_addr(s: &str) -> HostWithPort {
    HostWithPort { host: Host::Ip(ip(s)), port: Some(5060) }
}

fn invite_request() -> SipMessage {
    SipMessage::Request { method: Method::Invite }
}

fn options_request() -> SipMessage {
    SipMessage::Request { method: Method::Options }
}

fn response_with_cseq(cseq: &str) -> SipMessage {
    SipMessage::Response { headers: vec![Header::CSeq(cseq.to_string())] }
}

#[test]
fn learns_only_call_traffic() {
    let mut learner = PeerAddressLearner::new(SharedLearnedPeers::new(16));

    learner.learn_from(&invite_request(), Some(&udp_addr("1.1.1.1")));
    learner.learn_from(&response_with_cseq("1 INVITE"), Some(&udp_addr("2.2.2.2")));
    // OPTIONS probes and REGISTER traffic must not teach the table.
    learner.learn_from(&options_request(), Some(&udp_addr("3.3.3.3")));
    learner.learn_from(&response_with_cseq("1 REGISTER"), Some(&udp_addr("4.4.4.4")));

    let ttl = TimeSpan::from_secs(60);
    assert!(learner.shared().contains_within(&ip("1.1.1.1"), ttl));
    assert!(learner.shared().contains_within(&ip("2.2.2.2"), ttl));
    assert!(!learner.shared().contains_within(&ip("3.3.3.3"), ttl));
    assert!(!learner.shared().contains_within(&ip("4.4.4.4"), ttl));
}

#[test]
fn ttl_expiry_and_lru_bound() {
    let mut learner = PeerAddressLearner::new(SharedLearnedPeers::new(2));

    learner.learn_from(&invite_request(), Some(&udp_addr("10.0.0.1")));
    learner.learn_from(&invite_request(), Some(&udp_addr("10.0.0.2")));
    // Third peer evicts the least recently used one (10.0.0.1).
    learner.learn_from(&invite_request(), Some(&udp_addr("10.0.0.3")));

    let ttl = TimeSpan::from_secs(3600);
    assert_eq!(learner.shared().len(), 2);
    assert!(!learner.shared().contains_within(&ip("10.0.0.1"), ttl));
    assert!(learner.shared().contains_within(&ip("10.0.0.3"), ttl));

    // A zero TTL expires everything even while still cached.
    assert!(!learner
        .shared()
        .contains_within(&ip("10.0.0.3"), TimeSpan { secs: 0, nanos: 0 }));
}

#[test]
fn non_ip_peer_addresses_are_ignored() {
    let mut learner = PeerAddressLearner::new(SharedLearnedPeers::new(16));
    let domain_addr = HostWithPort {
        host: Host::Domain("sip.example.com".to_string()),
        port: Some(5060),
    };
    learner.learn_from(&invite_request(), Some(&domain_addr));
    assert!(learner.shared().is_empty());
    // Missing source address is ignored too.
    learner.learn_from(&invite_request(), None);
    assert!(learner.shared().is_empty());
}

#[test]
fn learning_again_moves_to_the_front() {
    let mut peers = SharedLearnedPeers::new(2);
    peers.learn_at(ip("10.0.0.1"), 1);
    peers.learn_at(ip("10.0.0.2"), 2);
    peers.learn_at(ip("10.0.0.1"), 3);
    assert_eq!(
        peers.snapshot(),
        vec![((false, 0x0a00_0001), 3), ((false, 0x0a00_0002), 2)]
    );
    // Now the other one is the oldest.
    peers.learn_at(ip("::1"), 4);
    assert_eq!(peers.snapshot(), vec![((true, 1), 4), ((false, 0x0a00_0001), 3)]);
}

#[test]
fn lookups_do_not_change_the_order() {
    let mut peers = SharedLearnedPeers::new(2);
    peers.learn_at(ip("10.0.0.1"), 1);
    peers.learn_at(ip("10.0.0.2"), 2);
    let ttl = TimeSpan::from_secs(1);
    assert!(peers.contains_within_at(&ip("10.0.0.1"), ttl, 5));
    peers.learn_at(ip("10.0.0.3"), 3);
    assert!(!peers.contains_within_at(&ip("10.0.0.1"), ttl, 5));
}

#[test]
fn ages_are_held_against_the_ttl() {
    let mut peers = SharedLearnedPeers::new(4);
    peers.learn_at(ip("10.0.0.1"), 1_000_000_000);
    let ttl = TimeSpan::from_secs(2);
    assert!(peers.contains_within_at(&ip("10.0.0.1"), ttl, 3_000_000_000));
    assert!(!peers.contains_within_at(&ip("10.0.0.1"), ttl, 3_000_000_001));
    assert!(counts(2_000_000_000, ttl));
    assert!(!counts(0, TimeSpan { secs: 0, nanos: 0 }));
}

#[test]
fn table_remembers_one_at_least() {
    let mut peers = SharedLearnedPeers::new(0);
    assert!(peers.is_empty());
    peers.learn(ip("10.0.0.1"));
    peers.learn(ip("10.0.0.2"));
    assert_eq!(peers.len(), 1);
}

#[test]
fn call_traffic_is_told_by_the_method() {
    assert!(is_call_traffic(&response_with_cseq("7 invite")));
    assert!(!is_call_traffic(&response_with_cseq("INVITE")));
    assert!(!is_call_traffic(&SipMessage::Response { headers: vec![] }));
    // The first CSeq counts.
    assert!(!is_call_traffic(&SipMessage::Response {
        headers: vec![
            Header::CSeq("1 BYE".to_string()),
            Header::CSeq("1 INVITE".to_string()),
        ],
    }));
    assert_eq!(peer_ip(&udp_addr("1.2.3.4")), Some(ip("1.2.3.4")));
    assert_eq!(learnable(false, Some(&udp_addr("1.2.3.4"))), None);
    assert_eq!(learnable(true, Some(&udp_addr("1.2.3.4"))), Some(ip("1.2.3.4")));
}
