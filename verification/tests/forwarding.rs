use active_call::config::Config;
use active_call::handler::params::{decimal_text, encode, CallParams};
use active_call::handler::peer::{
    addr_already_visited, axum_to_tungstenite, normalize_endpoint, try_forward, tungstenite_to_axum,
    tunnel, ClientMessage, PeerMessage, TunnelAction, TunnelEvent,
};

fn params(visited: Option<&str>, forward: Option<bool>) -> CallParams {
    CallParams {
        id: Some("s1".to_string()),
        dump_events: None,
        ping_interval: None,
        server_side_track: None,
        forward,
        visited: visited.map(|v| v.to_string()),
    }
}

fn node(http_addr: &str, peers: &[&str]) -> Config {
    let mut config = Config::default();
    config.http_addr = http_addr.to_string();
    config.peers = peers.iter().map(|p| p.to_string()).collect();
    config
}

#[test]
fn test_peer_ws_endpoint_normalization() {
    assert_eq!(
        Config::peer_ws_endpoint("10.0.0.2:8080").as_deref(),
        Some("ws://10.0.0.2:8080")
    );
    assert_eq!(
        Config::peer_ws_endpoint("ws://10.0.0.2:8080").as_deref(),
        Some("ws://10.0.0.2:8080")
    );
    assert_eq!(
        Config::peer_ws_endpoint("http://10.0.0.2:8080").as_deref(),
        Some("ws://10.0.0.2:8080")
    );
    assert_eq!(
        Config::peer_ws_endpoint("https://10.0.0.2:8080").as_deref(),
        Some("wss://10.0.0.2:8080")
    );
    assert_eq!(Config::peer_ws_endpoint(""), None);
}

#[test]
fn an_address_with_another_scheme_is_of_no_use() {
    assert_eq!(Config::peer_ws_endpoint("ftp://10.0.0.2:21"), None);
    assert_eq!(Config::peer_ws_endpoint("  sip://10.0.0.2 "), None);
    assert_eq!(Config::peer_ws_endpoint("://10.0.0.2"), None);
    assert_eq!(Config::peer_ws_endpoint("[::1]:8080").as_deref(), Some("ws://[::1]:8080"));
    assert_eq!(
        Config::peer_ws_endpoint("10.0.0.2:8080/a?b=http://c").as_deref(),
        Some("ws://10.0.0.2:8080/a?b=http://c")
    );
}

#[test]
fn ws_endpoint_of_ws_endpoint_is_itself() {
    assert_eq!(Config::peer_ws_endpoint("  wss://h/ ").as_deref(), Some("wss://h/"));
    assert_eq!(Config::peer_ws_endpoint(" \t"), None);
    let once = Config::peer_ws_endpoint("https://h").unwrap();
    assert_eq!(Config::peer_ws_endpoint(&once), Some(once.clone()));
}

#[test]
fn test_call_params_forward_query() {
    let params = CallParams {
        id: Some("s.a/b c".to_string()),
        dump_events: Some(true),
        ping_interval: Some(30),
        server_side_track: Some("t.1".to_string()),
        forward: None,
        visited: None,
    };
    let q = params.to_forward_query("node1,node2");
    assert!(q.contains("id=s.a%2Fb%20c"));
    assert!(q.contains("dump=true"));
    assert!(q.contains("ping=30"));
    assert!(q.contains("server_side_track=t.1"));
    assert!(q.contains("forward=true"));
    assert!(q.contains("visited=node1%2Cnode2"));
}

#[test]
fn forward_query_is_exact() {
    let p = CallParams {
        id: None,
        dump_events: Some(false),
        ping_interval: Some(0),
        server_side_track: None,
        forward: Some(true),
        visited: None,
    };
    assert_eq!(p.to_forward_query(""), "dump=false&ping=0&forward=true&visited=");
    assert_eq!(
        params(None, None).to_forward_query("a b"),
        "id=s1&forward=true&visited=a%20b"
    );
}

#[test]
fn texts_are_encoded_byte_by_byte() {
    assert_eq!(encode("aZ0-._~"), "aZ0-._~");
    assert_eq!(encode("é&="), "%C3%A9%26%3D");
    assert_eq!(encode(""), "");
    assert_eq!(decimal_text(0), "0");
    assert_eq!(decimal_text(4294967295), "4294967295");
}

#[test]
fn test_visited_list_parsing() {
    let params = CallParams {
        id: None,
        dump_events: None,
        ping_interval: None,
        server_side_track: None,
        forward: None,
        visited: Some("node1, node2,node3".to_string()),
    };
    assert_eq!(params.visited_list(), vec!["node1", "node2", "node3"]);
}

#[test]
fn visited_list_leaves_blanks_out() {
    assert!(params(None, None).visited_list().is_empty());
    assert!(params(Some(""), None).visited_list().is_empty());
    assert_eq!(params(Some("a,, b ,"), None).visited_list(), vec!["a", "b"]);
    // What was joined is read back.
    let list = vec!["10.0.0.1:80".to_string(), "h".to_string()];
    assert_eq!(params(Some(&list.join(",")), None).visited_list(), list);
}

#[test]
fn test_addr_already_visited() {
    let visited = vec!["ws://10.0.0.2:8080".to_string()];
    assert!(addr_already_visited("10.0.0.2:8080", &visited, "0.0.0.0:8080"));
    assert!(addr_already_visited("http://10.0.0.2:8080/", &visited, "0.0.0.0:8080"));
    assert!(!addr_already_visited("10.0.0.3:8080", &visited, "0.0.0.0:8080"));
    assert!(addr_already_visited("0.0.0.0:8080", &vec![], "0.0.0.0:8080"));
}

#[test]
fn endpoints_are_normalized() {
    assert_eq!(normalize_endpoint(" wss://h:1// "), "h:1");
    assert_eq!(normalize_endpoint("https://ws://h"), "ws://h");
    assert_eq!(normalize_endpoint("h"), "h");
    assert!(!addr_already_visited("h", &vec![], ""));
}

#[test]
fn forward_plan_asks_each_other_node_once() {
    let config = node(" 10.0.0.1:80 ", &["10.0.0.1:80", "", "http://10.0.0.2:80/", "10.0.0.3:80"]);
    assert_eq!(
        try_forward(&config, &params(Some("10.0.0.3:80"), None)),
        vec!["ws://10.0.0.2:80/call?id=s1&forward=true&visited=10.0.0.3%3A80%2C10.0.0.1%3A80"]
    );
    assert_eq!(try_forward(&config, &params(None, None)).len(), 2);
}

#[test]
fn forwarded_requests_do_not_hop_further() {
    let config = node("a", &["b"]);
    assert_eq!(try_forward(&config, &params(None, Some(true))), Vec::<String>::new());
    assert!(try_forward(&config, &params(None, Some(false))).is_empty());
    assert_eq!(try_forward(&config, &params(None, None)).len(), 1);
    assert!(try_forward(&node("a", &[]), &params(None, None)).is_empty());
}

#[test]
fn search_ends_after_sixteen_nodes() {
    let config = node("a", &["b"]);
    let names: Vec<String> = (0..16).map(|i| format!("n{i}")).collect();
    assert!(try_forward(&config, &params(Some(&names.join(",")), None)).is_empty());
    assert_eq!(try_forward(&config, &params(Some(&names[..15].join(",")), None)).len(), 1);
}

#[test]
fn node_without_address_names_only_the_others() {
    let config = node("  ", &["b"]);
    assert_eq!(
        try_forward(&config, &params(Some("x"), None)),
        vec!["ws://b/call?id=s1&forward=true&visited=x"]
    );
}

#[test]
fn tunnel_passes_messages_both_ways() {
    let m = ClientMessage::Close(Some((1000, "bye".to_string())));
    let there = axum_to_tungstenite(m).unwrap();
    assert_eq!(there, PeerMessage::Close(Some((1000, "bye".to_string()))));
    assert_eq!(
        tungstenite_to_axum(there),
        Some(ClientMessage::Close(Some((1000, "bye".to_string()))))
    );
    assert_eq!(tungstenite_to_axum(PeerMessage::Frame), None);
    assert_eq!(
        tunnel(TunnelEvent::FromClient(ClientMessage::Text("a".to_string()))),
        TunnelAction::SendPeer(PeerMessage::Text("a".to_string()))
    );
    assert_eq!(
        tunnel(TunnelEvent::FromPeer(PeerMessage::Binary(vec![1, 2]))),
        TunnelAction::SendClient(ClientMessage::Binary(vec![1, 2]))
    );
    assert_eq!(tunnel(TunnelEvent::FromPeer(PeerMessage::Frame)), TunnelAction::Wait);
}

#[test]
fn tunnel_ends_with_a_reason() {
    let end = |e: TunnelEvent| match tunnel(e) {
        TunnelAction::End(reason) => reason,
        other => panic!("expected an end, got {:?}", other),
    };
    assert_eq!(end(TunnelEvent::ClientClosed), "client websocket closed");
    assert_eq!(end(TunnelEvent::PeerClosed), "peer websocket closed");
    assert_eq!(end(TunnelEvent::ClientError("x".to_string())), "client websocket error: x");
    assert_eq!(end(TunnelEvent::PeerError("x".to_string())), "peer websocket error: x");
    assert_eq!(end(TunnelEvent::ToPeerFailed("x".to_string())), "forward to peer failed: x");
    assert_eq!(end(TunnelEvent::ToClientFailed("x".to_string())), "forward to client failed: x");
}
