use active_call::maps::StringMap;
use active_call::sip::{Header, Host, HostWithPort};
use active_call::addr::IpAddr;
use active_call::sip_util::{
    ensure_sip_scheme, hangup_headers, hangup_headers_from_extras, parse_refer_to_target,
    sip_headers_from_map,
};

#[test]
fn adds_scheme_when_missing() {
    assert_eq!(
        ensure_sip_scheme("bob@example.com".into()),
        "sip:bob@example.com"
    );
    assert_eq!(
        ensure_sip_scheme("sip:bob@example.com".into()),
        "sip:bob@example.com"
    );
    assert_eq!(
        ensure_sip_scheme("sips:bob@example.com".into()),
        "sips:bob@example.com"
    );
}

#[test]
fn scheme_is_added_once() {
    let once = ensure_sip_scheme("tel:1".into());
    assert_eq!(once, "sip:tel:1");
    assert_eq!(ensure_sip_scheme(once.clone()), once);
}

#[test]
fn parses_refer_to_targets() {
    assert_eq!(
        parse_refer_to_target("<sip:1002@127.0.0.1:5080>").as_deref(),
        Some("sip:1002@127.0.0.1:5080")
    );
    assert_eq!(
        parse_refer_to_target("sip:1002@127.0.0.1:5080").as_deref(),
        Some("sip:1002@127.0.0.1:5080")
    );
    assert_eq!(
        parse_refer_to_target("\"Bob\" <sip:1002@host>;foo=bar").as_deref(),
        Some("sip:1002@host")
    );
    // Attended-transfer query (Replaces) is stripped.
    assert_eq!(
        parse_refer_to_target("<sip:1003@host?Replaces=abc%40host%3Bto-tag%3D1%3Bfrom-tag%3D2>")
            .as_deref(),
        Some("sip:1003@host")
    );
    assert_eq!(parse_refer_to_target(""), None);
    assert_eq!(parse_refer_to_target("   "), None);
    assert_eq!(parse_refer_to_target("<>;foo=bar"), None);
}

#[test]
fn refer_target_is_plain() {
    assert_eq!(parse_refer_to_target("> sip:a@b <").as_deref(), Some("> sip:a@b <"));
    assert_eq!(parse_refer_to_target(" sip:a@b ;x ").as_deref(), Some("sip:a@b"));
    assert_eq!(parse_refer_to_target(";x"), None);
}

#[test]
fn converts_header_maps() {
    let mut map = StringMap::new();
    map.insert("X-Job-Id".to_string(), "42".to_string());
    let headers = sip_headers_from_map(&map);
    assert_eq!(headers.len(), 1);
    assert!(matches!(&headers[0], Header::Other(k, v) if k == "X-Job-Id" && v == "42"));
}

#[test]
fn extracts_hangup_headers_from_extras() {
    let mut extras = StringMap::new();
    assert!(hangup_headers_from_extras(&extras).is_none());

    let mut map = std::collections::HashMap::new();
    map.insert("X-Reason".to_string(), "done".to_string());
    extras.insert(
        "_hangup_headers".to_string(),
        serde_json::to_string(&map).unwrap(),
    );
    assert!(hangup_headers_from_extras(&extras).is_some());
}

#[test]
fn hangup_headers_need_a_map_of_texts() {
    let with = |json: &str| {
        let mut extras = StringMap::new();
        extras.insert("_hangup_headers".to_string(), json.to_string());
        hangup_headers_from_extras(&extras)
    };
    assert_eq!(
        with("{\"X-A\":\"1\"}"),
        Some(vec![Header::Other("X-A".to_string(), "1".to_string())])
    );
    assert_eq!(with("{}"), None);
    assert_eq!(with("{\"X-A\":1}"), None);
    assert_eq!(with("[]"), None);
    assert_eq!(with("nothing"), None);
    assert_eq!(hangup_headers(None), None);
    assert_eq!(hangup_headers(Some(StringMap::new())), None);
}

#[test]
fn hosts_are_written_as_in_a_uri() {
    assert_eq!(Host::Domain("a.example".to_string()).text(), "a.example");
    assert_eq!(Host::Ip(IpAddr::V4(0x0a00_0001)).text(), "10.0.0.1");
    assert_eq!(Host::Ip(IpAddr::V6(1)).text(), "[::1]");
    let h = HostWithPort { host: Host::Ip(IpAddr::V4(1)), port: Some(5060) };
    assert_eq!(h.clone(), h);
}

#[test]
fn brackets_of_a_transfer_target_are_paired() {
    assert_eq!(
        parse_refer_to_target("<sip:1002@host>;note=\"<x>\"").as_deref(),
        Some("sip:1002@host")
    );
    assert_eq!(parse_refer_to_target("\"A <b>\" <sip:1@h>").as_deref(), Some("sip:1@h"));
    assert_eq!(parse_refer_to_target("\"A \\\" <b>\" <sip:1@h>").as_deref(), Some("sip:1@h"));
    assert_eq!(parse_refer_to_target("sip:1@h;note=\"<x>\"").as_deref(), Some("sip:1@h"));
    assert_eq!(parse_refer_to_target("sip:1@h;note=<x>").as_deref(), Some("sip:1@h"));
    assert_eq!(parse_refer_to_target("sip:1@h?Note=<x>").as_deref(), Some("sip:1@h"));
    assert_eq!(parse_refer_to_target("5\" Bob <sip:1@h>").as_deref(), Some("sip:1@h"));
    assert_eq!(parse_refer_to_target("<<sip:1@h>>").as_deref(), Some("sip:1@h"));
    assert_eq!(parse_refer_to_target("<sip:1@h").as_deref(), Some("<sip:1@h"));
}

#[test]
fn display_name_changes_nothing() {
    for (name, params) in [
        ("", ""),
        ("Jo? ", ""),
        ("Jo; Ann ", ";x=1"),
        ("\"", "\""),
        ("5\" disc ", ";note=\"a\""),
        ("a > b ", " ;x=<"),
        ("Re:what? ", ";note=\"<y\""),
        ("sip:bob ", "?a=b"),
    ] {
        let value = format!("  {name}<sip:a@b>{params} ");
        assert_eq!(parse_refer_to_target(&value).as_deref(), Some("sip:a@b"), "{}", value);
    }
    assert_eq!(parse_refer_to_target("sip:a@b").as_deref(), Some("sip:a@b"));
}

#[test]
fn parameters_of_a_uri_change_nothing() {
    for tail in [";x=<y>", "?Note=\"<y>\"", "; <sip:c@d>", ";"] {
        let value = format!("SIP:a@b{tail}");
        assert_eq!(parse_refer_to_target(&value).as_deref(), Some("SIP:a@b"), "{}", value);
    }
}
