use active_call::addr::{IpAddr, IpNet};
use active_call::clock::TimeSpan;
use active_call::config::options::{
    host_of_server, is_span_safe, ttl_or_default, OptionsAclEntry, OptionsResponseConfig,
};
use active_call::config::recording::RecordingPolicy;
use active_call::config::trunk::{
    regex_is_match, TrunkMatch, TrunkRewrite, TrunkRule, TrunkRuleDef, UriMatch, UriRewrite,
};
use active_call::config::{CallRecordConfig, Config, InviteHandlerConfig, PlaybookRule, RegisterOption};
use active_call::maps::StringMap;
use active_call::option::RecorderFormat;
use active_call::sip::{Auth, Host, HostWithPort, InviteOption, Uri};

fn text(table: &toml::Table, key: &str) -> Option<String> {
    table.get(key).and_then(|v| v.as_str()).map(|s| s.to_string())
}

fn flag(table: &toml::Table, key: &str) -> Option<bool> {
    table.get(key).and_then(|v| v.as_bool())
}

fn sub<'a>(table: &'a toml::Table, key: &str) -> Option<&'a toml::Table> {
    table.get(key).and_then(|v| v.as_table())
}

fn list<'a>(table: &'a toml::Table, key: &str) -> Option<Vec<&'a toml::Table>> {
    table
        .get(key)
        .and_then(|v| v.as_array())
        .map(|a| a.iter().filter_map(|v| v.as_table()).collect())
}

fn uri_match(table: &toml::Table) -> UriMatch {
    UriMatch { user: text(table, "user"), host: text(table, "host") }
}

fn uri_rewrite(table: &toml::Table) -> UriRewrite {
    UriRewrite { user: text(table, "user"), host: text(table, "host") }
}

fn trunk_rule(table: &toml::Table) -> TrunkRule {
    let rule = sub(table, "rule").unwrap();
    let empty = toml::Table::new();
    let m = sub(rule, "match").unwrap_or(&empty);
    let w = sub(rule, "rewrite").unwrap();
    TrunkRule {
        rule: TrunkRuleDef {
            matching: TrunkMatch {
                from: sub(m, "from").map(uri_match),
                to: sub(m, "to").map(uri_match),
            },
            rewrite: TrunkRewrite {
                from: sub(w, "from").map(uri_rewrite),
                to: sub(w, "to").map(uri_rewrite),
                contact: sub(w, "contact").map(uri_rewrite),
            },
        },
    }
}

fn handler(table: &toml::Table) -> InviteHandlerConfig {
    match text(table, "type").as_deref() {
        Some("playbook") => InviteHandlerConfig::Playbook {
            rules: list(table, "rules").map(|rules| {
                rules
                    .iter()
                    .map(|r| PlaybookRule {
                        caller: text(r, "caller"),
                        callee: text(r, "callee"),
                        playbook: text(r, "playbook").unwrap(),
                    })
                    .collect()
            }),
            default: text(table, "default"),
        },
        _ => InviteHandlerConfig::Webhook {
            url: text(table, "url"),
            urls: None,
            method: text(table, "method"),
            headers: None,
        },
    }
}

/// Reads the settings that these tests use; what is missing is as a node that
/// reads its configuration fills it in.
fn config_from(source: &str) -> Config {
    let table: toml::Table = source.parse().unwrap();
    let mut config = Config::default().clone();
    config.addr = text(&table, "addr").unwrap();
    config.handler = sub(&table, "handler").map(handler);
    config.enable_options_response = flag(&table, "enable_options_response").or(Some(true));
    config.options_response = sub(&table, "options_response").map(|o| OptionsResponseConfig {
        enabled: flag(o, "enabled"),
        allow: o
            .get("allow")
            .and_then(|v| v.as_array())
            .map(|a| a.iter().map(|v| v.as_str().unwrap().to_string()).collect())
            .unwrap_or_default(),
        allow_registered_servers: flag(o, "allow_registered_servers").or(Some(true)),
        auto_learn: flag(o, "auto_learn").or(Some(true)),
        learn_ttl: text(o, "learn_ttl").or(Some("7d".to_string())),
        extra_headers: o
            .get("extra_headers")
            .and_then(|v| v.as_array())
            .map(|a| {
                a.iter()
                    .map(|v| {
                        let pair = v.as_array().unwrap();
                        (
                            pair[0].as_str().unwrap().to_string(),
                            pair[1].as_str().unwrap().to_string(),
                        )
                    })
                    .collect()
            })
            .unwrap_or_default(),
    });
    config.register_users = list(&table, "register_users").map(|users| {
        users
            .iter()
            .map(|u| RegisterOption {
                server: text(u, "server").unwrap(),
                username: text(u, "username").unwrap(),
            })
            .collect()
    });
    config.trunk_rules =
        list(&table, "trunk_rules").map(|rules| rules.into_iter().map(trunk_rule).collect());
    config
}

fn ip(s: &str) -> IpAddr {
    let all: u32 = if s.contains(':') { 128 } else { 32 };
    match format!("{}/{}", s, all).parse::<ipnet::IpNet>().unwrap() {
        ipnet::IpNet::V4(n) => IpAddr::V4(u32::from_be_bytes(n.addr().octets())),
        ipnet::IpNet::V6(n) => IpAddr::V6(u128::from_be_bytes(n.addr().octets())),
    }
}

fn uri(s: &str) -> Uri {
    let u = rsipstack::sip::Uri::try_from(s).unwrap();
    Uri {
        scheme: u.scheme.as_ref().map(|x| x.to_string()),
        auth: u.auth.as_ref().map(|a| Auth {
            user: a.user.clone(),
            password: a.password.clone(),
        }),
        host_with_port: HostWithPort {
            host: match &u.host_with_port.host {
                rsipstack::sip::Host::Domain(d) => Host::Domain(d.to_string()),
                rsipstack::sip::Host::IpAddr(a) => Host::Ip(ip(&a.to_string())),
            },
            port: u.host_with_port.port.map(|p| p.0),
        },
        tail: String::new(),
    }
}

fn invite_option(caller: &str, callee: &str, contact: &str) -> InviteOption {
    InviteOption {
        caller: uri(caller),
        callee: uri(callee),
        contact: uri(contact),
        offer: None,
    }
}

#[test]
fn test_playbook_handler_config_parsing() {
    let toml_config = r#"
http_addr = "0.0.0.0:8080"
addr = "0.0.0.0"
udp_port = 25060

[handler]
type = "playbook"
default = "default.md"

[[handler.rules]]
caller = "^\\+1\\d{10}$"
callee = "^sip:support@.*"
playbook = "support.md"

[[handler.rules]]
caller = "^\\+86\\d+"
playbook = "chinese.md"

[[handler.rules]]
callee = "^sip:sales@.*"
playbook = "sales.md"
"#;

    let config = config_from(toml_config).clone();

    assert!(config.handler.is_some());
    if let Some(InviteHandlerConfig::Playbook { rules, default }) = config.handler {
        assert_eq!(default, Some("default.md".to_string()));
        let rules = rules.unwrap();
        assert_eq!(rules.len(), 3);

        assert_eq!(rules[0].caller, Some(r"^\+1\d{10}$".to_string()));
        assert_eq!(rules[0].callee, Some("^sip:support@.*".to_string()));
        assert_eq!(rules[0].playbook, "support.md");

        assert_eq!(rules[1].caller, Some(r"^\+86\d+".to_string()));
        assert_eq!(rules[1].callee, None);
        assert_eq!(rules[1].playbook, "chinese.md");

        assert_eq!(rules[2].caller, None);
        assert_eq!(rules[2].callee, Some("^sip:sales@.*".to_string()));
        assert_eq!(rules[2].playbook, "sales.md");
    } else {
        panic!("Expected Playbook handler config");
    }
}

#[test]
fn test_playbook_handler_config_without_default() {
    let toml_config = r#"
http_addr = "0.0.0.0:8080"
addr = "0.0.0.0"
udp_port = 25060

[handler]
type = "playbook"

[[handler.rules]]
caller = "^\\+1.*"
playbook = "us.md"
"#;

    let config = config_from(toml_config).clone();

    if let Some(InviteHandlerConfig::Playbook { rules, default }) = config.handler {
        assert_eq!(default, None);
        let rules = rules.unwrap();
        assert_eq!(rules.len(), 1);
    } else {
        panic!("Expected Playbook handler config");
    }
}

#[test]
fn test_webhook_handler_config_still_works() {
    let toml_config = r#"
http_addr = "0.0.0.0:8080"
addr = "0.0.0.0"
udp_port = 25060

[handler]
type = "webhook"
url = "http://example.com/webhook"
"#;

    let config = config_from(toml_config).clone();

    if let Some(InviteHandlerConfig::Webhook { url, .. }) = config.handler {
        assert_eq!(url, Some("http://example.com/webhook".to_string()));
    } else {
        panic!("Expected Webhook handler config");
    }
}

#[test]
fn test_options_response_defaults() {
    let config = config_from(
        r#"
http_addr = "0.0.0.0:8080"
addr = "0.0.0.0"
udp_port = 25060
"#,
    );

    assert!(config.options_response.is_none());
    // Section absent: enabled via the legacy field/default, auto-learn on,
    // 7d TTL, no static entries, no extra headers.
    assert!(config.options_response_enabled());
    assert!(config.options_auto_learn());
    assert_eq!(config.options_learn_ttl(), TimeSpan::from_secs(7 * 24 * 3600));
    assert!(config.options_acl_entries().is_empty());
    assert!(config.options_registered_hosts().is_empty());
    assert!(config.options_extra_headers().is_empty());
}

#[test]
fn test_options_response_config_parsing() {
    let toml_config = r#"
http_addr = "0.0.0.0:8080"
addr = "0.0.0.0"
udp_port = 25060

[options_response]
enabled = true
allow = ["139.224.72.64", "10.0.0.0/8", "SIP.CCC.AliyunCS.com"]
allow_registered_servers = false
auto_learn = false
learn_ttl = "1h"
extra_headers = [["X-Node-Id", "node-1"], ["User-Agent", "ActiveCall-Test"]]
"#;

    let config = config_from(toml_config);
    let options = config.options_response.as_ref().unwrap();
    assert_eq!(options.enabled, Some(true));
    assert_eq!(options.allow_registered_servers, Some(false));
    assert_eq!(options.auto_learn, Some(false));

    assert!(!config.options_auto_learn());
    assert_eq!(config.options_learn_ttl(), TimeSpan::from_secs(3600));

    let entries = config.options_acl_entries();
    assert_eq!(entries.len(), 3);
    assert_eq!(entries[0], OptionsAclEntry::Ip(ip("139.224.72.64")));
    assert!(matches!(entries[1], OptionsAclEntry::Cidr(_)));
    assert_eq!(
        entries[2],
        OptionsAclEntry::Host("sip.ccc.aliyuncs.com".to_string())
    );

    let headers = config.options_extra_headers();
    assert_eq!(headers.len(), 2);
    assert_eq!(headers[0], ("X-Node-Id".to_string(), "node-1".to_string()));
}

#[test]
fn test_options_response_enabled_fallback_chain() {
    // Legacy field only.
    let config = config_from(
        r#"
addr = "0.0.0.0"
udp_port = 25060
enable_options_response = false
"#,
    );
    assert!(!config.options_response_enabled());

    // New section wins over the legacy field.
    let config = config_from(
        r#"
addr = "0.0.0.0"
udp_port = 25060
enable_options_response = false

[options_response]
enabled = true
"#,
    );
    assert!(config.options_response_enabled());

    // New section with enabled unset falls back to the legacy field.
    let config = config_from(
        r#"
addr = "0.0.0.0"
udp_port = 25060
enable_options_response = false

[options_response]
extra_headers = [["X-A", "1"]]
"#,
    );
    assert!(!config.options_response_enabled());
}

#[test]
fn test_options_acl_matching() {
    let toml_config = r#"
addr = "0.0.0.0"
udp_port = 25060

[options_response]
allow = ["139.224.72.64", "10.0.0.0/8", "sip.ccc.aliyuncs.com"]
"#;
    let config = config_from(toml_config);
    let source = |s: &str| Some(ip(s));

    // Exact IP.
    assert!(config.options_matches_static(source("139.224.72.64"), "139.224.72.64"));
    assert!(!config.options_matches_static(source("139.224.72.65"), "139.224.72.65"));
    // CIDR.
    assert!(config.options_matches_static(source("10.1.2.3"), "10.1.2.3"));
    assert!(!config.options_matches_static(source("192.168.1.1"), "192.168.1.1"));
    // Hostname, case-insensitive.
    assert!(config.options_matches_static(None, "SIP.CCC.ALIYUNCS.COM"));
    assert!(!config.options_matches_static(None, "sip.example.com"));
    // An IP source does not match the hostname entry and vice versa.
    assert!(!config.options_matches_static(None, "139.224.72.64"));
}

#[test]
fn test_options_registered_hosts() {
    let toml_config = r#"
addr = "0.0.0.0"
udp_port = 25060

[[register_users]]
server = "sip.example.com:5060"
username = "1001"

[[register_users]]
server = "10.0.0.5"
username = "1002"
"#;
    let config = config_from(toml_config);
    // Default: registered servers are allowed.
    assert_eq!(
        config.options_registered_hosts(),
        vec!["sip.example.com".to_string(), "10.0.0.5".to_string()]
    );
    assert!(config.options_matches_static(None, "SIP.EXAMPLE.COM"));
    assert!(config.options_matches_static(Some(ip("10.0.0.5")), "10.0.0.5"));

    // Opt out via allow_registered_servers = false.
    let toml_config_off = r#"
addr = "0.0.0.0"
udp_port = 25060

[[register_users]]
server = "sip.example.com"
username = "1001"

[options_response]
allow_registered_servers = false
"#;
    let config = config_from(toml_config_off);
    assert!(config.options_registered_hosts().is_empty());
    assert!(!config.options_matches_static(None, "sip.example.com"));
}

#[test]
fn test_host_of_server() {
    assert_eq!(
        host_of_server("sip.example.com:5060"),
        Some("sip.example.com".to_string())
    );
    assert_eq!(
        host_of_server("SIP.Example.COM"),
        Some("sip.example.com".to_string())
    );
    assert_eq!(
        host_of_server("[2001:db8::1]:5060"),
        Some("2001:db8::1".to_string())
    );
    assert_eq!(
        host_of_server("2001:db8::1"),
        Some("2001:db8::1".to_string())
    );
    assert_eq!(host_of_server(""), None);
}

#[test]
fn host_of_odd_servers() {
    assert_eq!(host_of_server("  "), None);
    assert_eq!(host_of_server("[::1"), Some("::1".to_string()));
    assert_eq!(host_of_server(":5060"), Some(String::new()));
}

#[test]
fn test_trunk_rules_config_parsing() {
    let toml_config = r#"
http_addr = "0.0.0.0:8080"
addr = "0.0.0.0"
udp_port = 25060

[[trunk_rules]]
rule.match.to.host = "^172\\.25\\."
rule.rewrite.contact.host = "172.25.225.2"

[[trunk_rules]]
rule.match.from.user = "^\\+86.*"
rule.match.to.host = "^10\\."
rule.rewrite.from.user = "10086"
rule.rewrite.to.host = "10.0.0.1"
rule.rewrite.contact.user = "active-call"
rule.rewrite.contact.host = "10.0.0.1:25060"

[[trunk_rules]]
rule.rewrite.contact.host = "116.62.75.161"
"#;

    let config = config_from(toml_config).clone();
    let rules = config.trunk_rules.expect("trunk_rules should be parsed");

    assert_eq!(rules.len(), 3);

    // Rule 1: match to.host, rewrite contact.host
    let m = &rules[0].rule.matching;
    assert_eq!(m.to.as_ref().unwrap().host.as_deref(), Some("^172\\.25\\."));
    assert_eq!(m.to.as_ref().unwrap().user, None);
    assert_eq!(m.from, None);
    let w = &rules[0].rule.rewrite;
    assert_eq!(
        w.contact.as_ref().unwrap().host.as_deref(),
        Some("172.25.225.2")
    );
    assert_eq!(w.from, None);
    assert_eq!(w.to, None);

    // Rule 2: combined match + all rewrites
    let m = &rules[1].rule.matching;
    assert_eq!(m.from.as_ref().unwrap().user.as_deref(), Some("^\\+86.*"));
    assert_eq!(m.to.as_ref().unwrap().host.as_deref(), Some("^10\\."));
    let w = &rules[1].rule.rewrite;
    assert_eq!(w.from.as_ref().unwrap().user.as_deref(), Some("10086"));
    assert_eq!(w.to.as_ref().unwrap().host.as_deref(), Some("10.0.0.1"));
    assert_eq!(
        w.contact.as_ref().unwrap().user.as_deref(),
        Some("active-call")
    );
    assert_eq!(
        w.contact.as_ref().unwrap().host.as_deref(),
        Some("10.0.0.1:25060")
    );

    // Rule 3: catch-all (empty match)
    assert_eq!(rules[2].rule.matching.from, None);
    assert_eq!(rules[2].rule.matching.to, None);
    assert_eq!(
        rules[2].rule.rewrite.contact.as_ref().unwrap().host.as_deref(),
        Some("116.62.75.161")
    );
}

#[test]
fn test_trunk_rules_absent_by_default() {
    let config = Config::default();
    assert!(config.trunk_rules.is_none());
}

#[test]
fn test_trunk_rule_matches_on_to_host() {
    let config = config_from(
        r#"
addr = "0.0.0.0"
udp_port = 25060

[[trunk_rules]]
rule.match.to.host = "^172\\.25\\."
rule.rewrite.contact.host = "172.25.225.2"
"#,
    );

    // Internal target -> matched, contact host rewritten.
    let mut invite = invite_option(
        "sip:ai@116.62.75.161:13050",
        "sip:agent1@172.25.225.3:15060",
        "sip:ai@127.0.0.1:13050",
    );
    config.apply_trunk_rules(&mut invite);
    assert_eq!(invite.contact.host_with_port.host.text(), "172.25.225.2");

    // External target -> no match, contact untouched.
    let mut invite = invite_option(
        "sip:ai@116.62.75.161:13050",
        "sip:+8613800138000@sbc.example.com:5060",
        "sip:ai@127.0.0.1:13050",
    );
    config.apply_trunk_rules(&mut invite);
    assert_eq!(invite.contact.host_with_port.host.text(), "127.0.0.1");
}

#[test]
fn test_trunk_rule_matches_on_from_user_and_to_host() {
    let config = config_from(
        r#"
addr = "0.0.0.0"
udp_port = 25060

[[trunk_rules]]
rule.match.from.user = "^anonymous$"
rule.match.to.host = "^sbc\\."
rule.rewrite.contact.host = "116.62.75.161"
"#,
    );

    // from.user + to.host both match -> rewritten.
    let mut invite = invite_option(
        "sip:anonymous@116.62.75.161:13050",
        "sip:+8613800138000@sbc.example.com:5060",
        "sip:ai@127.0.0.1:13050",
    );
    config.apply_trunk_rules(&mut invite);
    assert_eq!(invite.contact.host_with_port.host.text(), "116.62.75.161");

    // from.user does not match -> no rewrite.
    let mut invite = invite_option(
        "sip:alice@116.62.75.161:13050",
        "sip:+8613800138000@sbc.example.com:5060",
        "sip:ai@127.0.0.1:13050",
    );
    config.apply_trunk_rules(&mut invite);
    assert_eq!(invite.contact.host_with_port.host.text(), "127.0.0.1");
}

#[test]
fn test_trunk_rule_rewrites_from_to_contact() {
    let config = config_from(
        r#"
addr = "0.0.0.0"
udp_port = 25060

[[trunk_rules]]
rule.match.to.host = "^10\\."
rule.rewrite.from.user = "10086"
rule.rewrite.from.host = "116.62.75.161"
rule.rewrite.to.user = "30000"
rule.rewrite.to.host = "10.0.0.1:25060"
rule.rewrite.contact.user = "active-call"
rule.rewrite.contact.host = "10.0.0.1"
"#,
    );

    let mut invite = invite_option(
        "sip:ai@127.0.0.1:13050",
        "sip:agent1@10.0.0.2:25060",
        "sip:ai@127.0.0.1:13050",
    );
    config.apply_trunk_rules(&mut invite);

    // caller (from)
    assert_eq!(invite.caller.auth.as_ref().unwrap().user, "10086");
    assert_eq!(invite.caller.host_with_port.host.text(), "116.62.75.161");

    // callee (to)
    assert_eq!(invite.callee.auth.as_ref().unwrap().user, "30000");
    assert_eq!(invite.callee.host_with_port.host.text(), "10.0.0.1");
    assert_eq!(invite.callee.host_with_port.port.unwrap(), 25060);

    // contact: host rewritten without port -> original port preserved
    assert_eq!(invite.contact.auth.as_ref().unwrap().user, "active-call");
    assert_eq!(invite.contact.host_with_port.host.text(), "10.0.0.1");
    assert_eq!(invite.contact.host_with_port.port.unwrap(), 13050);
}

#[test]
fn test_trunk_rule_catch_all_default() {
    let config = config_from(
        r#"
addr = "0.0.0.0"
udp_port = 25060

[[trunk_rules]]
rule.match.to.host = "^172\\.25\\."
rule.rewrite.contact.host = "172.25.225.2"

[[trunk_rules]]
rule.rewrite.contact.host = "116.62.75.161"
"#,
    );

    // Not matched by rule 1 -> falls through to catch-all rule 2.
    let mut invite = invite_option(
        "sip:ai@116.62.75.161:13050",
        "sip:+8613800138000@sbc.example.com:5060",
        "sip:ai@127.0.0.1:13050",
    );
    config.apply_trunk_rules(&mut invite);
    assert_eq!(invite.contact.host_with_port.host.text(), "116.62.75.161");
}

#[test]
fn test_trunk_rule_first_match_wins() {
    let config = config_from(
        r#"
addr = "0.0.0.0"
udp_port = 25060

[[trunk_rules]]
rule.match.to.host = ".*"
rule.rewrite.contact.host = "1.1.1.1"

[[trunk_rules]]
rule.match.to.host = ".*"
rule.rewrite.contact.host = "2.2.2.2"
"#,
    );

    let mut invite = invite_option(
        "sip:ai@116.62.75.161:13050",
        "sip:any@example.com:5060",
        "sip:ai@127.0.0.1:13050",
    );
    config.apply_trunk_rules(&mut invite);
    // Only the first rule applies.
    assert_eq!(invite.contact.host_with_port.host.text(), "1.1.1.1");
}

#[test]
fn test_trunk_rule_no_config_noop() {
    let config = Config::default();
    let mut invite = invite_option(
        "sip:ai@116.62.75.161:13050",
        "sip:agent1@172.25.225.3:15060",
        "sip:ai@127.0.0.1:13050",
    );
    let before = invite.contact.clone();
    config.apply_trunk_rules(&mut invite);
    assert_eq!(invite.contact, before);
}

#[test]
fn test_trunk_rule_rewrite_missing_auth_creates_user() {
    let config = config_from(
        r#"
addr = "0.0.0.0"
udp_port = 25060

[[trunk_rules]]
rule.match.to.host = ".*"
rule.rewrite.contact.user = "active-call"
"#,
    );

    // A contact without a user part (e.g. "sip:127.0.0.1:13050").
    let mut invite = invite_option(
        "sip:ai@127.0.0.1:13050",
        "sip:agent1@172.25.225.3:15060",
        "sip:127.0.0.1:13050",
    );
    config.apply_trunk_rules(&mut invite);
    assert_eq!(invite.contact.auth.as_ref().unwrap().user, "active-call");
}

#[test]
fn rewrite_keeps_password_and_scheme() {
    let rewrite = UriRewrite { user: Some("new".to_string()), host: None };
    let mut u = uri("sips:old@h:5061");
    u.auth = Some(Auth { user: "old".to_string(), password: Some("pw".to_string()) });
    u.tail = ";transport=tls".to_string();
    rewrite.apply(&mut u);
    assert_eq!(u.auth, Some(Auth { user: "new".to_string(), password: Some("pw".to_string()) }));
    assert_eq!(u.tail, ";transport=tls");
    assert_eq!(u.host_with_port.port, Some(5061));
}

#[test]
fn unreadable_host_changes_nothing() {
    let rewrite = UriRewrite { user: None, host: Some("h:99999999".to_string()) };
    let mut u = uri("sip:a@h:1");
    let before = u.clone();
    rewrite.apply(&mut u);
    assert_eq!(u, before);
    // What was read decides, whatever was read.
    UriRewrite::put_host(
        &mut u,
        Some(HostWithPort { host: Host::Domain("x".to_string()), port: Some(2) }),
    );
    assert_eq!(u.host_with_port.port, Some(2));
}

#[test]
fn user_pattern_needs_a_user() {
    let m = UriMatch { user: Some(".*".to_string()), host: None };
    assert!(!m.matches(&uri("sip:127.0.0.1")));
    assert!(m.matches(&uri("sip:a@127.0.0.1")));
}

#[test]
fn bad_patterns_match_nothing() {
    assert!(!regex_is_match("(", "("));
    assert!(regex_is_match("^a+$", "aaa"));
    assert!(!regex_is_match("^a+$", "aab"));
}

#[test]
fn acl_entries_are_read() {
    assert_eq!(OptionsAclEntry::parse("  "), None);
    assert_eq!(OptionsAclEntry::parse(" ::1 "), Some(OptionsAclEntry::Ip(IpAddr::V6(1))));
    assert_eq!(
        OptionsAclEntry::parse("192.168.0.0/16"),
        Some(OptionsAclEntry::Cidr(IpNet { addr: ip("192.168.0.0"), prefix: 16 }))
    );
    assert_eq!(
        OptionsAclEntry::parse("192.168.0.0/33"),
        Some(OptionsAclEntry::Host("192.168.0.0/33".to_string()))
    );
    assert_eq!(
        OptionsAclEntry::from_read("Host", None, None),
        OptionsAclEntry::Host("host".to_string())
    );
}

#[test]
fn networks_hold_addresses_of_their_version() {
    let entry = OptionsAclEntry::parse("2001:db8::/32").unwrap();
    assert!(entry.matches(Some(ip("2001:db8::5")), ""));
    assert!(!entry.matches(Some(ip("2001:db9::5")), ""));
    assert!(!entry.matches(Some(ip("10.0.0.1")), ""));
    assert!(!entry.matches(None, "2001:db8::5"));
    let all = OptionsAclEntry::parse("0.0.0.0/0").unwrap();
    assert!(all.matches(Some(ip("255.255.255.255")), ""));
    let one = OptionsAclEntry::parse("10.0.0.1/32").unwrap();
    assert!(one.matches(Some(ip("10.0.0.1")), ""));
    assert!(!one.matches(Some(ip("10.0.0.2")), ""));
}

#[test]
fn ttl_texts() {
    let mut config = Config::default();
    let mut options = OptionsResponseConfig::default();
    options.learn_ttl = Some("90m 30s".to_string());
    config.options_response = Some(options);
    assert_eq!(config.options_learn_ttl(), TimeSpan::from_secs(5430));
    config.options_response.as_mut().unwrap().learn_ttl = Some("soon".to_string());
    assert_eq!(config.options_learn_ttl(), TimeSpan::from_secs(604_800));
    assert_eq!(
        ttl_or_default(Some(TimeSpan { secs: 1, nanos: 2 })),
        TimeSpan { secs: 1, nanos: 2 }
    );
}

#[test]
fn default_config_is_exact() {
    let c = Config::default();
    assert_eq!(c.http_addr, "0.0.0.0:8080");
    assert_eq!(c.addr, "0.0.0.0");
    assert_eq!(c.udp_port, 25060);
    assert_eq!(c.rtp_start_port, Some(12000));
    assert_eq!(c.rtp_end_port, Some(42000));
    assert_eq!(c.accept_timeout.as_deref(), Some("50s"));
    assert_eq!(c.media_cache_path, "./config/mediacache");
    assert_eq!(c.graceful_shutdown_timeout, Some(30));
    assert_eq!(c.useragent, None);
    assert!(c.auto_refer());
    assert_eq!(c.auto_refer_timeout(), 30);
}

#[test]
fn copy_fills_in_what_reading_fills_in() {
    let mut c = Config::default();
    c.graceful_shutdown = None;
    c.rtp_start_port = None;
    c.options_response = Some(OptionsResponseConfig::default());
    c.callrecord = Some(CallRecordConfig::Http {
        url: "http://x".to_string(),
        headers: Some(StringMap::new()),
        with_media: None,
        keep_media_copy: Some(true),
    });
    let copy = c.clone();
    assert_eq!(copy.graceful_shutdown, Some(true));
    assert_eq!(copy.rtp_start_port, Some(12000));
    assert_eq!(
        copy.codecs.as_ref().unwrap(),
        &vec!["pcmu", "pcma", "g722", "g729", "opus", "telephone_event"]
    );
    assert_eq!(copy.useragent.as_deref(), Some("active-call(0.3.0 miuda.ai)"));
    let options = copy.options_response.as_ref().unwrap();
    assert_eq!(options.allow_registered_servers, Some(true));
    assert_eq!(options.auto_learn, Some(true));
    assert_eq!(options.learn_ttl.as_deref(), Some("7d"));
    assert_eq!(copy.callrecord, c.callrecord);
    assert_eq!(copy.clone(), copy);
}

#[test]
fn default_callrecord_is_local() {
    assert_eq!(
        CallRecordConfig::default(),
        CallRecordConfig::Local { root: "./config/cdr".to_string() }
    );
}

#[test]
fn recording_paths() {
    let mut policy = RecordingPolicy::default();
    assert_eq!(policy.recorder_path(), "./config/recorders");
    assert_eq!(policy.recorder_format(), RecorderFormat::default());
    policy.path = Some("  /rec ".to_string());
    assert_eq!(policy.recorder_path(), "/rec");
    assert!(!policy.ensure_defaults());
    assert_eq!(policy.path.as_deref(), Some("  /rec "));
    policy.path = Some(" ".to_string());
    assert!(!policy.ensure_defaults());
    assert_eq!(policy.path.as_deref(), Some("./config/recorders"));
    policy.format = Some(RecorderFormat::Ogg);
    assert_eq!(policy.recorder_format(), RecorderFormat::Ogg);

    let mut config = Config::default();
    assert_eq!(config.recorder_path(), "./config/recorders");
    assert!(!config.recorder_native_samplerate());
    assert!(!config.ensure_recording_defaults());
    assert!(config.recording.is_none());
    config.recording = Some(RecordingPolicy { native_samplerate: Some(true), ..policy });
    assert!(config.recorder_native_samplerate());
    assert_eq!(config.recorder_format(), RecorderFormat::Ogg);
    config.recording.as_mut().unwrap().path = None;
    assert!(!config.ensure_recording_defaults());
    assert_eq!(
        config.recording.unwrap().path.as_deref(),
        Some("./config/recorders")
    );
}

#[test]
fn copy_of_options_keeps_what_is_open() {
    let options = OptionsResponseConfig::default();
    let copy = options.clone();
    assert_eq!(copy, options);
    assert_eq!(copy.learn_ttl, None);
    let mut config = Config::default();
    config.options_response = Some(options);
    let filled = config.clone().options_response.unwrap();
    assert_eq!(filled.allow_registered_servers, Some(true));
    assert_eq!(filled.auto_learn, Some(true));
    assert_eq!(filled.learn_ttl.as_deref(), Some("7d"));
}

#[test]
fn ttl_with_many_digits() {
    let mut config = Config::default();
    let mut options = OptionsResponseConfig::default();
    options.learn_ttl = Some("00000000000000000003d".to_string());
    config.options_response = Some(options);
    assert_eq!(config.options_learn_ttl(), TimeSpan::from_secs(3 * 24 * 3600));
}

#[test]
fn rules_are_empty_by_default_and_copied_whole() {
    let rule = TrunkRule {
        rule: TrunkRuleDef {
            matching: TrunkMatch::default(),
            rewrite: TrunkRewrite {
                contact: Some(UriRewrite { host: Some("h".to_string()), ..UriRewrite::default() }),
                ..TrunkRewrite::default()
            },
        },
    };
    assert_eq!(rule.clone(), rule);
    assert_eq!(TrunkMatch::default(), TrunkMatch { from: None, to: None });
    assert_eq!(UriMatch::default(), UriMatch { user: None, host: None });
    let entry = OptionsAclEntry::parse("10.0.0.0/8").unwrap();
    assert_eq!(entry.clone(), entry);
}

#[test]
fn spans_that_could_overflow_are_told() {
    assert!(is_span_safe("7d"));
    assert!(is_span_safe("1h 30m 500ms"));
    assert!(is_span_safe("18446744073709551615s"));
    assert!(!is_span_safe("18446744073709551615s 1000ms"));
    assert!(!is_span_safe("18446744073709551615.5s"));
}
