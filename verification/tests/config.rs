use crewlink::config::{
    ClientPeerConfig, IceServer, PeerConfigFile, PeerConfigProvider, RelayEnvironment, RelaySettings, Urls,
    DEFAULT_TURN_PORT, DEFAULT_TURN_TTL_SECS,
};
use crewlink::time::Span;
use crewlink::turn::turn_credentials;

fn text_at(table: &toml::Table, key: &str) -> Option<String> {
    table.get(key).and_then(|value| value.as_str()).map(str::to_owned)
}

fn ice_server(table: &toml::Table) -> IceServer {
    let urls = match table.get("urls") {
        Some(toml::Value::Array(urls)) => {
            Urls::Many(urls.iter().filter_map(|url| url.as_str()).map(str::to_owned).collect())
        }
        other => Urls::One(other.and_then(|url| url.as_str()).unwrap_or_default().to_owned()),
    };
    IceServer { urls, username: text_at(table, "username"), credential: text_at(table, "credential") }
}

fn parsed(text: &str) -> Option<PeerConfigFile> {
    let table = toml::from_str::<toml::Table>(text).ok()?;
    let mut file = PeerConfigFile::default();
    if let Some(force) = table.get("force_relay_only").and_then(|value| value.as_bool()) {
        file.force_relay_only = force;
    }
    if let Some(servers) = table.get("ice_servers").and_then(|value| value.as_array()) {
        file.ice_servers = servers.iter().filter_map(|server| server.as_table()).map(ice_server).collect();
    }
    if let Some(relay) = table.get("relay").and_then(|value| value.as_table()) {
        file.relay = RelaySettings {
            enabled: relay.get("enabled").and_then(|value| value.as_bool()).unwrap_or(false),
            host: text_at(relay, "host"),
            port: relay.get("port").and_then(|value| value.as_integer()).map(|port| port as u16),
            username: text_at(relay, "username").unwrap_or_default(),
            credential: text_at(relay, "credential").unwrap_or_default(),
        };
    }
    Some(file)
}

fn from_toml(text: &str) -> PeerConfigFile {
    parsed(text).expect("the example parses")
}

fn default_ttl() -> Span {
    Span::from_secs(DEFAULT_TURN_TTL_SECS)
}

fn at(secs: u64) -> Span {
    Span::from_secs(secs)
}

fn ephemeral(secret: &str, ttl: Span) -> PeerConfigProvider {
    from_toml(
        r#"
        [relay]
        enabled = true
        host = "turn.example.com"
        port = 3478
        "#,
    )
    .resolve(RelayEnvironment { secret: Some(secret), ttl, ..Default::default() })
}

fn json_text(text: &str) -> String {
    serde_json::Value::String(text.to_owned()).to_string()
}

fn rendered_server(server: &IceServer) -> String {
    let urls = match &server.urls {
        Urls::One(url) => json_text(url),
        Urls::Many(urls) => {
            let all: Vec<String> = urls.iter().map(|url| json_text(url)).collect();
            format!("[{}]", all.join(","))
        }
    };
    let mut out = format!("{{\"urls\":{urls}");
    if let Some(username) = &server.username {
        out.push_str(&format!(",\"username\":{}", json_text(username)));
    }
    if let Some(credential) = &server.credential {
        out.push_str(&format!(",\"credential\":{}", json_text(credential)));
    }
    out.push('}');
    out
}

fn rendered(config: &ClientPeerConfig) -> String {
    let servers: Vec<String> = config.ice_servers.iter().map(rendered_server).collect();
    format!("{{\"forceRelayOnly\":{},\"iceServers\":[{}]}}", config.force_relay_only, servers.join(","))
}

#[test]
fn the_advertised_port_follows_the_port_coturn_was_started_on() {
    let config = from_toml(
        r#"
        [relay]
        enabled = true
        host = "turn.example.com"
        username = "u"
        credential = "p"
        "#,
    )
    .resolve(RelayEnvironment { port: Some(34780), ttl: default_ttl(), ..Default::default() })
    .issue("test-client");
    assert_eq!(config.ice_servers[1].urls, Urls::One("turn:turn.example.com:34780?transport=udp".to_owned()));
}

#[test]
fn a_port_in_the_file_still_wins_over_the_environment() {
    let config = from_toml(
        r#"
        [relay]
        enabled = true
        host = "turn.example.com"
        port = 5000
        username = "u"
        credential = "p"
        "#,
    )
    .resolve(RelayEnvironment { port: Some(34780), ttl: default_ttl(), ..Default::default() })
    .issue("test-client");
    assert_eq!(config.ice_servers[1].urls, Urls::One("turn:turn.example.com:5000?transport=udp".to_owned()));
}

#[test]
fn with_neither_it_is_the_standard_port() {
    let config = from_toml(
        r#"
        [relay]
        enabled = true
        host = "turn.example.com"
        username = "u"
        credential = "p"
        "#,
    )
    .resolve(RelayEnvironment { ttl: default_ttl(), ..Default::default() })
    .issue("test-client");
    assert_eq!(
        config.ice_servers[1].urls,
        Urls::One(format!("turn:turn.example.com:{DEFAULT_TURN_PORT}?transport=udp"))
    );
}

#[test]
fn the_credential_is_the_one_coturn_will_recompute() {
    let (username, credential) = turn_credentials("s3cr3t", Span::from_secs(3600), at(1_000_000), "abc");
    assert_eq!(username, "1003600:abc");
    assert_eq!(credential, "mqFJ0nErRnJ740nClchV8RG42fo=");
}

#[test]
fn a_later_client_gets_a_different_credential() {
    let provider = ephemeral("s3cr3t", Span::from_secs(3600));
    let first = provider.issue_at(at(1_000_000), "socket-a");
    let second = provider.issue_at(at(1_000_060), "socket-b");
    assert_ne!(first.ice_servers, second.ice_servers);
}

#[test]
fn the_relay_is_still_advertised_over_both_transports() {
    let config = ephemeral("s3cr3t", default_ttl()).issue_at(at(0), "test-client");
    let urls: Vec<&Urls> = config.ice_servers.iter().map(|s| &s.urls).collect();
    assert_eq!(
        urls,
        vec![
            &Urls::One("stun:stun.l.google.com:19302".to_owned()),
            &Urls::One("turn:turn.example.com:3478?transport=udp".to_owned()),
            &Urls::One("turn:turn.example.com:3478?transport=tcp".to_owned()),
        ]
    );
}

#[test]
fn both_transports_carry_the_same_credential() {
    let config = ephemeral("s3cr3t", default_ttl()).issue_at(at(500), "test-client");
    let turn: Vec<_> = config.ice_servers.iter().filter(|server| server.username.is_some()).collect();
    assert_eq!(turn.len(), 2);
    assert_eq!(turn[0].username, turn[1].username);
    assert_eq!(turn[0].credential, turn[1].credential);
}

#[test]
fn the_username_is_an_expiry_in_the_future_and_the_ttl_decides_how_far() {
    let issued = ephemeral("s3cr3t", Span::from_secs(60)).issue_at(at(1_000), "socket-a");
    let username = issued.ice_servers[1].username.clone().unwrap();
    let (expiry, client) = username.split_once(':').expect("expiry, then client");
    assert_eq!(expiry.parse::<u64>().unwrap(), 1_060);
    assert_eq!(client, "socket-a");
}

#[test]
fn two_clients_in_the_same_second_get_different_credentials() {
    let provider = ephemeral("s3cr3t", default_ttl());
    let a = provider.issue_at(at(1_000), "socket-a");
    let b = provider.issue_at(at(1_000), "socket-b");
    assert_ne!(a.ice_servers[1].username, b.ice_servers[1].username);
    assert_ne!(a.ice_servers[1].credential, b.ice_servers[1].credential);
}

#[test]
fn no_secret_means_the_static_path_and_nothing_minted() {
    let provider = from_toml(
        r#"
        [relay]
        enabled = true
        host = "turn.example.com"
        username = "u"
        credential = "p"
        "#,
    )
    .resolve(RelayEnvironment { ttl: default_ttl(), ..Default::default() });
    assert!(!provider.is_ephemeral());
    let config = provider.issue("test-client");
    assert_eq!(config.ice_servers[1].username.as_deref(), Some("u"));
    assert_eq!(config.ice_servers[1].credential.as_deref(), Some("p"));
}

#[test]
fn an_empty_secret_counts_as_no_secret() {
    let provider = from_toml(
        r#"
        [relay]
        enabled = true
        host = "turn.example.com"
        username = "u"
        credential = "p"
        "#,
    )
    .resolve(RelayEnvironment { secret: Some(""), ttl: default_ttl(), ..Default::default() });
    assert!(!provider.is_ephemeral());
}

#[test]
fn the_advertised_count_matches_what_is_actually_issued() {
    let provider = ephemeral("s3cr3t", default_ttl());
    assert_eq!(provider.advertised_count(), provider.issue("test-client").ice_servers.len());
}

const LIVE: &str = r#"{"forceRelayOnly":false,"iceServers":[{"urls":"stun:stun.l.google.com:19302"},{"urls":"turn:aucl.greluc.me:3478?transport=udp","username":"aucl","credential":"secret"},{"urls":"turn:aucl.greluc.me:3478?transport=tcp","username":"aucl","credential":"secret"}]}"#;

#[test]
fn a_relay_is_advertised_exactly_as_the_node_server_advertises_one() {
    let config = from_toml(
        r#"
        force_relay_only = false

        [[ice_servers]]
        urls = "stun:stun.l.google.com:19302"

        [relay]
        enabled = true
        host = "aucl.greluc.me"
        port = 3478
        username = "aucl"
        credential = "secret"
        "#,
    );
    let resolved =
        config.resolve(RelayEnvironment { ttl: default_ttl(), ..Default::default() }).issue("test-client");
    assert_eq!(rendered(&resolved), LIVE);
}

#[test]
fn the_relay_is_appended_rather_than_replacing_the_stun_servers() {
    let config = from_toml(
        r#"
        [[ice_servers]]
        urls = "stun:stun.l.google.com:19302"

        [relay]
        enabled = true
        host = "example.com"
        port = 3478
        username = "u"
        credential = "c"
        "#,
    );
    let resolved =
        config.resolve(RelayEnvironment { ttl: default_ttl(), ..Default::default() }).issue("test-client");
    assert_eq!(resolved.ice_servers.len(), 3);
    assert!(matches!(&resolved.ice_servers[0].urls, Urls::One(url) if url.starts_with("stun:")));
    assert!(matches!(
        &resolved.ice_servers[1].urls,
        Urls::One(url) if url == "turn:example.com:3478?transport=udp"
    ));
    assert!(matches!(
        &resolved.ice_servers[2].urls,
        Urls::One(url) if url == "turn:example.com:3478?transport=tcp"
    ));
}

#[test]
fn a_disabled_relay_is_not_advertised() {
    let config = from_toml(
        r#"
        [[ice_servers]]
        urls = "stun:stun.l.google.com:19302"

        [relay]
        enabled = false
        host = "example.com"
        port = 3478
        username = "u"
        credential = "c"
        "#,
    );
    assert_eq!(
        config
            .resolve(RelayEnvironment { ttl: default_ttl(), ..Default::default() })
            .issue("test-client")
            .ice_servers
            .len(),
        1
    );
}

#[test]
fn the_host_falls_back_to_the_environment() {
    let config = from_toml(
        r#"
        [relay]
        enabled = true
        port = 3478
        username = "u"
        credential = "c"
        "#,
    );
    let resolved = config
        .resolve(RelayEnvironment { hostname: Some("from-env.example"), ttl: default_ttl(), ..Default::default() })
        .issue("test-client");
    assert!(resolved
        .ice_servers
        .iter()
        .any(|server| matches!(&server.urls, Urls::One(url) if url == "turn:from-env.example:3478?transport=udp")));
}

#[test]
fn a_relay_with_nowhere_to_point_is_left_out_rather_than_advertised_broken() {
    let config = from_toml(
        r#"
        [[ice_servers]]
        urls = "stun:stun.l.google.com:19302"

        [relay]
        enabled = true
        port = 3478
        username = "u"
        credential = "c"
        "#,
    );
    let resolved =
        config.resolve(RelayEnvironment { ttl: default_ttl(), ..Default::default() }).issue("test-client");
    assert_eq!(resolved.ice_servers.len(), 1, "only the STUN server");
}

#[test]
fn a_missing_file_serves_the_default_rather_than_refusing_to_start() {
    let config = PeerConfigFile::load(None);
    assert!(!config.relay.enabled);
    assert_eq!(config.ice_servers.len(), 1);
}

#[test]
fn a_broken_file_serves_the_default_too() {
    let config = PeerConfigFile::load(parsed("this is not = = toml"));
    assert!(!config.relay.enabled);
    assert_eq!(config.ice_servers.len(), 1);
}

#[test]
fn a_file_that_parses_is_served() {
    let config = PeerConfigFile::load(parsed(
        r#"
        force_relay_only = true

        [[ice_servers]]
        urls = ["stun:a.example", "stun:b.example"]
        "#,
    ));
    assert!(config.force_relay_only);
    let provider = config.resolve(RelayEnvironment { ttl: default_ttl(), ..Default::default() });
    assert!(provider.force_relay_only());
    assert_eq!(provider.relay_host(), None);
    assert_eq!(
        provider.issue("x").ice_servers[0].urls,
        Urls::Many(vec!["stun:a.example".to_owned(), "stun:b.example".to_owned()])
    );
}

#[test]
fn the_relay_host_is_the_one_clients_are_told() {
    assert_eq!(ephemeral("s3cr3t", default_ttl()).relay_host(), Some("turn.example.com"));
    let provider = from_toml(
        r#"
        [relay]
        enabled = true
        host = "relay.example"
        username = "u"
        credential = "p"
        "#,
    )
    .resolve(RelayEnvironment { ttl: default_ttl(), ..Default::default() });
    assert_eq!(provider.relay_host(), Some("relay.example"));
    assert_eq!(provider.advertised_count(), 3);
}

#[test]
fn a_host_in_brackets_is_reported_whole() {
    let file = |host: &str, secret: Option<&str>| {
        let mut file = PeerConfigFile::default();
        file.relay = RelaySettings {
            enabled: true,
            host: Some(host.to_owned()),
            port: Some(3478),
            username: "u".to_owned(),
            credential: "p".to_owned(),
        };
        file.resolve(RelayEnvironment { secret, ttl: default_ttl(), ..Default::default() })
    };
    for host in ["[2001:db8::1]", "2001:db8::1", "turn.example.com", "[odd"] {
        assert_eq!(file(host, None).relay_host(), Some(host));
        assert_eq!(file(host, Some("s3cr3t")).relay_host(), Some(host));
    }
    assert_eq!(
        file("[2001:db8::1]", None).issue("c").ice_servers[1].urls,
        Urls::One("turn:[2001:db8::1]:3478?transport=udp".to_owned())
    );
}

#[test]
fn the_host_of_a_relay_in_the_list_is_read_from_its_address() {
    let fixed = |urls: Urls| {
        PeerConfigProvider::fixed(ClientPeerConfig {
            force_relay_only: true,
            ice_servers: vec![
                IceServer { urls: Urls::One("stun:a:1".to_owned()), username: None, credential: None },
                IceServer { urls, username: None, credential: None },
            ],
        })
    };
    for (url, host) in [
        ("turn:b.example:3478?transport=udp", Some("b.example")),
        ("turn:b.example", Some("b.example")),
        ("turn:b.example?transport=tcp", Some("b.example")),
        ("turn:[2001:db8::1]:3478", Some("[2001:db8::1]")),
        ("turn:[2001:db8::1]", Some("[2001:db8::1]")),
        ("turn:[2001:db8::1]?transport=tcp", Some("[2001:db8::1]")),
        ("turn:[2001:db8::1", Some("[2001")),
        ("turn:[a]b:3478", Some("[a]b")),
        ("turn:[a:b]c", Some("[a")),
        ("turn:", Some("")),
        ("turns:b.example", None),
        ("turn", None),
    ] {
        assert_eq!(fixed(Urls::One(url.to_owned())).relay_host(), host, "{url}");
    }
    let many = fixed(Urls::Many(vec!["turn:b.example".to_owned()]));
    assert_eq!(many.relay_host(), None);
    assert!(many.force_relay_only() && !many.is_ephemeral());
    assert_eq!(many.issue("c").ice_servers.len(), 2);
    assert_eq!(many.advertised_count(), 2);
}

#[test]
fn a_relay_in_the_list_comes_before_a_static_one() {
    let provider = |secret: Option<&str>| {
        let mut file = PeerConfigFile::default();
        file.ice_servers.push(IceServer {
            urls: Urls::One("turn:own.example:1".to_owned()),
            username: None,
            credential: None,
        });
        file.relay.enabled = true;
        file.relay.host = Some("relay.example".to_owned());
        file.resolve(RelayEnvironment { secret, ttl: default_ttl(), ..Default::default() })
    };
    assert_eq!(provider(None).relay_host(), Some("own.example"));
    assert_eq!(provider(Some("s3cr3t")).relay_host(), Some("relay.example"));
}

#[test]
fn a_password_has_twenty_eight_characters() {
    for client in ["", "abc", "a-much-longer-client-than-any-other"] {
        assert_eq!(turn_credentials("s3cr3t", default_ttl(), at(1), client).1.len(), 28);
    }
}

#[test]
fn a_credential_handed_in_is_advertised_as_it_is() {
    let config = ephemeral("s3cr3t", default_ttl()).advertise("name", "word");
    assert_eq!(config.ice_servers.len(), 3);
    assert_eq!(config.ice_servers[2].username.as_deref(), Some("name"));
    assert_eq!(config.ice_servers[2].credential.as_deref(), Some("word"));
}

#[test]
fn an_expiry_past_the_end_of_time_is_the_last_second() {
    let (username, _) = turn_credentials("s", Span::from_secs(u64::MAX), at(5), "c");
    assert_eq!(username, "18446744073709551615:c");
}

#[test]
fn nanoseconds_carry_into_the_expiry() {
    let (username, _) = turn_credentials("s", Span::new(1, 600_000_000), Span::new(1, 500_000_000), "c");
    assert_eq!(username, "3:c");
}

#[test]
fn a_client_is_issued_a_credential_for_now() {
    let before = crewlink::time::now().as_secs();
    let issued = ephemeral("s3cr3t", Span::from_secs(10)).issue("c");
    let after = crewlink::time::now().as_secs();
    let username = issued.ice_servers[1].username.clone().unwrap();
    let expiry: u64 = username.split(':').next().unwrap().parse().unwrap();
    assert!(before + 10 <= expiry && expiry <= after + 10);
    assert!(before > 1_600_000_000);
}
