use crewlink::config::Urls;
use crewlink::settings::{bound, probed, read_port, Environment, Interface, Settings};
use crewlink::standalone;

fn empty() -> Environment {
    Environment {
        port: None,
        bind: None,
        peer_config: None,
        name: None,
        public_hostname: None,
        hostname: None,
        address: None,
        turn_secret: None,
        turn_ttl_seconds: None,
        turn_port: None,
    }
}

fn some(text: &str) -> Option<String> {
    Some(text.to_owned())
}

#[test]
fn an_empty_environment_gives_the_defaults() {
    let settings = Settings::from_env(&empty());
    assert_eq!(settings.port, 9736);
    assert_eq!(settings.bind, None);
    assert_eq!(settings.name, None);
    assert_eq!(settings.hostname, None);
    assert_eq!(settings.peer_config_path, "config/peerConfig.toml");
    assert_eq!(settings.public_address, "http://127.0.0.1:9736");
    assert_eq!(settings.turn_secret, None);
    assert_eq!(settings.turn_ttl.as_secs(), 86_400);
    assert_eq!(settings.turn_port, None);
}

#[test]
fn the_environment_is_read() {
    let settings = Settings::from_env(&Environment {
        port: some("8080"),
        bind: some("0.0.0.0"),
        peer_config: some("/etc/peer.toml"),
        name: some("n"),
        public_hostname: some("public.example"),
        hostname: some("2cd620ec462e"),
        address: some(""),
        turn_secret: some("s3cr3t"),
        turn_ttl_seconds: some("60"),
        turn_port: some("34780"),
    });
    assert_eq!(settings.port, 8080);
    assert_eq!(settings.bind.as_deref(), Some("0.0.0.0"));
    assert_eq!(settings.peer_config_path, "/etc/peer.toml");
    assert_eq!(settings.name.as_deref(), Some("n"));
    assert_eq!(settings.hostname.as_deref(), Some("public.example"));
    assert_eq!(settings.public_address, "");
    assert_eq!(settings.turn_secret.as_deref(), Some("s3cr3t"));
    assert_eq!(settings.turn_ttl.as_secs(), 60);
    assert_eq!(settings.turn_port, Some(34780));
}

#[test]
fn an_empty_variable_counts_as_unset() {
    let settings = Settings::from_env(&Environment {
        name: some(""),
        public_hostname: some(""),
        hostname: some("host.example"),
        turn_secret: some(""),
        ..empty()
    });
    assert_eq!(settings.name, None);
    assert_eq!(settings.hostname.as_deref(), Some("host.example"));
    assert_eq!(settings.turn_secret, None);
}

#[test]
fn a_variable_that_is_no_number_falls_back() {
    for text in ["", "x", "-1", " 80", "80 ", "65536", "1e3", "+"] {
        assert_eq!(read_port(&some(text)), 9736, "{text}");
        assert!(text.parse::<u16>().is_err());
    }
    for text in ["0", "+80", "65535", "000080"] {
        assert_eq!(read_port(&some(text)), text.parse::<u16>().unwrap());
    }
    let settings =
        Settings::from_env(&Environment { turn_ttl_seconds: some("x"), turn_port: some("70000"), ..empty() });
    assert_eq!(settings.turn_ttl.as_secs(), 86_400);
    assert_eq!(settings.turn_port, None);
}

#[test]
fn the_standalone_server_reads_the_hostname_only() {
    let settings = standalone::Settings::from_env(&Environment {
        public_hostname: some("public.example"),
        hostname: some("host.example"),
        port: some("1"),
        ..empty()
    });
    assert_eq!(settings.hostname.as_deref(), Some("host.example"));
    assert_eq!(settings.public_address, "http://127.0.0.1:1");
    assert_eq!(settings.peer_config_path, "config/peerConfig.toml");
    assert_eq!(settings.bind, None);
    assert_eq!(settings.name, None);
    assert_eq!(settings.port, 1);
}

#[test]
fn the_standalone_server_advertises_one_relay_entry() {
    let mut file = standalone::PeerConfigFile::load(None);
    assert_eq!(file.relay.port, 3478);
    file.relay.enabled = true;
    file.relay.username = "u".to_owned();
    file.relay.credential = "p".to_owned();
    let config = file.resolve(Some("host.example"));
    assert_eq!(config.ice_servers.len(), 2);
    assert_eq!(config.ice_servers[1].urls, Urls::One("turn:host.example:3478".to_owned()));
    assert_eq!(config.ice_servers[1].username.as_deref(), Some("u"));
    assert_eq!(config.ice_servers[1].credential.as_deref(), Some("p"));
    let mut nowhere = standalone::PeerConfigFile::default();
    nowhere.relay.enabled = true;
    assert_eq!(nowhere.resolve(None).ice_servers.len(), 1);
    assert_eq!(standalone::PeerConfigFile::default().resolve(Some("h")).ice_servers.len(), 1);
}

#[test]
fn numbers_are_rendered_in_decimal() {
    use_decimal(0, "0");
    use_decimal(9, "9");
    use_decimal(10, "10");
    use_decimal(u64::MAX, "18446744073709551615");
    assert_eq!(crewlink::text::signed_decimal_text(i64::MIN), "-9223372036854775808");
    assert_eq!(crewlink::text::signed_decimal_text(-1), "-1");
    assert_eq!(crewlink::text::signed_decimal_text(7), "7");
}

fn use_decimal(n: u64, text: &str) {
    assert_eq!(crewlink::text::decimal_text(n), text);
    assert_eq!(crewlink::text::parse_decimal(text, u64::MAX), Some(n));
}

#[test]
fn a_clock_set_before_the_epoch_reads_as_the_epoch() {
    assert_eq!(crewlink::time::since_epoch(None).as_secs(), 0);
    assert_eq!(crewlink::time::since_epoch(Some((5, 999_999_999))).as_millis(), 5_999);
}

#[test]
fn the_probe_follows_the_server() {
    let loopback = Interface::V4([127, 0, 0, 1]);
    assert_eq!(bound(None), loopback);
    assert_eq!(probed(None), loopback);
    for wildcard in [Interface::V4([0; 4]), Interface::V6([0; 8])] {
        assert_eq!(bound(Some(wildcard)), wildcard);
        assert_eq!(probed(Some(wildcard)), loopback);
    }
    for named in [
        Interface::V4([10, 0, 0, 0]),
        Interface::V4([0, 0, 0, 1]),
        Interface::V6([0, 0, 0, 0, 0, 0, 0, 1]),
        Interface::V6([0x2001, 0xdb8, 0, 0, 0, 0, 0, 0]),
    ] {
        assert_eq!(bound(Some(named)), named);
        assert_eq!(probed(Some(named)), named);
    }
}
