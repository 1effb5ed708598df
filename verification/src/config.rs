//! The peer configuration: which ICE servers a client is told about, and how the relay among
//! them is reached.

use crate::text::{chars_of, decimal_text};
use crate::time::Span;
use crate::turn::turn_credentials;
use vstd::prelude::*;

verus! {

/// The addresses of an ICE server: one, or several.
#[derive(Debug, PartialEq, Eq)]
pub enum Urls {
    One(String),
    Many(Vec<String>),
}

/// The addresses of an ICE server, as a value.
pub enum UrlsView {
    One(Seq<char>),
    Many(Seq<Seq<char>>),
}

impl View for Urls {
    type V = UrlsView;

    open spec fn view(&self) -> UrlsView {
        match self {
            Urls::One(url) => UrlsView::One(url@),
            Urls::Many(urls) => UrlsView::Many(urls@.map_values(|url: String| url@)),
        }
    }
}

impl Clone for Urls {
    fn clone(&self) -> (r: Self)
        ensures
            r@ == self@,
    {
        match self {
            Urls::One(url) => Urls::One(url.clone()),
            Urls::Many(urls) => {
                let mut copy: Vec<String> = Vec::new();
                for i in 0..urls.len()
                    invariant
                        copy@.len() == i,
                        forall|k: int| 0 <= k < i ==> #[trigger] copy@[k] == urls@[k],
                {
                    copy.push(urls[i].clone());
                }
                assert(copy@.map_values(|url: String| url@) == urls@.map_values(|url: String| url@));
                Urls::Many(copy)
            },
        }
    }
}

/// The characters of a text that may be absent.
pub open spec fn optional_text(text: Option<String>) -> Option<Seq<char>> {
    match text {
        Some(text) => Some(text@),
        None => None,
    }
}

/// A copy of a text that may be absent.
pub(crate) fn copy_text(text: &Option<String>) -> (r: Option<String>)
    ensures
        optional_text(r) == optional_text(*text),
{
    match text {
        Some(text) => Some(text.clone()),
        None => None,
    }
}

/// An ICE server as the client expects to receive it.
#[derive(Debug, PartialEq, Eq)]
pub struct IceServer {
    pub urls: Urls,
    pub username: Option<String>,
    pub credential: Option<String>,
}

/// An ICE server, as a value.
pub struct IceServerView {
    pub urls: UrlsView,
    pub username: Option<Seq<char>>,
    pub credential: Option<Seq<char>>,
}

impl View for IceServer {
    type V = IceServerView;

    open spec fn view(&self) -> IceServerView {
        IceServerView {
            urls: self.urls@,
            username: optional_text(self.username),
            credential: optional_text(self.credential),
        }
    }
}

impl Clone for IceServer {
    fn clone(&self) -> (r: Self)
        ensures
            r@ == self@,
    {
        IceServer {
            urls: self.urls.clone(),
            username: copy_text(&self.username),
            credential: copy_text(&self.credential),
        }
    }
}

/// A list of ICE servers, as values.
pub open spec fn servers_view(servers: Seq<IceServer>) -> Seq<IceServerView> {
    servers.map_values(|server: IceServer| server@)
}

/// What every client is told when it connects.
#[derive(Debug)]
pub struct ClientPeerConfig {
    pub force_relay_only: bool,
    pub ice_servers: Vec<IceServer>,
}

/// What a client is told when it connects, as a value.
#[verifier::ext_equal]
pub struct ClientPeerConfigView {
    pub force_relay_only: bool,
    pub ice_servers: Seq<IceServerView>,
}

impl View for ClientPeerConfig {
    type V = ClientPeerConfigView;

    open spec fn view(&self) -> ClientPeerConfigView {
        ClientPeerConfigView {
            force_relay_only: self.force_relay_only,
            ice_servers: servers_view(self.ice_servers@),
        }
    }
}

impl Clone for ClientPeerConfig {
    fn clone(&self) -> (r: Self)
        ensures
            r@ == self@,
    {
        let mut copy: Vec<IceServer> = Vec::new();
        for i in 0..self.ice_servers.len()
            invariant
                copy@.len() == i,
                forall|k: int| 0 <= k < i ==> (#[trigger] copy@[k])@ == self.ice_servers@[k]@,
        {
            copy.push(self.ice_servers[i].clone());
        }
        assert(servers_view(copy@) == servers_view(self.ice_servers@));
        ClientPeerConfig { force_relay_only: self.force_relay_only, ice_servers: copy }
    }
}

/// The relay section of the peer configuration file.
#[derive(Debug)]
pub struct RelaySettings {
    pub enabled: bool,
    /// Falls back to the hostname in the environment.
    pub host: Option<String>,
    /// Falls back to the port in the environment, and then to the standard one. A file that
    /// names no port has to be told apart from one that names the standard port: the relay
    /// listens where the environment says.
    pub port: Option<u16>,
    pub username: String,
    pub credential: String,
}

impl Default for RelaySettings {
    fn default() -> (r: Self)
        ensures
            !r.enabled,
            r.host is None,
            r.port is None,
            r.username@.len() == 0,
            r.credential@.len() == 0,
    {
        RelaySettings {
            enabled: false,
            host: None,
            port: None,
            username: String::new(),
            credential: String::new(),
        }
    }
}

/// The peer configuration file.
#[derive(Debug)]
pub struct PeerConfigFile {
    pub force_relay_only: bool,
    pub relay: RelaySettings,
    pub ice_servers: Vec<IceServer>,
}

/// The STUN server clients are told about when the file says nothing.
pub open spec fn default_stun_server() -> IceServerView {
    IceServerView { urls: UrlsView::One("stun:stun.l.google.com:19302"@), username: None, credential: None }
}

/// Makes a list of the one STUN server clients are told about when the file says nothing.
pub(crate) fn default_ice_servers() -> (r: Vec<IceServer>)
    ensures
        servers_view(r@) == seq![default_stun_server()],
{
    let mut servers: Vec<IceServer> = Vec::new();
    servers.push(
        IceServer { urls: Urls::One("stun:stun.l.google.com:19302".to_owned()), username: None, credential: None },
    );
    assert(servers_view(servers@) == seq![default_stun_server()]);
    servers
}

impl Default for PeerConfigFile {
    fn default() -> (r: Self)
        ensures
            r.is_default(),
    {
        PeerConfigFile {
            force_relay_only: false,
            relay: RelaySettings::default(),
            ice_servers: default_ice_servers(),
        }
    }
}

/// The port of a relay when neither the file nor the environment names one.
pub const DEFAULT_TURN_PORT: u16 = 3478;

/// The seconds an issued credential stays valid when the environment says nothing: a day, so
/// that a player who leaves the client open overnight does not find the relay refusing them.
pub const DEFAULT_TURN_TTL_SECS: u64 = 86400;

/// What the relay advertisement takes from the environment.
#[derive(Clone, Copy, Debug)]
pub struct RelayEnvironment<'a> {
    /// The host of the relay when the file names none.
    pub hostname: Option<&'a str>,
    /// The secret shared with the relay. It switches on a credential per client.
    pub secret: Option<&'a str>,
    /// The port the relay listens on.
    pub port: Option<u16>,
    /// How long an issued credential stays valid.
    pub ttl: Span,
}

impl<'a> Default for RelayEnvironment<'a> {
    fn default() -> (r: Self)
        ensures
            r.hostname is None,
            r.secret is None,
            r.port is None,
            r.ttl.as_nanos() == 0,
    {
        RelayEnvironment { hostname: None, secret: None, port: None, ttl: Span::from_secs(0) }
    }
}

/// A relay that issues a fresh credential per client instead of sharing one forever.
#[derive(Debug)]
pub struct EphemeralTurn {
    pub host: String,
    pub port: u16,
    pub secret: String,
    pub ttl: Span,
}

/// A relay that issues credentials, as a value.
pub struct EphemeralTurnView {
    pub host: Seq<char>,
    pub port: u16,
    pub secret: Seq<char>,
    pub ttl: Span,
}

impl View for EphemeralTurn {
    type V = EphemeralTurnView;

    open spec fn view(&self) -> EphemeralTurnView {
        EphemeralTurnView { host: self.host@, port: self.port, secret: self.secret@, ttl: self.ttl }
    }
}

/// The address of a relay over one transport.
pub open spec fn turn_url(host: Seq<char>, port: u16, transport: Seq<char>) -> Seq<char> {
    "turn:"@ + host + ":"@ + crate::text::decimal(port as nat) + "?transport="@ + transport
}

/// A relay over one transport, with a username and a password.
pub open spec fn turn_entry(
    host: Seq<char>,
    port: u16,
    transport: Seq<char>,
    username: Seq<char>,
    credential: Seq<char>,
) -> IceServerView {
    IceServerView {
        urls: UrlsView::One(turn_url(host, port, transport)),
        username: Some(username),
        credential: Some(credential),
    }
}

/// A relay over both transports. UDP comes first: it is what everyone who can use it should
/// use. TCP is there for the networks that block outbound UDP.
pub open spec fn turn_entries(
    host: Seq<char>,
    port: u16,
    username: Seq<char>,
    credential: Seq<char>,
) -> Seq<IceServerView> {
    seq![
        turn_entry(host, port, "udp"@, username, credential),
        turn_entry(host, port, "tcp"@, username, credential),
    ]
}

/// Adds a relay to a list of ICE servers, over one transport.
pub(crate) fn push_turn_entry(
    servers: &mut Vec<IceServer>,
    host: &str,
    port: u16,
    transport: &str,
    username: &str,
    credential: &str,
)
    ensures
        servers_view(final(servers)@) == servers_view(old(servers)@).push(
            turn_entry(host@, port, transport@, username@, credential@),
        ),
{
    let mut url = "turn:".to_owned();
    url.append(host);
    url.append(":");
    url.append(decimal_text(port as u64).as_str());
    url.append("?transport=");
    url.append(transport);
    let server = IceServer {
        urls: Urls::One(url),
        username: Some(username.to_owned()),
        credential: Some(credential.to_owned()),
    };
    servers.push(server);
    assert(servers_view(servers@) == servers_view(old(servers)@).push(server@));
}

/// Adds a relay to a list of ICE servers, over both transports.
fn push_turn_entries(
    servers: &mut Vec<IceServer>,
    host: &str,
    port: u16,
    username: &str,
    credential: &str,
)
    ensures
        servers_view(final(servers)@) == servers_view(old(servers)@) + turn_entries(host@, port, username@, credential@),
{
    push_turn_entry(servers, host, port, "udp", username, credential);
    push_turn_entry(servers, host, port, "tcp", username, credential);
    assert(servers_view(servers@) == servers_view(old(servers)@) + turn_entries(host@, port, username@, credential@));
}

/// The peer configuration, ready to be handed to a client. Everything that does not change
/// is resolved once; a credential that expires is made when the client asks.
#[derive(Debug)]
pub struct PeerConfigProvider {
    base: ClientPeerConfig,
    ephemeral: Option<EphemeralTurn>,
    /// The host clients are told to reach the relay on.
    relay: Option<String>,
}

/// A peer configuration that is ready to be handed out, as a value.
#[verifier::ext_equal]
pub struct PeerConfigProviderView {
    pub base: ClientPeerConfigView,
    pub ephemeral: Option<EphemeralTurnView>,
    pub relay: Option<Seq<char>>,
}

impl View for PeerConfigProvider {
    type V = PeerConfigProviderView;

    closed spec fn view(&self) -> PeerConfigProviderView {
        PeerConfigProviderView {
            base: self.base@,
            ephemeral: match self.ephemeral {
                Some(turn) => Some(turn@),
                None => None,
            },
            relay: optional_text(self.relay),
        }
    }
}

/// A text up to a character, or the whole text when it is not there.
pub open spec fn up_to(text: Seq<char>, stop: char) -> Seq<char> {
    match text.index_of_first(stop) {
        Some(i) => text.take(i),
        None => text,
    }
}

/// Whether a text starts with something in brackets, and the port or the parameters, if any,
/// follow at once.
pub open spec fn starts_bracketed(text: Seq<char>) -> bool {
    let end = text.index_of_first(']')->0 + 1;
    &&& text.len() > 0
    &&& text[0] == '['
    &&& text.contains(']')
    &&& end == text.len() || text[end] == ':' || text[end] == '?'
}

/// The host at the start of a text: what stands before the port or the parameters. One in
/// brackets holds colons of its own, and ends with the closing bracket.
pub open spec fn leading_host(text: Seq<char>) -> Seq<char> {
    if starts_bracketed(text) {
        text.take(text.index_of_first(']')->0 + 1)
    } else {
        up_to(up_to(text, ':'), '?')
    }
}

/// The host in a relay address: what stands between the scheme and the port or the parameters.
pub open spec fn host_in_turn_url(url: Seq<char>) -> Seq<char> {
    leading_host(url.skip(5))
}

/// The host of a server with one address that is a relay's.
pub open spec fn turn_host(server: IceServerView) -> Option<Seq<char>> {
    match server.urls {
        UrlsView::One(url) => if url.len() >= 5 && url.take(5) == "turn:"@ {
            Some(host_in_turn_url(url))
        } else {
            None
        },
        UrlsView::Many(_) => None,
    }
}

/// The host of the first relay in a list of ICE servers.
pub open spec fn first_turn_host(servers: Seq<IceServerView>) -> Option<Seq<char>>
    decreases servers.len(),
{
    if servers.len() == 0 {
        None
    } else if turn_host(servers[0]) is Some {
        turn_host(servers[0])
    } else {
        first_turn_host(servers.skip(1))
    }
}

impl PeerConfigProviderView {
    /// What a client is told that is given a username and a password for the relay. Without
    /// a relay that issues credentials, they are not used.
    pub open spec fn advertised(self, username: Seq<char>, credential: Seq<char>) -> ClientPeerConfigView {
        match self.ephemeral {
            Some(turn) => ClientPeerConfigView {
                ice_servers: self.base.ice_servers + turn_entries(turn.host, turn.port, username, credential),
                ..self.base
            },
            None => self.base,
        }
    }

    /// What a client is told that connects at a time.
    pub open spec fn issued_at(self, now: Span, client: Seq<char>) -> ClientPeerConfigView {
        match self.ephemeral {
            Some(turn) => {
                let username = crate::turn::username_of(crate::turn::expiry_of(now, turn.ttl), client);
                self.advertised(username, crate::turn::credential_of(turn.secret, username))
            },
            None => self.base,
        }
    }

    /// The host clients are told to reach the relay on.
    pub open spec fn relay_host(self) -> Option<Seq<char>> {
        self.relay
    }

    /// How many ICE servers a client is told about.
    pub open spec fn advertised_count(self) -> nat {
        self.base.ice_servers.len() + if self.ephemeral is Some {
            2nat
        } else {
            0nat
        }
    }

    /// The same servers for every client.
    pub open spec fn fixed(config: ClientPeerConfigView) -> PeerConfigProviderView {
        PeerConfigProviderView { base: config, ephemeral: None, relay: first_turn_host(config.ice_servers) }
    }
}

/// Finds the first of a character in a part of a text, or the end of that part.
fn find(chars: &Vec<char>, from: usize, to: usize, stop: char) -> (r: usize)
    requires
        from <= to <= chars@.len(),
    ensures
        from <= r <= to,
        chars@.subrange(from as int, r as int) == up_to(chars@.subrange(from as int, to as int), stop),
        r < to <==> chars@.subrange(from as int, to as int).contains(stop),
        r < to ==> chars@.subrange(from as int, to as int).index_of_first(stop) == Some(r - from),
{
    let ghost part = chars@.subrange(from as int, to as int);
    let mut i: usize = from;
    while i < to && chars[i] != stop
        invariant
            from <= i <= to <= chars@.len(),
            part == chars@.subrange(from as int, to as int),
            forall|k: int| 0 <= k < i - from ==> #[trigger] part[k] != stop,
        decreases to - i,
    {
        assert(part[i - from] == chars@[i as int]);
        i = i + 1;
    }
    proof {
        part.index_of_first_ensures(stop);
        if i < to {
            assert(part[i - from] == stop);
        }
        assert(chars@.subrange(from as int, i as int) == part.take(i - from));
        assert(part.take(part.len() as int) == part);
    }
    i
}

/// Finds where the host that starts at a position ends.
fn host_end(chars: &Vec<char>, start: usize) -> (end: usize)
    requires
        start <= chars@.len(),
    ensures
        start <= end <= chars@.len(),
        chars@.subrange(start as int, end as int) == leading_host(chars@.skip(start as int)),
{
    let len: usize = chars.len();
    let ghost rest = chars@.skip(start as int);
    assert(chars@.subrange(start as int, len as int) == rest);
    if start < len && chars[start] == '[' {
        let close = find(chars, start, len, ']');
        if close < len && (close + 1 == len || chars[close + 1] == ':' || chars[close + 1] == '?') {
            assert(chars@.subrange(start as int, close + 1) == rest.take(close + 1 - start));
            return close + 1;
        }
    }
    let port = find(chars, start, len, ':');
    find(chars, start, port, '?')
}

/// Whether a text starts with a relay's scheme, and the host in it when it does.
fn turn_host_in(url: &str) -> (r: Option<&str>)
    ensures
        match r {
            Some(host) => url@.len() >= 5 && url@.take(5) == "turn:"@ && host@ == host_in_turn_url(url@),
            None => !(url@.len() >= 5 && url@.take(5) == "turn:"@),
        },
{
    let chars = chars_of(url);
    proof {
        reveal_strlit("turn:");
    }
    if chars.len() < 5 {
        return None;
    }
    if chars[0] != 't' || chars[1] != 'u' || chars[2] != 'r' || chars[3] != 'n' || chars[4] != ':' {
        assert(url@.take(5)[0] == chars@[0]);
        assert(url@.take(5)[1] == chars@[1]);
        assert(url@.take(5)[2] == chars@[2]);
        assert(url@.take(5)[3] == chars@[3]);
        assert(url@.take(5)[4] == chars@[4]);
        return None;
    }
    assert(url@.take(5) == "turn:"@);
    let end = host_end(&chars, 5);
    Some(url.substring_char(5, end))
}

impl PeerConfigProvider {
    /// The configuration for a client connecting now, by the machine's clock. `client` goes
    /// into the username, so two clients never hold the same credential.
    pub fn issue(&self, client: &str) -> (r: ClientPeerConfig)
        ensures
            exists|now: Span| r@ == #[trigger] self@.issued_at(now, client@),
            self@.ephemeral is None ==> r@ == self@.base,
    {
        self.issue_at(crate::time::now(), client)
    }

    /// The configuration for a client connecting at a time, counted from the Unix epoch.
    pub fn issue_at(&self, now: Span, client: &str) -> (r: ClientPeerConfig)
        ensures
            r@ == self@.issued_at(now, client@),
    {
        match &self.ephemeral {
            Some(turn) => {
                let (username, credential) = turn_credentials(turn.secret.as_str(), turn.ttl, now, client);
                self.advertise(username.as_str(), credential.as_str())
            },
            None => self.base.clone(),
        }
    }

    /// The configuration for a client that is given a username and a password for the relay.
    pub fn advertise(&self, username: &str, credential: &str) -> (r: ClientPeerConfig)
        ensures
            r@ == self@.advertised(username@, credential@),
    {
        let mut config = self.base.clone();
        if let Some(turn) = &self.ephemeral {
            push_turn_entries(&mut config.ice_servers, turn.host.as_str(), turn.port, username, credential);
        }
        config
    }

    /// How many ICE servers a client is told about, counted on what one would be told.
    pub fn advertised_count(&self) -> (r: usize)
        ensures
            r == self@.advertised_count(),
            forall|now: Span, client: Seq<char>|
                r == (#[trigger] self@.issued_at(now, client)).ice_servers.len(),
    {
        let config = self.advertise("", "");
        assert(config@.ice_servers.len() == config.ice_servers@.len());
        config.ice_servers.len()
    }

    /// Whether clients may only use a relay.
    pub fn force_relay_only(&self) -> (r: bool)
        ensures
            r == self@.base.force_relay_only,
    {
        self.base.force_relay_only
    }

    /// Whether the relay's credentials are made per client.
    pub fn is_ephemeral(&self) -> (r: bool)
        ensures
            r == (self@.ephemeral is Some),
    {
        self.ephemeral.is_some()
    }

    /// The host clients are told to reach the relay on.
    pub fn relay_host(&self) -> (r: Option<&str>)
        ensures
            match r {
                Some(host) => self@.relay_host() == Some(host@),
                None => self@.relay_host() is None,
            },
    {
        match &self.relay {
            Some(host) => Some(host.as_str()),
            None => None,
        }
    }

    /// Hands the same configuration to every client.
    pub fn fixed(config: ClientPeerConfig) -> (r: Self)
        ensures
            r@ == PeerConfigProviderView::fixed(config@),
    {
        let relay = first_turn_host_in(&config.ice_servers);
        PeerConfigProvider { base: config, ephemeral: None, relay }
    }
}

/// Finds the host of the first relay in a list of ICE servers.
fn first_turn_host_in(servers: &Vec<IceServer>) -> (r: Option<String>)
    ensures
        optional_text(r) == first_turn_host(servers_view(servers@)),
{
    let ghost all = servers_view(servers@);
    assert(all.skip(0) == all);
    for i in 0..servers.len()
        invariant
            all == servers_view(servers@),
            first_turn_host(all) == first_turn_host(all.skip(i as int)),
    {
        assert(all.skip(i as int)[0] == servers@[i as int]@);
        assert(all.skip(i as int).skip(1) == all.skip(i + 1));
        if let Urls::One(url) = &servers[i].urls {
            if let Some(host) = turn_host_in(url.as_str()) {
                return Some(host.to_owned());
            }
        }
    }
    None
}

/// Whether a secret is set. An empty one counts as none.
pub open spec fn has_secret(secret: Option<&str>) -> bool {
    match secret {
        Some(secret) => secret@.len() > 0,
        None => false,
    }
}

impl PeerConfigFile {
    /// What is served when there is no usable file: one STUN server and no relay.
    pub open spec fn is_default(self) -> bool {
        &&& !self.force_relay_only
        &&& !self.relay.enabled
        &&& self.relay.host is None
        &&& self.relay.port is None
        &&& self.relay.username@.len() == 0
        &&& self.relay.credential@.len() == 0
        &&& servers_view(self.ice_servers@) == seq![default_stun_server()]
    }

    /// The host of the relay: the file's, or else the environment's.
    pub open spec fn relay_host(self, environment: RelayEnvironment<'_>) -> Option<Seq<char>> {
        match self.relay.host {
            Some(host) => Some(host@),
            None => match environment.hostname {
                Some(host) => Some(host@),
                None => None,
            },
        }
    }

    /// The port of the relay: the file's, or else the environment's, or else the standard one.
    pub open spec fn relay_port(self, environment: RelayEnvironment<'_>) -> u16 {
        match self.relay.port {
            Some(port) => port,
            None => match environment.port {
                Some(port) => port,
                None => DEFAULT_TURN_PORT,
            },
        }
    }

    /// The configuration clients are handed. A relay that is enabled and has a host is
    /// advertised after the file's own servers: with a credential per client when there is a
    /// secret, and otherwise with the file's username and password. Its host is the one clients
    /// are told, unless a relay among the file's own servers comes before it.
    pub open spec fn resolved(self, environment: RelayEnvironment<'_>) -> PeerConfigProviderView {
        let host = self.relay_host(environment);
        let port = self.relay_port(environment);
        let servers = servers_view(self.ice_servers@);
        let advertise = self.relay.enabled && host is Some;
        PeerConfigProviderView {
            base: ClientPeerConfigView {
                force_relay_only: self.force_relay_only,
                ice_servers: if advertise && !has_secret(environment.secret) {
                    servers + turn_entries(host->0, port, self.relay.username@, self.relay.credential@)
                } else {
                    servers
                },
            },
            ephemeral: if advertise && has_secret(environment.secret) {
                Some(EphemeralTurnView {
                    host: host->0,
                    port,
                    secret: environment.secret->0@,
                    ttl: environment.ttl,
                })
            } else {
                None
            },
            relay: if advertise && has_secret(environment.secret) {
                host
            } else if first_turn_host(servers) is Some {
                first_turn_host(servers)
            } else if advertise {
                host
            } else {
                None
            },
        }
    }

    /// The configuration of a file that was read and parsed, or the default when it was not: a
    /// missing or broken file is no reason to refuse to start.
    pub fn load(parsed: Option<PeerConfigFile>) -> (r: Self)
        ensures
            match parsed {
                Some(file) => r == file,
                None => r.is_default(),
            },
    {
        match parsed {
            Some(file) => file,
            None => PeerConfigFile::default(),
        }
    }

    /// Resolves everything that does not change, once, at start-up.
    pub fn resolve(self, environment: RelayEnvironment<'_>) -> (r: PeerConfigProvider)
        ensures
            r@ == self.resolved(environment),
    {
        let port: u16 = match self.relay.port {
            Some(port) => port,
            None => environment.port.unwrap_or(DEFAULT_TURN_PORT),
        };
        let host: Option<String> = match self.relay.host {
            Some(host) => Some(host),
            None => match environment.hostname {
                Some(host) => Some(host.to_owned()),
                None => None,
            },
        };
        let mut ice_servers = self.ice_servers;
        let mut ephemeral: Option<EphemeralTurn> = None;
        let mut relay = first_turn_host_in(&ice_servers);
        if self.relay.enabled {
            if let Some(host) = host {
                match environment.secret {
                    Some(secret) if !secret.is_empty() => {
                        relay = Some(host.clone());
                        ephemeral = Some(
                            EphemeralTurn { host, port, secret: secret.to_owned(), ttl: environment.ttl },
                        );
                    },
                    _ => {
                        push_turn_entries(
                            &mut ice_servers,
                            host.as_str(),
                            port,
                            self.relay.username.as_str(),
                            self.relay.credential.as_str(),
                        );
                        if relay.is_none() {
                            relay = Some(host);
                        }
                    },
                }
            }
        }
        PeerConfigProvider {
            base: ClientPeerConfig { force_relay_only: self.force_relay_only, ice_servers },
            ephemeral,
            relay,
        }
    }
}

/// A relay that issues credentials is advertised over both transports with the same one, after
/// all the other servers.
pub proof fn both_transports_carry_the_same_credential(provider: PeerConfigProviderView, now: Span, client: Seq<char>)
    requires
        provider.ephemeral is Some,
    ensures
        ({
            let others = provider.base.ice_servers;
            let servers = provider.issued_at(now, client).ice_servers;
            let turn = provider.ephemeral->0;
            let udp = servers[others.len() as int];
            let tcp = servers[others.len() as int + 1];
            &&& servers.len() == others.len() + 2
            &&& servers.take(others.len() as int) == others
            &&& udp.urls == UrlsView::One(turn_url(turn.host, turn.port, "udp"@))
            &&& tcp.urls == UrlsView::One(turn_url(turn.host, turn.port, "tcp"@))
            &&& udp.username is Some && udp.username == tcp.username
            &&& udp.credential is Some && udp.credential == tcp.credential
        }),
{
    let others = provider.base.ice_servers;
    let servers = provider.issued_at(now, client).ice_servers;
    assert(servers.take(others.len() as int) =~= others);
}

/// The servers in the file always come first; a relay never replaces them.
pub proof fn the_relay_is_appended(
    file: PeerConfigFile,
    environment: RelayEnvironment<'_>,
    now: Span,
    client: Seq<char>,
)
    ensures
        servers_view(file.ice_servers@).is_prefix_of(file.resolved(environment).issued_at(now, client).ice_servers),
{
    let servers = servers_view(file.ice_servers@);
    let issued = file.resolved(environment).issued_at(now, client).ice_servers;
    assert(issued.subrange(0, servers.len() as int) =~= servers);
}

/// A relay that is not enabled, or that has no host, is left out rather than advertised broken.
pub proof fn a_relay_without_a_host_is_left_out(
    file: PeerConfigFile,
    environment: RelayEnvironment<'_>,
    now: Span,
    client: Seq<char>,
)
    requires
        !file.relay.enabled || file.relay_host(environment) is None,
    ensures
        file.resolved(environment).issued_at(now, client).ice_servers == servers_view(file.ice_servers@),
{
}

/// An empty secret counts as no secret: the file's own username and password are advertised.
pub proof fn an_empty_secret_is_no_secret(
    file: PeerConfigFile,
    environment: RelayEnvironment<'_>,
    now: Span,
    client: Seq<char>,
)
    requires
        environment.secret is Some,
        environment.secret->0@.len() == 0,
    ensures
        file.resolved(environment) == file.resolved(RelayEnvironment { secret: None, ..environment }),
        file.resolved(environment).ephemeral is None,
        file.resolved(environment).issued_at(now, client) == file.resolved(environment).base,
{
}

/// The host that is reported is the whole one clients are told, whichever way the relay is
/// advertised: with a credential per client, or with the file's own.
pub proof fn the_relay_host_is_the_one_advertised(file: PeerConfigFile, environment: RelayEnvironment<'_>)
    requires
        file.relay.enabled,
        file.relay_host(environment) is Some,
        first_turn_host(servers_view(file.ice_servers@)) is None,
    ensures
        file.resolved(environment).relay_host() == file.relay_host(environment),
{
}

/// With a credential per client, the host that is reported is the relay's in any case.
pub proof fn a_relay_that_issues_credentials_is_reported(file: PeerConfigFile, environment: RelayEnvironment<'_>)
    requires
        file.resolved(environment).ephemeral is Some,
    ensures
        file.resolved(environment).relay_host() == Some(file.resolved(environment).ephemeral->0.host),
{
}

/// As many servers are issued as are counted, at every time and to every client.
pub proof fn the_advertised_count_is_what_is_issued(
    provider: PeerConfigProviderView,
    now: Span,
    client: Seq<char>,
)
    ensures
        provider.issued_at(now, client).ice_servers.len() == provider.advertised_count(),
{
}

/// Whether clients may only use a relay is what the file says, whatever else it says, and
/// whenever and to whomever it is told.
pub proof fn forcing_the_relay_is_up_to_the_file(
    file: PeerConfigFile,
    environment: RelayEnvironment<'_>,
    now: Span,
    client: Seq<char>,
)
    ensures
        file.resolved(environment).issued_at(now, client).force_relay_only == file.force_relay_only,
        file.resolved(environment).base.force_relay_only == file.force_relay_only,
{
}

/// The host of the relay is the file's if it names one, and else the environment's. Its port is
/// the file's, else the environment's, else 3478.
pub proof fn where_the_relay_is(file: PeerConfigFile, environment: RelayEnvironment<'_>)
    ensures
        file.relay.host matches Some(host) ==> file.relay_host(environment) == Some(host@),
        file.relay.host is None ==> match environment.hostname {
            Some(host) => file.relay_host(environment) == Some(host@),
            None => file.relay_host(environment) is None,
        },
        file.relay.port matches Some(port) ==> file.relay_port(environment) == port,
        file.relay.port is None ==> match environment.port {
            Some(port) => file.relay_port(environment) == port,
            None => file.relay_port(environment) == 3478,
        },
{
}

/// What a client is told of an enabled relay with a host: behind the file's own servers, its
/// address over UDP and then over TCP. With a secret, the username is the expiry and the client,
/// and the password is the one that goes with it under that secret; without, both are the
/// file's.
pub proof fn what_a_client_is_told_of_the_relay(
    file: PeerConfigFile,
    environment: RelayEnvironment<'_>,
    now: Span,
    client: Seq<char>,
)
    requires
        file.relay.enabled,
        file.relay_host(environment) is Some,
    ensures
        ({
            let own = servers_view(file.ice_servers@);
            let told = file.resolved(environment).issued_at(now, client).ice_servers;
            let n = own.len() as int;
            let place = "turn:"@ + file.relay_host(environment)->0 + ":"@ + crate::text::decimal(
                file.relay_port(environment) as nat,
            );
            let secret = if environment.secret is Some {
                environment.secret->0@
            } else {
                Seq::empty()
            };
            let username = if secret.len() > 0 {
                crate::text::decimal(crate::turn::expiry_of(now, environment.ttl)) + seq![':'] + client
            } else {
                file.relay.username@
            };
            let credential = if secret.len() > 0 {
                crate::turn::credential_of(secret, username)
            } else {
                file.relay.credential@
            };
            &&& told.len() == n + 2
            &&& forall|i: int| 0 <= i < n ==> #[trigger] told[i] == own[i]
            &&& told[n].urls == UrlsView::One(place + "?transport=udp"@)
            &&& told[n + 1].urls == UrlsView::One(place + "?transport=tcp"@)
            &&& told[n].username == Some(username) && told[n + 1].username == Some(username)
            &&& told[n].credential == Some(credential) && told[n + 1].credential == Some(credential)
            &&& file.resolved(environment).ephemeral is Some <==> secret.len() > 0
        }),
{
    let place = "turn:"@ + file.relay_host(environment)->0 + ":"@ + crate::text::decimal(
        file.relay_port(environment) as nat,
    );
    reveal_strlit("?transport=");
    reveal_strlit("udp");
    reveal_strlit("tcp");
    reveal_strlit("?transport=udp");
    reveal_strlit("?transport=tcp");
    assert(place + "?transport="@ + "udp"@ =~= place + "?transport=udp"@);
    assert(place + "?transport="@ + "tcp"@ =~= place + "?transport=tcp"@);
}

/// Without a usable file clients are told one STUN server, with no credential, and no relay.
pub proof fn what_a_client_is_told_by_default(
    file: PeerConfigFile,
    environment: RelayEnvironment<'_>,
    now: Span,
    client: Seq<char>,
)
    requires
        file.is_default(),
    ensures
        ({
            let told = file.resolved(environment).issued_at(now, client);
            &&& !told.force_relay_only
            &&& told.ice_servers.len() == 1
            &&& told.ice_servers[0].urls == UrlsView::One("stun:stun.l.google.com:19302"@)
            &&& told.ice_servers[0].username is None
            &&& told.ice_servers[0].credential is None
        }),
{
}

/// The host in a relay address is what stands between the scheme and the port or the parameters.
pub proof fn the_host_is_read_from_an_address(host: Seq<char>, tail: Seq<char>)
    requires
        forall|i: int| 0 <= i < host.len() ==> (#[trigger] host[i]) != ':' && host[i] != '?',
        host.len() > 0 ==> host[0] != '[',
        tail.len() == 0 || tail[0] == ':' || tail[0] == '?',
    ensures
        host_in_turn_url("turn:"@ + host + tail) == host,
{
    reveal_strlit("turn:");
    let rest = host + tail;
    assert(("turn:"@ + host + tail).skip(5) =~= rest);
    rest.index_of_first_ensures(':');
    let cut = up_to(rest, ':');
    cut.index_of_first_ensures('?');
    if tail.len() == 0 {
        assert(rest =~= host);
        assert(cut == host);
    } else {
        assert(rest[host.len() as int] == tail[0]);
        if tail[0] == ':' {
            assert(rest.index_of_first(':') == Some(host.len() as int));
            assert(cut =~= host);
        } else {
            assert(cut.len() > host.len());
            assert(cut[host.len() as int] == '?');
            assert(cut.contains('?'));
            assert(forall|i: int| 0 <= i < host.len() ==> cut[i] == host[i]);
            assert(cut.index_of_first('?') == Some(host.len() as int));
            assert(cut.take(host.len() as int) =~= host);
        }
    }
}

/// A host in brackets is read whole, brackets and colons included.
pub proof fn a_bracketed_host_is_read_whole(inside: Seq<char>, tail: Seq<char>)
    requires
        forall|i: int| 0 <= i < inside.len() ==> (#[trigger] inside[i]) != ']',
        tail.len() == 0 || tail[0] == ':' || tail[0] == '?',
    ensures
        host_in_turn_url("turn:"@ + (seq!['['] + inside + seq![']']) + tail) == seq!['['] + inside + seq![']'],
{
    reveal_strlit("turn:");
    let host = seq!['['] + inside + seq![']'];
    let rest = host + tail;
    assert(("turn:"@ + host + tail).skip(5) =~= rest);
    rest.index_of_first_ensures(']');
    assert(rest[inside.len() as int + 1] == ']');
    assert forall|i: int| 0 <= i < inside.len() + 1 implies rest[i] != ']' by {
        if i > 0 {
            assert(rest[i] == inside[i - 1]);
        }
    }
    assert(rest.index_of_first(']') == Some(inside.len() as int + 1));
    if tail.len() > 0 {
        assert(rest[host.len() as int] == tail[0]);
    }
    assert(rest.take(host.len() as int) =~= host);
}

/// The first relay in a list is the first server with a single address of the relay's scheme.
pub proof fn the_first_relay_in_a_list(servers: Seq<IceServerView>)
    ensures
        match first_turn_host(servers) {
            Some(host) => exists|i: int|
                {
                    &&& 0 <= i < servers.len()
                    &&& #[trigger] is_relay(servers[i])
                    &&& servers[i].urls matches UrlsView::One(url) && host == host_in_turn_url(url)
                    &&& forall|j: int| 0 <= j < i ==> !is_relay(#[trigger] servers[j])
                },
            None => forall|i: int| 0 <= i < servers.len() ==> !is_relay(#[trigger] servers[i]),
        },
    decreases servers.len(),
{
    reveal_strlit("turn:");
    if servers.len() > 0 {
        let first = servers[0];
        assert(turn_host(first) is Some <==> is_relay(first)) by {
            if let UrlsView::One(url) = first.urls {
                if is_relay(first) {
                    assert(url.take(5) =~= "turn:"@);
                }
                if turn_host(first) is Some {
                    assert(forall|i: int| 0 <= i < 5 ==> url[i] == #[trigger] url.take(5)[i]);
                    assert(url[0] == "turn:"@[0] && url[1] == "turn:"@[1] && url[2] == "turn:"@[2] && url[3]
                        == "turn:"@[3] && url[4] == "turn:"@[4]);
                }
            }
        }
        if is_relay(first) {
            assert(is_relay(servers[0]));
        } else {
            let rest = servers.skip(1);
            the_first_relay_in_a_list(rest);
            if first_turn_host(rest) is Some {
                let host = first_turn_host(rest)->0;
                let i = choose|i: int|
                    {
                        &&& 0 <= i < rest.len()
                        &&& #[trigger] is_relay(rest[i])
                        &&& rest[i].urls matches UrlsView::One(url) && host == host_in_turn_url(url)
                        &&& forall|j: int| 0 <= j < i ==> !is_relay(#[trigger] rest[j])
                    };
                assert(servers[i + 1] == rest[i]);
                assert(is_relay(servers[i + 1]));
                assert forall|j: int| 0 <= j < i + 1 implies !is_relay(#[trigger] servers[j]) by {
                    if j > 0 {
                        assert(servers[j] == rest[j - 1]);
                    }
                }
            } else {
                assert forall|j: int| 0 <= j < servers.len() implies !is_relay(#[trigger] servers[j]) by {
                    if j > 0 {
                        assert(servers[j] == rest[j - 1]);
                    }
                }
            }
        }
    }
}

/// A server with a single address of the relay's scheme.
pub open spec fn is_relay(server: IceServerView) -> bool {
    match server.urls {
        UrlsView::One(url) => {
            &&& url.len() >= 5
            &&& url[0] == 't'
            &&& url[1] == 'u'
            &&& url[2] == 'r'
            &&& url[3] == 'n'
            &&& url[4] == ':'
        },
        UrlsView::Many(_) => false,
    }
}

/// A fixed configuration is told to every client, at every time, as it is.
pub proof fn a_fixed_configuration_is_told_as_it_is(config: ClientPeerConfigView, now: Span, client: Seq<char>)
    ensures
        PeerConfigProviderView::fixed(config).issued_at(now, client) == config,
        PeerConfigProviderView::fixed(config).ephemeral is None,
        PeerConfigProviderView::fixed(config).relay_host() == first_turn_host(config.ice_servers),
{
}

/// Without a secret, a relay among the file's own servers is the one that is reported, since it
/// is the first that clients are told; without that and without a relay to advertise, none is.
pub proof fn the_relay_clients_are_told_first_is_reported(file: PeerConfigFile, environment: RelayEnvironment<'_>)
    requires
        environment.secret is None || environment.secret->0@.len() == 0,
    ensures
        ({
            let own = first_turn_host(servers_view(file.ice_servers@));
            &&& own is Some ==> file.resolved(environment).relay_host() == own
            &&& own is None && (!file.relay.enabled || file.relay_host(environment) is None)
                ==> file.resolved(environment).relay_host() is None
        }),
{
}

/// A credential lasts a day unless the environment says otherwise.
pub proof fn a_credential_lasts_a_day()
    ensures
        DEFAULT_TURN_TTL_SECS == 24 * 60 * 60,
{
}

} // verus!
