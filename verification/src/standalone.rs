//! The configuration of the standalone server: one relay entry with a shared credential,
//! resolved once at start-up, and no settings for a relay that issues its own.

use crate::config::{
    copy_text, default_ice_servers, ClientPeerConfig, ClientPeerConfigView,
    IceServer, IceServerView, Urls, UrlsView, DEFAULT_TURN_PORT,
};
use crate::settings::{read_address, read_config_path, read_port, read_text, Environment};
use crate::text::decimal_text;
use vstd::prelude::*;

verus! {

/// The relay section of the peer configuration file.
#[derive(Debug)]
pub struct RelaySettings {
    pub enabled: bool,
    /// Falls back to the hostname in the environment.
    pub host: Option<String>,
    pub port: u16,
    pub username: String,
    pub credential: String,
}

impl Default for RelaySettings {
    fn default() -> (r: Self)
        ensures
            !r.enabled,
            r.host is None,
            r.port == DEFAULT_TURN_PORT,
            r.username@.len() == 0,
            r.credential@.len() == 0,
    {
        RelaySettings {
            enabled: false,
            host: None,
            port: DEFAULT_TURN_PORT,
            username: String::new(),
            credential: String::new(),
        }
    }
}

/// The peer configuration file.
#[derive(Debug)]
pub struct PeerConfigFile {
    pub force_relay_only: bool,
    pub relay: RelaySettings,
    pub ice_servers: Vec<IceServer>,
}

impl Default for PeerConfigFile {
    fn default() -> (r: Self)
        ensures
            r.is_default(),
    {
        PeerConfigFile {
            force_relay_only: false,
            relay: RelaySettings::default(),
            ice_servers: default_ice_servers(),
        }
    }
}

/// The relay as clients are told about it: no transport, so UDP.
pub open spec fn relay_entry(
    host: Seq<char>,
    port: u16,
    username: Seq<char>,
    credential: Seq<char>,
) -> IceServerView {
    IceServerView {
        urls: UrlsView::One("turn:"@ + host + ":"@ + crate::text::decimal(port as nat)),
        username: Some(username),
        credential: Some(credential),
    }
}

impl PeerConfigFile {
    /// What is served when there is no usable file: one STUN server and no relay.
    pub open spec fn is_default(self) -> bool {
        &&& !self.force_relay_only
        &&& !self.relay.enabled
        &&& self.relay.host is None
        &&& self.relay.port == DEFAULT_TURN_PORT
        &&& self.relay.username@.len() == 0
        &&& self.relay.credential@.len() == 0
        &&& crate::config::servers_view(self.ice_servers@) == seq![crate::config::default_stun_server()]
    }

    /// The host of the relay: the file's, or else the environment's.
    pub open spec fn relay_host(self, hostname: Option<&str>) -> Option<Seq<char>> {
        match self.relay.host {
            Some(host) => Some(host@),
            None => match hostname {
                Some(host) => Some(host@),
                None => None,
            },
        }
    }

    /// What every client is told: the file's servers, and after them the relay when it is
    /// enabled and has a host.
    pub open spec fn resolved(self, hostname: Option<&str>) -> ClientPeerConfigView {
        let servers = crate::config::servers_view(self.ice_servers@);
        ClientPeerConfigView {
            force_relay_only: self.force_relay_only,
            ice_servers: match self.relay_host(hostname) {
                Some(host) => if self.relay.enabled {
                    servers.push(relay_entry(host, self.relay.port, self.relay.username@, self.relay.credential@))
                } else {
                    servers
                },
                None => servers,
            },
        }
    }

    /// The configuration of a file that was read and parsed, or the default when it was not.
    pub fn load(parsed: Option<PeerConfigFile>) -> (r: Self)
        ensures
            match parsed {
                Some(file) => r == file,
                None => r.is_default(),
            },
    {
        match parsed {
            Some(file) => file,
            None => PeerConfigFile::default(),
        }
    }

    /// Resolves what every client is told, once, at start-up.
    pub fn resolve(self, hostname: Option<&str>) -> (r: ClientPeerConfig)
        ensures
            r@ == self.resolved(hostname),
    {
        let host: Option<String> = match self.relay.host {
            Some(host) => Some(host),
            None => match hostname {
                Some(host) => Some(host.to_owned()),
                None => None,
            },
        };
        let mut ice_servers = self.ice_servers;
        if self.relay.enabled {
            if let Some(host) = host {
                let ghost before = ice_servers@;
                let mut url = "turn:".to_owned();
                url.append(host.as_str());
                url.append(":");
                url.append(decimal_text(self.relay.port as u64).as_str());
                let server = IceServer {
                    urls: Urls::One(url),
                    username: Some(self.relay.username),
                    credential: Some(self.relay.credential),
                };
                ice_servers.push(server);
                assert(crate::config::servers_view(ice_servers@) == crate::config::servers_view(before).push(server@));
            }
        }
        ClientPeerConfig { force_relay_only: self.force_relay_only, ice_servers }
    }
}

/// Everything the process needs from its environment.
#[derive(Debug)]
pub struct Settings {
    /// The port to listen on.
    pub port: u16,
    /// The interface to bind, as the environment spells it.
    pub bind: Option<String>,
    pub name: Option<String>,
    /// The host of the relay when the file names none.
    pub hostname: Option<String>,
    pub peer_config_path: String,
    /// The address the status page reports.
    pub public_address: String,
}

impl Settings {
    /// The settings an environment gives.
    pub fn from_env(environment: &Environment) -> (r: Self)
        ensures
            r.port == crate::settings::port_in(environment.port),
            crate::config::optional_text(r.bind) == crate::config::optional_text(environment.bind),
            crate::config::optional_text(r.name) == crate::settings::set_text(environment.name),
            crate::config::optional_text(r.hostname) == crate::settings::set_text(environment.hostname),
            r.peer_config_path@ == crate::settings::config_path_in(environment.peer_config),
            r.public_address@ == crate::settings::address_in(environment.address, r.port as nat),
    {
        let port = read_port(&environment.port);
        Settings {
            port,
            bind: copy_text(&environment.bind),
            name: read_text(&environment.name),
            hostname: read_text(&environment.hostname),
            peer_config_path: read_config_path(&environment.peer_config),
            public_address: read_address(&environment.address, port),
        }
    }
}

/// What every client is told: the file's own servers and, if the relay is enabled and has a
/// host, one more, with the file's username and password. Whether only a relay may be used is
/// what the file says. The host is the file's, or else the environment's.
pub proof fn what_every_client_is_told(file: PeerConfigFile, hostname: Option<&str>)
    ensures
        ({
            let own = crate::config::servers_view(file.ice_servers@);
            let told = file.resolved(hostname).ice_servers;
            let n = own.len() as int;
            &&& file.resolved(hostname).force_relay_only == file.force_relay_only
            &&& told.len() >= n
            &&& forall|i: int| 0 <= i < n ==> #[trigger] told[i] == own[i]
            &&& file.relay.enabled && (file.relay.host is Some || hostname is Some) ==> {
                let host = if file.relay.host is Some {
                    file.relay.host->0@
                } else {
                    hostname->0@
                };
                &&& told.len() == n + 1
                &&& told[n].urls == UrlsView::One("turn:"@ + host + ":"@ + crate::text::decimal(file.relay.port as nat))
                &&& told[n].username == Some(file.relay.username@)
                &&& told[n].credential == Some(file.relay.credential@)
            }
            &&& !file.relay.enabled || (file.relay.host is None && hostname is None) ==> told.len() == n
        }),
{
}

/// Without a usable file clients are told one STUN server and no relay.
pub proof fn what_every_client_is_told_by_default(file: PeerConfigFile, hostname: Option<&str>)
    requires
        file.is_default(),
    ensures
        ({
            let told = file.resolved(hostname);
            &&& !told.force_relay_only
            &&& told.ice_servers.len() == 1
            &&& told.ice_servers[0].urls == UrlsView::One("stun:stun.l.google.com:19302"@)
            &&& told.ice_servers[0].username is None
            &&& told.ice_servers[0].credential is None
        }),
{
}

} // verus!
