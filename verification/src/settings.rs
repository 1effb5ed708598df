//! The settings the process takes from its environment.

use crate::config::{copy_text, DEFAULT_TURN_TTL_SECS};
use crate::text::{decimal_text, parse_decimal};
use crate::time::Span;
use vstd::prelude::*;

verus! {

/// The port the server listens on when the environment names none.
pub const DEFAULT_PORT: u16 = 9736;

/// The variables of the environment that the server reads. One that is not set, or is not
/// text, is absent.
#[derive(Debug)]
pub struct Environment {
    /// `PORT`.
    pub port: Option<String>,
    /// `BIND`.
    pub bind: Option<String>,
    /// `PEER_CONFIG`.
    pub peer_config: Option<String>,
    /// `NAME`.
    pub name: Option<String>,
    /// `PUBLIC_HOSTNAME`.
    pub public_hostname: Option<String>,
    /// `HOSTNAME`.
    pub hostname: Option<String>,
    /// `ADDRESS`.
    pub address: Option<String>,
    /// `TURN_SECRET`.
    pub turn_secret: Option<String>,
    /// `TURN_TTL_SECONDS`.
    pub turn_ttl_seconds: Option<String>,
    /// `TURN_PORT`.
    pub turn_port: Option<String>,
}

/// Everything the process needs from its environment.
#[derive(Debug)]
pub struct Settings {
    /// The port to listen on.
    pub port: u16,
    /// The interface to bind, as the environment spells it.
    pub bind: Option<String>,
    pub name: Option<String>,
    /// The public hostname.
    pub hostname: Option<String>,
    pub peer_config_path: String,
    /// The address the status page reports.
    pub public_address: String,
    /// The secret shared with the relay.
    pub turn_secret: Option<String>,
    /// How long an issued credential stays valid.
    pub turn_ttl: Span,
    /// The port the relay listens on.
    pub turn_port: Option<u16>,
}

/// The number a variable holds, when it holds one no larger than `max`.
pub open spec fn number_in(variable: Option<String>, max: nat) -> Option<nat> {
    match variable {
        Some(text) => crate::text::parsed_decimal(text@, max),
        None => None,
    }
}

/// The text a variable holds. An empty one counts as unset.
pub open spec fn set_text(variable: Option<String>) -> Option<Seq<char>> {
    match variable {
        Some(text) => if text@.len() == 0 {
            None
        } else {
            Some(text@)
        },
        None => None,
    }
}

/// The port a variable names, or the default when it names none.
pub open spec fn port_in(variable: Option<String>) -> nat {
    match number_in(variable, u16::MAX as nat) {
        Some(port) => port,
        None => DEFAULT_PORT as nat,
    }
}

/// Reads a number from a variable.
fn read_number(variable: &Option<String>, max: u64) -> (r: Option<u64>)
    ensures
        match (r, number_in(*variable, max as nat)) {
            (Some(n), Some(m)) => n == m,
            (None, None) => true,
            _ => false,
        },
{
    match variable {
        Some(text) => parse_decimal(text.as_str(), max),
        None => None,
    }
}

/// Reads a text from a variable, taking an empty one as unset.
pub(crate) fn read_text(variable: &Option<String>) -> (r: Option<String>)
    ensures
        crate::config::optional_text(r) == set_text(*variable),
{
    match variable {
        Some(text) => if text.as_str().is_empty() {
            None
        } else {
            Some(text.clone())
        },
        None => None,
    }
}

/// The port a variable names. One that is no number falls back to the default silently.
pub fn read_port(variable: &Option<String>) -> (r: u16)
    ensures
        r == port_in(*variable),
{
    match read_number(variable, u16::MAX as u64) {
        Some(port) => port as u16,
        None => DEFAULT_PORT,
    }
}

/// The path of the peer configuration file.
pub open spec fn config_path_in(variable: Option<String>) -> Seq<char> {
    match variable {
        Some(path) => path@,
        None => "config/peerConfig.toml"@,
    }
}

/// The path of the peer configuration file.
pub(crate) fn read_config_path(variable: &Option<String>) -> (r: String)
    ensures
        r@ == config_path_in(*variable),
{
    match variable {
        Some(path) => path.clone(),
        None => "config/peerConfig.toml".to_owned(),
    }
}

/// The address reported to an operator: the variable's, or the loopback one.
pub open spec fn address_in(variable: Option<String>, port: nat) -> Seq<char> {
    match variable {
        Some(address) => address@,
        None => "http://127.0.0.1:"@ + crate::text::decimal(port),
    }
}

/// The address reported to an operator.
pub(crate) fn read_address(variable: &Option<String>, port: u16) -> (r: String)
    ensures
        r@ == address_in(*variable, port as nat),
{
    match variable {
        Some(address) => address.clone(),
        None => {
            let mut address = "http://127.0.0.1:".to_owned();
            address.append(decimal_text(port as u64).as_str());
            address
        },
    }
}

/// A network interface, by its address.
#[derive(Clone, Copy, PartialEq, Eq, Debug)]
pub enum Interface {
    V4([u8; 4]),
    V6([u16; 8]),
}

impl Interface {
    /// Whether the address stands for every interface there is.
    pub open spec fn is_wildcard(self) -> bool {
        match self {
            Interface::V4(bytes) => bytes@ == seq![0u8, 0, 0, 0],
            Interface::V6(groups) => groups@ == seq![0u16, 0, 0, 0, 0, 0, 0, 0],
        }
    }

    /// Whether the address stands for every interface there is.
    fn wildcard(&self) -> (r: bool)
        ensures
            r == self.is_wildcard(),
    {
        match self {
            Interface::V4(bytes) => {
                let zero = bytes[0] == 0 && bytes[1] == 0 && bytes[2] == 0 && bytes[3] == 0;
                assert(zero ==> bytes@ =~= seq![0u8, 0, 0, 0]);
                zero
            },
            Interface::V6(groups) => {
                let zero = groups[0] == 0 && groups[1] == 0 && groups[2] == 0 && groups[3] == 0 && groups[4] == 0
                    && groups[5] == 0 && groups[6] == 0 && groups[7] == 0;
                assert(zero ==> groups@ =~= seq![0u16, 0, 0, 0, 0, 0, 0, 0]);
                zero
            },
        }
    }
}

/// The interface a machine reaches itself on.
pub open spec fn loopback() -> Interface {
    Interface::V4([127, 0, 0, 1])
}

/// The interface the server listens on: the one the environment names, or else loopback.
pub open spec fn bound_of(named: Option<Interface>) -> Interface {
    match named {
        Some(interface) => interface,
        None => loopback(),
    }
}

/// The interface the health probe connects to: the one the server listens on. A wildcard is not
/// an address to connect to, so it is loopback then.
pub open spec fn probed_of(named: Option<Interface>) -> Interface {
    if bound_of(named).is_wildcard() {
        loopback()
    } else {
        bound_of(named)
    }
}

/// The interface the server listens on. Loopback by default: a reverse proxy stands in front.
pub fn bound(named: Option<Interface>) -> (r: Interface)
    ensures
        r == bound_of(named),
{
    match named {
        Some(interface) => interface,
        None => Interface::V4([127, 0, 0, 1]),
    }
}

/// The interface the health probe connects to.
pub fn probed(named: Option<Interface>) -> (r: Interface)
    ensures
        r == probed_of(named),
{
    let interface = bound(named);
    if interface.wildcard() {
        bound(None)
    } else {
        interface
    }
}

/// The health probe cannot drift away from the server: it connects to the interface the server
/// listens on, or to loopback when the server listens on every one. It never connects to a
/// wildcard.
pub proof fn the_probe_goes_where_the_server_listens(named: Option<Interface>)
    ensures
        probed_of(named) == bound_of(named) || (bound_of(named).is_wildcard() && probed_of(named) == loopback()),
        !probed_of(named).is_wildcard(),
{
    assert(loopback()->V4_0@[0] == 127);
}

impl Settings {
    /// The settings an environment gives. The public hostname comes first and the hostname
    /// second: in a container the hostname is the container's id, a name that resolves
    /// nowhere.
    pub fn from_env(environment: &Environment) -> (r: Self)
        ensures
            r.port == port_in(environment.port),
            crate::config::optional_text(r.bind) == crate::config::optional_text(environment.bind),
            crate::config::optional_text(r.name) == set_text(environment.name),
            crate::config::optional_text(r.hostname) == match set_text(environment.public_hostname) {
                Some(hostname) => Some(hostname),
                None => set_text(environment.hostname),
            },
            r.peer_config_path@ == config_path_in(environment.peer_config),
            r.public_address@ == address_in(environment.address, r.port as nat),
            crate::config::optional_text(r.turn_secret) == set_text(environment.turn_secret),
            r.turn_ttl.as_nanos() == crate::time::NANOS_PER_SEC * match number_in(
                environment.turn_ttl_seconds,
                u64::MAX as nat,
            ) {
                Some(secs) => secs,
                None => DEFAULT_TURN_TTL_SECS as nat,
            },
            match (r.turn_port, number_in(environment.turn_port, u16::MAX as nat)) {
                (Some(port), Some(number)) => port == number,
                (None, None) => true,
                _ => false,
            },
    {
        let port = read_port(&environment.port);
        let hostname = match read_text(&environment.public_hostname) {
            Some(hostname) => Some(hostname),
            None => read_text(&environment.hostname),
        };
        let ttl_secs: u64 = match read_number(&environment.turn_ttl_seconds, u64::MAX) {
            Some(secs) => secs,
            None => DEFAULT_TURN_TTL_SECS,
        };
        let turn_port: Option<u16> = match read_number(&environment.turn_port, u16::MAX as u64) {
            Some(port) => Some(port as u16),
            None => None,
        };
        Settings {
            port,
            bind: copy_text(&environment.bind),
            name: read_text(&environment.name),
            hostname,
            peer_config_path: read_config_path(&environment.peer_config),
            public_address: read_address(&environment.address, port),
            turn_secret: read_text(&environment.turn_secret),
            turn_ttl: Span::from_secs(ttl_secs),
            turn_port,
        }
    }
}

/// A port that is written in decimal is read; anything else gives the default.
pub proof fn a_port_is_read_or_the_default(variable: Option<String>, n: nat)
    ensures
        variable is None ==> port_in(variable) == 9736,
        variable matches Some(text) ==> {
            &&& text@ == crate::text::decimal(n) && n <= 65535 ==> port_in(variable) == n
            &&& text@ == crate::text::decimal(n) && n > 65535 ==> port_in(variable) == 9736
            &&& text@.len() == 0 ==> port_in(variable) == 9736
            &&& text@.len() > 0 && !('0' <= text@.last() <= '9') ==> port_in(variable) == 9736
        },
{
    if let Some(text) = variable {
        crate::text::a_number_reads_back(n, 65535);
        crate::text::only_digits_are_read(text@, 65535);
    }
}

/// A number in a variable is read when it is in decimal and small enough.
pub proof fn a_number_is_read_or_nothing(variable: Option<String>, n: nat, max: nat)
    ensures
        variable is None ==> number_in(variable, max) is None,
        variable matches Some(text) ==> {
            &&& text@ == crate::text::decimal(n) && n <= max ==> number_in(variable, max) == Some(n)
            &&& text@ == crate::text::decimal(n) && n > max ==> number_in(variable, max) is None
            &&& text@.len() == 0 ==> number_in(variable, max) is None
        },
{
    if let Some(text) = variable {
        crate::text::a_number_reads_back(n, max);
        crate::text::only_digits_are_read(text@, max);
    }
}

/// An empty variable counts as unset; any other is taken as it is.
pub proof fn an_empty_variable_is_unset(variable: Option<String>)
    ensures
        variable is None ==> set_text(variable) is None,
        variable matches Some(text) ==> {
            &&& text@.len() == 0 ==> set_text(variable) is None
            &&& text@.len() > 0 ==> set_text(variable) == Some(text@)
        },
{
}

/// A path or an address that is given is taken as it is, even an empty one; otherwise the file
/// is where it is looked for by default, and the address is loopback's.
pub proof fn paths_and_addresses_are_taken_as_given(variable: Option<String>, port: nat)
    ensures
        variable matches Some(text) ==> config_path_in(variable) == text@ && address_in(variable, port) == text@,
        variable is None ==> {
            &&& config_path_in(variable) == "config/peerConfig.toml"@
            &&& address_in(variable, port) == "http://127.0.0.1:"@ + crate::text::decimal(port)
        },
{
}

/// The server listens where it is told to, wildcards included, and on 127.0.0.1 otherwise.
pub proof fn the_server_listens_where_it_is_told_to(named: Option<Interface>)
    ensures
        named matches Some(interface) ==> bound_of(named) == interface,
        named is None ==> (bound_of(named) matches Interface::V4(bytes) && bytes@ == seq![127u8, 0, 0, 1]),
        named matches Some(Interface::V4(bytes)) ==> {
            &&& (forall|i: int| 0 <= i < 4 ==> #[trigger] bytes@[i] == 0) ==> probed_of(named) == bound_of(None)
            &&& (exists|i: int| 0 <= i < 4 && #[trigger] bytes@[i] != 0) ==> probed_of(named) == Interface::V4(bytes)
        },
        named matches Some(Interface::V6(groups)) ==> {
            &&& (forall|i: int| 0 <= i < 8 ==> #[trigger] groups@[i] == 0) ==> probed_of(named) == bound_of(None)
            &&& (exists|i: int| 0 <= i < 8 && #[trigger] groups@[i] != 0) ==> probed_of(named) == Interface::V6(groups)
        },
{
    if let Some(Interface::V4(bytes)) = named {
        if forall|i: int| 0 <= i < 4 ==> #[trigger] bytes@[i] == 0 {
            assert(bytes@ =~= seq![0u8, 0, 0, 0]);
        }
    }
    if let Some(Interface::V6(groups)) = named {
        if forall|i: int| 0 <= i < 8 ==> #[trigger] groups@[i] == 0 {
            assert(groups@ =~= seq![0u16, 0, 0, 0, 0, 0, 0, 0]);
        }
    }
    assert([127u8, 0, 0, 1]@ =~= seq![127u8, 0, 0, 1]);
}

} // verus!
