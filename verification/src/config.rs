//! The client configuration: the private endpoints, and when a configuration is accepted.

use vstd::prelude::*;
use vstd::string::*;

use crate::addr::Ipv4Addr;

verus! {

/// A private server.
#[derive(Clone, Debug)]
pub struct Endpoint {
    pub host: String,
    pub port: u16,
    pub ipv4: Option<Ipv4Addr>,
}

/// A proxy that the game process is set up to use.
#[derive(Clone, Copy, Debug, PartialEq, Eq, Structural)]
pub struct ProxyEndpoint {
    pub ipv4: Ipv4Addr,
    pub port: u16,
}

#[derive(Clone, Debug)]
pub struct ClientConfig {
    pub game: Endpoint,
    pub tls: Endpoint,
    pub proxy: Option<ProxyEndpoint>,
}

impl ClientConfig {
    /// Whether both endpoints have a host.
    pub open spec fn has_hosts(self) -> bool {
        self.game.host@.len() > 0 && self.tls.host@.len() > 0
    }
}

/// What came of reading and parsing the configuration file; an error comes as its text.
pub enum ConfigFile {
    Unreadable(String),
    Invalid(String),
    Parsed(ClientConfig),
}

/// Accepts a configuration, or says in words why there is none.
pub fn accept(path: &str, file: ConfigFile) -> (config: Result<ClientConfig, String>)
    ensures
        match file {
            ConfigFile::Unreadable(error) => config matches Err(text) && text@ == "cannot read "@
                + path@ + ": "@ + error@,
            ConfigFile::Invalid(error) => config matches Err(text) && text@ == "invalid "@ + path@
                + ": "@ + error@,
            ConfigFile::Parsed(parsed) => if parsed.has_hosts() {
                config matches Ok(accepted) && accepted == parsed
            } else {
                config matches Err(text) && text@ == "endpoint host cannot be empty"@
            },
        },
{
    match file {
        ConfigFile::Unreadable(error) => {
            let mut text = "cannot read ".to_owned();
            text.append(path);
            text.append(": ");
            text.append(error.as_str());
            Err(text)
        },
        ConfigFile::Invalid(error) => {
            let mut text = "invalid ".to_owned();
            text.append(path);
            text.append(": ");
            text.append(error.as_str());
            Err(text)
        },
        ConfigFile::Parsed(config) => {
            if config.game.host.as_str().is_empty() || config.tls.host.as_str().is_empty() {
                Err("endpoint host cannot be empty".to_owned())
            } else {
                Ok(config)
            }
        },
    }
}

/// The configuration that was accepted; why there is none is not passed on.
pub fn get(loaded: &Result<ClientConfig, String>) -> (config: Result<&ClientConfig, &'static str>)
    ensures
        match loaded {
            Ok(accepted) => config matches Ok(c) && *c == *accepted,
            Err(_) => config matches Err(text) && text@ == "client configuration unavailable"@,
        },
{
    match loaded {
        Ok(config) => Ok(config),
        Err(_) => Err("client configuration unavailable"),
    }
}

/// Whether an address and a port are those of the configured proxy.
pub fn is_configured_proxy_endpoint(
    proxy: Option<&ProxyEndpoint>,
    ip: Ipv4Addr,
    port: u16,
) -> (found: bool)
    ensures
        found == (proxy matches Some(p) && p.ipv4 == ip && p.port == port),
{
    match proxy {
        Some(proxy) => proxy.ipv4 == ip && proxy.port == port,
        None => false,
    }
}

/// A configuration has its hosts exactly where neither is empty, whatever else it holds.
pub proof fn hosts_are_all_that_is_asked_for(config: ClientConfig)
    ensures
        config.has_hosts() <==> config.game.host@ != Seq::<char>::empty() && config.tls.host@
            != Seq::<char>::empty(),
{
    if config.game.host@.len() == 0 {
        assert(config.game.host@ == Seq::<char>::empty());
    }
    if config.tls.host@.len() == 0 {
        assert(config.tls.host@ == Seq::<char>::empty());
    }
}

}
