//! The two modules: what each sets up, and which functions of the system it hooks.

use vstd::prelude::*;
use vstd::string::*;

use crate::addr::SocketAddrV4;
use crate::config::{get, ClientConfig};
use crate::relay::{ProxyPorts, RelayError, RelayRequest, RelayTask, TlsPorts};
use crate::route::official_game_ip;

verus! {

/// The module for requests over WinHTTP, name lookups and certificate checks.
pub struct Network;

/// The module for connections.
pub struct Socket;

#[derive(Clone, Copy, Debug, PartialEq, Eq, Structural)]
pub enum ModuleType {
    Network,
    Socket,
}

/// What runs at a hooked function.
#[derive(Clone, Copy, Debug, PartialEq, Eq, Structural)]
pub enum Callback {
    Connect,
    WinHttpConnect,
    GetIeProxyConfig,
    GetProxyForUrl,
    GetAddrInfo,
    VerifyCertificateChainPolicy,
}

/// A function of the system that is hooked.
pub struct Hook {
    pub module: &'static str,
    pub symbol: &'static str,
    /// Whether the callback runs in place of the function, or before it.
    pub replaces: bool,
    /// Whether the module cannot do without.
    pub required: bool,
    pub callback: Callback,
}

/// A hook in mathematical terms.
pub struct HookPlan {
    pub module: Seq<char>,
    pub symbol: Seq<char>,
    pub replaces: bool,
    pub required: bool,
    pub callback: Callback,
}

impl View for Hook {
    type V = HookPlan;

    open spec fn view(&self) -> HookPlan {
        HookPlan {
            module: self.module@,
            symbol: self.symbol@,
            replaces: self.replaces,
            required: self.required,
            callback: self.callback,
        }
    }
}

/// Hooks in mathematical terms.
pub open spec fn plans(hooks: Seq<Hook>) -> Seq<HookPlan> {
    hooks.map_values(|hook: Hook| hook@)
}

/// What came of putting a hook in place.
pub enum HookOutcome {
    Done,
    /// The module does without, and reports it.
    Skipped(String),
    /// The module cannot start.
    Failed,
}

impl Hook {
    fn new(
        module: &'static str,
        symbol: &'static str,
        replaces: bool,
        required: bool,
        callback: Callback,
    ) -> (hook: Hook)
        ensures
            hook@ == (HookPlan { module: module@, symbol: symbol@, replaces, required, callback }),
    {
        Hook { module, symbol, replaces, required, callback }
    }

    /// What follows from the attempt to put the hook in place; an error comes as its text.
    pub fn attached(&self, result: Result<(), &str>) -> (outcome: HookOutcome)
        ensures
            match result {
                Ok(_) => outcome is Done,
                Err(error) => if self.required {
                    outcome is Failed
                } else {
                    outcome matches HookOutcome::Skipped(text) && text@ == (if self.replaces {
                        "optional network replacement unavailable: "@
                    } else {
                        "optional network hook unavailable: "@
                    }) + self.module@ + "!"@ + self.symbol@ + ": "@ + error@
                },
            },
    {
        let error = match result {
            Ok(_) => return HookOutcome::Done,
            Err(error) => error,
        };
        if self.required {
            return HookOutcome::Failed;
        }
        let mut text = if self.replaces {
            "optional network replacement unavailable: ".to_owned()
        } else {
            "optional network hook unavailable: ".to_owned()
        };
        text.append(self.module);
        text.append("!");
        text.append(self.symbol);
        text.append(": ");
        text.append(error);
        HookOutcome::Skipped(text)
    }
}

impl Network {
    pub fn get_module_type(&self) -> (module: ModuleType)
        ensures
            module == ModuleType::Network,
    {
        ModuleType::Network
    }

    /// The functions that the module hooks, in order.
    pub fn hooks(&self) -> (hooks: Vec<Hook>)
        ensures
            plans(hooks@) == seq![
                HookPlan {
                    module: "winhttp.dll"@,
                    symbol: "WinHttpConnect"@,
                    replaces: false,
                    required: true,
                    callback: Callback::WinHttpConnect,
                },
                HookPlan {
                    module: "WinHttp.dll"@,
                    symbol: "WinHttpGetIEProxyConfigForCurrentUser"@,
                    replaces: true,
                    required: false,
                    callback: Callback::GetIeProxyConfig,
                },
                HookPlan {
                    module: "WinHttp.dll"@,
                    symbol: "WinHttpGetProxyForUrl"@,
                    replaces: true,
                    required: false,
                    callback: Callback::GetProxyForUrl,
                },
                HookPlan {
                    module: "Ws2_32.dll"@,
                    symbol: "getaddrinfo"@,
                    replaces: false,
                    required: false,
                    callback: Callback::GetAddrInfo,
                },
                HookPlan {
                    module: "Ws2_32.dll"@,
                    symbol: "gethostbyname"@,
                    replaces: false,
                    required: false,
                    callback: Callback::GetAddrInfo,
                },
                HookPlan {
                    module: "Crypt32.dll"@,
                    symbol: "CertVerifyCertificateChainPolicy"@,
                    replaces: true,
                    required: false,
                    callback: Callback::VerifyCertificateChainPolicy,
                },
            ],
    {
        let mut hooks: Vec<Hook> = Vec::new();
        hooks.push(
            Hook::new("winhttp.dll", "WinHttpConnect", false, true, Callback::WinHttpConnect),
        );
        hooks.push(
            Hook::new(
                "WinHttp.dll",
                "WinHttpGetIEProxyConfigForCurrentUser",
                true,
                false,
                Callback::GetIeProxyConfig,
            ),
        );
        hooks.push(
            Hook::new(
                "WinHttp.dll",
                "WinHttpGetProxyForUrl",
                true,
                false,
                Callback::GetProxyForUrl,
            ),
        );
        hooks.push(Hook::new("Ws2_32.dll", "getaddrinfo", false, false, Callback::GetAddrInfo));
        hooks.push(Hook::new("Ws2_32.dll", "gethostbyname", false, false, Callback::GetAddrInfo));
        hooks.push(
            Hook::new(
                "Crypt32.dll",
                "CertVerifyCertificateChainPolicy",
                true,
                false,
                Callback::VerifyCertificateChainPolicy,
            ),
        );
        hooks
    }

    /// The event of a module that has started.
    pub fn started(&self) -> (event: &'static str)
        ensures
            event@
                == "network hooks attached with process-local SDK proxy bypass, DNS and certificate compatibility fallbacks"@,
    {
        "network hooks attached with process-local SDK proxy bypass, DNS and certificate compatibility fallbacks"
    }
}

/// Why the module for connections cannot start.
#[derive(Clone, Copy, Debug, PartialEq, Eq, Structural)]
pub enum SocketError {
    ConfigUnavailable,
    GameAddressMissing,
    TlsAddressMissing,
    Relay(RelayError),
}

impl SocketError {
    /// The error in words.
    pub open spec fn words(self) -> Seq<char> {
        match self {
            SocketError::ConfigUnavailable => "client configuration unavailable"@,
            SocketError::GameAddressMissing => "game.ipv4 is required"@,
            SocketError::TlsAddressMissing => "tls.ipv4 is required"@,
            SocketError::Relay(error) => error.words(),
        }
    }

    pub fn message(&self) -> (text: &'static str)
        ensures
            text@ == self.words(),
    {
        match self {
            SocketError::ConfigUnavailable => "client configuration unavailable",
            SocketError::GameAddressMissing => "game.ipv4 is required",
            SocketError::TlsAddressMissing => "tls.ipv4 is required",
            SocketError::Relay(error) => error.message(),
        }
    }
}

/// The private servers.
#[derive(Clone, Copy, Debug, PartialEq, Eq, Structural)]
pub struct Servers {
    pub game: SocketAddrV4,
    pub tls: SocketAddrV4,
}

/// The private servers of a configuration, if it knows the addresses of both.
pub open spec fn servers_of(loaded: Result<ClientConfig, String>) -> Result<Servers, SocketError> {
    match loaded {
        Err(_) => Err(SocketError::ConfigUnavailable),
        Ok(config) => match (config.game.ipv4, config.tls.ipv4) {
            (None, _) => Err(SocketError::GameAddressMissing),
            (_, None) => Err(SocketError::TlsAddressMissing),
            (Some(game), Some(tls)) => Ok(
                Servers {
                    game: SocketAddrV4 { ip: game, port: config.game.port },
                    tls: SocketAddrV4 { ip: tls, port: config.tls.port },
                },
            ),
        },
    }
}

impl Socket {
    pub fn get_module_type(&self) -> (module: ModuleType)
        ensures
            module == ModuleType::Socket,
    {
        ModuleType::Socket
    }

    /// Sets up both registries of relays. `first_relay` is to be opened next, and then the hooks.
    pub fn init(
        &self,
        loaded: &Result<ClientConfig, String>,
        tls_ports: &mut TlsPorts,
        proxy_ports: &mut ProxyPorts,
    ) -> (servers: Result<Servers, SocketError>)
        ensures
            match servers_of(*loaded) {
                Err(error) => {
                    &&& servers == Err::<Servers, SocketError>(error)
                    &&& final(tls_ports)@ == old(tls_ports)@
                    &&& final(proxy_ports)@ == old(proxy_ports)@
                },
                Ok(known) => {
                    &&& final(tls_ports)@ == if old(tls_ports)@ is Some {
                        old(tls_ports)@
                    } else {
                        Some(Map::<u32, u16>::empty())
                    }
                    &&& final(proxy_ports)@ == if old(tls_ports)@ is Some || old(
                        proxy_ports,
                    )@ is Some {
                        old(proxy_ports)@
                    } else {
                        Some(Map::<u64, u16>::empty())
                    }
                    &&& servers == if old(tls_ports)@ is Some {
                        Err::<Servers, SocketError>(
                            SocketError::Relay(RelayError::TlsRegistryTaken),
                        )
                    } else if old(proxy_ports)@ is Some {
                        Err::<Servers, SocketError>(
                            SocketError::Relay(RelayError::ProxyRegistryTaken),
                        )
                    } else {
                        Ok::<Servers, SocketError>(known)
                    }
                },
            },
    {
        let config = match get(loaded) {
            Ok(config) => config,
            Err(_) => return Err(SocketError::ConfigUnavailable),
        };
        let game = match config.game.ipv4 {
            Some(ip) => SocketAddrV4::new(ip, config.game.port),
            None => return Err(SocketError::GameAddressMissing),
        };
        let tls = match config.tls.ipv4 {
            Some(ip) => SocketAddrV4::new(ip, config.tls.port),
            None => return Err(SocketError::TlsAddressMissing),
        };
        if let Err(error) = tls_ports.set() {
            return Err(SocketError::Relay(error));
        }
        if let Err(error) = proxy_ports.set() {
            return Err(SocketError::Relay(error));
        }
        Ok(Servers { game, tls })
    }

    /// The relay that is opened before any connection asks for one: that for the official game
    /// server, with the servers that `init` gives.
    pub fn first_relay(&self, servers: Servers, config: &ClientConfig) -> (asked: RelayRequest)
        ensures
            asked.task == (RelayTask::Protocol {
                origin_ip: official_game_ip(),
                game: servers.game,
                tls: servers.tls,
            }),
            asked.tls_host@ == config.tls.host@,
    {
        let Servers { game, tls } = servers;
        RelayRequest {
            task: RelayTask::Protocol { origin_ip: official_game_ip(), game, tls },
            tls_host: config.tls.host.as_str().to_owned(),
        }
    }

    /// The functions that the module hooks, in order.
    pub fn hooks(&self) -> (hooks: Vec<Hook>)
        ensures
            plans(hooks@) == seq![
                HookPlan {
                    module: "Ws2_32.dll"@,
                    symbol: "connect"@,
                    replaces: false,
                    required: true,
                    callback: Callback::Connect,
                },
                HookPlan {
                    module: "Ws2_32.dll"@,
                    symbol: "WSAConnect"@,
                    replaces: false,
                    required: true,
                    callback: Callback::Connect,
                },
            ],
    {
        let mut hooks: Vec<Hook> = Vec::new();
        hooks.push(Hook::new("Ws2_32.dll", "connect", false, true, Callback::Connect));
        hooks.push(Hook::new("Ws2_32.dll", "WSAConnect", false, true, Callback::Connect));
        hooks
    }

    /// The event of a module that has started.
    pub fn started(&self) -> (event: &'static str)
        ensures
            event@ == "socket hooks attached to connect and WSAConnect"@,
    {
        "socket hooks attached to connect and WSAConnect"
    }
}

// Laws.

/// The module for connections starts with the servers of the configuration, and with nothing less
/// than the addresses of both; the port of a server is that of its endpoint.
pub proof fn servers_are_those_of_the_configuration(config: ClientConfig, error: String)
    ensures
        match servers_of(Ok(config)) {
            Ok(servers) => {
                &&& config.game.ipv4 == Some(servers.game.ip)
                &&& config.tls.ipv4 == Some(servers.tls.ip)
                &&& servers.game.port == config.game.port
                &&& servers.tls.port == config.tls.port
            },
            Err(missing) => missing == if config.game.ipv4 is None {
                SocketError::GameAddressMissing
            } else {
                SocketError::TlsAddressMissing
            } && (config.game.ipv4 is None || config.tls.ipv4 is None),
        },
        servers_of(Err(error)) == Err::<Servers, SocketError>(SocketError::ConfigUnavailable),
{
}

/// A hook is planned as it is written down, and hooks in their order.
pub proof fn hooks_are_planned_as_written(hooks: Seq<Hook>)
    ensures
        plans(hooks).len() == hooks.len(),
        forall|i: int|
            0 <= i < hooks.len() ==> {
                let plan = #[trigger] plans(hooks)[i];
                &&& plan.module == hooks[i].module@
                &&& plan.symbol == hooks[i].symbol@
                &&& plan.replaces == hooks[i].replaces
                &&& plan.required == hooks[i].required
                &&& plan.callback == hooks[i].callback
            },
{
}

/// An error of a registry is given in its own words.
pub proof fn errors_of_registries_keep_their_words(error: RelayError)
    ensures
        SocketError::Relay(error).words() == error.words(),
{
}

}
