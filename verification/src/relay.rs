//! The local relays: which origin is served on which port of this machine.

use std::collections::HashMap;

use vstd::prelude::*;
use vstd::std_specs::hash::*;
use vstd::std_specs::iter::IteratorSpec;
use vstd::string::*;

use crate::addr::{address_numbers_are_injective, Ipv4Addr, SocketAddrV4};
use crate::diagnostics::Relay;

verus! {

/// What keeps a relay port from being looked up.
#[derive(Clone, Copy, Debug, PartialEq, Eq, Structural)]
pub enum RelayError {
    TlsRegistryMissing,
    ProxyRegistryMissing,
    TlsRegistryPoisoned,
    ProxyRegistryPoisoned,
    TlsRegistryTaken,
    ProxyRegistryTaken,
}

impl RelayError {
    /// The error in words.
    pub open spec fn words(self) -> Seq<char> {
        match self {
            RelayError::TlsRegistryMissing => "TLS relay registry is not initialized"@,
            RelayError::ProxyRegistryMissing => "proxy relay registry is not initialized"@,
            RelayError::TlsRegistryPoisoned => "TLS relay registry lock is poisoned"@,
            RelayError::ProxyRegistryPoisoned => "proxy relay registry lock is poisoned"@,
            RelayError::TlsRegistryTaken => "TLS relay registry was already initialized"@,
            RelayError::ProxyRegistryTaken => "proxy relay registry was already initialized"@,
        }
    }

    pub fn message(&self) -> (text: &'static str)
        ensures
            text@ == self.words(),
    {
        match self {
            RelayError::TlsRegistryMissing => "TLS relay registry is not initialized",
            RelayError::ProxyRegistryMissing => "proxy relay registry is not initialized",
            RelayError::TlsRegistryPoisoned => "TLS relay registry lock is poisoned",
            RelayError::ProxyRegistryPoisoned => "proxy relay registry lock is poisoned",
            RelayError::TlsRegistryTaken => "TLS relay registry was already initialized",
            RelayError::ProxyRegistryTaken => "proxy relay registry was already initialized",
        }
    }
}

/// The ports on which relays for TLS and game traffic listen, by the address that they stand for.
/// The registry is set up once.
pub struct TlsPorts {
    ports: Option<HashMap<u32, u16>>,
}

/// The ports on which relays for a proxy listen, by its address and port. The registry is set up
/// once.
pub struct ProxyPorts {
    ports: Option<HashMap<u64, u16>>,
}

impl View for TlsPorts {
    type V = Option<Map<u32, u16>>;

    /// The ports by the number of the address, once the registry is set up.
    closed spec fn view(&self) -> Option<Map<u32, u16>> {
        match self.ports {
            Some(ports) => Some(ports@),
            None => None,
        }
    }
}

impl View for ProxyPorts {
    type V = Option<Map<u64, u16>>;

    /// The ports by the number of the address and port, once the registry is set up.
    closed spec fn view(&self) -> Option<Map<u64, u16>> {
        match self.ports {
            Some(ports) => Some(ports@),
            None => None,
        }
    }
}

impl TlsPorts {
    pub fn new() -> (relays: TlsPorts)
        ensures
            relays@ is None,
    {
        TlsPorts { ports: None }
    }

    /// Sets the registry up.
    pub fn set(&mut self) -> (done: Result<(), RelayError>)
        ensures
            match old(self)@ {
                Some(_) => {
                    &&& done == Err::<(), RelayError>(RelayError::TlsRegistryTaken)
                    &&& final(self)@ == old(self)@
                },
                None => {
                    &&& done == Ok::<(), RelayError>(())
                    &&& final(self)@ == Some(Map::<u32, u16>::empty())
                },
            },
    {
        if self.ports.is_some() {
            return Err(RelayError::TlsRegistryTaken);
        }
        self.ports = Some(HashMap::new());
        Ok(())
    }
}

impl ProxyPorts {
    pub fn new() -> (relays: ProxyPorts)
        ensures
            relays@ is None,
    {
        ProxyPorts { ports: None }
    }

    /// Sets the registry up.
    pub fn set(&mut self) -> (done: Result<(), RelayError>)
        ensures
            match old(self)@ {
                Some(_) => {
                    &&& done == Err::<(), RelayError>(RelayError::ProxyRegistryTaken)
                    &&& final(self)@ == old(self)@
                },
                None => {
                    &&& done == Ok::<(), RelayError>(())
                    &&& final(self)@ == Some(Map::<u64, u16>::empty())
                },
            },
    {
        if self.ports.is_some() {
            return Err(RelayError::ProxyRegistryTaken);
        }
        self.ports = Some(HashMap::new());
        Ok(())
    }
}

/// Both registries, each as far as its lock is not poisoned.
pub struct Relays<'a> {
    pub tls: Option<&'a TlsPorts>,
    pub proxy: Option<&'a ProxyPorts>,
}

impl Relays<'_> {
    /// Whether a relay listens on a port.
    pub open spec fn listens_on(&self, port: u16) -> bool {
        ||| self.tls matches Some(tls) && tls@ matches Some(ports) && ports.contains_value(port)
        ||| self.proxy matches Some(proxy) && proxy@ matches Some(ports) && ports.contains_value(
            port,
        )
    }
}

/// What a relay does: what it stands for, and the private servers that it forwards to.
#[derive(Clone, Copy, Debug, PartialEq, Eq, Structural)]
pub enum RelayTask {
    Protocol { origin_ip: Ipv4Addr, game: SocketAddrV4, tls: SocketAddrV4 },
    Proxy { origin: SocketAddrV4, tls: SocketAddrV4 },
}

impl RelayTask {
    /// What the relay stands for.
    #[verifier::allow_in_spec]
    pub fn relay(&self) -> (relay: Relay)
        returns
            (match self {
                RelayTask::Protocol { origin_ip, .. } => Relay::Protocol(*origin_ip),
                RelayTask::Proxy { origin, .. } => Relay::Proxy(*origin),
            }),
    {
        match self {
            RelayTask::Protocol { origin_ip, .. } => Relay::Protocol(*origin_ip),
            RelayTask::Proxy { origin, .. } => Relay::Proxy(*origin),
        }
    }
}

/// A relay that is asked for: it is to be found, or to be opened with a private host to put into
/// the records that it redirects.
pub struct RelayRequest {
    pub task: RelayTask,
    pub tls_host: String,
}

/// The port that is kept under a key.
pub open spec fn port_of<K>(ports: Map<K, u16>, key: K) -> Option<u16> {
    if ports.contains_key(key) {
        Some(ports[key])
    } else {
        None
    }
}

fn port_known<K>(ports: &HashMap<K, u16>, port: u16) -> (found: bool)
    requires
        obeys_key_model::<K>(),
    ensures
        found == ports@.contains_value(port),
{
    broadcast use group_hash_axioms;

    let mut found = false;
    let ghost all = spec_values_iter(ports).remaining().unref();
    for value in it: ports.values()
        invariant
            it.seq().unref() == all,
            found <==> exists|i: int| 0 <= i < it.index() && all[i] == port,
    {
        if *value == port {
            found = true;
        }
    }
    assert(found == all.to_set().contains(port));
    found
}

/// Whether a port is one on which a relay of this process listens.
pub fn is_internal_relay_port(relays: &Relays, port: u16) -> (found: bool)
    ensures
        found == relays.listens_on(port),
{
    broadcast use group_hash_axioms;

    let tls = match relays.tls {
        Some(tls) => match &tls.ports {
            Some(ports) => port_known(ports, port),
            None => false,
        },
        None => false,
    };
    let proxy = match relays.proxy {
        Some(proxy) => match &proxy.ports {
            Some(ports) => port_known(ports, port),
            None => false,
        },
        None => false,
    };
    tls || proxy
}

/// The port of the relay that stands for an address; where there is none yet, one is to be opened.
/// There are no `relays` where their lock is poisoned.
pub fn relay_port_for(relays: Option<&TlsPorts>, origin_ip: Ipv4Addr) -> (port: Result<
    Option<u16>,
    RelayError,
>)
    ensures
        port == match relays {
            Some(relays) => match relays@ {
                Some(ports) => Ok::<Option<u16>, RelayError>(port_of(ports, origin_ip.bits())),
                None => Err::<Option<u16>, RelayError>(RelayError::TlsRegistryMissing),
            },
            None => Err::<Option<u16>, RelayError>(RelayError::TlsRegistryPoisoned),
        },
{
    broadcast use group_hash_axioms;

    let relays = match relays {
        Some(relays) => relays,
        None => return Err(RelayError::TlsRegistryPoisoned),
    };
    match &relays.ports {
        Some(ports) => match ports.get(&origin_ip.number()) {
            Some(port) => Ok(Some(*port)),
            None => Ok(None),
        },
        None => Err(RelayError::TlsRegistryMissing),
    }
}

/// The port of the relay that stands for a proxy; where there is none yet, one is to be opened.
/// There are no `relays` where their lock is poisoned.
pub fn proxy_relay_port_for(relays: Option<&ProxyPorts>, origin: SocketAddrV4) -> (port: Result<
    Option<u16>,
    RelayError,
>)
    ensures
        port == match relays {
            Some(relays) => match relays@ {
                Some(ports) => Ok::<Option<u16>, RelayError>(port_of(ports, origin.bits())),
                None => Err::<Option<u16>, RelayError>(RelayError::ProxyRegistryMissing),
            },
            None => Err::<Option<u16>, RelayError>(RelayError::ProxyRegistryPoisoned),
        },
{
    broadcast use group_hash_axioms;

    let relays = match relays {
        Some(relays) => relays,
        None => return Err(RelayError::ProxyRegistryPoisoned),
    };
    match &relays.ports {
        Some(ports) => match ports.get(&origin.number()) {
            Some(port) => Ok(Some(*port)),
            None => Ok(None),
        },
        None => Err(RelayError::ProxyRegistryMissing),
    }
}

/// Keeps the port of a relay that was opened for an address.
pub fn keep_relay_port(relays: &mut TlsPorts, origin_ip: Ipv4Addr, port: u16)
    requires
        old(relays)@ is Some,
    ensures
        final(relays)@ == Some(old(relays)@->0.insert(origin_ip.bits(), port)),
{
    broadcast use group_hash_axioms;

    if let Some(ports) = &mut relays.ports {
        ports.insert(origin_ip.number(), port);
    }
}

/// Keeps the port of a relay that was opened for a proxy.
pub fn keep_proxy_relay_port(relays: &mut ProxyPorts, origin: SocketAddrV4, port: u16)
    requires
        old(relays)@ is Some,
    ensures
        final(relays)@ == Some(old(relays)@->0.insert(origin.bits(), port)),
{
    broadcast use group_hash_axioms;

    if let Some(ports) = &mut relays.ports {
        ports.insert(origin.number(), port);
    }
}

// Laws.

/// A port that is kept for an address is the one found for it from then on, a relay then listens
/// on it, and what is found for every other address stays as it was.
pub proof fn kept_relay_port_is_found(
    ports: Map<u32, u16>,
    origin: Ipv4Addr,
    port: u16,
    other: Ipv4Addr,
)
    ensures
        port_of(ports.insert(origin.bits(), port), origin.bits()) == Some(port),
        ports.insert(origin.bits(), port).contains_value(port),
        other != origin ==> port_of(ports.insert(origin.bits(), port), other.bits()) == port_of(
            ports,
            other.bits(),
        ),
{
    let kept = ports.insert(origin.bits(), port);
    assert(kept.contains_key(origin.bits()) && kept[origin.bits()] == port);
    address_numbers_are_injective(
        SocketAddrV4 { ip: origin, port: 0 },
        SocketAddrV4 { ip: other, port: 0 },
    );
}

/// A port that is kept for a proxy is the one found for it from then on, a relay then listens on
/// it, and what is found for every other proxy stays as it was.
pub proof fn kept_proxy_relay_port_is_found(
    ports: Map<u64, u16>,
    origin: SocketAddrV4,
    port: u16,
    other: SocketAddrV4,
)
    ensures
        port_of(ports.insert(origin.bits(), port), origin.bits()) == Some(port),
        ports.insert(origin.bits(), port).contains_value(port),
        other != origin ==> port_of(ports.insert(origin.bits(), port), other.bits()) == port_of(
            ports,
            other.bits(),
        ),
{
    let kept = ports.insert(origin.bits(), port);
    assert(kept.contains_key(origin.bits()) && kept[origin.bits()] == port);
    address_numbers_are_injective(origin, other);
}

/// A relay that is opened where none was found takes no port from the relays before it.
pub proof fn listening_ports_only_grow<K>(ports: Map<K, u16>, key: K, port: u16, listening: u16)
    requires
        port_of(ports, key) is None,
        ports.contains_value(listening),
    ensures
        ports.insert(key, port).contains_value(listening),
{
    let at = choose|at: K| #[trigger] ports.contains_key(at) && ports[at] == listening;
    let kept = ports.insert(key, port);
    assert(kept.contains_key(at) && kept[at] == listening);
}

/// No port is found for what none was kept for.
pub proof fn nothing_is_found_where_nothing_was_kept<K>(ports: Map<K, u16>, key: K, port: u16)
    ensures
        port_of(ports, key) == Some(port) <==> ports.contains_pair(key, port),
        port_of(ports, key) is None <==> !ports.dom().contains(key),
{
}

/// A relay listens on a port exactly where that port was kept for something.
pub proof fn relays_listen_on_the_ports_that_were_kept(
    relays: &Relays,
    tls_ports: Map<u32, u16>,
    proxy_ports: Map<u64, u16>,
    port: u16,
)
    requires
        match relays.tls {
            Some(tls) => tls@ == Some(tls_ports) || (tls@ is None && tls_ports == Map::<
                u32,
                u16,
            >::empty()),
            None => tls_ports == Map::<u32, u16>::empty(),
        },
        match relays.proxy {
            Some(proxy) => proxy@ == Some(proxy_ports) || (proxy@ is None && proxy_ports == Map::<
                u64,
                u16,
            >::empty()),
            None => proxy_ports == Map::<u64, u16>::empty(),
        },
    ensures
        relays.listens_on(port) <==> (exists|key: u32| #[trigger]
            tls_ports.contains_pair(key, port)) || (exists|key: u64| #[trigger]
            proxy_ports.contains_pair(key, port)),
{
    if exists|key: u32| #[trigger] tls_ports.contains_pair(key, port) {
        let key = choose|key: u32| #[trigger] tls_ports.contains_pair(key, port);
        assert(tls_ports.dom().contains(key) && tls_ports[key] == port);
    }
    if exists|key: u64| #[trigger] proxy_ports.contains_pair(key, port) {
        let key = choose|key: u64| #[trigger] proxy_ports.contains_pair(key, port);
        assert(proxy_ports.dom().contains(key) && proxy_ports[key] == port);
    }
    if tls_ports.contains_value(port) {
        let key = choose|key: u32| tls_ports.dom().contains(key) && tls_ports[key] == port;
        assert(tls_ports.contains_pair(key, port));
    }
    if proxy_ports.contains_value(port) {
        let key = choose|key: u64| proxy_ports.dom().contains(key) && proxy_ports[key] == port;
        assert(proxy_ports.contains_pair(key, port));
    }
}

}
