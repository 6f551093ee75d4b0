//! What becomes of a connection that the game opens: which address it goes to instead, and which
//! relay stands in between.

use vstd::prelude::*;
use vstd::string::*;

use crate::addr::{ipv4_mapped_bytes, mapped, mapped_ipv4, mapping_is_injective, Ipv4Addr,
    SocketAddrV4};
use crate::config::{get, is_configured_proxy_endpoint, ClientConfig};
use crate::host::official_host;
use crate::relay::{is_internal_relay_port, RelayRequest, RelayTask, Relays};
use crate::route::{
    other_proxy_traffic_is_passed_on_as_it_is, other_traffic_is_passed_on_as_it_is, protocol_plan,
    proxy_plan, spells_connect, starts_as_tls, tls_stream, whole_records_are_routed_by_name, Plan,
    OFFICIAL_GAME_PORT,
};
use crate::text::{append_decimal, decimal};
use crate::tls::server_name;

verus! {

// The addresses that are handed to `connect`.

/// The constant `AF_INET` of `windows::Win32::Networking::WinSock`, which is 2.
#[verifier::external_body]
fn ipv4_family() -> (family: u16)
    ensures
        family == 2,
{
    windows::Win32::Networking::WinSock::AF_INET.0
}

/// The constant `AF_INET6` of `windows::Win32::Networking::WinSock`, which is 23.
#[verifier::external_body]
fn ipv6_family() -> (family: u16)
    ensures
        family == 23,
{
    windows::Win32::Networking::WinSock::AF_INET6.0
}

/// The address families that are looked at.
#[derive(Clone, Copy, Debug, PartialEq, Eq, Structural)]
pub enum Family {
    Ipv4,
    Ipv6,
}

/// Whether a connection is looked at, and as what: not while the process connects for itself
/// (`bypassed`), not without an address, and not in any other family.
pub fn hooked_family(bypassed: bool, family: Option<u16>) -> (hooked: Option<Family>)
    ensures
        hooked == if bypassed {
            None::<Family>
        } else if family == Some(2u16) {
            Some(Family::Ipv4)
        } else if family == Some(23u16) {
            Some(Family::Ipv6)
        } else {
            None
        },
{
    if bypassed {
        return None;
    }
    match family {
        Some(family) => if family == ipv6_family() {
            Some(Family::Ipv6)
        } else if family == ipv4_family() {
            Some(Family::Ipv4)
        } else {
            None
        },
        None => None,
    }
}

/// The port and the address of a `SOCKADDR_IN`, byte by byte.
#[derive(Clone, Copy, Debug)]
pub struct SockAddrIn {
    pub port: [u8; 2],
    pub addr: [u8; 4],
}

/// The port and the address of a `SOCKADDR_IN6`, byte by byte.
#[derive(Clone, Copy, Debug)]
pub struct SockAddrIn6 {
    pub port: [u8; 2],
    pub addr: [u8; 16],
}

/// The number that two bytes in network order stand for.
pub open spec fn port_number(bytes: Seq<u8>) -> u16 {
    (bytes[0] * 0x100 + bytes[1]) as u16
}

impl View for SockAddrIn {
    type V = SocketAddrV4;

    open spec fn view(&self) -> SocketAddrV4 {
        SocketAddrV4 {
            ip: Ipv4Addr { a: self.addr@[0], b: self.addr@[1], c: self.addr@[2], d: self.addr@[3] },
            port: port_number(self.port@),
        }
    }
}

impl View for SockAddrIn6 {
    type V = (Seq<u8>, u16);

    open spec fn view(&self) -> (Seq<u8>, u16) {
        (self.addr@, port_number(self.port@))
    }
}

fn port_from(bytes: [u8; 2]) -> (port: u16)
    ensures
        port == port_number(bytes@),
{
    bytes[0] as u16 * 0x100 + bytes[1] as u16
}

impl SockAddrIn {
    /// The address and the port.
    pub fn address(&self) -> (address: SocketAddrV4)
        ensures
            address == self@,
    {
        let ip = Ipv4Addr::new(self.addr[0], self.addr[1], self.addr[2], self.addr[3]);
        SocketAddrV4::new(ip, port_from(self.port))
    }
}

impl SockAddrIn6 {
    /// The IPv4 address that the address stands for, with the port.
    pub fn mapped_address(&self) -> (address: Option<SocketAddrV4>)
        ensures
            match address {
                Some(address) => self@ == (mapped(address.ip), address.port),
                None => forall|ip: Ipv4Addr| self@.0 != #[trigger] mapped(ip),
            },
    {
        match mapped_ipv4(self.addr) {
            Some(ip) => Some(SocketAddrV4::new(ip, port_from(self.port))),
            None => None,
        }
    }
}

fn port_to(port: u16) -> (bytes: [u8; 2])
    ensures
        port_number(bytes@) == port,
{
    [(port / 0x100) as u8, (port % 0x100) as u8]
}

// Where a connection goes.

/// What is done with a connection.
#[derive(Clone, Copy, Debug, PartialEq, Eq, Structural)]
pub enum Route {
    /// It is left alone.
    Leave,
    /// It goes to the address of the private TLS server, and changes to the server's port.
    TlsRedirect { port: u16 },
    /// It goes to a relay for the proxy that it is meant for.
    ProxyRelay { tls: SocketAddrV4 },
    /// It is meant for the proxy, and the private TLS server is not known.
    ProxyRelayUnavailable,
    /// It goes to a relay for TLS and game traffic.
    ProtocolRelay { game: SocketAddrV4, tls: SocketAddrV4 },
    /// It carries TLS or game traffic, and a private server is not known.
    ProtocolRelayUnavailable,
}

/// Whether an address is that of the configured proxy.
pub open spec fn is_proxy(config: ClientConfig, to: SocketAddrV4) -> bool {
    config.proxy matches Some(proxy) && proxy.ipv4 == to.ip && proxy.port == to.port
}

/// What is done with a connection to an address.
pub open spec fn route_to(
    loaded: Result<ClientConfig, String>,
    relays: &Relays,
    to: SocketAddrV4,
) -> Route {
    match loaded {
        Err(_) => Route::Leave,
        Ok(config) => if is_proxy(config, to) && !relays.listens_on(to.port) {
            match config.tls.ipv4 {
                Some(ip) => Route::ProxyRelay { tls: SocketAddrV4 { ip, port: config.tls.port } },
                None => Route::ProxyRelayUnavailable,
            }
        } else if to.port != OFFICIAL_GAME_PORT {
            Route::Leave
        } else if config.tls.ipv4 == Some(to.ip) {
            Route::TlsRedirect { port: config.tls.port }
        } else if to.ip.is_loopback() {
            Route::Leave
        } else {
            match (config.game.ipv4, config.tls.ipv4) {
                (Some(game), Some(tls)) => Route::ProtocolRelay {
                    game: SocketAddrV4 { ip: game, port: config.game.port },
                    tls: SocketAddrV4 { ip: tls, port: config.tls.port },
                },
                _ => Route::ProtocolRelayUnavailable,
            }
        },
    }
}

/// What is done with a connection to an address.
pub fn connection_route(
    loaded: &Result<ClientConfig, String>,
    relays: &Relays,
    to: SocketAddrV4,
) -> (route: Route)
    ensures
        route == route_to(*loaded, relays, to),
{
    let config = match get(loaded) {
        Ok(config) => config,
        Err(_) => return Route::Leave,
    };
    if is_configured_proxy_endpoint(config.proxy.as_ref(), to.ip, to.port)
        && !is_internal_relay_port(relays, to.port) {
        return match config.tls.ipv4 {
            Some(ip) => Route::ProxyRelay { tls: SocketAddrV4::new(ip, config.tls.port) },
            None => Route::ProxyRelayUnavailable,
        };
    }
    if to.port != OFFICIAL_GAME_PORT {
        return Route::Leave;
    }
    if let Some(ip) = config.tls.ipv4 {
        if ip == to.ip {
            return Route::TlsRedirect { port: config.tls.port };
        }
    }
    if to.ip.is_loopback() {
        return Route::Leave;
    }
    match (config.game.ipv4, config.tls.ipv4) {
        (Some(game), Some(tls)) => Route::ProtocolRelay {
            game: SocketAddrV4::new(game, config.game.port),
            tls: SocketAddrV4::new(tls, config.tls.port),
        },
        _ => Route::ProtocolRelayUnavailable,
    }
}

// The relays that connections ask for.

/// The relay that a connection to an address asks for by its route.
pub open spec fn asked(route: Route, to: SocketAddrV4) -> Option<RelayTask> {
    match route {
        Route::ProxyRelay { tls } => Some(RelayTask::Proxy { origin: to, tls }),
        Route::ProtocolRelay { game, tls } => Some(
            RelayTask::Protocol { origin_ip: to.ip, game, tls },
        ),
        _ => None,
    }
}

/// The relay that a connection to an address asks for by its route.
pub fn relay_asked(route: Route, to: SocketAddrV4) -> (task: Option<RelayTask>)
    ensures
        task == asked(route, to),
{
    match route {
        Route::ProxyRelay { tls } => Some(RelayTask::Proxy { origin: to, tls }),
        Route::ProtocolRelay { game, tls } => Some(
            RelayTask::Protocol { origin_ip: to.ip, game, tls },
        ),
        _ => None,
    }
}

/// Whether a request is made exactly where a task is there, for that task and with the private
/// host of the configuration.
pub open spec fn requests(
    relay: Option<RelayRequest>,
    task: Option<RelayTask>,
    loaded: Result<ClientConfig, String>,
) -> bool {
    match task {
        Some(task) => {
            &&& relay matches Some(request)
            &&& request.task == task
            &&& loaded matches Ok(config)
            &&& request.tls_host@ == config.tls.host@
        },
        None => relay is None,
    }
}

fn request(route: Route, to: SocketAddrV4, loaded: &Result<ClientConfig, String>) -> (relay: Option<
    RelayRequest,
>)
    requires
        asked(route, to) is Some ==> *loaded is Ok,
    ensures
        requests(relay, asked(route, to), *loaded),
{
    match (relay_asked(route, to), get(loaded)) {
        (Some(task), Ok(config)) => Some(
            RelayRequest { task, tls_host: config.tls.host.as_str().to_owned() },
        ),
        _ => None,
    }
}

// What is reported.

/// What to write down about a connection, and what is done with it.
pub struct ConnectReport {
    /// A line for the console.
    pub line: Option<String>,
    /// Events for the log.
    pub events: Vec<String>,
    pub route: Route,
    /// The relay that is asked for.
    pub relay: Option<RelayRequest>,
}

/// An IPv6 address, given as text, with a port.
pub open spec fn ipv6_source(ip: Seq<char>, port: u16) -> Seq<char> {
    "["@ + ip + "]:"@ + decimal(port as nat)
}

/// The event of a connection to the port of HTTPS.
pub open spec fn candidate_events(port: u16, source: Seq<char>, family: Seq<char>) -> Seq<
    Seq<char>,
> {
    if port == OFFICIAL_GAME_PORT {
        seq!["tls connect candidate source="@ + source + family]
    } else {
        seq![]
    }
}

/// The events of what is done with a connection, as far as no relay is asked for.
pub open spec fn route_events(
    route: Route,
    source: Seq<char>,
    ip: Ipv4Addr,
    family: Seq<char>,
) -> Seq<Seq<char>> {
    match route {
        Route::TlsRedirect { port } => seq![
            "sdk tls redirect source="@ + source + " target="@ + SocketAddrV4 { ip, port }.shown()
                + family,
        ],
        Route::ProxyRelayUnavailable => seq!["proxy relay unavailable; tls.ipv4 is missing"@],
        Route::ProtocolRelayUnavailable => seq![
            "protocol relay unavailable; game.ipv4 or tls.ipv4 is missing"@,
        ],
        _ => seq![],
    }
}

/// The event of a relay that was asked for: it has a port, or an error, given as text, kept it
/// from being opened.
pub open spec fn relay_event(
    route: Route,
    source: Seq<char>,
    relay: Result<u16, Seq<char>>,
    proxy_family: Seq<char>,
    protocol_family: Seq<char>,
) -> Option<Seq<char>> {
    match (route, relay) {
        (Route::ProxyRelay { .. }, Ok(port)) => Some(
            "loopback proxy relay source="@ + source + " target=127.0.0.1:"@ + decimal(port as nat)
                + proxy_family,
        ),
        (Route::ProxyRelay { .. }, Err(error)) => Some(
            "loopback proxy relay creation failed for "@ + source + ": "@ + error,
        ),
        (Route::ProtocolRelay { .. }, Ok(port)) => Some(
            "protocol relay source="@ + source + " target=127.0.0.1:"@ + decimal(port as nat)
                + protocol_family,
        ),
        (Route::ProtocolRelay { .. }, Err(error)) => Some(
            "protocol relay creation failed for "@ + source + ": "@ + error,
        ),
        _ => None,
    }
}

fn push_event(events: &mut Vec<String>, text: String)
    ensures
        final(events).deep_view() == old(events).deep_view().push(text@),
{
    events.push(text);
    assert(events.deep_view() == old(events).deep_view().push(text@));
}

fn report_candidate(events: &mut Vec<String>, port: u16, source: &str, family: &str)
    ensures
        final(events).deep_view() == old(events).deep_view() + candidate_events(
            port,
            source@,
            family@,
        ),
{
    if port == OFFICIAL_GAME_PORT {
        let mut text = "tls connect candidate source=".to_owned();
        text.append(source);
        text.append(family);
        push_event(events, text);
    }
    assert(events.deep_view() == old(events).deep_view() + candidate_events(
        port,
        source@,
        family@,
    ));
}

fn report_route(events: &mut Vec<String>, route: Route, source: &str, ip: Ipv4Addr, family: &str)
    ensures
        final(events).deep_view() == old(events).deep_view() + route_events(
            route,
            source@,
            ip,
            family@,
        ),
{
    match route {
        Route::TlsRedirect { port } => {
            let mut text = "sdk tls redirect source=".to_owned();
            text.append(source);
            text.append(" target=");
            SocketAddrV4::new(ip, port).append_to(&mut text);
            text.append(family);
            push_event(events, text);
        },
        Route::ProxyRelayUnavailable => {
            push_event(events, "proxy relay unavailable; tls.ipv4 is missing".to_owned());
        },
        Route::ProtocolRelayUnavailable => {
            push_event(
                events,
                "protocol relay unavailable; game.ipv4 or tls.ipv4 is missing".to_owned(),
            );
        },
        _ => {},
    }
    assert(events.deep_view() == old(events).deep_view() + route_events(
        route,
        source@,
        ip,
        family@,
    ));
}

/// An outcome with an error given as text.
pub open spec fn outcome(relay: Result<u16, &str>) -> Result<u16, Seq<char>> {
    match relay {
        Ok(port) => Ok(port),
        Err(error) => Err(error@),
    }
}

fn relay_text(
    route: Route,
    source: &str,
    relay: Result<u16, &str>,
    proxy_family: &str,
    protocol_family: &str,
) -> (event: Option<String>)
    ensures
        match relay_event(route, source@, outcome(relay), proxy_family@, protocol_family@) {
            Some(words) => event matches Some(text) && text@ == words,
            None => event is None,
        },
{
    let (name, family) = match route {
        Route::ProxyRelay { .. } => ("loopback proxy relay", proxy_family),
        Route::ProtocolRelay { .. } => ("protocol relay", protocol_family),
        _ => return None,
    };
    let mut text = name.to_owned();
    match relay {
        Ok(port) => {
            text.append(" source=");
            text.append(source);
            text.append(" target=127.0.0.1:");
            append_decimal(&mut text, port as u128);
            text.append(family);
        },
        Err(error) => {
            text.append(" creation failed for ");
            text.append(source);
            text.append(": ");
            text.append(error);
        },
    }
    proof {
        reveal_strlit("loopback proxy relay");
        reveal_strlit("protocol relay");
        reveal_strlit(" source=");
        reveal_strlit(" creation failed for ");
        reveal_strlit("loopback proxy relay source=");
        reveal_strlit("protocol relay source=");
        reveal_strlit("loopback proxy relay creation failed for ");
        reveal_strlit("protocol relay creation failed for ");
        assert("loopback proxy relay"@ + " source="@ == "loopback proxy relay source="@);
        assert("protocol relay"@ + " source="@ == "protocol relay source="@);
        assert("loopback proxy relay"@ + " creation failed for "@
            == "loopback proxy relay creation failed for "@);
        assert("protocol relay"@ + " creation failed for "@
            == "protocol relay creation failed for "@);
    }
    Some(text)
}

// Connections over IPv4.

/// The address after a route is chosen, before any relay is asked for.
pub open spec fn routed(from: SocketAddrV4, route: Route) -> SocketAddrV4 {
    match route {
        Route::TlsRedirect { port } => SocketAddrV4 { ip: from.ip, port },
        _ => from,
    }
}

/// The address after a relay was asked for.
pub open spec fn relayed(
    from: SocketAddrV4,
    route: Route,
    relay: Result<u16, Seq<char>>,
) -> SocketAddrV4 {
    match (route, relay) {
        (Route::ProxyRelay { .. }, Ok(port)) => SocketAddrV4 { ip: from.ip, port },
        (Route::ProtocolRelay { .. }, Ok(port)) => SocketAddrV4 { ip: Ipv4Addr::localhost(), port },
        _ => from,
    }
}

/// Decides on a connection over IPv4. A relay that is asked for is to be found or opened, and the
/// address then changes in `on_relay`.
pub fn on_connect(
    addr: &mut SockAddrIn,
    loaded: &Result<ClientConfig, String>,
    relays: &Relays,
) -> (report: ConnectReport)
    ensures
        report.route == route_to(*loaded, relays, old(addr)@),
        requests(report.relay, asked(report.route, old(addr)@), *loaded),
        final(addr)@ == routed(old(addr)@, report.route),
        report.line matches Some(line) && line@ == "[connect] IP: "@ + old(addr)@.ip.shown()
            + ", Port: "@ + decimal(old(addr)@.port as nat),
        report.events.deep_view() == candidate_events(
            old(addr)@.port,
            old(addr)@.shown(),
            " family=ipv4"@,
        ) + route_events(report.route, old(addr)@.shown(), old(addr)@.ip, ""@),
{
    let to = addr.address();
    let ip = to.ip;
    let port = to.port;
    let source = to.text();
    let mut line = "[connect] IP: ".to_owned();
    ip.append_to(&mut line);
    line.append(", Port: ");
    append_decimal(&mut line, port as u128);
    let mut events: Vec<String> = Vec::new();
    report_candidate(&mut events, port, source.as_str(), " family=ipv4");
    let route = connection_route(loaded, relays, to);
    report_route(&mut events, route, source.as_str(), ip, "");
    let relay = request(route, to, loaded);
    if let Route::TlsRedirect { port } = route {
        addr.port = port_to(port);
    }
    ConnectReport { line: Some(line), events, route, relay }
}

/// Sends a connection over IPv4 to the relay that was found or opened for it; the event says what
/// came of it.
pub fn on_relay(addr: &mut SockAddrIn, route: Route, relay: Result<u16, &str>) -> (event: Option<
    String,
>)
    ensures
        final(addr)@ == relayed(old(addr)@, route, outcome(relay)),
        match relay_event(route, old(addr)@.shown(), outcome(relay), ""@, " family=ipv4"@) {
            Some(words) => event matches Some(text) && text@ == words,
            None => event is None,
        },
{
    let source = addr.address().text();
    let event = relay_text(route, source.as_str(), relay, "", " family=ipv4");
    if let Ok(port) = relay {
        match route {
            Route::ProxyRelay { .. } => {
                addr.port = port_to(port);
            },
            Route::ProtocolRelay { .. } => {
                addr.addr = Ipv4Addr::localhost().octets();
                addr.port = port_to(port);
            },
            _ => {},
        }
    }
    event
}

// Connections over IPv6.

/// The route of a connection over IPv6: that of the IPv4 address that its address stands for.
pub open spec fn mapped_route(
    loaded: Result<ClientConfig, String>,
    relays: &Relays,
    from: (Seq<u8>, u16),
) -> Route {
    if exists|ip: Ipv4Addr| from.0 == mapped(ip) {
        route_to(loaded, relays, SocketAddrV4 { ip: unmapped(from.0), port: from.1 })
    } else {
        Route::Leave
    }
}

/// The IPv4 address that an IPv6 address stands for, if it stands for one.
pub open spec fn unmapped(bytes: Seq<u8>) -> Ipv4Addr {
    choose|ip: Ipv4Addr| bytes == mapped(ip)
}

/// The IPv4 address that an IPv6 address stands for, in words.
pub open spec fn mapped_words(bytes: Seq<u8>) -> Seq<char> {
    if exists|ip: Ipv4Addr| bytes == mapped(ip) {
        unmapped(bytes).shown()
    } else {
        "none"@
    }
}

/// The address after a route is chosen, before any relay is asked for.
pub open spec fn mapped_routed(from: (Seq<u8>, u16), route: Route) -> (Seq<u8>, u16) {
    match route {
        Route::TlsRedirect { port } => (from.0, port),
        _ => from,
    }
}

/// The address after a relay was asked for.
pub open spec fn mapped_relayed(
    from: (Seq<u8>, u16),
    route: Route,
    relay: Result<u16, Seq<char>>,
) -> (Seq<u8>, u16) {
    match (route, relay) {
        (Route::ProxyRelay { .. } | Route::ProtocolRelay { .. }, Ok(port)) => (
            mapped(Ipv4Addr::localhost()),
            port,
        ),
        _ => from,
    }
}

fn ipv6_text(ip: &str, port: u16) -> (text: String)
    ensures
        text@ == ipv6_source(ip@, port),
{
    let mut text = "[".to_owned();
    text.append(ip);
    text.append("]:");
    append_decimal(&mut text, port as u128);
    text
}

/// Decides on a connection over IPv6; `ip_text` is its address as text. A relay that is
/// asked for is to be found or opened, and the address then changes in `on_relay_ipv6`.
pub fn on_connect_ipv6(
    addr: &mut SockAddrIn6,
    ip_text: &str,
    loaded: &Result<ClientConfig, String>,
    relays: &Relays,
) -> (report: ConnectReport)
    ensures
        report.route == mapped_route(*loaded, relays, old(addr)@),
        requests(
            report.relay,
            asked(
                report.route,
                SocketAddrV4 { ip: unmapped(old(addr)@.0), port: old(addr)@.1 },
            ),
            *loaded,
        ),
        final(addr)@ == mapped_routed(old(addr)@, report.route),
        report.line is None,
        report.events.deep_view() == candidate_events(
            old(addr)@.1,
            ipv6_source(ip_text@, old(addr)@.1),
            " family=ipv6 mapped_ipv4="@ + mapped_words(old(addr)@.0),
        ) + route_events(
            report.route,
            ipv6_source(ip_text@, old(addr)@.1),
            unmapped(old(addr)@.0),
            " family=ipv6-mapped"@,
        ),
{
    let port = port_from(addr.port);
    let source = ipv6_text(ip_text, port);
    let mapped_to = addr.mapped_address();
    let mut family = " family=ipv6 mapped_ipv4=".to_owned();
    let mut events: Vec<String> = Vec::new();
    match mapped_to {
        Some(to) => {
            let ip = to.ip;
            proof {
                mapping_is_injective(ip, unmapped(addr.addr@));
            }
            ip.append_to(&mut family);
            report_candidate(&mut events, port, source.as_str(), family.as_str());
            let route = connection_route(loaded, relays, to);
            report_route(&mut events, route, source.as_str(), ip, " family=ipv6-mapped");
            let relay = request(route, to, loaded);
            if let Route::TlsRedirect { port } = route {
                addr.port = port_to(port);
            }
            ConnectReport { line: None, events, route, relay }
        },
        None => {
            family.append("none");
            report_candidate(&mut events, port, source.as_str(), family.as_str());
            ConnectReport { line: None, events, route: Route::Leave, relay: None }
        },
    }
}

/// Sends a connection over IPv6 to the relay that was found or opened for it; the event says what
/// came of it.
pub fn on_relay_ipv6(
    addr: &mut SockAddrIn6,
    ip_text: &str,
    route: Route,
    relay: Result<u16, &str>,
) -> (event: Option<String>)
    ensures
        final(addr)@ == mapped_relayed(old(addr)@, route, outcome(relay)),
        match relay_event(
            route,
            ipv6_source(ip_text@, old(addr)@.1),
            outcome(relay),
            " family=ipv6-mapped"@,
            " family=ipv6-mapped"@,
        ) {
            Some(words) => event matches Some(text) && text@ == words,
            None => event is None,
        },
{
    let source = ipv6_text(ip_text, port_from(addr.port));
    let event = relay_text(
        route,
        source.as_str(),
        relay,
        " family=ipv6-mapped",
        " family=ipv6-mapped",
    );
    if let Ok(port) = relay {
        match route {
            Route::ProxyRelay { .. } | Route::ProtocolRelay { .. } => {
                addr.addr = ipv4_mapped_bytes(Ipv4Addr::localhost());
                addr.port = port_to(port);
            },
            _ => {},
        }
    }
    event
}

// Laws.

/// Where a connection over IPv4 goes in the end, given what came of asking for a relay.
pub open spec fn destination(
    loaded: Result<ClientConfig, String>,
    relays: &Relays,
    from: SocketAddrV4,
    relay: Result<u16, Seq<char>>,
) -> SocketAddrV4 {
    let route = route_to(loaded, relays, from);
    relayed(routed(from, route), route, relay)
}

/// Where a connection over IPv6 goes in the end, given what came of asking for a relay.
pub open spec fn mapped_destination(
    loaded: Result<ClientConfig, String>,
    relays: &Relays,
    from: (Seq<u8>, u16),
    relay: Result<u16, Seq<char>>,
) -> (Seq<u8>, u16) {
    let route = mapped_route(loaded, relays, from);
    mapped_relayed(mapped_routed(from, route), route, relay)
}

/// No connection is sent to another machine than it was meant for: it keeps its address, or it
/// goes to a relay on this machine, on the port that the relay was opened on.
pub proof fn connections_stay_on_their_way_or_local(
    loaded: Result<ClientConfig, String>,
    relays: &Relays,
    from: SocketAddrV4,
    relay: Result<u16, Seq<char>>,
)
    ensures
        ({
            let to = destination(loaded, relays, from, relay);
            ||| to.ip == from.ip
            ||| to.ip == Ipv4Addr::localhost() && relay == Ok::<u16, Seq<char>>(to.port)
        }),
{
}

/// Nothing changes without a configuration.
pub proof fn nothing_changes_without_configuration(
    relays: &Relays,
    error: String,
    from: SocketAddrV4,
    mapped_from: (Seq<u8>, u16),
    relay: Result<u16, Seq<char>>,
)
    ensures
        destination(Err(error), relays, from, relay) == from,
        mapped_destination(Err(error), relays, mapped_from, relay) == mapped_from,
{
}

/// A connection to another port than that of HTTPS is left alone, unless it is meant for the
/// configured proxy and not for a relay.
pub proof fn other_ports_are_left_alone(
    config: ClientConfig,
    relays: &Relays,
    from: SocketAddrV4,
    relay: Result<u16, Seq<char>>,
)
    requires
        from.port != OFFICIAL_GAME_PORT,
        config.proxy is None || config.proxy->0.ipv4 != from.ip || config.proxy->0.port != from.port
            || relays.listens_on(from.port),
    ensures
        destination(Ok(config), relays, from, relay) == from,
{
}

/// A connection on its way to a relay is left alone. This leaves out the port of HTTPS on another
/// machine and on the private TLS server.
pub proof fn relayed_connections_are_left_alone(
    loaded: Result<ClientConfig, String>,
    relays: &Relays,
    from: SocketAddrV4,
    relay: Result<u16, Seq<char>>,
)
    requires
        relays.listens_on(from.port),
        from.port != OFFICIAL_GAME_PORT || (from.ip.is_loopback() && !(loaded matches Ok(config)
            && config.tls.ipv4 == Some(from.ip))),
    ensures
        destination(loaded, relays, from, relay) == from,
{
}

/// A relay that cannot be had changes nothing.
pub proof fn failed_relays_change_nothing(
    loaded: Result<ClientConfig, String>,
    relays: &Relays,
    from: SocketAddrV4,
    mapped_from: (Seq<u8>, u16),
    error: Seq<char>,
)
    ensures
        route_to(loaded, relays, from) is ProxyRelay || route_to(loaded, relays, from)
            is ProtocolRelay ==> destination(loaded, relays, from, Err(error)) == from,
        mapped_route(loaded, relays, mapped_from) is ProxyRelay || mapped_route(
            loaded,
            relays,
            mapped_from,
        ) is ProtocolRelay ==> mapped_destination(loaded, relays, mapped_from, Err(error))
            == mapped_from,
{
}

/// With both private servers known, every connection to the port of HTTPS on another machine goes
/// to a relay, but for one to the private TLS server, which only changes its port, and one to the
/// configured proxy, unless a relay listens on its port.
pub proof fn game_connections_go_through_a_relay(
    config: ClientConfig,
    relays: &Relays,
    from: SocketAddrV4,
    port: u16,
)
    requires
        config.game.ipv4 is Some,
        config.tls.ipv4 is Some,
        from.port == OFFICIAL_GAME_PORT,
        !from.ip.is_loopback(),
        config.proxy is None || config.proxy->0.ipv4 != from.ip || config.proxy->0.port != from.port
            || relays.listens_on(from.port),
    ensures
        destination(Ok(config), relays, from, Ok(port)) == if config.tls.ipv4 == Some(from.ip) {
            SocketAddrV4 { ip: from.ip, port: config.tls.port }
        } else {
            SocketAddrV4 { ip: Ipv4Addr::localhost(), port }
        },
{
}

/// The servers that relays forward to are those of the configuration, and no others.
pub proof fn servers_come_from_the_configuration(
    config: ClientConfig,
    relays: &Relays,
    from: SocketAddrV4,
)
    ensures
        match route_to(Ok(config), relays, from) {
            Route::ProtocolRelay { game, tls } => {
                &&& config.game.ipv4 == Some(game.ip) && config.game.port == game.port
                &&& config.tls.ipv4 == Some(tls.ip) && config.tls.port == tls.port
            },
            Route::ProxyRelay { tls } => config.tls.ipv4 == Some(tls.ip) && config.tls.port
                == tls.port,
            Route::TlsRedirect { port } => config.tls.ipv4 == Some(from.ip) && config.tls.port
                == port,
            _ => true,
        },
{
}

/// An IPv6 address that stands for an IPv4 address is treated as that address is. They differ for a
/// proxy outside 127.0.0.1: over IPv4 its address is kept, over IPv6 it is not.
pub proof fn mapped_addresses_are_treated_alike(
    loaded: Result<ClientConfig, String>,
    relays: &Relays,
    from: SocketAddrV4,
    relay: Result<u16, Seq<char>>,
)
    requires
        !(route_to(loaded, relays, from) is ProxyRelay) || from.ip == Ipv4Addr::localhost()
            || relay is Err,
    ensures
        ({
            let to = destination(loaded, relays, from, relay);
            mapped_destination(loaded, relays, (mapped(from.ip), from.port), relay) == (
                mapped(to.ip),
                to.port,
            )
        }),
{
    assert(mapped(from.ip) == mapped(unmapped(mapped(from.ip))));
    mapping_is_injective(from.ip, unmapped(mapped(from.ip)));
}

/// An IPv6 address that stands for no IPv4 address is left alone.
pub proof fn other_ipv6_addresses_are_left_alone(
    loaded: Result<ClientConfig, String>,
    relays: &Relays,
    from: (Seq<u8>, u16),
    relay: Result<u16, Seq<char>>,
)
    requires
        forall|ip: Ipv4Addr| from.0 != #[trigger] mapped(ip),
    ensures
        mapped_destination(loaded, relays, from, relay) == from,
{
}

// Laws on every connection.

/// Two bytes of a port stand for it high byte first, and four bytes of an address for its octets in
/// their order.
pub proof fn addresses_stand_in_network_order(addr: SockAddrIn, addr6: SockAddrIn6)
    ensures
        addr@.port == addr.port@[0] * 256 + addr.port@[1],
        addr@.ip.bytes() == addr.addr@,
        addr6@.1 == addr6.port@[0] * 256 + addr6.port@[1],
        addr6@.0 == addr6.addr@,
{
    assert(addr@.ip.bytes() == addr.addr@);
}

/// A connection asks for a relay that stands for the very address that it was meant for, and with
/// the servers of its route: one for TLS and game traffic by the address, one for a proxy by the
/// address and the port. No other connection asks for one.
pub proof fn relays_stand_for_the_address_of_the_connection(route: Route, meant: SocketAddrV4)
    ensures
        match asked(route, meant) {
            Some(RelayTask::Protocol { origin_ip, game, tls }) => {
                &&& origin_ip.bytes() == meant.ip.bytes()
                &&& route == (Route::ProtocolRelay { game, tls })
            },
            Some(RelayTask::Proxy { origin, tls }) => {
                &&& origin.ip.bytes() == meant.ip.bytes()
                &&& origin.port == meant.port
                &&& route == (Route::ProxyRelay { tls })
            },
            None => !(route is ProtocolRelay) && !(route is ProxyRelay),
        },
{
}

/// Traffic that is not redirected reaches the address that the connection was meant for, through
/// the relay that the connection asked for: whole TLS records whose name is not official, and
/// everything that is no TLS, but for that to the official game server.
#[verifier::spinoff_prover]
#[verifier::rlimit(60)]
pub proof fn unredirected_traffic_arrives_where_it_was_meant_to_go(
    config: ClientConfig,
    relays: &Relays,
    meant: SocketAddrV4,
    received: Seq<u8>,
    ended: bool,
)
    requires
        route_to(Ok(config), relays, meant) is ProtocolRelay,
        if starts_as_tls(received) {
            &&& received.len() >= 5
            &&& 0 < received[3] * 256 + received[4] <= 16384
            &&& received.len() == 5 + received[3] * 256 + received[4]
            &&& server_name(received) matches Some(name) ==> !official_host(name)
        } else {
            &&& received.len() >= 5 || ended
            &&& meant.ip.bytes() != seq![43u8, 163u8, 62u8, 120u8]
        },
    ensures
        asked(route_to(Ok(config), relays, meant), meant) matches Some(
            RelayTask::Protocol { origin_ip, game, tls },
        ) && protocol_plan(
            origin_ip,
            game,
            tls,
            config.tls.host@,
            received,
            ended,
        ) matches Plan::Forward { target, payload, events } && target == meant && payload
            == received,
{
    if starts_as_tls(received) {
        let behind = received.skip(5);
        assert(received == tls_stream(received[2], received[3], received[4], behind));
        whole_records_are_routed_by_name(
            meant.ip,
            SocketAddrV4 { ip: config.game.ipv4->0, port: config.game.port },
            SocketAddrV4 { ip: config.tls.ipv4->0, port: config.tls.port },
            config.tls.host@,
            received[2],
            received[3],
            received[4],
            behind,
            ended,
        );
    } else {
        assert(meant.ip.bytes()[0] == meant.ip.a && meant.ip.bytes()[1] == meant.ip.b
            && meant.ip.bytes()[2] == meant.ip.c && meant.ip.bytes()[3] == meant.ip.d);
        if meant.ip.a == 43 && meant.ip.b == 163 && meant.ip.c == 62 && meant.ip.d == 120 {
            assert(meant.ip.bytes() == seq![43u8, 163u8, 62u8, 120u8]);
        }
        other_traffic_is_passed_on_as_it_is(
            meant.ip,
            SocketAddrV4 { ip: config.game.ipv4->0, port: config.game.port },
            SocketAddrV4 { ip: config.tls.ipv4->0, port: config.tls.port },
            config.tls.host@,
            received,
            ended,
        );
    }
}

/// What the relay of a proxy does not answer itself reaches the proxy that the connection was meant
/// for, as it is.
pub proof fn proxy_traffic_arrives_where_it_was_meant_to_go(
    loaded: Result<ClientConfig, String>,
    relays: &Relays,
    meant: SocketAddrV4,
    received: Seq<u8>,
    ended: bool,
)
    requires
        route_to(loaded, relays, meant) is ProxyRelay,
        !spells_connect(received),
        received.len() >= 8 || ended,
    ensures
        asked(route_to(loaded, relays, meant), meant) matches Some(
            RelayTask::Proxy { origin, tls },
        ) && proxy_plan(origin, tls, received, ended) matches Plan::Forward {
            target,
            payload,
            events,
        } && target == meant && payload == received,
{
    other_proxy_traffic_is_passed_on_as_it_is(
        meant,
        route_to(loaded, relays, meant)->ProxyRelay_tls,
        received,
        ended,
    );
}

/// What a connection asks for is asked for with the private host of the configuration.
pub proof fn relays_get_the_private_host(
    relay: Option<RelayRequest>,
    task: RelayTask,
    config: ClientConfig,
    loaded: Result<ClientConfig, String>,
)
    ensures
        requests(relay, Some(task), Ok(config)) <==> relay is Some && relay->0.task == task
            && relay->0.tls_host@ == config.tls.host@,
        requests(relay, None, loaded) <==> relay is None,
{
}

/// A connection to the configured proxy goes to a relay for it, unless it is one to a relay already
/// or the private TLS server is not known. Over IPv4 it keeps its address.
pub proof fn proxy_connections_go_through_a_relay(
    config: ClientConfig,
    relays: &Relays,
    from: SocketAddrV4,
    port: u16,
)
    requires
        config.proxy is Some,
        config.proxy->0.ipv4 == from.ip,
        config.proxy->0.port == from.port,
        !relays.listens_on(from.port),
    ensures
        match config.tls.ipv4 {
            Some(ip) => {
                &&& route_to(Ok(config), relays, from) == (Route::ProxyRelay {
                    tls: SocketAddrV4 { ip, port: config.tls.port },
                })
                &&& destination(Ok(config), relays, from, Ok(port)) == (SocketAddrV4 {
                    ip: from.ip,
                    port,
                })
            },
            None => route_to(Ok(config), relays, from) == Route::ProxyRelayUnavailable,
        },
{
}

/// A connection to the port of HTTPS that is not meant for the proxy goes, on another machine than
/// the private TLS server, to a relay with both private servers; where one of them is not known it
/// is said so, and on this machine it is left alone. To the private TLS server it changes its port.
pub proof fn https_connections_are_routed_by_address(
    config: ClientConfig,
    relays: &Relays,
    ip: Ipv4Addr,
)
    requires
        config.proxy is None || config.proxy->0.ipv4 != ip || config.proxy->0.port != 443
            || relays.listens_on(443),
    ensures
        route_to(Ok(config), relays, SocketAddrV4 { ip, port: 443 }) == if config.tls.ipv4 == Some(
            ip,
        ) {
            (Route::TlsRedirect { port: config.tls.port })
        } else if ip.a == 127 {
            Route::Leave
        } else if config.game.ipv4 is None || config.tls.ipv4 is None {
            Route::ProtocolRelayUnavailable
        } else {
            (Route::ProtocolRelay {
                game: SocketAddrV4 { ip: config.game.ipv4->0, port: config.game.port },
                tls: SocketAddrV4 { ip: config.tls.ipv4->0, port: config.tls.port },
            })
        },
{
}

/// An IPv6 address that stands for an IPv4 address takes the route of that address, and asks for the
/// relay that it asks for; every other is left alone.
pub proof fn mapped_addresses_take_the_same_route(
    loaded: Result<ClientConfig, String>,
    relays: &Relays,
    meant: SocketAddrV4,
    other: (Seq<u8>, u16),
)
    ensures
        mapped_route(loaded, relays, (mapped(meant.ip), meant.port)) == route_to(
            loaded,
            relays,
            meant,
        ),
        unmapped(mapped(meant.ip)) == meant.ip,
        mapped_words(mapped(meant.ip)) == meant.ip.shown(),
        (forall|ip: Ipv4Addr| other.0 != #[trigger] mapped(ip)) ==> mapped_route(
            loaded,
            relays,
            other,
        ) == Route::Leave && mapped_words(other.0) == "none"@,
{
    assert(mapped(meant.ip) == mapped(unmapped(mapped(meant.ip))));
    mapping_is_injective(meant.ip, unmapped(mapped(meant.ip)));
}

/// What is reported of a connection names where it was meant to go, where it goes, and over what.
pub proof fn connections_are_reported(
    route: Route,
    source: Seq<char>,
    ip: Ipv4Addr,
    port: u16,
    error: Seq<char>,
    family: Seq<char>,
    other_family: Seq<char>,
    game: SocketAddrV4,
    tls: SocketAddrV4,
)
    ensures
        candidate_events(port, source, family) == if port == 443 {
            seq!["tls connect candidate source="@ + source + family]
        } else {
            seq![]
        },
        ipv6_source(source, port) == "["@ + source + "]:"@ + decimal(port as nat),
        route_events((Route::TlsRedirect { port }), source, ip, family) == seq![
            "sdk tls redirect source="@ + source + " target="@ + ip.shown() + ":"@ + decimal(
                port as nat,
            ) + family,
        ],
        route_events(Route::ProxyRelayUnavailable, source, ip, family) == seq![
            "proxy relay unavailable; tls.ipv4 is missing"@,
        ],
        route_events(Route::ProtocolRelayUnavailable, source, ip, family) == seq![
            "protocol relay unavailable; game.ipv4 or tls.ipv4 is missing"@,
        ],
        route is Leave || route is ProxyRelay || route is ProtocolRelay ==> route_events(
            route,
            source,
            ip,
            family,
        ).len() == 0,
        relay_event((Route::ProxyRelay { tls }), source, Ok(port), family, other_family) == Some(
            "loopback proxy relay source="@ + source + " target=127.0.0.1:"@ + decimal(port as nat)
                + family,
        ),
        relay_event((Route::ProxyRelay { tls }), source, Err(error), family, other_family) == Some(
            "loopback proxy relay creation failed for "@ + source + ": "@ + error,
        ),
        relay_event((Route::ProtocolRelay { game, tls }), source, Ok(port), family, other_family)
            == Some(
            "protocol relay source="@ + source + " target=127.0.0.1:"@ + decimal(port as nat)
                + other_family,
        ),
        relay_event((Route::ProtocolRelay { game, tls }), source, Err(error), family, other_family)
            == Some("protocol relay creation failed for "@ + source + ": "@ + error),
        !(route is ProxyRelay) && !(route is ProtocolRelay) ==> relay_event(
            route,
            source,
            Ok(port),
            family,
            other_family,
        ) is None,
{
    assert("sdk tls redirect source="@ + source + " target="@ + (ip.shown() + ":"@ + decimal(
        port as nat,
    )) + family == "sdk tls redirect source="@ + source + " target="@ + ip.shown() + ":"@ + decimal(
        port as nat,
    ) + family);
}

/// A relay that was found takes the connection: over IPv4 one for a proxy at the address of the
/// proxy and one for TLS and game traffic at 127.0.0.1, and over IPv6 both at what stands for
/// 127.0.0.1. Every other connection stays where it is, and so does one whose relay cannot be had.
pub proof fn relays_take_the_connection(
    route: Route,
    from: SocketAddrV4,
    mapped_from: (Seq<u8>, u16),
    port: u16,
    error: Seq<char>,
)
    ensures
        relayed(from, route, Ok(port)).port == if route is ProxyRelay || route is ProtocolRelay {
            port
        } else {
            from.port
        },
        relayed(from, route, Ok(port)).ip.bytes() == if route is ProtocolRelay {
            seq![127u8, 0, 0, 1]
        } else {
            from.ip.bytes()
        },
        relayed(from, route, Err(error)) == from,
        mapped_relayed(mapped_from, route, Ok(port)) == if route is ProxyRelay || route
            is ProtocolRelay {
            (seq![0u8, 0, 0, 0, 0, 0, 0, 0, 0, 0, 255, 255, 127, 0, 0, 1], port)
        } else {
            mapped_from
        },
        mapped_relayed(mapped_from, route, Err(error)) == mapped_from,
        routed(from, route).ip == from.ip,
        routed(from, route).port == if route is TlsRedirect {
            route->TlsRedirect_port
        } else {
            from.port
        },
        mapped_routed(mapped_from, route) == if route is TlsRedirect {
            (mapped_from.0, route->TlsRedirect_port)
        } else {
            mapped_from
        },
{
    assert(mapped(Ipv4Addr::localhost()) == seq![
        0u8,
        0,
        0,
        0,
        0,
        0,
        0,
        0,
        0,
        0,
        255,
        255,
        127,
        0,
        0,
        1,
    ]);
}

/// A port or an error is handed on as it is.
pub proof fn outcomes_are_handed_on(relay: Result<u16, &str>)
    ensures
        match relay {
            Ok(port) => outcome(relay) == Ok::<u16, Seq<char>>(port),
            Err(error) => outcome(relay) == Err::<u16, Seq<char>>(error@),
        },
{
}

}
