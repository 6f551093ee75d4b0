//! What callers of the library may rely on: how the results of calls follow from what they are
//! given, and how the results of several calls go together.

use vstd::prelude::*;
use vstd::string::*;
use vstd::utf8::*;

use crate::addr::{
    ipv4_mapped_bytes, mapped, mapped_addresses_end_with_the_octets, mapped_ipv4,
    mapping_is_injective, Ipv4Addr, SocketAddrV4,
};
use crate::config::{
    accept, get, is_configured_proxy_endpoint, ClientConfig, ConfigFile, ProxyEndpoint,
};
use crate::connect::{
    connection_route, hooked_family, https_connections_are_routed_by_address,
    mapped_addresses_take_the_same_route, on_connect, on_connect_ipv6, on_relay, on_relay_ipv6,
    outcome, proxy_connections_go_through_a_relay, relay_asked,
    relays_stand_for_the_address_of_the_connection, relays_take_the_connection, route_to,
    ConnectReport, Family, Route, SockAddrIn, SockAddrIn6,
};
use crate::diagnostics::{event, relays_are_known_by_what_they_stand_for, Relay};
use crate::encoding::{
    ansi_host, read_wide_string, strings_end_at_the_first_nul, texts_without_nul_have_no_zero_unit,
    utf16_round_trip, utf16_units, utf8_lossy, wide_host,
};
use crate::hello::{
    first_given_name_is_read, first_listed_name_is_replaced, fits_two, laid_out,
    names_are_read_out_of_hellos_alone, replaced_name_is_reported, server_name_extension, two,
    Extension, Hello,
};
use crate::host::{
    connect_host, is_official_sdk_host, is_official_sdk_url, official_host,
    official_hosts_are_known_by_name, parse_connect_host, should_accept_private_cn_mismatch,
    url_host, url_host_stands_behind_the_scheme,
};
use crate::modules::{Hook, HookOutcome, Servers, Socket, SocketError};
use crate::network::{
    checks_server_name, names_are_read_up_to_their_nul, on_get_ie_proxy_config,
    on_get_proxy_for_url, on_getaddrinfo, on_verify_certificate_chain_policy, on_winhttp_connect,
    reads_parameters, reads_url, redirected_check, set_host, Answer, CertChainPolicyStatus,
    CurrentUserIeProxyConfig, HostNames, LookupRedirect, NetworkError, RedirectedCheck, Verdict,
    WinHttpProxyInfo, WinHttpRedirect,
};
use crate::relay::{
    is_internal_relay_port, keep_proxy_relay_port, keep_relay_port, kept_proxy_relay_port_is_found,
    kept_relay_port_is_found, proxy_relay_port_for, relay_port_for, ProxyPorts, RelayError,
    RelayRequest, RelayTask, Relays, TlsPorts,
};
use crate::route::{
    holds_empty_line, intercepted_records_are_renamed, is_judgeable,
    only_short_records_cannot_be_judged, other_proxy_traffic_is_passed_on_as_it_is,
    other_traffic_is_passed_on_as_it_is, route_connection, route_private_tls_connection, route_proxy_connection,
    should_route_tls_to_private, spells_connect, starts_as_tls, tls_stream,
    tunnels_are_judged_by_their_host, whole_records_are_routed_by_name, RelayStep, RouteError,
};
use crate::startup::{launch, next_step, ready_event_name, starts, Launch, Library, Step};
use crate::text::{
    bytes_are_written_as_two_hex_digits, decimal, hex_prefix, is_numeral,
    numbers_are_written_as_numerals, reads_as, stands_at, value_of, writes_byte,
};
use crate::tls::{
    adjust_u16, adjust_u24, extract_tls_sni, is_readable, is_tls_client_hello,
    only_short_records_cannot_be_read, rewrite_tls_sni, rewritten, server_name, TlsError,
};
use crate::util::{
    disable_memory_protection, next_routine, restored_number_is_one_less,
    restored_word_keeps_its_low_half,
};

verus! {

// Server names in records.

/// Reading the server name of a record gives the name in the first of its extensions that gives
/// one, whatever the other parts of the record are.
pub proof fn reading_gives_the_first_name(
    record: &[u8],
    result: Option<String>,
    h: Hello,
    before: Seq<Extension>,
    list: int,
    name: Seq<u8>,
    rest: Seq<u8>,
    after: Seq<u8>,
)
    requires
        call_ensures(extract_tls_sni, (record,), result),
        record@ == h.bytes(),
        h.fits(),
        h.is_tls(),
        0 <= list <= 0xffff,
        name.len() <= 0xffff,
        forall|i: int| 0 <= i < before.len() ==> !#[trigger] before[i].gives_name(false),
        h.extensions == laid_out(before) + server_name_extension(list, name, rest).bytes() + after,
    ensures
        valid_utf8(name) ==> result is Some && result->0@ == decode_utf8(name),
        !valid_utf8(name) ==> result is None,
{
    first_given_name_is_read(h, before, list, name, rest, after);
}

/// A name is read out of nothing but a TLS record with a ClientHello.
pub proof fn reading_needs_a_hello(record: &[u8], result: Option<String>)
    requires
        call_ensures(extract_tls_sni, (record,), result),
        result is Some,
    ensures
        exists|h: Hello| #[trigger] h.bytes() == record@ && h.fits() && h.is_tls(),
{
    names_are_read_out_of_hellos_alone(record@);
}

/// A record is sent to the private server exactly where the name that is read out of it is official.
pub proof fn routing_goes_by_the_name_that_is_read(
    record: &[u8],
    name: Option<String>,
    official: bool,
    result: bool,
)
    requires
        call_ensures(extract_tls_sni, (record,), name),
        call_ensures(should_route_tls_to_private, (record,), result),
        name is Some ==> exists|text: &str|
            text@ == name->0@ && #[trigger] call_ensures(is_official_sdk_host, (text,), official),
    ensures
        result == (name is Some && official),
{
}

/// Replacing the server name of a record gives the record with the new name and the lengths that go
/// with it, and reports both names, wherever among the extensions the name stands.
#[verifier::spinoff_prover]
#[verifier::rlimit(80)]
pub proof fn replacing_puts_the_new_name_in(
    record: &mut Vec<u8>,
    host: &str,
    result: Result<Option<String>, TlsError>,
    h: Hello,
    before: Seq<Extension>,
    list: int,
    name: Seq<u8>,
    rest: Seq<u8>,
    after: Seq<u8>,
)
    requires
        call_ensures(rewrite_tls_sni, (record, host), result),
        old(record)@ == h.bytes(),
        h.fits(),
        h.head[0] == 0x16,
        3 <= list <= 0xffff,
        name.len() <= 0xffff,
        forall|i: int| 0 <= i < before.len() ==> !#[trigger] before[i].gives_name(true),
        h.extensions == laid_out(before) + server_name_extension(list, name, rest).bytes() + after,
        encode_utf8(host@).len() <= 255,
        fits_two(list + encode_utf8(host@).len() - name.len()),
        fits_two((5 + encode_utf8(host@).len() + rest.len()) as int),
        h.message().len() + encode_utf8(host@).len() - name.len() <= 0xff_ffff,
        fits_two(h.head[3] * 256 + h.head[4] + encode_utf8(host@).len() - name.len()),
    ensures
        ({
            let new = encode_utf8(host@);
            let by = new.len() - name.len();
            let head = h.head.take(3) + two(h.head[3] * 256 + h.head[4] + by);
            let extensions = laid_out(before) + server_name_extension(
                list + by,
                new,
                rest,
            ).bytes() + after;
            &&& final(record)@ == (Hello { head, extensions, ..h }).bytes()
            &&& result is Ok && result->Ok_0 is Some
            &&& result->Ok_0->0@ == "game tls SNI rewrite "@ + utf8_lossy(name) + " -> "@ + host@
        }),
{
    first_listed_name_is_replaced(h, before, list, name, rest, after, encode_utf8(host@));
    replaced_name_is_reported(h, before, list, name, rest, after, host@);
}

// Hosts, URLs and requests.

/// A host is taken for official by its name alone, up to ASCII case and dots at its end.
pub proof fn official_names_are_recognised(
    host: &str,
    result: bool,
    name: Seq<char>,
    dots: Seq<char>,
)
    requires
        call_ensures(is_official_sdk_host, (host,), result),
        host@ == name + dots,
        name.len() > 0 ==> name.last() != '.',
        forall|i: int| 0 <= i < dots.len() ==> #[trigger] dots[i] == '.',
    ensures
        result <==> {
            ||| reads_as(name, "sl916.com"@)
            ||| reads_as(name, "game.local"@)
            ||| name.len() >= 10 && reads_as(name.skip(name.len() - 10), ".sl916.com"@)
        },
{
    official_hosts_are_known_by_name(name, dots);
}

/// A URL is taken for official exactly where its host is.
pub proof fn official_urls_are_recognised_by_their_host(
    url: &str,
    result: bool,
    host: &str,
    official: bool,
    scheme: Seq<char>,
    user: Seq<char>,
    port: Seq<char>,
    path: Seq<char>,
)
    requires
        call_ensures(is_official_sdk_url, (url,), result),
        call_ensures(is_official_sdk_host, (host,), official),
        url@ == scheme + "://"@ + user + host@ + port + path,
        forall|i: int| !#[trigger] stands_at(scheme, "://"@, i),
        user.len() > 0 ==> user.last() == '@',
        forall|i: int| 0 <= i < user.len() ==> !"/?#"@.contains(#[trigger] user[i]),
        host@.len() > 0 && host@[0] == '[' ==> !(host@ + port).contains(']'),
        forall|i: int| 0 <= i < host@.len() ==> !"/?#@:"@.contains(#[trigger] host@[i]),
        port.len() > 0 ==> port[0] == ':',
        forall|i: int| 0 <= i < port.len() ==> !"/?#@"@.contains(#[trigger] port[i]),
        path.len() > 0 ==> "/?#"@.contains(path[0]),
    ensures
        result == official,
{
    url_host_stands_behind_the_scheme(scheme, user, host@, port, path);
}

/// Every URL is judged by its host, and every request by its line.
pub proof fn urls_and_requests_are_judged_by_what_they_name(
    url: &str,
    official: bool,
    request: &[u8],
    host: Option<String>,
)
    requires
        call_ensures(is_official_sdk_url, (url,), official),
        call_ensures(parse_connect_host, (request,), host),
    ensures
        official == official_host(url_host(url@)),
        match host {
            Some(host) => connect_host(request@) == Some(host@),
            None => connect_host(request@) is None,
        },
{
}

/// A mismatch of names is accepted for official hosts, and no other error is.
pub proof fn only_mismatches_of_official_hosts_are_accepted(
    host: &str,
    error: u32,
    result: bool,
    official: bool,
)
    requires
        call_ensures(should_accept_private_cn_mismatch, (host, error), result),
        call_ensures(is_official_sdk_host, (host,), official),
    ensures
        result <==> official && error == 0x800B_010F,
{
}

// Relays.

/// A relay for TLS and game traffic sends a whole record with an official name to the private TLS
/// server, renamed, and every other whole record as it is to where it was meant to go.
#[verifier::spinoff_prover]
#[verifier::rlimit(40)]
pub proof fn relays_route_whole_records(
    origin_ip: Ipv4Addr,
    game: SocketAddrV4,
    tls: SocketAddrV4,
    tls_host: &str,
    received: &[u8],
    ended: bool,
    step: RelayStep,
    minor: u8,
    high: u8,
    low: u8,
    behind: Seq<u8>,
)
    requires
        call_ensures(route_connection, (origin_ip, game, tls, tls_host, received, ended), step),
        received@ == tls_stream(minor, high, low, behind),
        minor <= 4,
        0 < high * 256 + low <= 16384,
        behind.len() >= high * 256 + low,
    ensures
        if server_name(received@) is Some && official_host(server_name(received@)->0) {
            match rewritten(received@, encode_utf8(tls_host@)) {
                (renamed, Ok(_)) => step matches RelayStep::Forward { target, payload, events }
                    && target == tls && payload@ == renamed,
                (_, Err(error)) => step matches RelayStep::Fail(RouteError::Tls(e)) && e == error,
            }
        } else {
            step matches RelayStep::Forward { target, payload, events } && target.ip == origin_ip
                && target.port == 443 && payload@ == received@
        },
{
    whole_records_are_routed_by_name(
        origin_ip,
        game,
        tls,
        tls_host@,
        minor,
        high,
        low,
        behind,
        ended,
    );
}

/// What does not start as TLS leaves a relay as it came in, for the private game server where it was
/// meant for the official one, and else for where it was meant to go.
pub proof fn relays_pass_other_traffic_on(
    origin_ip: Ipv4Addr,
    game: SocketAddrV4,
    tls: SocketAddrV4,
    tls_host: &str,
    received: &[u8],
    ended: bool,
    step: RelayStep,
)
    requires
        call_ensures(route_connection, (origin_ip, game, tls, tls_host, received, ended), step),
        received@.len() >= 5 || ended,
        !starts_as_tls(received@),
    ensures
        step matches RelayStep::Forward { target, payload, events } && payload@ == received@
            && if origin_ip.bytes() == seq![43u8, 163u8, 62u8, 120u8] {
            target == game
        } else {
            target.ip == origin_ip && target.port == 443
        },
{
    other_traffic_is_passed_on_as_it_is(origin_ip, game, tls, tls_host@, received@, ended);
    let bytes = origin_ip.bytes();
    assert(bytes[0] == origin_ip.a && bytes[1] == origin_ip.b && bytes[2] == origin_ip.c && bytes[3]
        == origin_ip.d);
    if origin_ip.a == 43 && origin_ip.b == 163 && origin_ip.c == 62 && origin_ip.d == 120 {
        assert(bytes == seq![43u8, 163u8, 62u8, 120u8]);
    }
}

/// A relay for a proxy answers tunnels to official hosts itself, and passes everything else on to
/// the proxy as it came in.
pub proof fn proxy_relays_answer_official_tunnels(
    proxy: SocketAddrV4,
    tls: SocketAddrV4,
    received: &[u8],
    ended: bool,
    step: RelayStep,
)
    requires
        call_ensures(route_proxy_connection, (proxy, tls, received, ended), step),
        if spells_connect(received@) {
            holds_empty_line(received@) || received@.len() >= 16384 || ended
        } else {
            received@.len() >= 8 || ended
        },
    ensures
        if spells_connect(received@) && connect_host(received@) is Some && official_host(
            connect_host(received@)->0,
        ) {
            step matches RelayStep::Intercept { reply, events } && reply@ == encode_utf8(
                "HTTP/1.1 200 Connection Established\r\n\r\n"@,
            )
        } else {
            step matches RelayStep::Forward { target, payload, events } && target == proxy
                && payload@ == received@
        },
{
    if spells_connect(received@) {
        tunnels_are_judged_by_their_host(proxy, tls, received@, ended);
    } else {
        other_proxy_traffic_is_passed_on_as_it_is(proxy, tls, received@, ended);
    }
}

/// An intercepted tunnel goes to the private TLS server with its first record renamed.
#[verifier::spinoff_prover]
#[verifier::rlimit(40)]
pub proof fn intercepted_tunnels_are_renamed(
    tls: SocketAddrV4,
    tls_host: &str,
    received: &[u8],
    ended: bool,
    step: RelayStep,
    minor: u8,
    high: u8,
    low: u8,
    behind: Seq<u8>,
)
    requires
        call_ensures(route_private_tls_connection, (tls, tls_host, received, ended), step),
        received@ == tls_stream(minor, high, low, behind),
        minor <= 4,
        0 < high * 256 + low <= 16384,
        behind.len() >= high * 256 + low,
    ensures
        match rewritten(received@, encode_utf8(tls_host@)) {
            (renamed, Ok(_)) => step matches RelayStep::Forward { target, payload, events }
                && target == tls && payload@ == renamed,
            (_, Err(error)) => step matches RelayStep::Fail(RouteError::Tls(e)) && e == error,
        },
{
    intercepted_records_are_renamed(tls, tls_host@, minor, high, low, behind, ended);
}

// Connections.

/// Connections over IPv4 and IPv6 are looked at, and none while the process connects for itself.
pub proof fn internet_connections_are_looked_at(
    bypassed: bool,
    family: Option<u16>,
    result: Option<Family>,
)
    requires
        call_ensures(hooked_family, (bypassed, family), result),
    ensures
        result == Some(Family::Ipv4) <==> !bypassed && family == Some(2u16),
        result == Some(Family::Ipv6) <==> !bypassed && family == Some(23u16),
{
}

/// A connection over IPv4 to the port of HTTPS on another machine, neither the proxy nor the private
/// TLS server, asks for a relay that stands for its own address, with the private servers and the
/// private host, and stays as it is until the relay has a port; then it goes there.
pub proof fn https_connections_ask_for_their_relay(
    addr: &mut SockAddrIn,
    relayed: &mut SockAddrIn,
    loaded: &Result<ClientConfig, String>,
    relays: &Relays,
    report: ConnectReport,
    port: u16,
    event: Option<String>,
    config: ClientConfig,
)
    requires
        call_ensures(on_connect, (addr, loaded, relays), report),
        *loaded == Ok::<ClientConfig, String>(config),
        old(addr)@.port == 443,
        config.proxy is None || config.proxy->0.ipv4 != old(addr)@.ip || config.proxy->0.port != 443,
        old(addr)@.ip.a != 127,
        config.game.ipv4 is Some,
        config.tls.ipv4 is Some,
        config.tls.ipv4->0 != old(addr)@.ip,
        call_ensures(on_relay, (relayed, report.route, Ok(port)), event),
        old(relayed)@ == final(addr)@,
    ensures
        final(addr)@ == old(addr)@,
        report.relay is Some,
        report.relay->0.task == (RelayTask::Protocol {
            origin_ip: old(addr)@.ip,
            game: SocketAddrV4 { ip: config.game.ipv4->0, port: config.game.port },
            tls: SocketAddrV4 { ip: config.tls.ipv4->0, port: config.tls.port },
        }),
        report.relay->0.tls_host@ == config.tls.host@,
        final(relayed)@ == (SocketAddrV4 { ip: Ipv4Addr { a: 127, b: 0, c: 0, d: 1 }, port }),
{
    https_connections_are_routed_by_address(config, relays, old(addr)@.ip);
}

/// A connection over IPv4 to the configured proxy asks for a relay that stands for it, and then goes
/// to the port of the relay.
pub proof fn proxy_connections_ask_for_their_relay(
    addr: &mut SockAddrIn,
    relayed: &mut SockAddrIn,
    loaded: &Result<ClientConfig, String>,
    relays: &Relays,
    report: ConnectReport,
    port: u16,
    event: Option<String>,
    config: ClientConfig,
)
    requires
        call_ensures(on_connect, (addr, loaded, relays), report),
        *loaded == Ok::<ClientConfig, String>(config),
        config.proxy is Some,
        config.proxy->0.ipv4 == old(addr)@.ip,
        config.proxy->0.port == old(addr)@.port,
        !relays.listens_on(old(addr)@.port),
        config.tls.ipv4 is Some,
        call_ensures(on_relay, (relayed, report.route, Ok(port)), event),
        old(relayed)@ == final(addr)@,
    ensures
        final(addr)@ == old(addr)@,
        report.relay is Some,
        report.relay->0.task == (RelayTask::Proxy {
            origin: old(addr)@,
            tls: SocketAddrV4 { ip: config.tls.ipv4->0, port: config.tls.port },
        }),
        report.relay->0.tls_host@ == config.tls.host@,
        final(relayed)@ == (SocketAddrV4 { ip: old(addr)@.ip, port }),
{
    proxy_connections_go_through_a_relay(config, relays, old(addr)@, port);
}

/// A connection over IPv4 to the private TLS server changes to its port; one to another port that is
/// not the proxy's stays as it is, and so does every one without a configuration. None of them asks
/// for a relay.
pub proof fn other_connections_ask_for_no_relay(
    addr: &mut SockAddrIn,
    loaded: &Result<ClientConfig, String>,
    relays: &Relays,
    report: ConnectReport,
)
    requires
        call_ensures(on_connect, (addr, loaded, relays), report),
        *loaded is Ok ==> {
            let config = loaded->Ok_0;
            &&& config.proxy is None || config.proxy->0.ipv4 != old(addr)@.ip
                || config.proxy->0.port != old(addr)@.port || relays.listens_on(old(addr)@.port)
            &&& old(addr)@.port != 443 || config.tls.ipv4 == Some(old(addr)@.ip)
        },
    ensures
        report.relay is None,
        final(addr)@.ip == old(addr)@.ip,
        final(addr)@.port == if *loaded is Ok && old(addr)@.port == 443 {
            loaded->Ok_0.tls.port
        } else {
            old(addr)@.port
        },
{
}

/// A connection over IPv6 to what stands for an IPv4 address asks for the relay that one over IPv4
/// asks for, with the same private host, and takes its route.
pub proof fn mapped_connections_ask_for_the_same_relay(
    addr: &mut SockAddrIn,
    addr6: &mut SockAddrIn6,
    text: &str,
    loaded: &Result<ClientConfig, String>,
    relays: &Relays,
    report: ConnectReport,
    report6: ConnectReport,
)
    requires
        call_ensures(on_connect, (addr, loaded, relays), report),
        call_ensures(on_connect_ipv6, (addr6, text, loaded, relays), report6),
        old(addr6)@ == (mapped(old(addr)@.ip), old(addr)@.port),
    ensures
        report6.route == report.route,
        report6.relay is Some <==> report.relay is Some,
        report.relay is Some ==> {
            &&& report6.relay->0.task == report.relay->0.task
            &&& report6.relay->0.tls_host@ == report.relay->0.tls_host@
        },
        final(addr6)@ == (mapped(final(addr)@.ip), final(addr)@.port),
{
    mapped_addresses_take_the_same_route(*loaded, relays, old(addr)@, (seq![], 0));
}

/// Over IPv6 a relay that was found takes the connection at what stands for 127.0.0.1, and one that
/// cannot be had changes nothing.
pub proof fn mapped_connections_go_to_their_relay(
    addr: &mut SockAddrIn6,
    text: &str,
    route: Route,
    relay: Result<u16, &str>,
    event: Option<String>,
)
    requires
        call_ensures(on_relay_ipv6, (addr, text, route, relay), event),
    ensures
        final(addr)@ == if relay is Ok && (route is ProxyRelay || route is ProtocolRelay) {
            (seq![0u8, 0, 0, 0, 0, 0, 0, 0, 0, 0, 255, 255, 127, 0, 0, 1], relay->Ok_0)
        } else {
            old(addr)@
        },
        event is Some <==> route is ProxyRelay || route is ProtocolRelay,
{
    relays_take_the_connection(
        route,
        SocketAddrV4 { ip: Ipv4Addr { a: 0, b: 0, c: 0, d: 0 }, port: 0 },
        old(addr)@,
        outcome(relay)->Ok_0,
        outcome(relay)->Err_0,
    );
}

/// A relay that cannot be had changes nothing over IPv4 either.
pub proof fn connections_without_their_relay_stay_as_they_are(
    addr: &mut SockAddrIn,
    route: Route,
    error: &str,
    event: Option<String>,
)
    requires
        call_ensures(on_relay, (addr, route, Err(error)), event),
    ensures
        final(addr)@ == old(addr)@,
        event is Some <==> route is ProxyRelay || route is ProtocolRelay,
{
}

/// The address that an IPv6 address was made from is the one that it is taken for.
pub proof fn mapped_addresses_are_taken_for_their_own(
    ip: Ipv4Addr,
    bytes: [u8; 16],
    result: Option<Ipv4Addr>,
)
    requires
        call_ensures(ipv4_mapped_bytes, (ip,), bytes),
        call_ensures(mapped_ipv4, (bytes,), result),
    ensures
        result == Some(ip),
        bytes@.skip(12) == ip.bytes(),
        forall|i: int| 0 <= i < 10 ==> #[trigger] bytes@[i] == 0,
        bytes@[10] == 0xff && bytes@[11] == 0xff,
{
    mapped_addresses_end_with_the_octets(ip);
    if let Some(other) = result {
        mapping_is_injective(ip, other);
    }
}

// Registries.

/// A port that is kept for an address is what is found for it from then on, and a relay then listens
/// on it; what is found for other addresses stays as it was.
pub proof fn kept_ports_are_found(
    ports: &mut TlsPorts,
    before: &TlsPorts,
    after: &TlsPorts,
    ip: Ipv4Addr,
    port: u16,
    other: Ipv4Addr,
    found: Result<Option<u16>, RelayError>,
    other_before: Result<Option<u16>, RelayError>,
    other_after: Result<Option<u16>, RelayError>,
    relays: &Relays,
    known: bool,
)
    requires
        old(ports)@ is Some,
        call_ensures(keep_relay_port, (ports, ip, port), ()),
        before@ == old(ports)@,
        after@ == final(ports)@,
        other != ip,
        call_ensures(relay_port_for, (Some(after), ip), found),
        call_ensures(relay_port_for, (Some(before), other), other_before),
        call_ensures(relay_port_for, (Some(after), other), other_after),
        relays.tls == Some(after),
        call_ensures(is_internal_relay_port, (relays, port), known),
    ensures
        found == Ok::<Option<u16>, RelayError>(Some(port)),
        other_after == other_before,
        known,
{
    kept_relay_port_is_found(old(ports)@->0, ip, port, other);
}

/// The same holds of the ports that are kept for a proxy.
pub proof fn kept_proxy_ports_are_found(
    ports: &mut ProxyPorts,
    before: &ProxyPorts,
    after: &ProxyPorts,
    origin: SocketAddrV4,
    port: u16,
    other: SocketAddrV4,
    found: Result<Option<u16>, RelayError>,
    other_before: Result<Option<u16>, RelayError>,
    other_after: Result<Option<u16>, RelayError>,
    relays: &Relays,
    known: bool,
)
    requires
        old(ports)@ is Some,
        call_ensures(keep_proxy_relay_port, (ports, origin, port), ()),
        before@ == old(ports)@,
        after@ == final(ports)@,
        other != origin,
        call_ensures(proxy_relay_port_for, (Some(after), origin), found),
        call_ensures(proxy_relay_port_for, (Some(before), other), other_before),
        call_ensures(proxy_relay_port_for, (Some(after), other), other_after),
        relays.proxy == Some(after),
        call_ensures(is_internal_relay_port, (relays, port), known),
    ensures
        found == Ok::<Option<u16>, RelayError>(Some(port)),
        other_after == other_before,
        known,
{
    kept_proxy_relay_port_is_found(old(ports)@->0, origin, port, other);
}

// Requests over WinHTTP, lookups and certificate checks.

/// Whether code units hold a text and, behind it, a NUL.
pub open spec fn holds_text(units: Seq<u16>, text: Seq<char>) -> bool {
    !text.contains('\0') && exists|rest: Seq<u16>| units == utf16_units(text) + seq![0u16] + rest
}

/// A connection over WinHTTP goes to the private host and its port exactly where its host is
/// official and has under 512 code units, and the private host is set up and configured.
pub proof fn winhttp_goes_to_the_private_host(
    units: &[u16],
    register: u64,
    loaded: &Result<ClientConfig, String>,
    names: &HostNames,
    result: Option<WinHttpRedirect>,
    host: &str,
    official: bool,
)
    requires
        call_ensures(on_winhttp_connect, (Some(units), register, loaded, Some(names)), result),
        call_ensures(is_official_sdk_host, (host,), official),
        holds_text(units@, host@),
    ensures
        result is Some <==> official && *loaded is Ok && utf16_units(host@).len() < 512,
        result is Some ==> {
            &&& result->0.host@ == utf16_units(names.host()) + seq![0u16]
            &&& result->0.port == loaded->Ok_0.tls.port
        },
{
    let rest = choose|rest: Seq<u16>| units@ == utf16_units(host@) + seq![0u16] + rest;
    names_are_read_up_to_their_nul(host@, rest, 512);
}

/// A lookup is one of the private host exactly where the name is UTF-8 and official, and the private
/// host is set up.
pub proof fn lookups_are_for_the_private_host(
    node: &[u8],
    names: &HostNames,
    result: Option<LookupRedirect>,
    unset: Option<LookupRedirect>,
)
    requires
        call_ensures(on_getaddrinfo, (Some(node), Some(names)), result),
        call_ensures(on_getaddrinfo, (Some(node), None), unset),
    ensures
        result is Some <==> valid_utf8(node@) && official_host(decode_utf8(node@)),
        result is Some ==> result->0.host@ == encode_utf8(names.host()) + seq![0u8],
        unset is None,
{
}

/// A request to a URL goes out directly exactly where the URL is official and has under 2048 code
/// units; the user is told to have no proxy.
pub proof fn official_requests_go_out_directly(
    units: &[u16],
    result: Option<Answer<WinHttpProxyInfo>>,
    url: &str,
    official: bool,
    wanted: bool,
    user: Answer<CurrentUserIeProxyConfig>,
    url_given: bool,
    place_given: bool,
    reads: bool,
)
    requires
        call_ensures(on_get_proxy_for_url, (Some(units),), result),
        call_ensures(is_official_sdk_url, (url,), official),
        holds_text(units@, url@),
        call_ensures(on_get_ie_proxy_config, (wanted,), user),
        call_ensures(reads_url, (url_given, place_given), reads),
    ensures
        result is Some <==> official && utf16_units(url@).len() < 2048,
        result is Some ==> result->0.result == 1 && result->0.written == Some(
            (WinHttpProxyInfo { access_type: 1, proxy: 0, proxy_bypass: 0 }),
        ),
        user.result == if wanted {
            1usize
        } else {
            0usize
        },
        user.written is Some <==> wanted,
        wanted ==> user.written->0.auto_detect == 0 && user.written->0.auto_config_url == 0
            && user.written->0.proxy == 0 && user.written->0.proxy_bypass == 0,
        reads <==> url_given && place_given,
{
    let rest = choose|rest: Seq<u16>| units@ == utf16_units(url@) + seq![0u16] + rest;
    names_are_read_up_to_their_nul(url@, rest, 2048);
}

/// The certificate check of a host is made for the private host exactly where it is a check for TLS
/// that names a server, whose host is official and has under 512 code units, and where the private
/// host is set up.
pub proof fn checks_of_official_hosts_are_redirected(
    units: &[u16],
    names: &HostNames,
    result: Option<RedirectedCheck>,
    host: &str,
    official: bool,
    policy: usize,
    parameters: bool,
    reads: bool,
    auth_type: Option<u32>,
    name: bool,
    named: bool,
)
    requires
        call_ensures(redirected_check, (Some(units), Some(names)), result),
        call_ensures(is_official_sdk_host, (host,), official),
        holds_text(units@, host@),
        call_ensures(reads_parameters, (policy, parameters), reads),
        call_ensures(checks_server_name, (auth_type, name), named),
    ensures
        result is Some <==> official && utf16_units(host@).len() < 512,
        result is Some ==> {
            &&& result->0.host@ == host@
            &&& result->0.names.host() == names.host()
            &&& result->0.server_name@ == utf16_units(names.host()) + seq![0u16]
        },
        reads <==> policy == 4 && parameters,
        named <==> auth_type == Some(2u32) && name,
{
    let rest = choose|rest: Seq<u16>| units@ == utf16_units(host@) + seq![0u16] + rest;
    names_are_read_up_to_their_nul(host@, rest, 512);
}

/// That the certificate of an official host names another host is accepted, whatever else the system
/// says, and nothing else is.
pub proof fn only_wrong_names_are_accepted(
    check: &RedirectedCheck,
    status: Option<CertChainPolicyStatus>,
    given: usize,
    verdict: Verdict,
)
    requires
        call_ensures(on_verify_certificate_chain_policy, (check, status, given), verdict),
    ensures
        if status is Some && status->0.error == 0x800B_010F && official_host(check.host@) {
            &&& verdict.result == 1
            &&& verdict.written is Some
            &&& verdict.written->0.error == 0
            &&& verdict.written->0.chain_index == -1
            &&& verdict.written->0.element_index == -1
        } else {
            verdict.result == given && verdict.written is None
        },
{
}

/// The private host is set up once, from a configuration, unless it holds a NUL.
pub proof fn the_private_host_is_that_of_the_configuration(
    loaded: &Result<ClientConfig, String>,
    taken: bool,
    result: Result<HostNames, NetworkError>,
)
    requires
        call_ensures(set_host, (loaded, taken), result),
    ensures
        result is Ok <==> *loaded is Ok && !taken && !encode_utf8(
            loaded->Ok_0.tls.host@,
        ).contains(0),
        result is Ok ==> result->Ok_0.host() == loaded->Ok_0.tls.host@,
{
}

/// A host without a NUL is handed out as a string that reads back as it.
pub proof fn handed_out_hosts_read_back(
    host: &str,
    units: Vec<u16>,
    given: &[u16],
    max_units: usize,
    text: Option<String>,
    bytes: Result<Vec<u8>, usize>,
)
    requires
        call_ensures(wide_host, (host,), units),
        given@ == units@,
        call_ensures(read_wide_string, (given, max_units), text),
        call_ensures(ansi_host, (host,), bytes),
        !host@.contains('\0'),
    ensures
        text is Some <==> units@.len() <= max_units,
        text is Some ==> text->0@ == host@,
        bytes is Ok ==> bytes->Ok_0@ == encode_utf8(host@) + seq![0u8],
        bytes is Err <==> encode_utf8(host@).contains(0),
{
    let none: Seq<u16> = seq![];
    let wide = utf16_units(host@);
    texts_without_nul_have_no_zero_unit(host@);
    strings_end_at_the_first_nul(wide, none, max_units as int);
    assert(wide + seq![0u16] + none == units@);
    assert(units@.take(wide.len() as int) == wide);
    utf16_round_trip(host@);
}

// Configuration, startup and the rest.

/// A configuration is accepted as it is exactly where it could be read and parsed and neither host
/// is empty, and is then what is handed out.
pub proof fn configurations_with_hosts_are_accepted(
    path: &str,
    file: ConfigFile,
    accepted: Result<ClientConfig, String>,
    loaded: &Result<ClientConfig, String>,
    got: Result<&ClientConfig, &'static str>,
)
    requires
        call_ensures(accept, (path, file), accepted),
        *loaded == accepted,
        call_ensures(get, (loaded,), got),
    ensures
        accepted is Ok <==> file is Parsed && file->Parsed_0.game.host@.len() > 0
            && file->Parsed_0.tls.host@.len() > 0,
        accepted is Ok ==> accepted->Ok_0 == file->Parsed_0,
        got is Ok <==> accepted is Ok,
        got is Ok ==> *got->Ok_0 == file->Parsed_0,
{
}

/// The module for connections starts exactly where both addresses are configured and neither
/// registry is there, with the servers of the configuration and two empty registries; its first
/// relay is that of the official game server.
pub proof fn the_socket_module_starts_once(
    socket: &Socket,
    loaded: &Result<ClientConfig, String>,
    tls_ports: &mut TlsPorts,
    proxy_ports: &mut ProxyPorts,
    result: Result<Servers, SocketError>,
    config: &ClientConfig,
    first: RelayRequest,
)
    requires
        call_ensures(Socket::init, (socket, loaded, tls_ports, proxy_ports), result),
        *loaded == Ok::<ClientConfig, String>(*config),
        result is Ok ==> call_ensures(Socket::first_relay, (socket, result->Ok_0, config), first),
    ensures
        result is Ok <==> config.game.ipv4 is Some && config.tls.ipv4 is Some && old(
            tls_ports,
        )@ is None && old(proxy_ports)@ is None,
        result is Ok ==> {
            let game = SocketAddrV4 { ip: config.game.ipv4->0, port: config.game.port };
            let tls = SocketAddrV4 { ip: config.tls.ipv4->0, port: config.tls.port };
            &&& result->Ok_0.game == game && result->Ok_0.tls == tls
            &&& final(tls_ports)@ == Some(Map::<u32, u16>::empty())
            &&& final(proxy_ports)@ == Some(Map::<u64, u16>::empty())
            &&& first.task == (RelayTask::Protocol {
                origin_ip: Ipv4Addr { a: 43, b: 163, c: 62, d: 120 },
                game,
                tls,
            })
            &&& first.tls_host@ == config.tls.host@
        },
{
}

/// A module fails for a hook that is required and cannot be had, and for no other.
pub proof fn only_required_hooks_fail_a_module(
    hook: &Hook,
    result: Result<(), &str>,
    attached: HookOutcome,
)
    requires
        call_ensures(Hook::attached, (hook, result), attached),
    ensures
        attached is Done <==> result is Ok,
        attached is Failed <==> result is Err && hook.required,
{
}

/// The startup goes on after a success, up to the signal, and ends with a failure; it begins where
/// the library is attached.
pub proof fn startup_goes_on_after_success_alone(
    step: Step,
    result: Result<(), &str>,
    next: (Step, Option<String>),
    reason: u32,
    begins: bool,
)
    requires
        call_ensures(next_step, (step, result), next),
        call_ensures(starts, (reason,), begins),
    ensures
        result is Err ==> next.0 == Step::Done && (next.1 is Some <==> step != Step::Done),
        next.0 == Step::EnableSocket <==> result is Ok && step == Step::Load(Library::Crypt),
        next.0 == Step::EnableNetwork <==> result is Ok && step == Step::EnableSocket,
        next.0 == Step::CreateReadyEvent <==> result is Ok && step == Step::EnableNetwork,
        next.0 == Step::SignalReady <==> result is Ok && step == Step::CreateReadyEvent,
        next.0 == Step::Load(Library::WinHttp) <==> result is Ok && step == Step::Load(
            Library::Winsock,
        ),
        next.0 == Step::Load(Library::Crypt) <==> result is Ok && step == Step::Load(
            Library::WinHttp,
        ),
        begins <==> reason == 1,
{
}

/// A process is resumed exactly where its event came, and is named by its number in it.
pub proof fn only_ready_processes_are_resumed(
    wait: Option<u32>,
    decision: Launch,
    process_id: u32,
    name: String,
    number: Seq<char>,
)
    requires
        call_ensures(launch, (wait,), decision),
        call_ensures(ready_event_name, (process_id,), name),
        is_numeral(number),
        value_of(number) == process_id,
    ensures
        decision is Resume <==> wait == Some(0u32),
        decision is Terminate && wait is None ==> decision->Terminate_0 is None,
        name@ == "Local\\SonettoNetworkReady-"@ + number,
{
    numbers_are_written_as_numerals(process_id as nat, number);
}

/// A line of the log is the time in milliseconds, a space, the message and a line end.
pub proof fn events_are_lines(
    millis: u128,
    message: &str,
    line: String,
    number: Seq<char>,
)
    requires
        call_ensures(event, (Some(millis), message), line),
        is_numeral(number),
        value_of(number) == millis,
    ensures
        line@ == number + " "@ + message@ + "\n"@,
{
    numbers_are_written_as_numerals(millis as nat, number);
}

/// The proxy is known by its address and port, and the routine of a word by the system.
pub proof fn proxies_are_known_by_address_and_port(
    proxy: &ProxyEndpoint,
    ip: Ipv4Addr,
    port: u16,
    found: bool,
    missing: bool,
    wine: bool,
    name: &'static str,
)
    requires
        call_ensures(is_configured_proxy_endpoint, (Some(proxy), ip, port), found),
        call_ensures(is_configured_proxy_endpoint, (None, ip, port), missing),
        call_ensures(next_routine, (wine,), name),
    ensures
        found <==> proxy.ipv4 == ip && proxy.port == port,
        !missing,
        wine ==> name@ == "NtPulseEvent"@,
        !wine ==> name@ == "NtQuerySection"@,
{
}

/// A restored word keeps its low half.
pub proof fn restored_words_keep_their_low_half(word: u64, offset: u32, result: u64)
    requires
        call_ensures(disable_memory_protection, (word, offset), result),
    ensures
        result & 0xffff_ffff == word & 0xffff_ffff,
        (word >> 32) & 0xff != 0 && offset == (word >> 32) as u32 ==> result == word
            - 0x1_0000_0000,
{
    restored_word_keeps_its_low_half(word, offset);
    if (word >> 32) & 0xff != 0 && offset == (word >> 32) as u32 {
        restored_number_is_one_less(word);
    }
}

/// A length goes into a field exactly where the field is of the right size and the length fits, high
/// byte first; otherwise the field stays as it is.
pub proof fn lengths_go_into_fields_high_byte_first(
    field: &mut [u8],
    value: usize,
    done: Result<(), TlsError>,
    long_field: &mut [u8],
    long_done: Result<(), TlsError>,
)
    requires
        call_ensures(adjust_u16, (field, value), done),
        call_ensures(adjust_u24, (long_field, value), long_done),
    ensures
        done is Ok <==> old(field)@.len() == 2 && value <= 65535,
        done is Ok ==> final(field)@.len() == 2 && final(field)@[0] * 256 + final(field)@[1]
            == value,
        done is Err ==> final(field)@ == old(field)@ && done->Err_0 == TlsError::LengthExceedsU16,
        long_done is Ok <==> old(long_field)@.len() == 3 && value <= 16777215,
        long_done is Ok ==> ({
            let bytes = final(long_field)@;
            bytes.len() == 3 && bytes[0] * 65536 + bytes[1] * 256 + bytes[2] == value
        }),
        long_done is Err ==> final(long_field)@ == old(long_field)@ && long_done->Err_0
            == TlsError::HandshakeLengthExceedsU24,
{
}

/// What a stream announces, whether it can be read and whether it can be judged is told by its first
/// bytes.
pub proof fn streams_are_told_by_their_first_bytes(
    stream: &[u8],
    tls: bool,
    can_read: bool,
    ended: bool,
    can_judge: bool,
)
    requires
        call_ensures(is_tls_client_hello, (stream,), tls),
        call_ensures(is_readable, (stream,), can_read),
        call_ensures(is_judgeable, (stream, ended), can_judge),
    ensures
        tls <==> starts_as_tls(stream@),
        !can_read <==> tls && 5 <= stream@.len() < 9 && (stream@.len() == 5 || stream@[5] == 1),
        !can_judge <==> tls && {
            ||| ended && stream@.len() < 5
            ||| {
                &&& 5 < stream@.len() < 9
                &&& stream@[5] == 1
                &&& 0 < stream@[3] * 256 + stream@[4] <= stream@.len() - 5
            }
        },
{
    only_short_records_cannot_be_read(stream@);
    only_short_records_cannot_be_judged(stream@, ended);
}

/// The routes and the relays that connections are given are those that they are decided to have.
pub proof fn connections_are_given_their_route(
    loaded: &Result<ClientConfig, String>,
    relays: &Relays,
    meant: SocketAddrV4,
    route: Route,
    task: Option<RelayTask>,
)
    requires
        call_ensures(connection_route, (loaded, relays, meant), route),
        call_ensures(relay_asked, (route, meant), task),
    ensures
        route == route_to(*loaded, relays, meant),
        match task {
            Some(RelayTask::Protocol { origin_ip, game, tls }) => origin_ip == meant.ip && route
                == (Route::ProtocolRelay { game, tls }),
            Some(RelayTask::Proxy { origin, tls }) => origin == meant && route
                == (Route::ProxyRelay { tls }),
            None => !(route is ProtocolRelay) && !(route is ProxyRelay),
        },
{
    relays_stand_for_the_address_of_the_connection(route, meant);
}

/// What is written of a relay names it and what it stands for.
pub proof fn relays_are_written_of_by_name(
    ip: Ipv4Addr,
    origin: SocketAddrV4,
    port: u16,
    error: &str,
    first: &Relay,
    second: &Relay,
    texts: (String, String, String, String),
    proxy_texts: (String, String, String, String),
)
    requires
        *first == Relay::Protocol(ip),
        *second == Relay::Proxy(origin),
        call_ensures(Relay::thread_name, (first,), texts.0),
        call_ensures(Relay::listening, (first, port), texts.1),
        call_ensures(Relay::connection_failed, (first, error), texts.2),
        call_ensures(Relay::accept_failed, (first, error), texts.3),
        call_ensures(Relay::thread_name, (second,), proxy_texts.0),
        call_ensures(Relay::listening, (second, port), proxy_texts.1),
        call_ensures(Relay::connection_failed, (second, error), proxy_texts.2),
        call_ensures(Relay::accept_failed, (second, error), proxy_texts.3),
    ensures
        texts.0@ == "sonetto-relay-"@ + ip.shown(),
        texts.1@ == "protocol relay"@ + " listening on 127.0.0.1:"@ + decimal(port as nat)
            + " origin="@ + ip.shown() + ":443"@,
        texts.2@ == "protocol relay"@ + " connection failed origin="@ + ip.shown() + ": "@ + error@,
        texts.3@ == "protocol relay"@ + " accept failed origin="@ + ip.shown() + ": "@ + error@,
        proxy_texts.0@ == "sonetto-proxy-relay-"@ + decimal(origin.port as nat),
        proxy_texts.1@ == "loopback proxy relay"@ + " listening on 127.0.0.1:"@ + decimal(
            port as nat,
        ) + " origin="@ + origin.shown(),
        proxy_texts.2@ == "loopback proxy relay"@ + " connection failed origin="@ + origin.shown()
            + ": "@ + error@,
        proxy_texts.3@ == "loopback proxy relay"@ + " accept failed origin="@ + origin.shown()
            + ": "@ + error@,
{
    reveal_strlit("");
    assert(""@ == Seq::<char>::empty());
    relays_are_known_by_what_they_stand_for(ip, origin);
}

/// The prefix of a stream is written in hex, two digits for a byte.
pub proof fn prefixes_are_written_in_hex(bytes: &[u8], text: String)
    requires
        call_ensures(hex_prefix, (bytes,), text),
    ensures
        text@.len() == 2 * bytes@.len(),
        forall|i: int|
            0 <= i < bytes@.len() ==> writes_byte(text@, 2 * i, #[trigger] bytes@[i]),
{
    bytes_are_written_as_two_hex_digits(bytes@);
}

}
