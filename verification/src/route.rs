//! What a relay does with a connection that it has accepted: what it still has to read, and where
//! the bytes go.

use vstd::prelude::*;
use vstd::slice::*;
use vstd::string::*;
use vstd::utf8::*;

use crate::addr::{Ipv4Addr, SocketAddrV4};
use crate::host::{connect_host, is_official_sdk_host, official_host, parse_connect_host};
use crate::text::{
    find, find_from, first_place_is_found, hex, hex_prefix, matches_at, stands_at,
};
use crate::tls::{
    be16, client_hello_prefix, extract_tls_sni, is_readable, is_tls_client_hello, readable,
    rewrite_report, rewrite_tls_sni, rewritten, server_name, TlsError,
};

verus! {

/// The port of the official game server and of HTTPS.
pub const OFFICIAL_GAME_PORT: u16 = 443;

/// The most bytes that a TLS record may announce.
pub const MAX_RECORD_LEN: usize = 16384;

/// From how many bytes on no more of an HTTP request is read.
pub const MAX_REQUEST_LEN: usize = 16384;

/// How many bytes of an HTTP request are read at once.
pub const REQUEST_CHUNK_LEN: usize = 1024;

/// For how many seconds a relay waits for what a client sends first.
pub const PROBE_TIMEOUT_SECS: u64 = 10;

/// The address of the official game server.
#[verifier::allow_in_spec]
pub fn official_game_ip() -> (ip: Ipv4Addr)
    returns
        (Ipv4Addr { a: 43, b: 163, c: 62, d: 120 }),
{
    Ipv4Addr { a: 43, b: 163, c: 62, d: 120 }
}

/// Why a relay gives a connection up.
#[derive(Clone, Copy, Debug, PartialEq, Eq, Structural)]
pub enum RouteError {
    Tls(TlsError),
    NoClientHello,
    InvalidRecordLength,
    UnexpectedEnd,
}

impl RouteError {
    /// The error in words.
    pub open spec fn words(self) -> Seq<char> {
        match self {
            RouteError::Tls(error) => error.words(),
            RouteError::NoClientHello => "HTTP CONNECT tunnel did not start with TLS ClientHello"@,
            RouteError::InvalidRecordLength => "HTTP CONNECT TLS record length is invalid"@,
            RouteError::UnexpectedEnd => "failed to fill whole buffer"@,
        }
    }

    pub fn message(&self) -> (text: &'static str)
        ensures
            text@ == self.words(),
    {
        match self {
            RouteError::Tls(error) => error.message(),
            RouteError::NoClientHello => "HTTP CONNECT tunnel did not start with TLS ClientHello",
            RouteError::InvalidRecordLength => "HTTP CONNECT TLS record length is invalid",
            RouteError::UnexpectedEnd => "failed to fill whole buffer",
        }
    }
}

/// What a relay does next with a connection.
pub enum RelayStep {
    /// Read up to `limit` bytes more, and wait no longer than the probe timeout if `timed`. A read
    /// that is interrupted is made again if `retried`, and otherwise ends the connection.
    Read { limit: usize, timed: bool, retried: bool },
    /// Report, connect to `target`, send it `payload`, and pass everything on from then on.
    Forward { target: SocketAddrV4, payload: Vec<u8>, events: Vec<String> },
    /// Report, send the client `reply`, and take what comes then as private TLS.
    Intercept { reply: Vec<u8>, events: Vec<String> },
    /// Give the connection up.
    Fail(RouteError),
}

/// A step of a relay in mathematical terms.
pub enum Plan {
    Read { limit: int, timed: bool, retried: bool },
    Forward { target: SocketAddrV4, payload: Seq<u8>, events: Seq<Seq<char>> },
    Intercept { reply: Seq<u8>, events: Seq<Seq<char>> },
    Fail(RouteError),
}

impl View for RelayStep {
    type V = Plan;

    open spec fn view(&self) -> Plan {
        match self {
            RelayStep::Read { limit, timed, retried } => Plan::Read {
                limit: *limit as int,
                timed: *timed,
                retried: *retried,
            },
            RelayStep::Forward { target, payload, events } => Plan::Forward {
                target: *target,
                payload: payload@,
                events: events.deep_view(),
            },
            RelayStep::Intercept { reply, events } => Plan::Intercept {
                reply: reply@,
                events: events.deep_view(),
            },
            RelayStep::Fail(error) => Plan::Fail(*error),
        }
    }
}

/// Whether a TLS record goes to the private server: its server name is an official host.
pub open spec fn goes_private(record: Seq<u8>) -> bool {
    server_name(record) matches Some(name) && official_host(name)
}

pub fn should_route_tls_to_private(record: &[u8]) -> (private: bool)
    requires
        readable(record@),
    ensures
        private == goes_private(record@),
{
    match extract_tls_sni(record) {
        Some(name) => is_official_sdk_host(name.as_str()),
        None => false,
    }
}

/// The first `n` elements, or all where there are fewer.
pub open spec fn up_to<T>(s: Seq<T>, n: int) -> Seq<T> {
    if s.len() <= n {
        s
    } else {
        s.take(n)
    }
}

// Connections to a relay for TLS and game traffic.

/// What a relay reports when it forwards a connection.
pub open spec fn forward_words(
    route: Seq<char>,
    origin_ip: Ipv4Addr,
    payload: Seq<u8>,
    target: SocketAddrV4,
) -> Seq<char> {
    "protocol relay "@ + route + " origin="@ + origin_ip.shown() + ":443 prefix="@ + hex(
        up_to(payload, 5),
    ) + " target="@ + target.shown()
}

/// Forwarding what was received as it is.
pub open spec fn pass_on(
    route: Seq<char>,
    origin_ip: Ipv4Addr,
    received: Seq<u8>,
    target: SocketAddrV4,
) -> Plan {
    Plan::Forward {
        target,
        payload: received,
        events: seq![forward_words(route, origin_ip, received, target)],
    }
}

/// The official server that a relay stands for.
pub open spec fn official_server(origin_ip: Ipv4Addr) -> SocketAddrV4 {
    SocketAddrV4 { ip: origin_ip, port: OFFICIAL_GAME_PORT }
}

/// Whether a TLS record announces a length that is taken.
pub open spec fn takes_record(len: int) -> bool {
    0 < len <= MAX_RECORD_LEN
}

/// The report of a replaced server name, if there is one, before another.
pub open spec fn reported(report: Option<Seq<char>>, events: Seq<Seq<char>>) -> Seq<Seq<char>> {
    match report {
        Some(words) => seq![words] + events,
        None => events,
    }
}

/// Forwarding a record to the private server, with its host for the server name.
pub open spec fn redirect(
    origin_ip: Ipv4Addr,
    tls: SocketAddrV4,
    tls_host: Seq<char>,
    received: Seq<u8>,
) -> Plan {
    match rewritten(received, encode_utf8(tls_host)) {
        (payload, Ok(_)) => Plan::Forward {
            target: tls,
            payload,
            events: reported(
                rewrite_report(received, tls_host),
                seq![forward_words("private tls redirect"@, origin_ip, payload, tls)],
            ),
        },
        (_, Err(error)) => Plan::Fail(RouteError::Tls(error)),
    }
}

/// What a relay for TLS and game traffic does once it has `received` so many bytes, and the client
/// has `ended` its stream or not.
pub open spec fn protocol_plan(
    origin_ip: Ipv4Addr,
    game: SocketAddrV4,
    tls: SocketAddrV4,
    tls_host: Seq<char>,
    received: Seq<u8>,
    ended: bool,
) -> Plan {
    let official = official_server(origin_ip);
    let len = be16(received, 3);
    if received.len() < 5 && !ended {
        Plan::Read { limit: 5 - received.len(), timed: true, retried: false }
    } else if client_hello_prefix(received) {
        if !takes_record(len) {
            pass_on("official tls passthrough (invalid record)"@, origin_ip, received, official)
        } else if received.len() < 5 + len {
            if ended {
                Plan::Fail(RouteError::UnexpectedEnd)
            } else {
                Plan::Read { limit: 5 + len - received.len(), timed: false, retried: true }
            }
        } else if goes_private(received) {
            redirect(origin_ip, tls, tls_host, received)
        } else {
            pass_on("official tls passthrough"@, origin_ip, received, official)
        }
    } else if origin_ip == official_game_ip() {
        pass_on("game redirect"@, origin_ip, received, game)
    } else {
        pass_on("non-tls passthrough"@, origin_ip, received, official)
    }
}

/// Whether what was received can be judged: a stream that announces a ClientHello does not end
/// within the five bytes of the record head, and a whole record that holds the start of a
/// ClientHello holds the length of the message too.
pub open spec fn judgeable(received: Seq<u8>, ended: bool) -> bool {
    client_hello_prefix(received) ==> {
        &&& ended ==> received.len() >= 5
        &&& received.len() >= 5 && takes_record(be16(received, 3)) && received.len() >= 5 + be16(
            received,
            3,
        ) ==> readable(received)
    }
}

/// Whether what was received can be judged; `route_connection` takes nothing else.
pub fn is_judgeable(received: &[u8], ended: bool) -> (can: bool)
    ensures
        can == judgeable(received@, ended),
{
    if !is_tls_client_hello(received) {
        return true;
    }
    if received.len() < 5 {
        return !ended;
    }
    let len = received[3] as usize * 0x100 + received[4] as usize;
    if len == 0 || len > MAX_RECORD_LEN || received.len() < 5 + len {
        return true;
    }
    is_readable(received)
}

fn first_bytes(bytes: &[u8], n: usize) -> (first: &[u8])
    ensures
        first@ == up_to(bytes@, n as int),
{
    if bytes.len() <= n {
        bytes
    } else {
        slice_subrange(bytes, 0, n)
    }
}

fn forward_text(
    route: &str,
    origin_ip: Ipv4Addr,
    payload: &[u8],
    target: SocketAddrV4,
) -> (text: String)
    ensures
        text@ == forward_words(route@, origin_ip, payload@, target),
{
    let mut text = "protocol relay ".to_owned();
    text.append(route);
    text.append(" origin=");
    origin_ip.append_to(&mut text);
    text.append(":443 prefix=");
    text.append(hex_prefix(first_bytes(payload, 5)).as_str());
    text.append(" target=");
    target.append_to(&mut text);
    text
}

fn forward(route: &str, origin_ip: Ipv4Addr, received: &[u8], target: SocketAddrV4) -> (step:
    RelayStep)
    ensures
        step@ == pass_on(route@, origin_ip, received@, target),
{
    let text = forward_text(route, origin_ip, received, target);
    let mut events: Vec<String> = Vec::new();
    events.push(text);
    assert(events.deep_view() == seq![text@]);
    RelayStep::Forward { target, payload: slice_to_vec(received), events }
}

fn forward_renamed(
    origin_ip: Ipv4Addr,
    tls: SocketAddrV4,
    tls_host: &str,
    received: &[u8],
) -> (step: RelayStep)
    ensures
        step@ == redirect(origin_ip, tls, tls_host@, received@),
{
    let mut payload = slice_to_vec(received);
    match rewrite_tls_sni(&mut payload, tls_host) {
        Ok(report) => {
            let text = forward_text("private tls redirect", origin_ip, payload.as_slice(), tls);
            let mut events = report_first(report);
            let ghost before = events.deep_view();
            events.push(text);
            assert(events.deep_view() == before.push(text@));
            assert(events.deep_view() == reported(
                rewrite_report(received@, tls_host@),
                seq![text@],
            ));
            RelayStep::Forward { target: tls, payload, events }
        },
        Err(error) => RelayStep::Fail(RouteError::Tls(error)),
    }
}

/// What a relay for TLS and game traffic does next.
pub fn route_connection(
    origin_ip: Ipv4Addr,
    game: SocketAddrV4,
    tls: SocketAddrV4,
    tls_host: &str,
    received: &[u8],
    ended: bool,
) -> (step: RelayStep)
    requires
        judgeable(received@, ended),
    ensures
        step@ == protocol_plan(origin_ip, game, tls, tls_host@, received@, ended),
{
    if received.len() < 5 && !ended {
        return RelayStep::Read { limit: 5 - received.len(), timed: true, retried: false };
    }
    let official = SocketAddrV4::new(origin_ip, OFFICIAL_GAME_PORT);
    if !is_tls_client_hello(received) {
        return if origin_ip == official_game_ip() {
            forward("game redirect", origin_ip, received, game)
        } else {
            forward("non-tls passthrough", origin_ip, received, official)
        };
    }
    let len = received[3] as usize * 0x100 + received[4] as usize;
    if len == 0 || len > MAX_RECORD_LEN {
        return forward("official tls passthrough (invalid record)", origin_ip, received, official);
    }
    if received.len() < 5 + len {
        return if ended {
            RelayStep::Fail(RouteError::UnexpectedEnd)
        } else {
            RelayStep::Read { limit: 5 + len - received.len(), timed: false, retried: true }
        };
    }
    if !should_route_tls_to_private(received) {
        return forward("official tls passthrough", origin_ip, received, official);
    }
    forward_renamed(origin_ip, tls, tls_host, received)
}

/// The list of events that a report starts.
fn report_first(report: Option<String>) -> (events: Vec<String>)
    ensures
        events.deep_view() == match report {
            Some(text) => seq![text@],
            None => seq![],
        },
{
    let mut events: Vec<String> = Vec::new();
    if let Some(text) = report {
        events.push(text);
    }
    assert(events.deep_view() == match report {
        Some(text) => seq![text@],
        None => seq![],
    });
    events
}

// Tunnels that are taken for private TLS.

/// A byte, or zero behind the end.
pub open spec fn byte_at(s: Seq<u8>, at: int) -> int {
    if at < s.len() {
        s[at] as int
    } else {
        0
    }
}

/// What a relay does with an intercepted tunnel once it has `received` so many bytes, and the
/// client has `ended` its stream or not.
pub open spec fn private_plan(
    tls: SocketAddrV4,
    tls_host: Seq<char>,
    received: Seq<u8>,
    ended: bool,
) -> Plan {
    let len = byte_at(received, 3) * 0x100 + byte_at(received, 4);
    if received.len() < 5 && !ended {
        Plan::Read { limit: 5 - received.len(), timed: true, retried: false }
    } else if !client_hello_prefix(received) {
        Plan::Fail(RouteError::NoClientHello)
    } else if !takes_record(len) {
        Plan::Fail(RouteError::InvalidRecordLength)
    } else if received.len() < 5 + len {
        if ended {
            Plan::Fail(RouteError::UnexpectedEnd)
        } else {
            Plan::Read { limit: 5 + len - received.len(), timed: true, retried: true }
        }
    } else {
        match rewritten(received, encode_utf8(tls_host)) {
            (payload, Ok(_)) => Plan::Forward {
                target: tls,
                payload,
                events: reported(rewrite_report(received, tls_host), seq![]),
            },
            (_, Err(error)) => Plan::Fail(RouteError::Tls(error)),
        }
    }
}

/// What a relay does next with an intercepted tunnel.
pub fn route_private_tls_connection(
    tls: SocketAddrV4,
    tls_host: &str,
    received: &[u8],
    ended: bool,
) -> (step: RelayStep)
    ensures
        step@ == private_plan(tls, tls_host@, received@, ended),
{
    if received.len() < 5 && !ended {
        return RelayStep::Read { limit: 5 - received.len(), timed: true, retried: false };
    }
    if !is_tls_client_hello(received) {
        return RelayStep::Fail(RouteError::NoClientHello);
    }
    let high = if received.len() > 3 {
        received[3] as usize
    } else {
        0
    };
    let low = if received.len() > 4 {
        received[4] as usize
    } else {
        0
    };
    let len = high * 0x100 + low;
    if len == 0 || len > MAX_RECORD_LEN {
        return RelayStep::Fail(RouteError::InvalidRecordLength);
    }
    if received.len() < 5 + len {
        return if ended {
            RelayStep::Fail(RouteError::UnexpectedEnd)
        } else {
            RelayStep::Read { limit: 5 + len - received.len(), timed: true, retried: true }
        };
    }
    let mut payload = slice_to_vec(received);
    match rewrite_tls_sni(&mut payload, tls_host) {
        Ok(report) => {
            let events = report_first(report);
            assert(events.deep_view() == reported(rewrite_report(received@, tls_host@), seq![]));
            RelayStep::Forward { target: tls, payload, events }
        },
        Err(error) => RelayStep::Fail(RouteError::Tls(error)),
    }
}

// Connections to a relay for a proxy.

/// The lower-case form of the byte of an ASCII letter; every other byte is its own.
pub open spec fn lower_byte(b: u8) -> u8 {
    if 0x41 <= b <= 0x5a {
        (b + 0x20) as u8
    } else {
        b
    }
}

/// The bytes of `connect` and a space.
pub open spec fn connect_word() -> Seq<u8> {
    seq![0x63u8, 0x6f, 0x6e, 0x6e, 0x65, 0x63, 0x74, 0x20]
}

/// Whether a request starts as one that asks for a tunnel.
pub open spec fn asks_for_tunnel(request: Seq<u8>) -> bool {
    request.len() >= 8 && forall|i: int|
        0 <= i < 8 ==> lower_byte(#[trigger] request[i]) == connect_word()[i]
}

/// What ends the head of an HTTP request.
pub open spec fn head_end() -> Seq<u8> {
    seq![13u8, 10, 13, 10]
}

/// The host to which a request asks for a tunnel, where it is an official one.
pub open spec fn intercepted_host(request: Seq<u8>) -> Option<Seq<char>> {
    if asks_for_tunnel(request) {
        match connect_host(request) {
            Some(host) => if official_host(host) {
                Some(host)
            } else {
                None
            },
            None => None,
        }
    } else {
        None
    }
}

/// What a relay for a proxy does once it has `received` so many bytes, and the client has `ended`
/// its stream or not.
pub open spec fn proxy_plan(
    proxy: SocketAddrV4,
    tls: SocketAddrV4,
    received: Seq<u8>,
    ended: bool,
) -> Plan {
    if received.len() < 8 && !ended {
        Plan::Read { limit: 8 - received.len(), timed: true, retried: false }
    } else if asks_for_tunnel(received) && received.len() < MAX_REQUEST_LEN && find(
        received,
        head_end(),
    ) is None && !ended {
        Plan::Read { limit: REQUEST_CHUNK_LEN as int, timed: true, retried: false }
    } else {
        match intercepted_host(received) {
            Some(host) => Plan::Intercept {
                reply: encode_utf8("HTTP/1.1 200 Connection Established\r\n\r\n"@),
                events: seq![
                    "SDK HTTP CONNECT intercepted host="@ + host + " proxy="@ + proxy.shown()
                        + " target="@ + tls.shown(),
                ],
            },
            None => Plan::Forward {
                target: proxy,
                payload: received,
                events: seq![
                    "loopback proxy passthrough origin="@ + proxy.shown() + " prefix="@ + hex(
                        up_to(received, 8),
                    ),
                ],
            },
        }
    }
}

fn starts_as_tunnel(request: &[u8]) -> (found: bool)
    ensures
        found == asks_for_tunnel(request@),
{
    if request.len() < 8 {
        return false;
    }
    let word: [u8; 8] = [0x63, 0x6f, 0x6e, 0x6e, 0x65, 0x63, 0x74, 0x20];
    assert(word@ == connect_word());
    let mut i: usize = 0;
    while i < 8
        invariant
            i <= 8 <= request@.len(),
            word@ == connect_word(),
            forall|j: int| 0 <= j < i ==> lower_byte(#[trigger] request@[j]) == connect_word()[j],
        decreases 8 - i,
    {
        let byte = request[i];
        let lower = if 0x41 <= byte && byte <= 0x5a {
            byte + 0x20
        } else {
            byte
        };
        if lower != word[i] {
            assert(lower_byte(request@[i as int]) != connect_word()[i as int]);
            return false;
        }
        i = i + 1;
    }
    true
}

fn has_head_end(bytes: &[u8]) -> (found: bool)
    ensures
        found == (find(bytes@, head_end()) is Some),
{
    let mut i: usize = 0;
    while i < bytes.len() && bytes.len() - i >= 4
        invariant
            i <= bytes.len(),
            find(bytes@, head_end()) == find_from(bytes@, head_end(), i as int),
        decreases bytes.len() - i,
    {
        let ghost here = bytes@.subrange(i as int, i + 4);
        if bytes[i] == 13 && bytes[i + 1] == 10 && bytes[i + 2] == 13 && bytes[i + 3] == 10 {
            assert(here == head_end());
            return true;
        }
        assert(here[0] == bytes@[i as int] && here[1] == bytes@[i + 1] && here[2] == bytes@[i + 2]
            && here[3] == bytes@[i + 3]);
        assert(head_end()[0] == 13 && head_end()[1] == 10 && head_end()[2] == 13 && head_end()[3]
            == 10);
        assert(!stands_at(bytes@, head_end(), i as int));
        i = i + 1;
    }
    false
}

/// What a relay for a proxy does next.
pub fn route_proxy_connection(
    proxy_origin: SocketAddrV4,
    tls: SocketAddrV4,
    received: &[u8],
    ended: bool,
) -> (step: RelayStep)
    ensures
        step@ == proxy_plan(proxy_origin, tls, received@, ended),
{
    if received.len() < 8 && !ended {
        return RelayStep::Read { limit: 8 - received.len(), timed: true, retried: false };
    }
    let tunnel = starts_as_tunnel(received);
    if tunnel && received.len() < MAX_REQUEST_LEN && !has_head_end(received) && !ended {
        return RelayStep::Read { limit: REQUEST_CHUNK_LEN, timed: true, retried: false };
    }
    let mut events: Vec<String> = Vec::new();
    if tunnel {
        if let Some(host) = parse_connect_host(received) {
            if is_official_sdk_host(host.as_str()) {
                let mut text = "SDK HTTP CONNECT intercepted host=".to_owned();
                text.append(host.as_str());
                text.append(" proxy=");
                proxy_origin.append_to(&mut text);
                text.append(" target=");
                tls.append_to(&mut text);
                events.push(text);
                assert(events.deep_view() == seq![text@]);
                let reply = slice_to_vec("HTTP/1.1 200 Connection Established\r\n\r\n".as_bytes());
                return RelayStep::Intercept { reply, events };
            }
        }
    }
    let mut text = "loopback proxy passthrough origin=".to_owned();
    proxy_origin.append_to(&mut text);
    text.append(" prefix=");
    text.append(hex_prefix(first_bytes(received, 8)).as_str());
    events.push(text);
    assert(events.deep_view() == seq![text@]);
    RelayStep::Forward { target: proxy_origin, payload: slice_to_vec(received), events }
}

// Laws.

/// Bytes leave a relay for TLS and game traffic as they came in, and for the official server that
/// it stands for. Two kinds of traffic are redirected: what is no TLS and meant for the official
/// game server goes to the private one, as it came in, and a record whose server name is an
/// official host goes to the private TLS server, with the private host for its name. After the end
/// of the stream nothing more is read.
#[verifier::spinoff_prover]
#[verifier::rlimit(40)]
pub proof fn only_game_traffic_and_official_names_are_redirected(
    origin_ip: Ipv4Addr,
    game: SocketAddrV4,
    tls: SocketAddrV4,
    tls_host: Seq<char>,
    received: Seq<u8>,
    ended: bool,
)
    ensures
        match protocol_plan(origin_ip, game, tls, tls_host, received, ended) {
            Plan::Read { limit, timed, retried } => 0 < limit && !ended,
            Plan::Forward { target, payload, events } => if client_hello_prefix(received)
                && takes_record(be16(received, 3)) && goes_private(received) {
                &&& target == tls
                &&& rewritten(received, encode_utf8(tls_host)) == (payload, Ok::<(), TlsError>(()))
            } else {
                &&& payload == received
                &&& target == if !client_hello_prefix(received) && origin_ip == official_game_ip() {
                    game
                } else {
                    official_server(origin_ip)
                }
            },
            Plan::Intercept { reply, events } => false,
            Plan::Fail(_) => client_hello_prefix(received),
        },
{
}

/// A whole record whose server name is an official host does reach the private TLS server, unless
/// its name cannot be replaced.
#[verifier::spinoff_prover]
#[verifier::rlimit(40)]
pub proof fn official_names_reach_the_private_server(
    origin_ip: Ipv4Addr,
    game: SocketAddrV4,
    tls: SocketAddrV4,
    tls_host: Seq<char>,
    record: Seq<u8>,
    ended: bool,
)
    requires
        client_hello_prefix(record),
        takes_record(be16(record, 3)),
        record.len() >= 5 + be16(record, 3),
        goes_private(record),
    ensures
        match rewritten(record, encode_utf8(tls_host)).1 {
            Ok(_) => protocol_plan(
                origin_ip,
                game,
                tls,
                tls_host,
                record,
                ended,
            ) matches Plan::Forward { target, payload, events } && target == tls,
            Err(error) => protocol_plan(origin_ip, game, tls, tls_host, record, ended)
                == Plan::Fail(RouteError::Tls(error)),
        },
{
}

/// What starts as no TLS does reach the private game server, if it was meant for the official one.
pub proof fn game_traffic_reaches_the_private_server(
    game: SocketAddrV4,
    tls: SocketAddrV4,
    tls_host: Seq<char>,
    received: Seq<u8>,
    ended: bool,
)
    requires
        !client_hello_prefix(received),
        received.len() >= 5 || ended,
    ensures
        protocol_plan(official_game_ip(), game, tls, tls_host, received, ended) == pass_on(
            "game redirect"@,
            official_game_ip(),
            received,
            game,
        ),
{
}

/// Where a relay for TLS and game traffic stops reading: behind the record that the client starts
/// with, or behind the head of what is no record to be taken.
pub open spec fn read_end(stream: Seq<u8>) -> int {
    if client_hello_prefix(stream) && takes_record(be16(stream, 3)) {
        5 + be16(stream, 3)
    } else {
        5
    }
}

/// A relay for TLS and game traffic takes exactly so much off the client, in however many pieces
/// it arrives: it asks for more up to that end, never beyond it, and at the end it decides.
pub proof fn reading_stops_at_the_record_end(
    origin_ip: Ipv4Addr,
    game: SocketAddrV4,
    tls: SocketAddrV4,
    tls_host: Seq<char>,
    stream: Seq<u8>,
    so_far: int,
)
    requires
        5 <= stream.len(),
        0 <= so_far <= read_end(stream),
        so_far <= stream.len(),
    ensures
        match protocol_plan(origin_ip, game, tls, tls_host, stream.take(so_far), false) {
            Plan::Read { limit, timed, retried } => {
                &&& 0 < limit
                &&& so_far + limit <= read_end(stream)
                &&& timed <==> so_far < 5
                &&& retried <==> so_far >= 5
            },
            _ => so_far == read_end(stream),
        },
{
    let received = stream.take(so_far);
    if so_far >= 5 {
        assert(received[0] == stream[0] && received[1] == stream[1] && received[2] == stream[2]);
        assert(be16(received, 3) == be16(stream, 3));
    }
}

/// The same holds of an intercepted tunnel.
pub proof fn tunnel_reading_stops_at_the_record_end(
    tls: SocketAddrV4,
    tls_host: Seq<char>,
    stream: Seq<u8>,
    so_far: int,
)
    requires
        5 <= stream.len(),
        0 <= so_far <= read_end(stream),
        so_far <= stream.len(),
    ensures
        match private_plan(tls, tls_host, stream.take(so_far), false) {
            Plan::Read { limit, timed, retried } => {
                &&& 0 < limit
                &&& so_far + limit <= read_end(stream)
                &&& timed
                &&& retried <==> so_far >= 5
            },
            _ => so_far == read_end(stream),
        },
{
    let received = stream.take(so_far);
    if so_far >= 5 {
        assert(received[0] == stream[0] && received[1] == stream[1] && received[2] == stream[2]);
        assert(byte_at(received, 3) == stream[3] && byte_at(received, 4) == stream[4]);
    }
}

/// A relay for a proxy passes on what does not ask for a tunnel to an official host, as it came
/// in, to the proxy that it stands for, and it answers nothing else itself.
pub proof fn only_official_tunnels_are_intercepted(
    proxy: SocketAddrV4,
    tls: SocketAddrV4,
    received: Seq<u8>,
    ended: bool,
)
    ensures
        match proxy_plan(proxy, tls, received, ended) {
            Plan::Read { limit, timed, retried } => 0 < limit && timed && !ended && received.len()
                < MAX_REQUEST_LEN,
            Plan::Forward { target, payload, events } => target == proxy && payload == received
                && intercepted_host(received) is None,
            Plan::Intercept { reply, events } => connect_host(received) matches Some(host)
                && official_host(host),
            Plan::Fail(_) => false,
        },
{
}

/// What leaves an intercepted tunnel goes to the private TLS server alone, and it is the record
/// that came in, with the private host for its server name.
pub proof fn intercepted_tunnels_stay_private(
    tls: SocketAddrV4,
    tls_host: Seq<char>,
    received: Seq<u8>,
    ended: bool,
)
    ensures
        match private_plan(tls, tls_host, received, ended) {
            Plan::Read { limit, timed, retried } => 0 < limit && timed && !ended,
            Plan::Forward { target, payload, events } => target == tls && client_hello_prefix(
                received,
            ) && rewritten(received, encode_utf8(tls_host)) == (payload, Ok::<(), TlsError>(())),
            Plan::Intercept { reply, events } => false,
            Plan::Fail(_) => true,
        },
{
}

// Laws on every stream, byte by byte.

/// A stream that starts with a TLS handshake record: the version and the length of the record, and
/// what stands behind its head.
pub open spec fn tls_stream(minor: u8, high: u8, low: u8, behind: Seq<u8>) -> Seq<u8> {
    seq![0x16u8, 3u8, minor, high, low] + behind
}

proof fn lemma_tls_stream(minor: u8, high: u8, low: u8, behind: Seq<u8>)
    requires
        minor <= 4,
    ensures
        ({
            let r = tls_stream(minor, high, low, behind);
            &&& r.len() == 5 + behind.len()
            &&& client_hello_prefix(r)
            &&& be16(r, 3) == high * 256 + low
            &&& byte_at(r, 3) * 256 + byte_at(r, 4) == high * 256 + low
            &&& up_to(r, 5) == seq![0x16u8, 3u8, minor, high, low]
        }),
{
    let r = tls_stream(minor, high, low, behind);
    assert(up_to(r, 5) == seq![0x16u8, 3u8, minor, high, low]);
}

/// Whether a stream starts with the type and a version of a TLS handshake record.
pub open spec fn starts_as_tls(r: Seq<u8>) -> bool {
    r.len() >= 3 && r[0] == 0x16 && r[1] == 3 && r[2] <= 4
}

/// A relay for TLS and game traffic sends a whole record to the private TLS server, renamed, exactly
/// where its server name is an official host, and otherwise as it is to the port of HTTPS at the
/// address that it stands for.
#[verifier::spinoff_prover]
#[verifier::rlimit(60)]
pub proof fn whole_records_are_routed_by_name(
    origin_ip: Ipv4Addr,
    game: SocketAddrV4,
    tls: SocketAddrV4,
    tls_host: Seq<char>,
    minor: u8,
    high: u8,
    low: u8,
    behind: Seq<u8>,
    ended: bool,
)
    requires
        minor <= 4,
        0 < high * 256 + low <= 16384,
        behind.len() >= high * 256 + low,
    ensures
        ({
            let r = tls_stream(minor, high, low, behind);
            let plan = protocol_plan(origin_ip, game, tls, tls_host, r, ended);
            let official = SocketAddrV4 { ip: origin_ip, port: 443 };
            if server_name(r) matches Some(name) && official_host(name) {
                match rewritten(r, encode_utf8(tls_host)) {
                    (payload, Ok(_)) => {
                        let line = "protocol relay private tls redirect origin="@
                            + origin_ip.shown() + ":443 prefix="@ + hex(
                            if payload.len() < 5 {
                                payload
                            } else {
                                payload.take(5)
                            },
                        ) + " target="@ + tls.shown();
                        plan == Plan::Forward {
                            target: tls,
                            payload,
                            events: match rewrite_report(r, tls_host) {
                                Some(report) => seq![report, line],
                                None => seq![line],
                            },
                        }
                    },
                    (_, Err(error)) => plan == Plan::Fail(RouteError::Tls(error)),
                }
            } else {
                plan == Plan::Forward {
                    target: official,
                    payload: r,
                    events: seq![
                        "protocol relay official tls passthrough origin="@ + origin_ip.shown()
                            + ":443 prefix="@ + hex(seq![0x16u8, 3u8, minor, high, low])
                            + " target="@ + official.shown(),
                    ],
                }
            }
        }),
{
    let r = tls_stream(minor, high, low, behind);
    lemma_tls_stream(minor, high, low, behind);
    lemma_route_words();
    match rewritten(r, encode_utf8(tls_host)) {
        (payload, Ok(_)) => {
            let line = forward_words("private tls redirect"@, origin_ip, payload, tls);
            let head = if payload.len() < 5 {
                payload
            } else {
                payload.take(5)
            };
            assert(up_to(payload, 5) == head);
            assert(line == "protocol relay private tls redirect origin="@ + origin_ip.shown()
                + ":443 prefix="@ + hex(head) + " target="@ + tls.shown());
            if let Some(report) = rewrite_report(r, tls_host) {
                assert(seq![report] + seq![line] == seq![report, line]);
            }
        },
        (_, Err(_)) => {},
    }
}

proof fn lemma_route_words()
    ensures
        "protocol relay "@ + "private tls redirect"@ + " origin="@
            == "protocol relay private tls redirect origin="@,
        "protocol relay "@ + "official tls passthrough"@ + " origin="@
            == "protocol relay official tls passthrough origin="@,
        "protocol relay "@ + "official tls passthrough (invalid record)"@ + " origin="@
            == "protocol relay official tls passthrough (invalid record) origin="@,
        "protocol relay "@ + "game redirect"@ + " origin="@
            == "protocol relay game redirect origin="@,
        "protocol relay "@ + "non-tls passthrough"@ + " origin="@
            == "protocol relay non-tls passthrough origin="@,
{
    reveal_strlit("protocol relay ");
    reveal_strlit(" origin=");
    reveal_strlit("private tls redirect");
    reveal_strlit("official tls passthrough");
    reveal_strlit("official tls passthrough (invalid record)");
    reveal_strlit("game redirect");
    reveal_strlit("non-tls passthrough");
    reveal_strlit("protocol relay private tls redirect origin=");
    reveal_strlit("protocol relay official tls passthrough origin=");
    reveal_strlit("protocol relay official tls passthrough (invalid record) origin=");
    reveal_strlit("protocol relay game redirect origin=");
    reveal_strlit("protocol relay non-tls passthrough origin=");
}

/// A record of which a part is missing is read on up to its end, without a timeout, and given up
/// where the stream ends before.
pub proof fn partial_records_are_read_on(
    origin_ip: Ipv4Addr,
    game: SocketAddrV4,
    tls: SocketAddrV4,
    tls_host: Seq<char>,
    minor: u8,
    high: u8,
    low: u8,
    behind: Seq<u8>,
)
    requires
        minor <= 4,
        behind.len() < high * 256 + low <= 16384,
    ensures
        ({
            let r = tls_stream(minor, high, low, behind);
            let missing = high * 256 + low - behind.len();
            &&& protocol_plan(origin_ip, game, tls, tls_host, r, false) == Plan::Read {
                limit: missing,
                timed: false,
                retried: true,
            }
            &&& private_plan(tls, tls_host, r, false) == Plan::Read {
                limit: missing,
                timed: true,
                retried: true,
            }
            &&& protocol_plan(origin_ip, game, tls, tls_host, r, true) == Plan::Fail(
                RouteError::UnexpectedEnd,
            )
            &&& private_plan(tls, tls_host, r, true) == Plan::Fail(RouteError::UnexpectedEnd)
        }),
{
    lemma_tls_stream(minor, high, low, behind);
}

/// A record that announces no bytes, or more than 16384, is passed on to the port of HTTPS at the
/// address that the relay stands for, and refused in an intercepted tunnel.
pub proof fn records_of_no_valid_length_are_not_looked_into(
    origin_ip: Ipv4Addr,
    game: SocketAddrV4,
    tls: SocketAddrV4,
    tls_host: Seq<char>,
    minor: u8,
    high: u8,
    low: u8,
    behind: Seq<u8>,
    ended: bool,
)
    requires
        minor <= 4,
        high * 256 + low == 0 || high * 256 + low > 16384,
    ensures
        ({
            let r = tls_stream(minor, high, low, behind);
            let official = SocketAddrV4 { ip: origin_ip, port: 443 };
            &&& protocol_plan(origin_ip, game, tls, tls_host, r, ended) == Plan::Forward {
                target: official,
                payload: r,
                events: seq![
                    "protocol relay official tls passthrough (invalid record) origin="@
                        + origin_ip.shown() + ":443 prefix="@ + hex(
                        seq![0x16u8, 3u8, minor, high, low],
                    ) + " target="@ + official.shown(),
                ],
            }
            &&& private_plan(tls, tls_host, r, ended) == Plan::Fail(RouteError::InvalidRecordLength)
        }),
{
    lemma_tls_stream(minor, high, low, behind);
    lemma_route_words();
}

/// The first five bytes are waited for, and in an intercepted tunnel too.
pub proof fn the_head_of_a_record_is_waited_for(
    origin_ip: Ipv4Addr,
    game: SocketAddrV4,
    tls: SocketAddrV4,
    tls_host: Seq<char>,
    received: Seq<u8>,
)
    requires
        received.len() < 5,
    ensures
        protocol_plan(origin_ip, game, tls, tls_host, received, false) == (Plan::Read {
            limit: 5 - received.len(),
            timed: true,
            retried: false,
        }),
        private_plan(tls, tls_host, received, false) == (Plan::Read {
            limit: 5 - received.len(),
            timed: true,
            retried: false,
        }),
{
}

/// What does not start as TLS is passed on as it is: to the private game server where it was meant
/// for the official one, at 43.163.62.120, and else to where it was meant to go. An intercepted
/// tunnel is given up then.
pub proof fn other_traffic_is_passed_on_as_it_is(
    origin_ip: Ipv4Addr,
    game: SocketAddrV4,
    tls: SocketAddrV4,
    tls_host: Seq<char>,
    received: Seq<u8>,
    ended: bool,
)
    requires
        received.len() >= 5 || ended,
        !starts_as_tls(received),
    ensures
        ({
            let official = SocketAddrV4 { ip: origin_ip, port: 443 };
            let head = if received.len() < 5 {
                received
            } else {
                received.take(5)
            };
            let plan = protocol_plan(origin_ip, game, tls, tls_host, received, ended);
            if origin_ip.a == 43 && origin_ip.b == 163 && origin_ip.c == 62 && origin_ip.d == 120 {
                plan == Plan::Forward {
                    target: game,
                    payload: received,
                    events: seq![
                        "protocol relay game redirect origin="@ + origin_ip.shown()
                            + ":443 prefix="@ + hex(head) + " target="@ + game.shown(),
                    ],
                }
            } else {
                plan == Plan::Forward {
                    target: official,
                    payload: received,
                    events: seq![
                        "protocol relay non-tls passthrough origin="@ + origin_ip.shown()
                            + ":443 prefix="@ + hex(head) + " target="@ + official.shown(),
                    ],
                }
            }
        }),
        private_plan(tls, tls_host, received, ended) == Plan::Fail(RouteError::NoClientHello),
{
    lemma_route_words();
    let head = if received.len() < 5 {
        received
    } else {
        received.take(5)
    };
    assert(up_to(received, 5) == head);
}

/// An intercepted tunnel goes to the private TLS server with its whole first record, renamed
/// whatever its name is.
#[verifier::spinoff_prover]
#[verifier::rlimit(40)]
pub proof fn intercepted_records_are_renamed(
    tls: SocketAddrV4,
    tls_host: Seq<char>,
    minor: u8,
    high: u8,
    low: u8,
    behind: Seq<u8>,
    ended: bool,
)
    requires
        minor <= 4,
        0 < high * 256 + low <= 16384,
        behind.len() >= high * 256 + low,
    ensures
        ({
            let r = tls_stream(minor, high, low, behind);
            let plan = private_plan(tls, tls_host, r, ended);
            match rewritten(r, encode_utf8(tls_host)) {
                (payload, Ok(_)) => plan == Plan::Forward {
                    target: tls,
                    payload,
                    events: match rewrite_report(r, tls_host) {
                        Some(report) => seq![report],
                        None => seq![],
                    },
                },
                (_, Err(error)) => plan == Plan::Fail(RouteError::Tls(error)),
            }
        }),
{
    let r = tls_stream(minor, high, low, behind);
    lemma_tls_stream(minor, high, low, behind);
    if let Some(report) = rewrite_report(r, tls_host) {
        assert(seq![report] + Seq::<Seq<char>>::empty() == seq![report]);
    }
}

/// An intercepted tunnel that ends within the head of a record is given up: where the first byte of
/// the length is there, it alone counts.
pub proof fn intercepted_tunnels_that_end_in_the_head_are_given_up(
    tls: SocketAddrV4,
    tls_host: Seq<char>,
    received: Seq<u8>,
)
    requires
        starts_as_tls(received),
        received.len() < 5,
    ensures
        private_plan(tls, tls_host, received, true) == Plan::Fail(
            if received.len() == 4 && 0 < received[3] * 256 <= 16384 {
                RouteError::UnexpectedEnd
            } else {
                RouteError::InvalidRecordLength
            },
        ),
{
}

/// What cannot be judged is a stream that ends within the head of a TLS record, and a whole record
/// with a ClientHello that ends within the length of the message.
pub proof fn only_short_records_cannot_be_judged(received: Seq<u8>, ended: bool)
    ensures
        !judgeable(received, ended) <==> starts_as_tls(received) && {
            ||| ended && received.len() < 5
            ||| {
                &&& 5 < received.len() < 9
                &&& received[5] == 1
                &&& 0 < received[3] * 256 + received[4] <= received.len() - 5
            }
        },
{
}

/// Whether a request starts with CONNECT in any ASCII case, and a space.
pub open spec fn spells_connect(r: Seq<u8>) -> bool {
    &&& r.len() >= 8
    &&& (r[0] == 67 || r[0] == 99)
    &&& (r[1] == 79 || r[1] == 111)
    &&& (r[2] == 78 || r[2] == 110)
    &&& (r[3] == 78 || r[3] == 110)
    &&& (r[4] == 69 || r[4] == 101)
    &&& (r[5] == 67 || r[5] == 99)
    &&& (r[6] == 84 || r[6] == 116)
    &&& r[7] == 32
}

/// Whether an empty line stands in a request behind others.
pub open spec fn holds_empty_line(r: Seq<u8>) -> bool {
    exists|i: int|
        0 <= i && i + 4 <= r.len() && #[trigger] r[i] == 13 && r[i + 1] == 10 && r[i + 2] == 13
            && r[i + 3] == 10
}

proof fn lemma_spells_connect(r: Seq<u8>)
    ensures
        asks_for_tunnel(r) == spells_connect(r),
{
    let word = connect_word();
    assert(word[0] == 99 && word[1] == 111 && word[2] == 110 && word[3] == 110 && word[4] == 101
        && word[5] == 99 && word[6] == 116 && word[7] == 32);
    if asks_for_tunnel(r) {
        assert(lower_byte(r[0]) == word[0]);
        assert(lower_byte(r[1]) == word[1]);
        assert(lower_byte(r[2]) == word[2]);
        assert(lower_byte(r[3]) == word[3]);
        assert(lower_byte(r[4]) == word[4]);
        assert(lower_byte(r[5]) == word[5]);
        assert(lower_byte(r[6]) == word[6]);
        assert(lower_byte(r[7]) == word[7]);
    }
    if spells_connect(r) {
        assert forall|i: int| 0 <= i < 8 implies lower_byte(#[trigger] r[i]) == word[i] by {
            assert(i == 0 || i == 1 || i == 2 || i == 3 || i == 4 || i == 5 || i == 6 || i == 7);
        }
    }
}

proof fn lemma_empty_line(r: Seq<u8>)
    ensures
        find(r, head_end()) is Some <==> holds_empty_line(r),
{
    let end = head_end();
    assert(end[0] == 13 && end[1] == 10 && end[2] == 13 && end[3] == 10);
    first_place_is_found(r, end, 0);
    if find(r, end) is Some {
        let at = choose|at: int| #[trigger] matches_at(r, end, at);
        assert(r[at + 0] == end[0] && r[at + 1] == end[1] && r[at + 2] == end[2] && r[at + 3]
            == end[3]);
        assert(r[at] == 13);
    }
    if holds_empty_line(r) {
        let i = choose|i: int|
            0 <= i && i + 4 <= r.len() && #[trigger] r[i] == 13 && r[i + 1] == 10 && r[i + 2] == 13
                && r[i + 3] == 10;
        assert forall|j: int| 0 <= j < end.len() implies r[i + j] == #[trigger] end[j] by {
            assert(j == 0 || j == 1 || j == 2 || j == 3);
        }
        assert(matches_at(r, end, i));
    }
}

/// A relay for a proxy answers a tunnel to an official host itself, once the head of the request is
/// whole, 16384 bytes are there or the stream has ended, however long the request is and whatever
/// else it holds. A tunnel to another host is passed on to the proxy as it is.
pub proof fn tunnels_are_judged_by_their_host(
    proxy: SocketAddrV4,
    tls: SocketAddrV4,
    received: Seq<u8>,
    ended: bool,
)
    requires
        spells_connect(received),
        holds_empty_line(received) || received.len() >= 16384 || ended,
    ensures
        if connect_host(received) matches Some(host) && official_host(host) {
            proxy_plan(proxy, tls, received, ended) == (Plan::Intercept {
                reply: encode_utf8("HTTP/1.1 200 Connection Established\r\n\r\n"@),
                events: seq![
                    "SDK HTTP CONNECT intercepted host="@ + connect_host(received)->0 + " proxy="@
                        + proxy.shown() + " target="@ + tls.shown(),
                ],
            })
        } else {
            proxy_plan(proxy, tls, received, ended) == (Plan::Forward {
                target: proxy,
                payload: received,
                events: seq![
                    "loopback proxy passthrough origin="@ + proxy.shown() + " prefix="@ + hex(
                        received.take(8),
                    ),
                ],
            })
        },
{
    lemma_spells_connect(received);
    lemma_empty_line(received);
    assert(up_to(received, 8) == received.take(8));
}

/// The head of a request for a tunnel is read on, up to 1024 bytes at once.
pub proof fn tunnel_requests_are_read_on(proxy: SocketAddrV4, tls: SocketAddrV4, received: Seq<u8>)
    requires
        spells_connect(received),
        !holds_empty_line(received),
        received.len() < 16384,
    ensures
        proxy_plan(proxy, tls, received, false) == (Plan::Read {
            limit: 1024,
            timed: true,
            retried: false,
        }),
{
    lemma_spells_connect(received);
    lemma_empty_line(received);
}

/// The first eight bytes are waited for, and what does not ask for a tunnel is then passed on to the
/// proxy as it is.
pub proof fn other_proxy_traffic_is_passed_on_as_it_is(
    proxy: SocketAddrV4,
    tls: SocketAddrV4,
    received: Seq<u8>,
    ended: bool,
)
    requires
        !spells_connect(received),
    ensures
        proxy_plan(proxy, tls, received, ended) == if received.len() < 8 && !ended {
            (Plan::Read { limit: 8 - received.len(), timed: true, retried: false })
        } else {
            (Plan::Forward {
                target: proxy,
                payload: received,
                events: seq![
                    "loopback proxy passthrough origin="@ + proxy.shown() + " prefix="@ + hex(
                        if received.len() < 8 {
                            received
                        } else {
                            received.take(8)
                        },
                    ),
                ],
            })
        },
{
    lemma_spells_connect(received);
    let head = if received.len() < 8 {
        received
    } else {
        received.take(8)
    };
    assert(up_to(received, 8) == head);
}

/// A step is taken as it is decided on: what is read, sent and reported is what it holds.
pub proof fn steps_are_what_they_hold(step: RelayStep)
    ensures
        match step {
            RelayStep::Read { limit, timed, retried } => step@ matches Plan::Read {
                limit: l,
                timed: t,
                retried: r,
            } && l == limit && t == timed && r == retried,
            RelayStep::Forward { target, payload, events } => step@ matches Plan::Forward {
                target: t,
                payload: p,
                events: e,
            } && t == target && p == payload@ && e == events.deep_view(),
            RelayStep::Intercept { reply, events } => step@ matches Plan::Intercept {
                reply: r,
                events: e,
            } && r == reply@ && e == events.deep_view(),
            RelayStep::Fail(error) => step@ matches Plan::Fail(e) && e == error,
        },
{
}

/// A record goes to the private server exactly where a server name is read out of it and is an
/// official host.
pub proof fn records_go_private_by_their_name(record: Seq<u8>)
    ensures
        server_name(record) is None ==> !goes_private(record),
        server_name(record) is Some ==> goes_private(record) == official_host(
            server_name(record)->0,
        ),
{
}

/// An error in a record is given in its own words, and a relay waits ten seconds for what a client
/// sends first.
pub proof fn errors_in_records_keep_their_words(error: TlsError)
    ensures
        RouteError::Tls(error).words() == error.words(),
        PROBE_TIMEOUT_SECS == 10,
{
}

}
