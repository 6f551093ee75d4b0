use sonetto::addr::{Ipv4Addr, SocketAddrV4};
use sonetto::route::{
    is_judgeable, official_game_ip, route_connection, route_private_tls_connection,
    route_proxy_connection, RelayStep, RouteError, OFFICIAL_GAME_PORT,
};
use sonetto::tls::TlsError;

const HOST: &str = "private01";

fn game() -> SocketAddrV4 {
    SocketAddrV4::new(Ipv4Addr::new(192, 0, 2, 10), 32052)
}

fn tls() -> SocketAddrV4 {
    SocketAddrV4::new(Ipv4Addr::new(192, 0, 2, 11), 32053)
}

fn other_ip() -> Ipv4Addr {
    Ipv4Addr::new(43, 174, 224, 9)
}

fn proxy() -> SocketAddrV4 {
    SocketAddrV4::new(Ipv4Addr::localhost(), 8080)
}

fn client_hello(host: &str) -> Vec<u8> {
    let n = host.len() as u8;
    let mut record = vec![0x16, 0x03, 0x01, 0, 56 + n, 1, 0, 0, 52 + n, 0x03, 0x03];
    record.extend_from_slice(&[0; 33]);
    record.extend_from_slice(&[0, 2, 0, 0x2f, 1, 0, 0, 9 + n]);
    record.extend_from_slice(&[0, 0, 0, 5 + n, 0, 3 + n, 0, 0, n]);
    record.extend_from_slice(host.as_bytes());
    record
}

fn step(origin: Ipv4Addr, received: &[u8], ended: bool) -> RelayStep {
    assert!(is_judgeable(received, ended));
    route_connection(origin, game(), tls(), HOST, received, ended)
}

fn forwarded(step: RelayStep) -> (SocketAddrV4, Vec<u8>, Vec<String>) {
    match step {
        RelayStep::Forward {
            target,
            payload,
            events,
        } => (target, payload, events),
        _ => panic!("not forwarded"),
    }
}

fn wanted(step: RelayStep) -> (usize, bool) {
    let (limit, timed, _) = read(step);
    (limit, timed)
}

fn read(step: RelayStep) -> (usize, bool, bool) {
    match step {
        RelayStep::Read {
            limit,
            timed,
            retried,
        } => (limit, timed, retried),
        _ => panic!("nothing to read"),
    }
}

fn failure(step: RelayStep) -> RouteError {
    match step {
        RelayStep::Fail(error) => error,
        _ => panic!("not given up"),
    }
}

#[test]
fn relays_read_the_whole_record_and_nothing_behind_it() {
    let hello = client_hello("sl916.com");
    assert_eq!(wanted(step(other_ip(), &[], false)), (5, true));
    assert_eq!(wanted(step(other_ip(), &hello[..3], false)), (2, true));
    for so_far in 5..hello.len() {
        let rest = hello.len() - so_far;
        assert_eq!(
            wanted(step(other_ip(), &hello[..so_far], false)),
            (rest, false)
        );
    }
    forwarded(step(other_ip(), &hello, false));
}

#[test]
fn only_reads_behind_the_head_of_a_record_are_retried() {
    let hello = client_hello("sl916.com");
    let private = |received: &[u8]| route_private_tls_connection(tls(), HOST, received, false);
    assert_eq!(read(step(other_ip(), &hello[..4], false)), (1, true, false));
    assert_eq!(read(step(other_ip(), &hello[..5], false)), (65, false, true));
    assert_eq!(read(private(&hello[..4])), (1, true, false));
    assert_eq!(read(private(&hello[..5])), (65, true, true));
    let request = b"CONNECT sl916.com:443\r\n";
    assert_eq!(
        read(route_proxy_connection(proxy(), tls(), request, false)),
        (1024, true, false)
    );
}

#[test]
fn official_names_go_to_the_private_tls_server() {
    let (target, payload, events) = forwarded(step(other_ip(), &client_hello("sl916.com"), false));
    assert_eq!(target, tls());
    assert_eq!(payload, client_hello(HOST));
    assert_eq!(
        events,
        [
            "game tls SNI rewrite sl916.com -> private01",
            "protocol relay private tls redirect origin=43.174.224.9:443 prefix=1603010041 target=192.0.2.11:32053",
        ]
    );
}

#[test]
fn other_names_go_to_the_official_server() {
    let hello = client_hello("pc.crashsight.wetest.net");
    let (target, payload, events) = forwarded(step(other_ip(), &hello, false));
    assert_eq!(target, SocketAddrV4::new(other_ip(), OFFICIAL_GAME_PORT));
    assert_eq!(payload, hello);
    assert_eq!(
        events,
        ["protocol relay official tls passthrough origin=43.174.224.9:443 prefix=1603010050 target=43.174.224.9:443"]
    );
}

#[test]
fn game_traffic_goes_to_the_private_game_server() {
    let packet = [0x20, 0, 0, 0, 1];
    let (target, payload, events) = forwarded(step(official_game_ip(), &packet, false));
    assert_eq!(target, game());
    assert_eq!(payload, packet);
    assert_eq!(
        events,
        ["protocol relay game redirect origin=43.163.62.120:443 prefix=2000000001 target=192.0.2.10:32052"]
    );
}

#[test]
fn other_traffic_goes_where_it_was_meant_to_go() {
    let (target, payload, events) = forwarded(step(other_ip(), &[1, 2], true));
    assert_eq!(target, SocketAddrV4::new(other_ip(), 443));
    assert_eq!(payload, [1, 2]);
    assert_eq!(
        events,
        ["protocol relay non-tls passthrough origin=43.174.224.9:443 prefix=0102 target=43.174.224.9:443"]
    );
}

#[test]
fn records_of_no_valid_length_are_passed_on() {
    for head in [[0x16, 3, 1, 0, 0], [0x16, 3, 1, 0x40, 1]] {
        let (target, payload, events) = forwarded(step(official_game_ip(), &head, false));
        assert_eq!(target, SocketAddrV4::new(official_game_ip(), 443));
        assert_eq!(payload, head);
        assert!(events[0].starts_with(
            "protocol relay official tls passthrough (invalid record) origin=43.163.62.120:443"
        ));
    }
    assert_eq!(
        wanted(step(other_ip(), &[0x16, 3, 1, 0x40, 0], false)),
        (16384, false)
    );
}

#[test]
fn relays_give_up_streams_that_end_early() {
    let hello = client_hello("sl916.com");
    assert_eq!(
        failure(step(other_ip(), &hello[..20], true)),
        RouteError::UnexpectedEnd
    );
}

#[test]
fn relays_give_up_names_that_cannot_be_replaced() {
    let hello = client_hello("sl916.com");
    let host = "h".repeat(256);
    match route_connection(other_ip(), game(), tls(), &host, &hello, false) {
        RelayStep::Fail(error) => assert_eq!(error, RouteError::Tls(TlsError::HostTooLong)),
        _ => panic!("not given up"),
    }
}

#[test]
fn some_streams_cannot_be_judged() {
    assert!(!is_judgeable(&[0x16, 3, 1], true));
    assert!(is_judgeable(&[0x16, 3, 1], false));
    assert!(!is_judgeable(&[0x16, 3, 1, 0, 1, 1], false));
    assert!(is_judgeable(&[0x16, 3, 1, 0, 1, 2], false));
    assert!(is_judgeable(&[0x17, 3, 1], true));
    assert!(is_judgeable(&[], true));
}

#[test]
fn proxy_relays_read_the_head_of_a_tunnel_request() {
    let ask = |received: &[u8], ended: bool| {
        route_proxy_connection(proxy(), tls(), received, ended)
    };
    assert_eq!(wanted(ask(b"", false)), (8, true));
    assert_eq!(wanted(ask(b"CONN", false)), (4, true));
    assert_eq!(wanted(ask(b"cOnNeCt ", false)), (1024, true));
    assert_eq!(wanted(ask(b"CONNECT sl916.com:443\r\n", false)), (1024, true));
    let mut long = b"CONNECT ".to_vec();
    long.resize(16383, b'a');
    assert_eq!(wanted(ask(&long, false)), (1024, true));
    long.push(b'a');
    assert_eq!(forwarded(ask(&long, false)).1.len(), 16384);
    forwarded(ask(b"GET / HT", false));
}

#[test]
fn tunnels_to_official_hosts_are_intercepted() {
    let request = b"CONNECT gamesdk-en.sl916.com:443 HTTP/1.1\r\n\r\n";
    match route_proxy_connection(proxy(), tls(), request, false) {
        RelayStep::Intercept { reply, events } => {
            assert_eq!(reply, b"HTTP/1.1 200 Connection Established\r\n\r\n");
            assert_eq!(
                events,
                ["SDK HTTP CONNECT intercepted host=gamesdk-en.sl916.com proxy=127.0.0.1:8080 target=192.0.2.11:32053"]
            );
        }
        _ => panic!("not intercepted"),
    }
    // A request line alone is enough once the stream has ended.
    let line = b"CONNECT sl916.com:443\r\n";
    assert!(matches!(
        route_proxy_connection(proxy(), tls(), line, true),
        RelayStep::Intercept { .. }
    ));
}

#[test]
fn other_proxy_traffic_is_passed_on() {
    let request = b"CONNECT example.org:443 HTTP/1.1\r\n\r\n";
    let (target, payload, events) =
        forwarded(route_proxy_connection(proxy(), tls(), request, false));
    assert_eq!(target, proxy());
    assert_eq!(payload, request);
    assert_eq!(
        events,
        ["loopback proxy passthrough origin=127.0.0.1:8080 prefix=434f4e4e45435420"]
    );
    let (_, payload, events) = forwarded(route_proxy_connection(proxy(), tls(), b"GET", true));
    assert_eq!(payload, b"GET");
    assert_eq!(
        events,
        ["loopback proxy passthrough origin=127.0.0.1:8080 prefix=474554"]
    );
}

#[test]
fn intercepted_tunnels_go_to_the_private_tls_server() {
    let hello = client_hello("sl916.com");
    let ask = |received: &[u8], ended: bool| {
        route_private_tls_connection(tls(), HOST, received, ended)
    };
    assert_eq!(wanted(ask(&hello[..1], false)), (4, true));
    assert_eq!(wanted(ask(&hello[..5], false)), (65, true));
    let (target, payload, events) = forwarded(ask(&hello, false));
    assert_eq!(target, tls());
    assert_eq!(payload, client_hello(HOST));
    assert_eq!(events, ["game tls SNI rewrite sl916.com -> private01"]);
    // Even a name that is not official is replaced here.
    let (target, payload, _) = forwarded(ask(&client_hello("example.o"), false));
    assert_eq!(target, tls());
    assert_eq!(payload, client_hello(HOST));
}

#[test]
fn intercepted_tunnels_that_hold_no_record_are_given_up() {
    let ask = |received: &[u8], ended: bool| {
        failure(route_private_tls_connection(tls(), HOST, received, ended))
    };
    assert_eq!(ask(b"GET /", false), RouteError::NoClientHello);
    assert_eq!(ask(b"", true), RouteError::NoClientHello);
    assert_eq!(
        ask(&[0x16, 3, 1, 0, 0], false),
        RouteError::InvalidRecordLength
    );
    assert_eq!(
        ask(&[0x16, 3, 1, 0x40, 1], false),
        RouteError::InvalidRecordLength
    );
    assert_eq!(ask(&[0x16, 3, 1], true), RouteError::InvalidRecordLength);
    assert_eq!(ask(&[0x16, 3, 1, 1], true), RouteError::UnexpectedEnd);
    assert_eq!(ask(&[0x16, 3, 1, 0, 9], true), RouteError::UnexpectedEnd);
}

#[test]
fn route_errors_have_words() {
    assert_eq!(
        RouteError::NoClientHello.message(),
        "HTTP CONNECT tunnel did not start with TLS ClientHello"
    );
    assert_eq!(
        RouteError::InvalidRecordLength.message(),
        "HTTP CONNECT TLS record length is invalid"
    );
    assert_eq!(
        RouteError::UnexpectedEnd.message(),
        "failed to fill whole buffer"
    );
    assert_eq!(
        RouteError::Tls(TlsError::HostTooLong).message(),
        "TLS SNI host is too long"
    );
}
