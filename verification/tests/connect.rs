use sonetto::addr::{ipv4_mapped_bytes, Ipv4Addr, SocketAddrV4};
use sonetto::config::{ClientConfig, Endpoint, ProxyEndpoint};
use sonetto::connect::{
    connection_route, hooked_family, on_connect, on_connect_ipv6, on_relay, on_relay_ipv6,
    relay_asked, Family, Route, SockAddrIn, SockAddrIn6,
};
use sonetto::relay::{keep_relay_port, RelayTask, Relays, TlsPorts};

fn game_ip() -> Ipv4Addr {
    Ipv4Addr::new(192, 0, 2, 10)
}

fn tls_ip() -> Ipv4Addr {
    Ipv4Addr::new(192, 0, 2, 11)
}

fn config() -> ClientConfig {
    ClientConfig {
        game: Endpoint {
            host: "game.example".to_string(),
            port: 32052,
            ipv4: Some(game_ip()),
        },
        tls: Endpoint {
            host: "tls.example".to_string(),
            port: 32053,
            ipv4: Some(tls_ip()),
        },
        proxy: Some(ProxyEndpoint {
            ipv4: Ipv4Addr::localhost(),
            port: 8080,
        }),
    }
}

fn without_tls_address() -> ClientConfig {
    let mut config = config();
    config.tls.ipv4 = None;
    config
}

fn sockaddr(ip: Ipv4Addr, port: u16) -> SockAddrIn {
    SockAddrIn {
        port: port.to_be_bytes(),
        addr: ip.octets(),
    }
}

fn sockaddr6(ip: Ipv4Addr, port: u16) -> SockAddrIn6 {
    SockAddrIn6 {
        port: port.to_be_bytes(),
        addr: ipv4_mapped_bytes(ip),
    }
}

fn no_relays() -> Relays<'static> {
    Relays {
        tls: None,
        proxy: None,
    }
}

fn tls_server() -> SocketAddrV4 {
    SocketAddrV4::new(tls_ip(), 32053)
}

fn game_server() -> SocketAddrV4 {
    SocketAddrV4::new(game_ip(), 32052)
}

#[test]
fn only_internet_addresses_are_looked_at() {
    assert_eq!(hooked_family(false, Some(2)), Some(Family::Ipv4));
    assert_eq!(hooked_family(false, Some(23)), Some(Family::Ipv6));
    assert_eq!(hooked_family(false, Some(1)), None);
    assert_eq!(hooked_family(false, None), None);
    assert_eq!(hooked_family(true, Some(2)), None);
    assert_eq!(hooked_family(true, Some(23)), None);
}

#[test]
fn https_connections_go_to_a_relay() {
    let relays = no_relays();
    let loaded = Ok(config());
    let mut addr = sockaddr(Ipv4Addr::new(43, 163, 62, 120), 443);
    let report = on_connect(&mut addr, &loaded, &relays);
    assert_eq!(
        report.route,
        Route::ProtocolRelay {
            game: game_server(),
            tls: tls_server()
        }
    );
    assert_eq!(
        report.line.as_deref(),
        Some("[connect] IP: 43.163.62.120, Port: 443")
    );
    assert_eq!(
        report.events,
        ["tls connect candidate source=43.163.62.120:443 family=ipv4"]
    );
    assert_eq!(addr.addr, [43, 163, 62, 120]);
    assert_eq!(addr.port, [1, 187]);

    let event = on_relay(&mut addr, report.route, Ok(5001));
    assert_eq!(
        event.as_deref(),
        Some("protocol relay source=43.163.62.120:443 target=127.0.0.1:5001 family=ipv4")
    );
    assert_eq!(addr.addr, [127, 0, 0, 1]);
    assert_eq!(addr.port, 5001u16.to_be_bytes());
}

#[test]
fn failed_relays_leave_the_address() {
    let relays = no_relays();
    let mut addr = sockaddr(game_ip(), 443);
    let report = on_connect(&mut addr, &Ok(config()), &relays);
    let event = on_relay(&mut addr, report.route, Err("no port"));
    assert_eq!(
        event.as_deref(),
        Some("protocol relay creation failed for 192.0.2.10:443: no port")
    );
    assert_eq!(addr.addr, [192, 0, 2, 10]);
    assert_eq!(addr.port, [1, 187]);

    let mut addr = sockaddr(Ipv4Addr::localhost(), 8080);
    let report = on_connect(&mut addr, &Ok(config()), &relays);
    let event = on_relay(&mut addr, report.route, Err("no port"));
    assert_eq!(
        event.as_deref(),
        Some("loopback proxy relay creation failed for 127.0.0.1:8080: no port")
    );
    assert_eq!(addr.port, 8080u16.to_be_bytes());
}

#[test]
fn connections_to_the_private_tls_server_change_their_port() {
    let relays = no_relays();
    let mut addr = sockaddr(tls_ip(), 443);
    let report = on_connect(&mut addr, &Ok(config()), &relays);
    assert_eq!(report.route, Route::TlsRedirect { port: 32053 });
    assert_eq!(
        report.events,
        [
            "tls connect candidate source=192.0.2.11:443 family=ipv4",
            "sdk tls redirect source=192.0.2.11:443 target=192.0.2.11:32053",
        ]
    );
    assert_eq!(addr.addr, [192, 0, 2, 11]);
    assert_eq!(addr.port, 32053u16.to_be_bytes());
    // There is no relay to ask for.
    assert_eq!(on_relay(&mut addr, report.route, Ok(1)), None);
    assert_eq!(addr.port, 32053u16.to_be_bytes());
}

#[test]
fn proxy_connections_keep_their_address_over_ipv4() {
    let relays = no_relays();
    let mut config = config();
    config.proxy = Some(ProxyEndpoint {
        ipv4: Ipv4Addr::new(127, 0, 0, 2),
        port: 8080,
    });
    let loaded = Ok(config);
    let mut addr = sockaddr(Ipv4Addr::new(127, 0, 0, 2), 8080);
    let report = on_connect(&mut addr, &loaded, &relays);
    assert_eq!(report.route, Route::ProxyRelay { tls: tls_server() });
    assert!(report.events.is_empty());
    let event = on_relay(&mut addr, report.route, Ok(5002));
    assert_eq!(
        event.as_deref(),
        Some("loopback proxy relay source=127.0.0.2:8080 target=127.0.0.1:5002")
    );
    assert_eq!(addr.addr, [127, 0, 0, 2]);
    assert_eq!(addr.port, 5002u16.to_be_bytes());

    let mut addr = sockaddr6(Ipv4Addr::new(127, 0, 0, 2), 8080);
    let report = on_connect_ipv6(&mut addr, "::ffff:127.0.0.2", &loaded, &relays);
    let event = on_relay_ipv6(&mut addr, "::ffff:127.0.0.2", report.route, Ok(5002));
    assert_eq!(
        event.as_deref(),
        Some("loopback proxy relay source=[::ffff:127.0.0.2]:8080 target=127.0.0.1:5002 family=ipv6-mapped")
    );
    assert_eq!(addr.addr, ipv4_mapped_bytes(Ipv4Addr::localhost()));
}

#[test]
fn missing_addresses_are_reported() {
    let relays = no_relays();
    let loaded = Ok(without_tls_address());
    let mut addr = sockaddr(game_ip(), 443);
    let report = on_connect(&mut addr, &loaded, &relays);
    assert_eq!(report.route, Route::ProtocolRelayUnavailable);
    assert_eq!(
        report.events[1],
        "protocol relay unavailable; game.ipv4 or tls.ipv4 is missing"
    );
    let mut addr = sockaddr(Ipv4Addr::localhost(), 8080);
    let report = on_connect(&mut addr, &loaded, &relays);
    assert_eq!(report.route, Route::ProxyRelayUnavailable);
    assert_eq!(
        report.events,
        ["proxy relay unavailable; tls.ipv4 is missing"]
    );
    assert_eq!(addr.port, 8080u16.to_be_bytes());
}

#[test]
fn other_connections_are_left_alone() {
    let mut tls = TlsPorts::new();
    tls.set().unwrap();
    keep_relay_port(&mut tls, game_ip(), 8080);
    let relays = Relays {
        tls: Some(&tls),
        proxy: None,
    };
    let loaded = Ok(config());
    let route = |ip, port| connection_route(&loaded, &relays, SocketAddrV4::new(ip, port));
    assert_eq!(route(game_ip(), 80), Route::Leave);
    assert_eq!(route(tls_ip(), 32053), Route::Leave);
    assert_eq!(route(Ipv4Addr::new(127, 1, 2, 3), 443), Route::Leave);
    // A relay listens on the port of the proxy.
    assert_eq!(route(Ipv4Addr::localhost(), 8080), Route::Leave);
    let missing = Err("cannot read".to_string());
    assert_eq!(
        connection_route(&missing, &relays, SocketAddrV4::new(game_ip(), 443)),
        Route::Leave
    );
}

#[test]
fn mapped_addresses_are_routed_like_ipv4_addresses() {
    let relays = no_relays();
    let loaded = Ok(config());
    let text = "::ffff:43.163.62.120";
    let mut addr = sockaddr6(Ipv4Addr::new(43, 163, 62, 120), 443);
    let report = on_connect_ipv6(&mut addr, text, &loaded, &relays);
    assert!(report.line.is_none());
    assert_eq!(
        report.events,
        ["tls connect candidate source=[::ffff:43.163.62.120]:443 family=ipv6 mapped_ipv4=43.163.62.120"]
    );
    let event = on_relay_ipv6(&mut addr, text, report.route, Ok(5001));
    assert_eq!(
        event.as_deref(),
        Some("protocol relay source=[::ffff:43.163.62.120]:443 target=127.0.0.1:5001 family=ipv6-mapped")
    );
    assert_eq!(addr.addr, ipv4_mapped_bytes(Ipv4Addr::localhost()));
    assert_eq!(addr.port, 5001u16.to_be_bytes());

    let mut addr = sockaddr6(tls_ip(), 443);
    let report = on_connect_ipv6(&mut addr, "::ffff:192.0.2.11", &loaded, &relays);
    assert_eq!(
        report.events[1],
        "sdk tls redirect source=[::ffff:192.0.2.11]:443 target=192.0.2.11:32053 family=ipv6-mapped"
    );
    assert_eq!(addr.addr, ipv4_mapped_bytes(tls_ip()));
    assert_eq!(addr.port, 32053u16.to_be_bytes());
}

#[test]
fn other_ipv6_connections_are_left_alone() {
    let relays = no_relays();
    let mut addr = SockAddrIn6 {
        port: 443u16.to_be_bytes(),
        addr: [0x20, 1, 0xd, 0xb8, 0, 0, 0, 0, 0, 0, 0, 0, 0, 0, 0, 1],
    };
    let before = addr;
    let report = on_connect_ipv6(&mut addr, "2001:db8::1", &Ok(config()), &relays);
    assert_eq!(report.route, Route::Leave);
    assert_eq!(
        report.events,
        ["tls connect candidate source=[2001:db8::1]:443 family=ipv6 mapped_ipv4=none"]
    );
    assert_eq!(addr.addr, before.addr);
    assert_eq!(addr.port, before.port);
}

#[test]
fn relays_are_asked_for_by_the_address_of_the_connection() {
    let ip = Ipv4Addr::new(43, 163, 62, 120);
    let protocol = RelayTask::Protocol {
        origin_ip: ip,
        game: game_server(),
        tls: tls_server(),
    };
    let proxy = RelayTask::Proxy {
        origin: SocketAddrV4::new(Ipv4Addr::localhost(), 8080),
        tls: tls_server(),
    };
    let loaded = Ok(config());
    let asked = |ip, port| {
        let mut addr = sockaddr(ip, port);
        let report = on_connect(&mut addr, &loaded, &no_relays());
        let mut addr = sockaddr6(ip, port);
        let mapped = on_connect_ipv6(&mut addr, "::", &loaded, &no_relays());
        let tasks = [report.relay, mapped.relay].map(|relay| {
            relay.map(|request| {
                assert_eq!(request.tls_host, "tls.example");
                request.task
            })
        });
        assert_eq!(tasks[0], tasks[1]);
        tasks[0]
    };
    assert_eq!(asked(ip, 443), Some(protocol));
    assert_eq!(asked(Ipv4Addr::localhost(), 8080), Some(proxy));
    assert_eq!(asked(tls_ip(), 443), None);
    assert_eq!(asked(ip, 80), None);
    for route in [
        Route::Leave,
        Route::TlsRedirect { port: 1 },
        Route::ProxyRelayUnavailable,
        Route::ProtocolRelayUnavailable,
    ] {
        assert_eq!(relay_asked(route, SocketAddrV4::new(ip, 443)), None);
    }
}

#[test]
fn addresses_are_read_in_network_order() {
    let ip = Ipv4Addr::new(1, 2, 3, 4);
    let address = SocketAddrV4::new(ip, 0x1234);
    let addr = sockaddr(ip, 0x1234);
    assert_eq!(addr.port, [0x12, 0x34]);
    assert_eq!(addr.address(), address);
    assert_eq!(sockaddr6(ip, 0x1234).mapped_address(), Some(address));
    let other = SockAddrIn6 {
        port: [0, 1],
        addr: [0; 16],
    };
    assert_eq!(other.mapped_address(), None);
}
