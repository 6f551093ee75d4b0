use sonetto::addr::{Ipv4Addr, SocketAddrV4};
use sonetto::relay::{
    is_internal_relay_port, keep_proxy_relay_port, keep_relay_port, proxy_relay_port_for,
    relay_port_for, ProxyPorts, RelayError, Relays, TlsPorts,
};

#[test]
fn registries_are_set_up_once() {
    let mut tls = TlsPorts::new();
    let mut proxies = ProxyPorts::new();
    let ip = Ipv4Addr::new(43, 163, 62, 120);
    let proxy = SocketAddrV4::new(Ipv4Addr::localhost(), 8080);
    assert_eq!(
        relay_port_for(Some(&tls), ip),
        Err(RelayError::TlsRegistryMissing)
    );
    assert_eq!(
        proxy_relay_port_for(Some(&proxies), proxy),
        Err(RelayError::ProxyRegistryMissing)
    );
    assert_eq!(tls.set(), Ok(()));
    assert_eq!(tls.set(), Err(RelayError::TlsRegistryTaken));
    assert_eq!(proxies.set(), Ok(()));
    assert_eq!(proxies.set(), Err(RelayError::ProxyRegistryTaken));
    assert_eq!(relay_port_for(Some(&tls), ip), Ok(None));
    assert_eq!(proxy_relay_port_for(Some(&proxies), proxy), Ok(None));
}

#[test]
fn kept_ports_are_found_and_known() {
    let mut tls = TlsPorts::new();
    let mut proxies = ProxyPorts::new();
    tls.set().unwrap();
    proxies.set().unwrap();
    let first = Ipv4Addr::new(1, 2, 3, 4);
    let second = Ipv4Addr::new(4, 3, 2, 1);
    let proxy = SocketAddrV4::new(first, 8080);
    keep_relay_port(&mut tls, first, 5001);
    keep_relay_port(&mut tls, second, 5002);
    keep_proxy_relay_port(&mut proxies, proxy, 5003);
    assert_eq!(relay_port_for(Some(&tls), first), Ok(Some(5001)));
    assert_eq!(relay_port_for(Some(&tls), second), Ok(Some(5002)));
    assert_eq!(proxy_relay_port_for(Some(&proxies), proxy), Ok(Some(5003)));
    assert_eq!(
        proxy_relay_port_for(Some(&proxies), SocketAddrV4::new(first, 8081)),
        Ok(None)
    );
    let known = |tls, proxy, port| is_internal_relay_port(&Relays { tls, proxy }, port);
    for port in [5001, 5002, 5003] {
        assert!(known(Some(&tls), Some(&proxies), port));
    }
    assert!(!known(Some(&tls), Some(&proxies), 8080));
    // A registry whose lock is poisoned knows no port, and the other still does.
    assert!(!known(None, Some(&proxies), 5001));
    assert!(known(None, Some(&proxies), 5003));
    assert!(known(Some(&tls), None, 5001));
    assert!(!known(Some(&tls), None, 5003));
    assert!(!known(Some(&TlsPorts::new()), Some(&ProxyPorts::new()), 5001));
}

#[test]
fn poisoned_registries_are_refused() {
    let ip = Ipv4Addr::new(1, 2, 3, 4);
    assert_eq!(
        relay_port_for(None, ip),
        Err(RelayError::TlsRegistryPoisoned)
    );
    assert_eq!(
        proxy_relay_port_for(None, SocketAddrV4::new(ip, 1)),
        Err(RelayError::ProxyRegistryPoisoned)
    );
}

#[test]
fn relay_errors_have_words() {
    let words = [
        (
            RelayError::TlsRegistryMissing,
            "TLS relay registry is not initialized",
        ),
        (
            RelayError::ProxyRegistryMissing,
            "proxy relay registry is not initialized",
        ),
        (
            RelayError::TlsRegistryPoisoned,
            "TLS relay registry lock is poisoned",
        ),
        (
            RelayError::ProxyRegistryPoisoned,
            "proxy relay registry lock is poisoned",
        ),
        (
            RelayError::TlsRegistryTaken,
            "TLS relay registry was already initialized",
        ),
        (
            RelayError::ProxyRegistryTaken,
            "proxy relay registry was already initialized",
        ),
    ];
    for (error, text) in words {
        assert_eq!(error.message(), text);
    }
}
