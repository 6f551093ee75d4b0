use sonetto::addr::{ipv4_mapped_bytes, mapped_ipv4, Ipv4Addr, SocketAddrV4};
use sonetto::config::{is_configured_proxy_endpoint, ProxyEndpoint};

#[test]
fn recognizes_ipv4_mapped_ipv6_addresses() {
    let ip = Ipv4Addr::new(43, 174, 224, 9);
    assert_eq!(mapped_ipv4(ipv4_mapped_bytes(ip)), Some(ip));
    assert_eq!(mapped_ipv4([0; 16]), None);
}

#[test]
fn intercepts_only_the_configured_loopback_proxy() {
    let proxy = ProxyEndpoint {
        ipv4: Ipv4Addr::localhost(),
        port: 8080,
    };
    assert!(is_configured_proxy_endpoint(
        Some(&proxy),
        Ipv4Addr::localhost(),
        8080
    ));
    assert!(!is_configured_proxy_endpoint(
        Some(&proxy),
        Ipv4Addr::localhost(),
        1250
    ));
    assert!(!is_configured_proxy_endpoint(
        None,
        Ipv4Addr::localhost(),
        8080
    ));
}

#[test]
fn mapped_bytes_end_with_the_octets() {
    assert_eq!(
        ipv4_mapped_bytes(Ipv4Addr::new(1, 2, 3, 4)),
        [0, 0, 0, 0, 0, 0, 0, 0, 0, 0, 0xff, 0xff, 1, 2, 3, 4]
    );
    let mut bytes = ipv4_mapped_bytes(Ipv4Addr::new(1, 2, 3, 4));
    bytes[9] = 1;
    assert_eq!(mapped_ipv4(bytes), None);
    bytes[9] = 0;
    bytes[10] = 0xfe;
    assert_eq!(mapped_ipv4(bytes), None);
}

#[test]
fn addresses_are_written_in_dotted_decimal() {
    assert_eq!(Ipv4Addr::new(0, 10, 100, 255).text(), "0.10.100.255");
    let addr = SocketAddrV4::new(Ipv4Addr::localhost(), 65535);
    assert_eq!(addr.text(), "127.0.0.1:65535");
    assert_eq!(Ipv4Addr::new(7, 8, 9, 10).octets(), [7, 8, 9, 10]);
    assert!(Ipv4Addr::new(127, 9, 9, 9).is_loopback());
    assert!(!Ipv4Addr::new(128, 0, 0, 1).is_loopback());
}
