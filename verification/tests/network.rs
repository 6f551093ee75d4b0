use sonetto::config::{ClientConfig, Endpoint};
use sonetto::encoding::wide_host;
use sonetto::host::CERT_E_CN_NO_MATCH;
use sonetto::network::{
    checks_server_name, on_get_ie_proxy_config, on_get_proxy_for_url, on_getaddrinfo,
    on_verify_certificate_chain_policy, on_winhttp_connect, reads_parameters, reads_url,
    redirected_check, set_host, CertChainPolicyStatus, CurrentUserIeProxyConfig, HostNames,
    NetworkError, RedirectedCheck, WinHttpProxyInfo,
};

fn config(host: &str) -> ClientConfig {
    ClientConfig {
        game: Endpoint {
            host: "game.example".to_string(),
            port: 32052,
            ipv4: None,
        },
        tls: Endpoint {
            host: host.to_string(),
            port: 32053,
            ipv4: None,
        },
        proxy: None,
    }
}

fn names() -> HostNames {
    match set_host(&Ok(config("reverse1999.example")), false) {
        Ok(names) => names,
        Err(_) => panic!("no host"),
    }
}

fn refused(host: &str, taken: bool) -> NetworkError {
    match set_host(&Ok(config(host)), taken) {
        Ok(_) => panic!("accepted"),
        Err(error) => error,
    }
}

#[test]
fn the_host_is_set_up_once() {
    let names = names();
    assert_eq!(names.ansi(), b"reverse1999.example\0");
    assert_eq!(names.wide(), &wide_host("reverse1999.example"));
    assert_eq!(refused("a", true), NetworkError::HostTaken);
    assert_eq!(refused("a\0", true), NetworkError::NulInHost(1));
    let missing = Err("cannot read".to_string());
    match set_host(&missing, false) {
        Ok(_) => panic!("accepted"),
        Err(error) => assert_eq!(error, NetworkError::ConfigUnavailable),
    }
}

#[test]
fn network_errors_have_words() {
    assert_eq!(
        NetworkError::ConfigUnavailable.message(),
        "client configuration unavailable"
    );
    assert_eq!(
        NetworkError::NulInHost(12).message(),
        "nul byte found in provided data at position: 12"
    );
    assert_eq!(
        NetworkError::HostTaken.message(),
        "TLS host was already initialized"
    );
}

#[test]
fn the_user_has_no_proxy() {
    let answer = on_get_ie_proxy_config(true);
    assert_eq!(answer.result, 1);
    assert_eq!(
        answer.written,
        Some(CurrentUserIeProxyConfig {
            auto_detect: 0,
            auto_config_url: 0,
            proxy: 0,
            proxy_bypass: 0
        })
    );
    assert_eq!(
        answer.event.as_deref(),
        Some("process-local IE proxy bypass returned to game; system proxy unchanged")
    );
    let answer = on_get_ie_proxy_config(false);
    assert_eq!(answer.result, 0);
    assert_eq!(answer.written, None);
    assert_eq!(answer.event, None);
}

#[test]
fn official_urls_go_out_directly() {
    let url = wide_host("https://gamesdk-en.sl916.com/login");
    let answer = on_get_proxy_for_url(Some(&url)).unwrap();
    assert_eq!(answer.result, 1);
    assert_eq!(
        answer.written,
        Some(WinHttpProxyInfo {
            access_type: 1,
            proxy: 0,
            proxy_bypass: 0
        })
    );
    assert_eq!(
        answer.event.as_deref(),
        Some("process-local direct route selected for SDK URL https://gamesdk-en.sl916.com/login")
    );
    let url = wide_host("https://pc.crashsight.wetest.net/report");
    assert!(on_get_proxy_for_url(Some(&url)).is_none());
    assert!(on_get_proxy_for_url(None).is_none());
    assert!(reads_url(true, true));
    assert!(!reads_url(true, false));
    assert!(!reads_url(false, true));
    let mut long = wide_host("https://sl916.com/");
    long.pop();
    long.resize(2048, 0x61);
    assert!(on_get_proxy_for_url(Some(&long)).is_none());
    long[2047] = 0;
    assert!(on_get_proxy_for_url(Some(&long)).is_some());
}

#[test]
fn winhttp_connections_go_to_the_private_host() {
    let names = names();
    let loaded = Ok(config("reverse1999.example"));
    let host = wide_host("GameSDK-en.sl916.com");
    let redirect = on_winhttp_connect(Some(&host), 0x7_01bb, &loaded, Some(&names)).unwrap();
    assert_eq!(redirect.host, &wide_host("reverse1999.example"));
    assert_eq!(redirect.port, 32053);
    assert_eq!(
        redirect.event,
        "sdk WinHTTP redirect GameSDK-en.sl916.com:443 -> reverse1999.example:32053"
    );
    assert!(on_winhttp_connect(Some(&host), 443, &loaded, None).is_none());
    assert!(on_winhttp_connect(None, 443, &loaded, Some(&names)).is_none());
    let missing = Err("cannot read".to_string());
    assert!(on_winhttp_connect(Some(&host), 443, &missing, Some(&names)).is_none());
    let other = wide_host("example.org");
    assert!(on_winhttp_connect(Some(&other), 443, &loaded, Some(&names)).is_none());
}

#[test]
fn lookups_of_official_hosts_are_for_the_private_host() {
    let names = names();
    let redirect = on_getaddrinfo(Some(b"sl916.com"), Some(&names)).unwrap();
    assert_eq!(redirect.host, b"reverse1999.example\0");
    assert_eq!(
        redirect.event,
        "sdk dns rewrite sl916.com -> reverse1999.example"
    );
    assert!(on_getaddrinfo(Some(b"example.org"), Some(&names)).is_none());
    assert!(on_getaddrinfo(Some(b"\xff.sl916.com"), Some(&names)).is_none());
    assert!(on_getaddrinfo(Some(b"sl916.com"), None).is_none());
    assert!(on_getaddrinfo(None, Some(&names)).is_none());
}

#[test]
fn certificate_checks_of_official_hosts_are_redirected() {
    assert!(reads_parameters(4, true));
    assert!(!reads_parameters(4, false));
    assert!(!reads_parameters(3, true));
    assert!(checks_server_name(Some(2), true));
    assert!(!checks_server_name(Some(2), false));
    assert!(!checks_server_name(Some(1), true));
    assert!(!checks_server_name(None, true));
    let names = names();
    let host = wide_host("sl916.com");
    let check = redirected_check(Some(&host), Some(&names)).unwrap();
    assert_eq!(check.host, "sl916.com");
    assert_eq!(check.server_name, &wide_host("reverse1999.example"));
    assert!(redirected_check(Some(&host), None).is_none());
    assert!(redirected_check(None, Some(&names)).is_none());
    let other = wide_host("example.org");
    assert!(redirected_check(Some(&other), Some(&names)).is_none());
}

#[test]
fn only_a_wrong_name_is_accepted() {
    let names = names();
    let check = |host: &str| RedirectedCheck {
        host: host.to_string(),
        names: &names,
        server_name: names.wide(),
    };
    let status = |error| CertChainPolicyStatus {
        error,
        chain_index: 3,
        element_index: 4,
    };
    let mismatch = Some(status(CERT_E_CN_NO_MATCH));
    let verdict = on_verify_certificate_chain_policy(&check("sl916.com"), mismatch, 7);
    assert_eq!(verdict.result, 1);
    assert_eq!(
        verdict.written,
        Some(CertChainPolicyStatus {
            error: 0,
            chain_index: -1,
            element_index: -1
        })
    );
    assert_eq!(
        verdict.events,
        [
            "sdk certificate host rewrite sl916.com -> reverse1999.example",
            "sdk certificate CN mismatch accepted for redirected host sl916.com",
        ]
    );
    let rewrite = ["sdk certificate host rewrite sl916.com -> reverse1999.example"];
    for other in [Some(status(0)), Some(status(0x800B_0109)), None] {
        let verdict = on_verify_certificate_chain_policy(&check("sl916.com"), other, 7);
        assert_eq!(verdict.result, 7);
        assert_eq!(verdict.written, None);
        assert_eq!(verdict.events, rewrite);
    }
    let verdict = on_verify_certificate_chain_policy(&check("example.org"), mismatch, 0);
    assert_eq!(verdict.result, 0);
    assert_eq!(verdict.written, None);
}
