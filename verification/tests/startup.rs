use sonetto::addr::{Ipv4Addr, SocketAddrV4};
use sonetto::config::{ClientConfig, Endpoint};
use sonetto::diagnostics::{event, Relay};
use sonetto::modules::{Callback, HookOutcome, ModuleType, Network, Servers, Socket, SocketError};
use sonetto::relay::{relay_port_for, ProxyPorts, RelayError, RelayTask, TlsPorts};
use sonetto::route::official_game_ip;
use sonetto::startup::{
    first_step, launch, next_step, ready_event_name, starts, Launch, Library, Step,
};
use sonetto::util::{disable_memory_protection, next_routine};

fn config(game: Option<Ipv4Addr>, tls: Option<Ipv4Addr>) -> ClientConfig {
    ClientConfig {
        game: Endpoint {
            host: "game.example".to_string(),
            port: 32052,
            ipv4: game,
        },
        tls: Endpoint {
            host: "tls.example".to_string(),
            port: 32053,
            ipv4: tls,
        },
        proxy: None,
    }
}

#[test]
fn events_are_lines_with_a_timestamp() {
    assert_eq!(event(Some(1700000000123), "started"), "1700000000123 started\n");
    assert_eq!(event(None, ""), "0 \n");
    assert_eq!(
        event(Some(u128::MAX), "x"),
        "340282366920938463463374607431768211455 x\n"
    );
}

#[test]
fn relays_have_names_and_events() {
    let protocol = Relay::Protocol(Ipv4Addr::new(43, 163, 62, 120));
    assert_eq!(protocol.thread_name(), "sonetto-relay-43.163.62.120");
    assert_eq!(
        protocol.listening(5001),
        "protocol relay listening on 127.0.0.1:5001 origin=43.163.62.120:443"
    );
    assert_eq!(
        protocol.connection_failed("reset"),
        "protocol relay connection failed origin=43.163.62.120: reset"
    );
    assert_eq!(
        protocol.accept_failed("closed"),
        "protocol relay accept failed origin=43.163.62.120: closed"
    );
    let proxy = Relay::Proxy(SocketAddrV4::new(Ipv4Addr::localhost(), 8080));
    assert_eq!(proxy.thread_name(), "sonetto-proxy-relay-8080");
    assert_eq!(
        proxy.listening(5002),
        "loopback proxy relay listening on 127.0.0.1:5002 origin=127.0.0.1:8080"
    );
    assert_eq!(
        proxy.connection_failed("reset"),
        "loopback proxy relay connection failed origin=127.0.0.1:8080: reset"
    );
    assert_eq!(
        proxy.accept_failed("closed"),
        "loopback proxy relay accept failed origin=127.0.0.1:8080: closed"
    );
}

#[test]
fn network_hooks_are_optional_but_the_first() {
    assert_eq!(Network.get_module_type(), ModuleType::Network);
    let hooks = Network.hooks();
    let names: Vec<String> = hooks
        .iter()
        .map(|hook| format!("{}!{}", hook.module, hook.symbol))
        .collect();
    assert_eq!(
        names,
        [
            "winhttp.dll!WinHttpConnect",
            "WinHttp.dll!WinHttpGetIEProxyConfigForCurrentUser",
            "WinHttp.dll!WinHttpGetProxyForUrl",
            "Ws2_32.dll!getaddrinfo",
            "Ws2_32.dll!gethostbyname",
            "Crypt32.dll!CertVerifyCertificateChainPolicy",
        ]
    );
    assert_eq!(hooks[4].callback, Callback::GetAddrInfo);
    assert!(matches!(hooks[0].attached(Err("gone")), HookOutcome::Failed));
    assert!(matches!(hooks[0].attached(Ok(())), HookOutcome::Done));
    for hook in &hooks[1..] {
        let kind = if hook.replaces { "replacement" } else { "hook" };
        match hook.attached(Err("gone")) {
            HookOutcome::Skipped(text) => assert_eq!(
                text,
                format!(
                    "optional network {kind} unavailable: {}!{}: gone",
                    hook.module, hook.symbol
                )
            ),
            _ => panic!("not skipped"),
        }
    }
    assert_eq!(
        Network.started(),
        "network hooks attached with process-local SDK proxy bypass, DNS and certificate compatibility fallbacks"
    );
}

#[test]
fn socket_hooks_are_required() {
    assert_eq!(Socket.get_module_type(), ModuleType::Socket);
    let hooks = Socket.hooks();
    assert_eq!(hooks.len(), 2);
    assert_eq!(hooks[0].symbol, "connect");
    assert_eq!(hooks[1].symbol, "WSAConnect");
    for hook in &hooks {
        assert_eq!(hook.module, "Ws2_32.dll");
        assert_eq!(hook.callback, Callback::Connect);
        assert!(matches!(hook.attached(Err("gone")), HookOutcome::Failed));
    }
    assert_eq!(
        Socket.started(),
        "socket hooks attached to connect and WSAConnect"
    );
}

#[test]
fn the_socket_module_needs_both_addresses_and_fresh_registries() {
    let game = Ipv4Addr::new(192, 0, 2, 10);
    let tls = Ipv4Addr::new(192, 0, 2, 11);
    let mut tls_ports = TlsPorts::new();
    let mut proxy_ports = ProxyPorts::new();
    let mut init = |loaded| Socket.init(&loaded, &mut tls_ports, &mut proxy_ports);
    assert_eq!(
        init(Err("cannot read".to_string())),
        Err(SocketError::ConfigUnavailable)
    );
    assert_eq!(
        init(Ok(config(None, None))),
        Err(SocketError::GameAddressMissing)
    );
    assert_eq!(
        init(Ok(config(Some(game), None))),
        Err(SocketError::TlsAddressMissing)
    );
    let servers = init(Ok(config(Some(game), Some(tls)))).unwrap();
    assert_eq!(servers.game, SocketAddrV4::new(game, 32052));
    assert_eq!(servers.tls, SocketAddrV4::new(tls, 32053));
    assert_eq!(
        init(Ok(config(Some(game), Some(tls)))),
        Err(SocketError::Relay(RelayError::TlsRegistryTaken))
    );
    let mut tls_ports = TlsPorts::new();
    let mut proxy_ports = ProxyPorts::new();
    proxy_ports.set().unwrap();
    assert_eq!(
        Socket.init(
            &Ok(config(Some(game), Some(tls))),
            &mut tls_ports,
            &mut proxy_ports
        ),
        Err(SocketError::Relay(RelayError::ProxyRegistryTaken))
    );
    // The other registry has been set up by then.
    assert_eq!(relay_port_for(Some(&tls_ports), game), Ok(None));
}

#[test]
fn the_first_relay_is_that_of_the_official_game_server() {
    let game = SocketAddrV4::new(Ipv4Addr::new(192, 0, 2, 10), 32052);
    let tls = SocketAddrV4::new(Ipv4Addr::new(192, 0, 2, 11), 32053);
    let asked = Socket.first_relay(Servers { game, tls }, &config(None, None));
    assert_eq!(
        asked.task,
        RelayTask::Protocol {
            origin_ip: Ipv4Addr::new(43, 163, 62, 120),
            game,
            tls
        }
    );
    assert_eq!(asked.task.relay(), Relay::Protocol(official_game_ip()));
    assert_eq!(asked.tls_host, "tls.example");
}

#[test]
fn socket_errors_have_words() {
    assert_eq!(
        SocketError::ConfigUnavailable.message(),
        "client configuration unavailable"
    );
    assert_eq!(
        SocketError::GameAddressMissing.message(),
        "game.ipv4 is required"
    );
    assert_eq!(
        SocketError::TlsAddressMissing.message(),
        "tls.ipv4 is required"
    );
    assert_eq!(
        SocketError::Relay(RelayError::TlsRegistryMissing).message(),
        "TLS relay registry is not initialized"
    );
}

#[test]
fn startup_signals_after_every_step() {
    assert!(starts(1));
    for reason in [0, 2, 3] {
        assert!(!starts(reason));
    }
    let (mut step, text) = first_step();
    let mut events = vec![text.to_string()];
    let mut steps = vec![step];
    while step != Step::Done {
        let (next, event) = next_step(step, Ok(()));
        events.extend(event);
        steps.push(next);
        step = next;
    }
    assert_eq!(
        steps,
        [
            Step::Load(Library::Winsock),
            Step::Load(Library::WinHttp),
            Step::Load(Library::Crypt),
            Step::EnableSocket,
            Step::EnableNetwork,
            Step::CreateReadyEvent,
            Step::SignalReady,
            Step::Done,
        ]
    );
    assert_eq!(
        events,
        [
            "dll attached; loading network hook dependencies",
            "network hook dependencies loaded before GameAssembly.dll",
            "all network hooks initialized before GameAssembly.dll",
            "launcher readiness signaled",
        ]
    );
}

#[test]
fn startup_ends_with_the_first_failure() {
    let words = [
        (
            Step::Load(Library::Winsock),
            "network dependency load failed: Ws2_32.dll: e",
        ),
        (
            Step::Load(Library::WinHttp),
            "network dependency load failed: WinHttp.dll: e",
        ),
        (
            Step::Load(Library::Crypt),
            "network dependency load failed: Crypt32.dll: e",
        ),
        (Step::EnableSocket, "socket initialization failed: e"),
        (Step::EnableNetwork, "network initialization failed: e"),
        (
            Step::CreateReadyEvent,
            "launcher readiness event creation failed: e",
        ),
        (Step::SignalReady, "launcher readiness signal failed: e"),
    ];
    for (step, text) in words {
        let (next, event) = next_step(step, Err("e"));
        assert_eq!(next, Step::Done);
        assert_eq!(event.as_deref(), Some(text));
    }
    assert_eq!(next_step(Step::Done, Err("e")), (Step::Done, None));
}

#[test]
fn the_launcher_resumes_only_a_ready_process() {
    assert!(matches!(launch(Some(0)), Launch::Resume));
    // The wait timed out.
    match launch(Some(258)) {
        Launch::Terminate(text) => assert_eq!(
            text.as_deref(),
            Some("Network hooks did not become ready within 15 seconds; game launch aborted.")
        ),
        Launch::Resume => panic!("resumed"),
    }
    assert!(matches!(launch(None), Launch::Terminate(None)));
}

#[test]
fn event_names_hold_the_process() {
    assert_eq!(ready_event_name(0), "Local\\SonettoNetworkReady-0");
    assert_eq!(
        ready_event_name(4294967295),
        "Local\\SonettoNetworkReady-4294967295"
    );
}

#[test]
fn the_next_routine_depends_on_wine() {
    assert_eq!(next_routine(true), "NtPulseEvent");
    assert_eq!(next_routine(false), "NtQuerySection");
}

#[test]
fn restored_words_number_the_routine_before() {
    assert_eq!(
        disable_memory_protection(0x0000_0051_b8d1_8b4c, 0x51),
        0x0000_0050_b8d1_8b4c
    );
    assert_eq!(disable_memory_protection(5, 0), 0xffff_ffff_0000_0005);
    assert_eq!(
        disable_memory_protection(0x1234_56ff_0000_0000, 1),
        0x1234_5600_0000_0000
    );
}
