use sonetto::addr::Ipv4Addr;
use sonetto::config::{accept, get, ClientConfig, ConfigFile, Endpoint};

fn config(game: &str, tls: &str) -> ClientConfig {
    ClientConfig {
        game: Endpoint {
            host: game.to_string(),
            port: 32052,
            ipv4: Some(Ipv4Addr::new(192, 0, 2, 10)),
        },
        tls: Endpoint {
            host: tls.to_string(),
            port: 32053,
            ipv4: None,
        },
        proxy: None,
    }
}

#[test]
fn configurations_with_both_hosts_are_accepted() {
    let accepted = accept("sonetto.toml", ConfigFile::Parsed(config("a", "b"))).unwrap();
    assert_eq!(accepted.game.host, "a");
    assert_eq!(accepted.tls.port, 32053);
    assert_eq!(accepted.game.ipv4, Some(Ipv4Addr::new(192, 0, 2, 10)));
}

#[test]
fn configurations_are_refused_with_a_reason() {
    let refused = |file| accept("dir/sonetto.toml", file).unwrap_err();
    assert_eq!(
        refused(ConfigFile::Unreadable("no such file".to_string())),
        "cannot read dir/sonetto.toml: no such file"
    );
    assert_eq!(
        refused(ConfigFile::Invalid("expected `=`".to_string())),
        "invalid dir/sonetto.toml: expected `=`"
    );
    assert_eq!(
        refused(ConfigFile::Parsed(config("", "b"))),
        "endpoint host cannot be empty"
    );
    assert_eq!(
        refused(ConfigFile::Parsed(config("a", ""))),
        "endpoint host cannot be empty"
    );
}

#[test]
fn reasons_are_not_passed_on() {
    assert_eq!(get(&Ok(config("a", "b"))).unwrap().tls.host, "b");
    assert_eq!(
        get(&Err("cannot read".to_string())).unwrap_err(),
        "client configuration unavailable"
    );
}
