use xash3d_query::address::{find_v6, get_socket_addr, SocketAddr, SocketAddrV6};
use xash3d_query::cli::{execute, Cli, Command, Error};
use xash3d_query::packet::ProtocolError;

fn cli(args: &[&str]) -> Cli {
    Cli {
        masters: vec![],
        args: args.iter().map(|s| s.to_string()).collect(),
        master_timeout: 2,
        server_timeout: 2,
        protocol: vec![49, 48],
        json: false,
        debug: false,
        force_color: false,
        filter: String::new(),
        key: None,
    }
}

#[test]
fn all_servers_by_default() {
    assert_eq!(execute(&cli(&[])), Ok(Command::Info { servers: &[] }));
    assert_eq!(execute(&cli(&[""])), Ok(Command::Info { servers: &[] }));
    assert_eq!(
        execute(&cli(&["all", "x"])),
        Ok(Command::Info { servers: &[] })
    );
}

#[test]
fn named_servers() {
    let c = cli(&["info", "a:1", "b:2"]);
    assert_eq!(
        execute(&c),
        Ok(Command::Info {
            servers: &["a:1".to_owned(), "b:2".to_owned()]
        })
    );
    assert_eq!(execute(&cli(&["info"])), Ok(Command::Info { servers: &[] }));
}

#[test]
fn other_commands() {
    assert_eq!(execute(&cli(&["list"])), Ok(Command::List));
    assert_eq!(execute(&cli(&["monitor"])), Ok(Command::Monitor));
    let e = execute(&cli(&["List"])).unwrap_err();
    assert_eq!(e, Error::UndefinedCommand);
    assert_eq!(e.to_string(), "Undefined command");
    assert_eq!(
        Error::from(ProtocolError::Other("x".to_owned())).to_string(),
        "x"
    );
}

#[test]
fn first_ipv6_address_is_taken() {
    let a = SocketAddrV6 {
        ip: 1,
        port: 2,
        flowinfo: 3,
        scope_id: 4,
    };
    let b = SocketAddrV6 {
        ip: 5,
        port: 6,
        flowinfo: 0,
        scope_id: 0,
    };
    let v4 = SocketAddr::V4 { ip: 7, port: 8 };
    assert_eq!(
        find_v6(&[v4, SocketAddr::V6(a), SocketAddr::V6(b)]),
        Some(a)
    );
    let mut out = vec![b];
    assert_eq!(
        get_socket_addr("host", &[v4, SocketAddr::V6(a)], &mut out),
        None
    );
    assert_eq!(out, vec![b, a]);
    assert_eq!(
        get_socket_addr("host", &[v4], &mut out),
        Some("warn: failed to resolve address for host".to_owned())
    );
    assert_eq!(out, vec![b, a]);
}
