use xash3d_query::address::{SocketAddr, SocketAddrV6};
use xash3d_query::cli::Cli;
use xash3d_query::color::Terminal;
use xash3d_query::monitor::{push_added, push_removed, Monitor, Notice};
use xash3d_query::packet::GetServerInfoResponse;
use xash3d_query::report::{list_servers, push_server, query_server_info, Label, Report};
use xash3d_query::server::{unix_time, ServerInfo, ServerResult, ServerResultKind, SystemTime};
use xash3d_query::table::Table;
use xash3d_query::text::{push_decimal, same_text, truth_text};

const NOW: SystemTime = SystemTime::SinceEpoch { secs: 7, nanos: 8 };
const A: SocketAddrV6 = SocketAddrV6 {
    ip: 1,
    port: 27015,
    flowinfo: 0,
    scope_id: 0,
};
const PLAIN: Terminal = Terminal {
    color: false,
    tty: false,
};

fn cli() -> Cli {
    Cli {
        masters: vec!["m:1".to_owned()],
        args: vec![],
        master_timeout: 2,
        server_timeout: 3,
        protocol: vec![49, 48],
        json: false,
        debug: false,
        force_color: false,
        filter: "f".to_owned(),
        key: None,
    }
}

fn info() -> ServerInfo {
    ServerInfo {
        gamedir: "valve".to_owned(),
        map: "crossfire".to_owned(),
        host: "^1Test^7 server".to_owned(),
        protocol: 49,
        numcl: 4,
        maxcl: 32,
        dm: true,
        team: false,
        coop: true,
        password: false,
        dedicated: true,
    }
}

fn response(host: &[u8]) -> GetServerInfoResponse<Vec<u8>> {
    GetServerInfoResponse {
        gamedir: b"valve".to_vec(),
        map: b"crossfire".to_vec(),
        host: host.to_vec(),
        protocol: 49,
        numcl: 4,
        maxcl: 32,
        dm: true,
        team: false,
        coop: true,
        password: false,
        dedicated: true,
    }
}

#[test]
fn unix_time_is_whole_seconds_or_zero() {
    assert_eq!(unix_time(&NOW), 7);
    assert_eq!(
        unix_time(&SystemTime::SinceEpoch {
            secs: u64::MAX,
            nanos: 999_999_999
        }),
        u64::MAX
    );
    assert_eq!(
        unix_time(&SystemTime::BeforeEpoch {
            secs: 100,
            nanos: 1
        }),
        0
    );
}

#[test]
fn results_hold_what_they_are_made_of() {
    let r = ServerResult::ok(NOW, A, 5, info());
    assert_eq!((r.time, r.address, r.ping), (NOW, A, Some(5)));
    assert_eq!(r.kind, ServerResultKind::Info { info: info() });
    let r = ServerResult::timeout(NOW, A);
    assert_eq!((r.ping, r.kind), (None, ServerResultKind::Timeout));
    let r = ServerResult::protocol(NOW, A, 6);
    assert_eq!((r.ping, r.kind), (Some(6), ServerResultKind::Protocol));
    let r = ServerResult::error(NOW, A, "e".to_owned());
    assert_eq!(r.ping, None);
    assert_eq!(
        r.kind,
        ServerResultKind::Error {
            message: "e".to_owned()
        }
    );
    let r = ServerResult::invalid(NOW, A, 7, "i".to_owned(), b"\xff\talex\n \x7f~");
    assert_eq!(r.ping, Some(7));
    assert_eq!(
        r.kind,
        ServerResultKind::Invalid {
            message: "i".to_owned(),
            response: "\\xff\\talex\\n \\x7f~".to_owned()
        }
    );
}

#[test]
fn raw_texts_are_read_leniently() {
    assert_eq!(
        ServerInfo::from(&response(b"a\xffb\xc3\xa9")).host,
        "a\u{fffd}b\u{e9}"
    );
    let read = ServerInfo::from(&response(b"^1Test^7 server"));
    assert_eq!(read, info());
    let moved = ServerInfo::from(GetServerInfoResponse {
        gamedir: "valve".to_owned(),
        map: "crossfire".to_owned(),
        host: "^1Test^7 server".to_owned(),
        protocol: 49,
        numcl: 4,
        maxcl: 32,
        dm: true,
        team: false,
        coop: true,
        password: false,
        dedicated: true,
    });
    assert_eq!(moved, info());
}

#[test]
fn a_server_is_shown_on_one_line() {
    let c = cli();
    let i = info();
    assert_eq!(
        i.printer(&c).fmt(PLAIN),
        "d-c-D  4/32 valve    crossfire          \"Test server\""
    );
    let mut other = info();
    other.dm = false;
    other.team = true;
    other.coop = false;
    other.password = true;
    other.dedicated = false;
    other.numcl = 100;
    other.maxcl = 8;
    other.gamedir = "longgamedir".to_owned();
    assert_eq!(
        other.printer(&c).fmt_named("x"),
        "-t-p- 100/8  longgamedir crossfire          \"x\""
    );
}

#[test]
fn report_in_plain_text() {
    let c = cli();
    let results = vec![
        ServerResult::ok(NOW, A, 1500, info()),
        ServerResult::timeout(NOW, A),
        ServerResult::protocol(NOW, A, 1),
        ServerResult::error(NOW, A, "e".to_owned()),
        ServerResult::invalid(NOW, A, 1, "m".to_owned(), b"\n"),
    ];
    let labels: Vec<Label> = (0..5)
        .map(|i| Label {
            address: format!("[::1]:{}", i),
            ping: "1.500".to_owned(),
        })
        .collect();
    let expected = "\
server: [::1]:0 [1.500 ms]
    status: \"ok\"
    host: \"Test server\"
    gamedir: \"valve\"
    map: \"crossfire\"
    protocol: \"49\"
    numcl: \"4\"
    maxcl: \"32\"
    dm: \"true\"
    team: \"false\"
    coop: \"true\"
    password: \"false\"

server: [::1]:1
    status: \"timeout\"

server: [::1]:2 [1.500 ms]
    status: \"protocol\"

server: [::1]:3
    status: \"error\"
    message: \"e\"

server: [::1]:4 [1.500 ms]
    status: \"invalid\"
    message: \"m\"
    response: \"\\n\"

";
    match query_server_info(&c, &results, &labels, PLAIN) {
        Report::Text(text) => assert_eq!(text, expected),
        _ => panic!("text was asked for"),
    }
    let mut one = "> ".to_owned();
    push_server(&mut one, &results[1], &labels[1], "");
    assert_eq!(one, "> server: [::1]:1\n    status: \"timeout\"\n\n");
}

#[test]
fn report_as_data() {
    let mut c = cli();
    c.json = true;
    c.debug = true;
    let results = vec![ServerResult::timeout(NOW, A)];
    let labels = vec![Label {
        address: String::new(),
        ping: String::new(),
    }];
    match query_server_info(&c, &results, &labels, PLAIN) {
        Report::Json(data) => {
            assert_eq!(data.protocol, &vec![49, 48]);
            assert_eq!((data.master_timeout, data.server_timeout), (2, 3));
            assert_eq!(data.masters, &vec!["m:1".to_owned()]);
            assert_eq!(data.filter, "f");
            assert_eq!(data.servers, &results);
        }
        _ => panic!("JSON was asked for"),
    }
    c.json = false;
    assert!(matches!(
        query_server_info(&c, &results, &labels, PLAIN),
        Report::Debug(_)
    ));
    assert!(matches!(
        list_servers(&c, &vec![A], &vec![String::new()]),
        Report::Debug(_)
    ));
    c.json = true;
    match list_servers(&c, &vec![A], &vec![String::new()]) {
        Report::Json(data) => {
            assert_eq!(data.master_timeout, 2);
            assert_eq!(data.masters, &vec!["m:1".to_owned()]);
            assert_eq!(data.filter, "f");
            assert_eq!(data.servers, &vec![A]);
        }
        _ => panic!("JSON was asked for"),
    };
}

#[test]
fn addresses_are_listed_line_by_line() {
    let c = cli();
    let texts = vec!["[::1]:1".to_owned(), "[::2]:1".to_owned()];
    match list_servers(&c, &vec![A, A], &texts) {
        Report::Text(text) => assert_eq!(text, "[::1]:1\n[::2]:1\n"),
        _ => panic!("text was asked for"),
    };
}

#[test]
fn changes_are_shown_in_plain_text() {
    let c = cli();
    let mut monitor = Monitor::new(&c);
    let addr = SocketAddr::V4 { ip: 1, port: 2 };
    let line = "d-c-D  4/32 valve    crossfire          \"x\"";
    let added = format!("0.0.0.1:2                +++   1.5ms {}\n", line);
    let removed = format!("0.0.0.1:2                ---         {}\n", line);
    let update = |m: &mut Monitor, host: &[u8]| {
        m.server_update(
            addr,
            "0.0.0.1:2",
            &response(host),
            1500,
            "1.5ms",
            NOW,
            PLAIN,
        )
    };
    assert_eq!(update(&mut monitor, b"x"), Notice::Text(added.clone()));
    assert_eq!(
        update(&mut monitor, b"x"),
        Notice::Text(format!("{}{}", removed, added))
    );
    assert_eq!(monitor.server_timeout(&addr, NOW), Notice::Nothing);
    assert_eq!(monitor.server_remove(&addr, NOW), Notice::Nothing);
    assert_eq!(update(&mut monitor, b"x"), Notice::Text(added));
}

#[test]
fn what_is_taken_back_was_told_last() {
    let c = cli();
    let mut monitor = Monitor::new(&c);
    let (a, b) = (SocketAddr::V6(A), SocketAddr::V4 { ip: 7, port: 7 });
    let update = |m: &mut Monitor, addr: SocketAddr, host: &[u8]| {
        m.server_update(addr, "s", &response(host), 1, "1.0ms", NOW, PLAIN)
    };
    let taken_back = |notice: Notice, host: &str| match notice {
        Notice::Text(text) => {
            let first = text.lines().next().unwrap();
            first.contains(" --- ") && first.ends_with(&format!("\"{}\"", host))
        }
        _ => false,
    };
    update(&mut monitor, a, b"one");
    update(&mut monitor, b, b"other");
    assert!(taken_back(update(&mut monitor, a, b"two"), "one"));
    monitor.server_timeout(&a, NOW);
    monitor.server_remove(&b, NOW);
    assert!(taken_back(update(&mut monitor, a, b"three"), "two"));
    assert!(!taken_back(update(&mut monitor, b, b"other"), "other"));
}

#[test]
fn changes_are_told_as_data() {
    let mut c = cli();
    c.json = true;
    let mut monitor = Monitor::new(&c);
    let addr = SocketAddr::V6(A);
    assert_eq!(
        monitor.server_update(
            addr,
            "a",
            &response(b"^1Test^7 server"),
            1500,
            "p",
            NOW,
            PLAIN
        ),
        Notice::Json(ServerResult::ok(NOW, A, 1500, info()))
    );
    assert_eq!(
        monitor.server_timeout(&addr, NOW),
        Notice::Json(ServerResult::timeout(NOW, A))
    );
    assert_eq!(
        monitor.server_remove(&addr, NOW),
        Notice::Json(ServerResult::new(NOW, A, None, ServerResultKind::Remove))
    );
}

#[test]
fn lines_of_changes() {
    let mut out = String::new();
    push_removed(&mut out, "a", "l");
    assert_eq!(out, format!("{:24} --- {:7} l\n", "a", ""));
    let mut out = String::new();
    push_added(&mut out, "a", "12.3\u{b5}s", "l");
    assert_eq!(out, format!("{:24} +++ {:>7} l\n", "a", "12.3\u{b5}s"));
}

#[test]
fn tables_keep_their_keys_in_order() {
    let mut t: Table<SocketAddr, u8> = Table::new();
    let v4 = SocketAddr::V4 { ip: 9, port: 9 };
    let v6 = SocketAddr::V6(A);
    assert_eq!(t.insert(v6, 1), None);
    assert_eq!(t.insert(v4, 2), None);
    assert_eq!(t.insert(v6, 3), Some(1));
    assert_eq!(t.get(&v6), Some(&3));
    assert!(!t.contains_key(&SocketAddr::V4 { ip: 9, port: 8 }));
    assert_eq!(t.remove(&SocketAddr::V4 { ip: 8, port: 9 }), None);
    assert_eq!(t.into_entries(), vec![(v4, 2), (v6, 3)]);
    let mut t: Table<SocketAddrV6, u8> = Table::new();
    for (port, flowinfo, scope_id) in [(2, 0, 0), (1, 1, 0), (1, 0, 1), (1, 0, 0)] {
        let key = SocketAddrV6 {
            ip: 0,
            port,
            flowinfo,
            scope_id,
        };
        t.insert(key, 0);
    }
    t.insert(A, 0);
    assert_eq!(t.remove(&A), Some(0));
    let keys: Vec<(u16, u32, u32)> = t
        .into_keys()
        .iter()
        .map(|k| (k.port, k.flowinfo, k.scope_id))
        .collect();
    assert_eq!(keys, vec![(1, 0, 0), (1, 0, 1), (1, 1, 0), (2, 0, 0)]);
}

#[test]
fn small_texts() {
    let mut out = "n".to_owned();
    push_decimal(&mut out, 0);
    push_decimal(&mut out, 10);
    push_decimal(&mut out, 255);
    assert_eq!(out, "n010255");
    assert_eq!(truth_text(true), "true");
    assert!(same_text("\u{e9}a", "\u{e9}a"));
    assert!(!same_text("a", "b"));
    assert!(!same_text("a", "ab"));
}
