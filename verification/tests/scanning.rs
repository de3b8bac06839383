use xash3d_query::address::SocketAddrV6;
use xash3d_query::cli::{Cli, Error};
use xash3d_query::inquiry::{ServerQuery, Step};
use xash3d_query::packet::{decode_servers, ProtocolError};
use xash3d_query::scan::{consequence, Consequence, ReceiveFailure, Scan};
use xash3d_query::server::{ServerResult, ServerResultKind, SystemTime};

const NOW: SystemTime = SystemTime::SinceEpoch { secs: 7, nanos: 8 };
const SECOND: u64 = 1_000_000_000;
const HEADER: &[u8] = b"\xff\xff\xff\xfff\n";
const INFO: &[u8] = b"\xff\xff\xff\xffinfo\n\\p\\49\\map\\crossfire\\dm\\1\\team\\0\\coop\\0\\numcl\\4\\maxcl\\32\\gamedir\\valve\\password\\0\\dedicated\\1\\host\\^1Test";
const WRONG: &[u8] = b"\xff\xff\xff\xffinfo\nTest: wrong version\n";

fn cli() -> Cli {
    Cli {
        masters: vec!["master".to_owned()],
        args: vec![],
        master_timeout: 2,
        server_timeout: 3,
        protocol: vec![49, 48],
        json: false,
        debug: false,
        force_color: false,
        filter: "\\nat\\0".to_owned(),
        key: None,
    }
}

fn addr(ip: u128, port: u16) -> SocketAddrV6 {
    SocketAddrV6 {
        ip,
        port,
        flowinfo: 0,
        scope_id: 0,
    }
}

fn list(key: Option<u32>, servers: &[SocketAddrV6]) -> Vec<u8> {
    let mut raw = HEADER.to_vec();
    if let Some(key) = key {
        raw.push(0x7f);
        raw.extend(key.to_le_bytes());
        raw.push(8);
    }
    for a in servers {
        raw.extend(a.ip.to_be_bytes());
        raw.extend(a.port.to_be_bytes());
    }
    raw.extend([0; 18]);
    raw
}

fn ask(servers: &[SocketAddrV6], version: &str) -> Step {
    let mut packet = b"\xff\xff\xff\xffinfo ".to_vec();
    packet.extend(version.as_bytes());
    Step::Ask {
        servers: servers.to_vec(),
        packet,
    }
}

fn kinds(results: &[ServerResult]) -> Vec<(SocketAddrV6, Option<u64>, ServerResultKind)> {
    results
        .iter()
        .map(|r| (r.address, r.ping, r.kind.clone()))
        .collect()
}

#[test]
fn masters_are_told_apart() {
    let c = cli();
    let scan = Scan::new(&c, vec![addr(1, 27010), addr(2, 27010)]);
    assert!(scan.is_master(&addr(2, 27010)));
    assert!(!scan.is_master(&addr(2, 27011)));
    let mut scoped = addr(2, 27010);
    scoped.scope_id = 1;
    assert!(!scan.is_master(&scoped));
    assert_eq!(
        scan.query_servers().unwrap(),
        b"1\xff[::]:0\x00\\nat\\0\x00"
    );
}

#[test]
fn too_long_a_filter_fails() {
    let mut c = cli();
    c.filter = "f".repeat(600);
    let scan = Scan::new(&c, vec![]);
    let expected = Error::Protocol(ProtocolError::Other("Unexpected end of buffer".to_owned()));
    assert_eq!(scan.query_servers().unwrap_err(), expected);
    match scan.server_info(&[], 0) {
        Err(e) => assert_eq!(e, expected),
        Ok(_) => panic!("the request does not fit"),
    }
}

#[test]
fn key_has_to_be_the_expected_one() {
    let mut c = cli();
    let complaint = Err("error: invalid key from master([::1]:1)".to_owned());
    {
        let scan = Scan::new(&c, vec![]);
        assert_eq!(scan.check_key("[::1]:1", None), Ok(()));
        assert_eq!(scan.check_key("[::1]:1", Some(1)), complaint);
    }
    c.key = Some(5);
    let scan = Scan::new(&c, vec![]);
    assert_eq!(scan.check_key("[::1]:1", Some(5)), Ok(()));
    assert_eq!(scan.check_key("[::1]:1", Some(6)), complaint);
    assert_eq!(scan.check_key("[::1]:1", None), complaint);
}

#[test]
fn listed_addresses_come_out_in_order() {
    let mut c = cli();
    c.key = Some(9);
    let m = addr(100, 27010);
    let scan = Scan::new(&c, vec![m]);
    let mut servers = scan.servers(0);
    let a = addr(1, 9);
    let b = addr(2, 3);
    let d = addr(1, 10);
    assert_eq!(servers.receive(m, "m", &list(Some(9), &[b, a])), None);
    assert_eq!(servers.receive(m, "m", &list(Some(9), &[d, b])), None);
    // Neither a stranger nor a wrong key counts.
    assert_eq!(
        servers.receive(addr(101, 1), "x", &list(Some(9), &[addr(7, 7)])),
        None
    );
    assert_eq!(
        servers.receive(m, "m", &list(Some(8), &[addr(7, 7)])),
        Some("error: invalid key from master(m)".to_owned())
    );
    assert_eq!(
        servers.receive(m, "m", b"a\"\n\x00\\"),
        Some("warn: invalid packet from master m, raw \"a\"\\n\\x00\\\\\"".to_owned())
    );
    assert_eq!(servers.finish(), vec![a, d, b]);
}

#[test]
fn lists_come_in_any_order() {
    let c = cli();
    let m = addr(100, 27010);
    let scan = Scan::new(&c, vec![m]);
    let one = list(None, &[addr(3, 1), addr(1, 1)]);
    let two = list(None, &[addr(2, 1), addr(1, 1)]);
    let mut first = scan.servers(0);
    first.receive(m, "m", &one);
    first.receive(m, "m", &two);
    first.receive(m, "m", &two);
    let mut second = scan.servers(0);
    second.receive(m, "m", &two);
    second.receive(m, "m", &one);
    let expected = vec![addr(1, 1), addr(2, 1), addr(3, 1)];
    assert_eq!(first.finish(), expected);
    assert_eq!(second.finish(), expected);
}

#[test]
fn lists_read_back() {
    let sent = [addr(u128::MAX, u16::MAX), addr(1 << 64, 258), addr(0, 0)];
    let read = decode_servers(&list(Some(0x0403_0201), &sent)).unwrap();
    assert_eq!(read.key, Some(0x0403_0201));
    assert_eq!(read.addresses, sent);
    let read = decode_servers(&list(None, &sent)).unwrap();
    assert_eq!(read.key, None);
    assert_eq!(read.addresses, sent);
    // The first address looks like a key.
    let sent = [addr(0x7f00_0000_0008 << 80, 1)];
    let read = decode_servers(&list(None, &sent)).unwrap();
    assert_eq!(read.key, Some(0));
    assert_ne!(read.addresses, sent);
}

#[test]
fn wait_for_masters_runs_out() {
    let c = cli();
    let scan = Scan::new(&c, vec![]);
    let servers = scan.servers(5 * SECOND);
    assert_eq!(servers.wait(5 * SECOND), Some(2 * SECOND));
    assert_eq!(servers.wait(6 * SECOND + 1), Some(SECOND - 1));
    assert_eq!(servers.wait(7 * SECOND), Some(0));
    assert_eq!(servers.wait(7 * SECOND + 1), None);
    assert_eq!(servers.wait(0), Some(2 * SECOND));
}

#[test]
fn ping_is_told_in_microseconds() {
    let query = ServerQuery::new(1_000, 1);
    assert_eq!(query.protocol, 1);
    assert_eq!(query.ping(1_000), 0);
    assert_eq!(query.ping(3_999), 2);
    assert_eq!(query.ping(0), 0);
}

#[test]
fn named_servers_are_asked_once() {
    let c = cli();
    let scan = Scan::new(&c, vec![]);
    let (a, b) = (addr(2, 1), addr(1, 1));
    let (mut inquiry, step) = scan.server_info(&[a, b, a], 0).unwrap();
    assert_eq!(step, ask(&[a, b], "49"));
    inquiry.sent(a, Ok(()), SECOND, NOW);
    inquiry.sent(b, Err("no route".to_owned()), SECOND, NOW);
    // The first reply counts, later ones do not.
    let now = SECOND + 1_500_000;
    assert_eq!(inquiry.receive(a, "a", INFO, now, NOW), Step::Wait);
    assert_eq!(inquiry.receive(a, "a", WRONG, now, NOW), Step::Wait);
    assert_eq!(inquiry.receive(b, "b", INFO, now, NOW), Step::Wait);
    let results = inquiry.finish(NOW);
    assert_eq!(results.len(), 2);
    assert_eq!(
        results[0],
        ServerResult {
            time: NOW,
            address: b,
            ping: None,
            kind: ServerResultKind::Error {
                message: "no route".to_owned()
            },
        }
    );
    assert_eq!(results[1].address, a);
    assert_eq!(results[1].ping, Some(1500));
    match &results[1].kind {
        ServerResultKind::Info { info } => {
            assert_eq!(info.gamedir, "valve");
            assert_eq!(info.map, "crossfire");
            assert_eq!(info.host, "^1Test");
            assert_eq!((info.protocol, info.numcl, info.maxcl), (49, 4, 32));
            assert_eq!((info.dm, info.team, info.coop), (true, false, false));
            assert_eq!((info.password, info.dedicated), (false, true));
        }
        other => panic!("{:?}", other),
    }
}

#[test]
fn versions_are_tried_in_order() {
    let c = cli();
    let scan = Scan::new(&c, vec![]);
    let a = addr(1, 1);
    let (mut inquiry, step) = scan.server_info(&[a], 0).unwrap();
    assert_eq!(step, ask(&[a], "49"));
    inquiry.sent(a, Ok(()), 0, NOW);
    assert_eq!(inquiry.receive(a, "a", WRONG, 1, NOW), ask(&[a], "48"));
    // Until the request is out, nothing is awaited of the server.
    assert_eq!(inquiry.receive(a, "a", INFO, 1, NOW), Step::Wait);
    inquiry.sent(a, Ok(()), 10_000, NOW);
    assert_eq!(inquiry.receive(a, "a", WRONG, 12_000, NOW), Step::Wait);
    assert_eq!(
        kinds(&inquiry.finish(NOW)),
        vec![(a, Some(2), ServerResultKind::Protocol)]
    );
}

#[test]
fn another_version_can_be_accepted_or_fail_to_be_sent() {
    let c = cli();
    let scan = Scan::new(&c, vec![]);
    let (a, b) = (addr(1, 1), addr(2, 1));
    let (mut inquiry, _) = scan.server_info(&[a, b], 0).unwrap();
    inquiry.sent(a, Ok(()), 0, NOW);
    inquiry.sent(b, Ok(()), 0, NOW);
    inquiry.receive(a, "a", WRONG, 1, NOW);
    inquiry.sent(a, Ok(()), 0, NOW);
    inquiry.receive(b, "b", WRONG, 1, NOW);
    inquiry.sent(b, Err("gone".to_owned()), 0, NOW);
    inquiry.receive(a, "a", INFO, 1, NOW);
    let results = inquiry.finish(NOW);
    assert!(matches!(results[0].kind, ServerResultKind::Info { .. }));
    assert_eq!(
        results[1].kind,
        ServerResultKind::Error {
            message: "gone".to_owned()
        }
    );
}

#[test]
fn unreadable_replies_are_kept() {
    let c = cli();
    let scan = Scan::new(&c, vec![]);
    let (a, b, d) = (addr(1, 1), addr(2, 1), addr(3, 1));
    let (mut inquiry, _) = scan.server_info(&[a, b, d], 0).unwrap();
    for s in [a, b, d] {
        inquiry.sent(s, Ok(()), 0, NOW);
    }
    inquiry.receive(a, "a", b"\xff\tx", 0, NOW);
    inquiry.receive(b, "b", b"\xff\xff\xff\xffinfo\n\\p\\x", 0, NOW);
    inquiry.receive(d, "d", b"\xff\xff\xff\xffinfo\nhello", 0, NOW);
    let invalid = |message: &str, response: &str| ServerResultKind::Invalid {
        message: message.to_owned(),
        response: response.to_owned(),
    };
    assert_eq!(
        kinds(&inquiry.finish(NOW)),
        vec![
            (
                a,
                Some(0),
                invalid("Expected data not found", "\\xff\\tx")
            ),
            (
                b,
                Some(0),
                invalid("Invalid number", "\\xff\\xff\\xff\\xffinfo\\n\\\\p\\\\x")
            ),
            (
                d,
                Some(0),
                invalid("Invalid packet", "\\xff\\xff\\xff\\xffinfo\\nhello")
            ),
        ]
    );
}

#[test]
fn a_reply_that_was_read_elsewhere_is_taken_in() {
    let c = cli();
    let scan = Scan::new(&c, vec![]);
    let a = addr(1, 1);
    let (mut inquiry, _) = scan.server_info(&[a], 0).unwrap();
    inquiry.sent(a, Ok(()), 0, NOW);
    let refused = Err(ProtocolError::InvalidProtocolVersion);
    assert_eq!(inquiry.reply(a, refused, b"", 0, NOW), ask(&[a], "48"));
    inquiry.sent(a, Ok(()), 0, NOW);
    let unread = Err(ProtocolError::Other("odd".to_owned()));
    assert_eq!(inquiry.reply(a, unread, b"\n", 0, NOW), Step::Wait);
    assert_eq!(
        inquiry.finish(NOW)[0].kind,
        ServerResultKind::Invalid {
            message: "odd".to_owned(),
            response: "\\n".to_owned()
        }
    );
}

#[test]
fn masters_bring_servers_up() {
    let mut c = cli();
    c.key = Some(1);
    let m = addr(100, 27010);
    let scan = Scan::new(&c, vec![m]);
    let (mut inquiry, step) = scan.server_info(&[], 0).unwrap();
    assert_eq!(
        step,
        Step::QueryServers {
            packet: b"1\xff[::]:0\x00\\nat\\0\x00".to_vec()
        }
    );
    let (a, b, d) = (addr(3, 1), addr(2, 1), addr(1, 1));
    assert_eq!(
        inquiry.receive(m, "m", &list(Some(1), &[a, b, a]), 0, NOW),
        ask(&[a, b], "49")
    );
    inquiry.sent(a, Ok(()), 0, NOW);
    inquiry.sent(b, Ok(()), 0, NOW);
    assert_eq!(
        inquiry.receive(m, "m", &list(None, &[d]), 0, NOW),
        Step::Complain {
            message: "error: invalid key from master(m)".to_owned()
        }
    );
    assert_eq!(
        inquiry.receive(m, "m", &list(Some(1), &[b, d]), 0, NOW),
        ask(&[d], "49")
    );
    inquiry.sent(d, Ok(()), 0, NOW);
    assert_eq!(
        inquiry.receive(m, "m", &list(Some(1), &[a, b, d]), 0, NOW),
        Step::Wait
    );
    // A stranger's list is nothing to go by.
    assert_eq!(
        inquiry.receive(addr(9, 9), "x", &list(Some(1), &[addr(8, 8)]), 0, NOW),
        Step::Wait
    );
    inquiry.receive(b, "b", INFO, 0, NOW);
    let results = inquiry.finish(NOW);
    let addresses: Vec<SocketAddrV6> = results.iter().map(|r| r.address).collect();
    assert_eq!(addresses, vec![d, b, a]);
    assert_eq!(results[0].kind, ServerResultKind::Timeout);
    assert!(matches!(results[1].kind, ServerResultKind::Info { .. }));
    assert_eq!(results[2].kind, ServerResultKind::Timeout);
}

#[test]
fn a_master_can_be_a_server_too() {
    let c = cli();
    let m = addr(100, 27010);
    let scan = Scan::new(&c, vec![m]);
    let (mut inquiry, _) = scan.server_info(&[m], 0).unwrap();
    inquiry.sent(m, Ok(()), 0, NOW);
    inquiry.receive(m, "m", INFO, 0, NOW);
    let results = inquiry.finish(NOW);
    assert!(matches!(results[0].kind, ServerResultKind::Info { .. }));
}

#[test]
fn first_requests_prolong_the_wait() {
    let c = cli();
    let scan = Scan::new(&c, vec![]);
    let (a, b) = (addr(1, 1), addr(2, 1));
    let s = SECOND as u128;
    let (mut inquiry, _) = scan.server_info(&[a, b], 0).unwrap();
    assert_eq!(inquiry.wait(0), Some(3 * s));
    assert_eq!(inquiry.wait(3 * SECOND), Some(0));
    assert_eq!(inquiry.wait(3 * SECOND + 1), None);
    inquiry.sent(a, Ok(()), SECOND, NOW);
    assert_eq!(inquiry.wait(0), Some(4 * s));
    inquiry.sent(b, Err("x".to_owned()), 2 * SECOND, NOW);
    assert_eq!(inquiry.wait(0), Some(4 * s));
    // Another version does not.
    inquiry.receive(a, "a", WRONG, 2 * SECOND, NOW);
    inquiry.sent(a, Ok(()), 2 * SECOND, NOW);
    assert_eq!(inquiry.wait(0), Some(4 * s));
}

#[test]
fn masters_are_waited_for_when_they_have_longer() {
    let mut c = cli();
    c.master_timeout = 10;
    let scan = Scan::new(&c, vec![]);
    let (inquiry, _) = scan.server_info(&[], SECOND).unwrap();
    assert_eq!(inquiry.wait(SECOND), Some(10 * SECOND as u128));
}

#[test]
fn pings_tell_replies() {
    let c = cli();
    let scan = Scan::new(&c, vec![]);
    let list = [addr(1, 1), addr(2, 1), addr(3, 1), addr(4, 1)];
    let (mut inquiry, _) = scan.server_info(&list, 0).unwrap();
    for a in &list[..3] {
        inquiry.sent(*a, Ok(()), 0, NOW);
    }
    inquiry.sent(list[3], Err("x".to_owned()), 0, NOW);
    inquiry.receive(list[0], "a", INFO, 5_000, NOW);
    inquiry.receive(list[1], "b", b"?", 6_000, NOW);
    let results = inquiry.finish(NOW);
    let pings: Vec<Option<u64>> = results.iter().map(|r| r.ping).collect();
    assert_eq!(pings, vec![Some(5), Some(6), None, None]);
    assert_eq!(results[2].kind, ServerResultKind::Timeout);
    assert!(matches!(results[3].kind, ServerResultKind::Error { .. }));
}

#[test]
fn datagrams_that_bring_servers_up() {
    let c = cli();
    let m = addr(100, 27010);
    let scan = Scan::new(&c, vec![m]);
    let (mut inquiry, _) = scan.server_info(&[], 0).unwrap();
    let (a, b) = (addr(1, 1), addr(2, 1));
    assert!(inquiry.brings_up(&m, &list(None, &[a])));
    assert!(!inquiry.brings_up(&a, &list(None, &[a])));
    assert!(!inquiry.brings_up(&m, &list(Some(1), &[a])));
    assert!(!inquiry.brings_up(&m, &list(None, &[])));
    assert!(!inquiry.brings_up(&m, INFO));
    inquiry.receive(m, "m", &list(None, &[a]), 0, NOW);
    assert!(!inquiry.brings_up(&m, &list(None, &[a, a])));
    assert!(inquiry.brings_up(&m, &list(None, &[a, b])));
}

#[test]
fn some_failures_end_a_scan() {
    assert_eq!(consequence(ReceiveFailure::WouldBlock), Consequence::End);
    assert_eq!(consequence(ReceiveFailure::AddrInUse), Consequence::End);
    assert_eq!(consequence(ReceiveFailure::Other), Consequence::Fail);
}
