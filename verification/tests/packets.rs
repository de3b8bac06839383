use xash3d_query::address::SocketAddrV6;
use xash3d_query::packet::{decode_servers, get_server_info, query_servers, ProtocolError};

fn addr(ip: u128, port: u16) -> SocketAddrV6 {
    SocketAddrV6 {
        ip,
        port,
        flowinfo: 0,
        scope_id: 0,
    }
}

fn record(ip: u128, port: u16) -> Vec<u8> {
    let mut bytes = ip.to_be_bytes().to_vec();
    bytes.extend_from_slice(&port.to_be_bytes());
    bytes
}

const HEADER: &[u8] = b"\xff\xff\xff\xfff\n";

#[test]
fn info_request_holds_the_version_in_decimal() {
    assert_eq!(get_server_info(49).unwrap(), b"\xff\xff\xff\xffinfo 49");
    assert_eq!(get_server_info(0).unwrap(), b"\xff\xff\xff\xffinfo 0");
    assert_eq!(get_server_info(255).unwrap(), b"\xff\xff\xff\xffinfo 255");
}

#[test]
fn servers_request_holds_region_address_and_filter() {
    assert_eq!(
        query_servers("\\gamedir\\valve").unwrap(),
        b"1\xff[::]:0\x00\\gamedir\\valve\x00"
    );
    assert_eq!(query_servers("").unwrap(), b"1\xff[::]:0\x00\x00");
    assert_eq!(
        query_servers("\u{e9}").unwrap(),
        b"1\xff[::]:0\x00\xc3\xa9\x00"
    );
}

#[test]
fn servers_request_can_be_too_long() {
    let fits = "a".repeat(502);
    assert_eq!(query_servers(&fits).unwrap().len(), 512);
    let long = "a".repeat(503);
    let e = query_servers(&long).unwrap_err();
    assert_eq!(
        e,
        ProtocolError::Other("Unexpected end of buffer".to_owned())
    );
    assert_eq!(e.to_string(), "Unexpected end of buffer");
    assert_eq!(
        ProtocolError::<String>::InvalidProtocolVersion.to_string(),
        "Invalid protocol version"
    );
}

#[test]
fn list_without_key() {
    let mut raw = HEADER.to_vec();
    raw.extend(record(1, 27015));
    raw.extend(record(u128::MAX, 65535));
    raw.extend([0; 18]);
    let reply = decode_servers(&raw).unwrap();
    assert_eq!(reply.key, None);
    assert_eq!(
        reply.addresses,
        vec![addr(1, 27015), addr(u128::MAX, 65535)]
    );
}

#[test]
fn list_with_key() {
    let mut raw = HEADER.to_vec();
    raw.extend([0x7f, 0xef, 0xbe, 0xad, 0xde, 8]);
    raw.extend(record(0x2001_0db8 << 96, 80));
    raw.extend([0; 18]);
    let reply = decode_servers(&raw).unwrap();
    assert_eq!(reply.key, Some(0xdeadbeef));
    assert_eq!(reply.addresses, vec![addr(0x2001_0db8 << 96, 80)]);
}

#[test]
fn list_ends_at_a_last_record_without_port() {
    let mut raw = HEADER.to_vec();
    raw.extend(record(5, 0));
    raw.extend(record(6, 1));
    raw.extend(record(7, 0));
    assert_eq!(
        decode_servers(&raw).unwrap().addresses,
        vec![addr(5, 0), addr(6, 1)]
    );
}

#[test]
fn list_ends_at_a_record_that_is_cut_short() {
    let mut raw = HEADER.to_vec();
    raw.extend(record(5, 1));
    raw.extend([1; 17]);
    assert_eq!(decode_servers(&raw).unwrap().addresses, vec![addr(5, 1)]);
    assert_eq!(decode_servers(HEADER).unwrap().addresses, vec![]);
}

#[test]
fn other_datagrams_are_no_lists() {
    let e = ProtocolError::Other("Expected data not found".to_owned());
    assert_eq!(
        decode_servers(b"\xff\xff\xff\xffinfo\n\\p\\49").unwrap_err(),
        e
    );
    assert_eq!(decode_servers(b"").unwrap_err(), e);
}

#[test]
fn addresses_read_back() {
    let list = vec![addr(3, 4), addr(5, 0), addr(1 << 127, 9)];
    let mut raw = HEADER.to_vec();
    for a in &list {
        raw.extend(record(a.ip, a.port));
    }
    raw.extend([0; 18]);
    assert_eq!(decode_servers(&raw).unwrap().addresses, list);
}
