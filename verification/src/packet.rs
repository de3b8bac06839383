//! Packets to and from master and game servers.

use crate::address::SocketAddrV6;
use crate::text::{decimal, digit};
use vstd::prelude::*;
use vstd::utf8::encode_utf8;

verus! {

/// The size of the buffer that a packet is written to.
pub const PACKET_SIZE: usize = 512;

/// Why a packet could not be written or read. `T` is `String` in memory and
/// `Seq<char>` in contracts, here and in the types below.
#[derive(Debug, PartialEq, Eq)]
pub enum ProtocolError<T = String> {
    /// A game server does not speak the protocol version that it was asked in.
    InvalidProtocolVersion,
    /// Anything else, in words.
    Other(T),
}

impl<T: View> View for ProtocolError<T> {
    type V = ProtocolError<T::V>;

    open spec fn view(&self) -> ProtocolError<T::V> {
        match self {
            ProtocolError::InvalidProtocolVersion => ProtocolError::InvalidProtocolVersion,
            ProtocolError::Other(message) => ProtocolError::Other(message@),
        }
    }
}

impl ProtocolError<Seq<char>> {
    /// The error in words.
    pub open spec fn message(self) -> Seq<char> {
        match self {
            ProtocolError::InvalidProtocolVersion => "Invalid protocol version"@,
            ProtocolError::Other(message) => message,
        }
    }
}

impl ProtocolError {
    /// The error in words.
    pub fn to_string(&self) -> (r: String)
        ensures
            r@ == self@.message(),
    {
        match self {
            ProtocolError::InvalidProtocolVersion => "Invalid protocol version".to_owned(),
            ProtocolError::Other(message) => message.clone(),
        }
    }
}

/// What a game server tells of itself.
#[derive(Debug, PartialEq, Eq)]
pub struct GetServerInfoResponse<T = String> {
    pub gamedir: T,
    pub map: T,
    pub host: T,
    pub protocol: u8,
    pub numcl: u8,
    pub maxcl: u8,
    pub dm: bool,
    pub team: bool,
    pub coop: bool,
    pub password: bool,
    pub dedicated: bool,
}

impl<T: View> View for GetServerInfoResponse<T> {
    type V = GetServerInfoResponse<T::V>;

    open spec fn view(&self) -> GetServerInfoResponse<T::V> {
        GetServerInfoResponse {
            gamedir: self.gamedir@,
            map: self.map@,
            host: self.host@,
            protocol: self.protocol,
            numcl: self.numcl,
            maxcl: self.maxcl,
            dm: self.dm,
            team: self.team,
            coop: self.coop,
            password: self.password,
            dedicated: self.dedicated,
        }
    }
}

/// The view of what reading a packet gave.
pub open spec fn result_view<A: View, B: View>(r: Result<A, B>) -> Result<A::V, B::V> {
    match r {
        Ok(a) => Ok(a@),
        Err(b) => Err(b@),
    }
}

// ---------------------------------------------------------------------------
// Requests.
// ---------------------------------------------------------------------------
/// `\xff\xff\xff\xffinfo ` and the protocol version in decimal notation.
pub open spec fn get_server_info_packet(protocol: u8) -> Seq<u8> {
    let version = decimal(protocol as nat);
    seq![0xffu8, 0xff, 0xff, 0xff, 0x69, 0x6e, 0x66, 0x6f, 0x20] + Seq::new(
        version.len(),
        |i: int| version[i] as u8,
    )
}

/// `1`, the region, the last address and the filter, the latter two each with
/// a zero behind it.
pub open spec fn query_servers_packet(region: u8, last: Seq<char>, filter: Seq<char>) -> Seq<u8> {
    seq![0x31u8, region] + encode_utf8(last) + seq![0u8] + encode_utf8(filter) + seq![0u8]
}

/// The numbers that stand for a region of the world.
pub open spec fn is_region(region: u8) -> bool {
    region <= 7 || region == 0xff
}

/// What writing `packet` to `buf` comes to: the packet stands at the front, or
/// the buffer is too small for it.
pub open spec fn written(
    packet: Seq<u8>,
    before: Seq<u8>,
    after: Seq<u8>,
    r: Result<usize, ProtocolError>,
) -> bool {
    &&& after.len() == before.len()
    &&& match r {
        Ok(n) => n == packet.len() && n <= after.len() && after.take(n as int) == packet,
        Err(e) => packet.len() > before.len() && e@ == ProtocolError::Other(
            "Unexpected end of buffer"@,
        ),
    }
}

/// `xash3d_protocol::game::GetServerInfo::encode`: writes the request for a
/// game server's information to the front of the buffer and returns its
/// length, or fails if the buffer is too small.
#[verifier::external_body]
fn encode_get_server_info(protocol: u8, buf: &mut Vec<u8>) -> (r: Result<usize, ProtocolError>)
    ensures
        written(get_server_info_packet(protocol), old(buf)@, final(buf)@, r),
{
    xash3d_protocol::game::GetServerInfo::new(protocol)
        .encode(buf)
        .map_err(|e| ProtocolError::Other(e.to_string()))
}

/// `xash3d_protocol::game::QueryServers::encode`: writes the request for a
/// master's list of servers to the front of the buffer and returns its length,
/// or fails if `region` is no region's number or the buffer is too small. What
/// an address looks like in words is claimed of the unspecified one alone.
#[verifier::external_body]
fn encode_query_servers(region: u8, ip: u128, port: u16, filter: &str, buf: &mut Vec<u8>) -> (r:
    Result<usize, ProtocolError>)
    requires
        ip == 0,
        port == 0,
    ensures
        is_region(region) ==> written(
            query_servers_packet(region, "[::]:0"@, filter@),
            old(buf)@,
            final(buf)@,
            r,
        ),
        !is_region(region) ==> r is Err && r->Err_0@ == ProtocolError::Other("Invalid number"@)
            && final(buf)@ == old(buf)@,
{
    let region = xash3d_protocol::server::Region::try_from(region)
        .map_err(|e| ProtocolError::Other(e.to_string()))?;
    let last = (ip.to_be_bytes(), port).into();
    xash3d_protocol::game::QueryServers { region, last, filter }
        .encode(buf)
        .map_err(|e| ProtocolError::Other(e.to_string()))
}

/// A request for a game server's information, in protocol version `protocol`.
pub fn get_server_info(protocol: u8) -> (r: Result<Vec<u8>, ProtocolError>)
    ensures
        r is Ok,
        r->Ok_0@ == get_server_info_packet(protocol),
{
    let mut buf: Vec<u8> = vec![0; PACKET_SIZE];
    proof {
        reveal_with_fuel(decimal, 3);
    }
    let n = encode_get_server_info(protocol, &mut buf)?;
    buf.truncate(n);
    Ok(buf)
}

/// A request for the servers of the whole world that match `filter`.
pub fn query_servers(filter: &str) -> (r: Result<Vec<u8>, ProtocolError>)
    ensures
        ({
            let packet = query_servers_packet(0xff, "[::]:0"@, filter@);
            match r {
                Ok(bytes) => packet.len() <= PACKET_SIZE && bytes@ == packet,
                Err(e) => packet.len() > PACKET_SIZE && e@ == ProtocolError::Other(
                    "Unexpected end of buffer"@,
                ),
            }
        }),
{
    let mut buf: Vec<u8> = vec![0; PACKET_SIZE];
    let n = encode_query_servers(0xff, 0, 0, filter, &mut buf)?;
    buf.truncate(n);
    Ok(buf)
}

// ---------------------------------------------------------------------------
// Replies of master servers.
// ---------------------------------------------------------------------------
/// The octets of one address: sixteen of the IP and two of the port.
pub const RECORD_SIZE: usize = 18;

/// Whether `bytes` begin with `head`.
pub open spec fn starts_with(bytes: Seq<u8>, head: Seq<u8>) -> bool {
    head.len() <= bytes.len() && bytes.take(head.len() as int) == head
}

/// `\xff\xff\xff\xfff\n`, with which a list of servers begins.
pub open spec fn servers_header() -> Seq<u8> {
    seq![0xffu8, 0xff, 0xff, 0xff, 0x66, 0x0a]
}

/// Whether a datagram is a list of servers.
pub open spec fn is_servers_reply(raw: Seq<u8>) -> bool {
    starts_with(raw, servers_header())
}

/// Whether a key stands before the addresses of a list.
pub open spec fn has_key(body: Seq<u8>) -> bool {
    body.len() >= 6 && body[0] == 0x7f && body[5] == 8
}

/// The key that a list of servers carries, little end first.
pub open spec fn reply_key(raw: Seq<u8>) -> Option<u32> {
    let body = raw.skip(6);
    if has_key(body) {
        Some(
            (body[1] + body[2] * 0x100 + body[3] * 0x1_0000 + body[4] * 0x100_0000) as u32,
        )
    } else {
        None
    }
}

/// The number whose octets, big end first, are `bytes`.
pub open spec fn big_endian(bytes: Seq<u8>) -> nat
    decreases bytes.len(),
{
    if bytes.len() == 0 {
        0
    } else {
        big_endian(bytes.drop_last()) * 256 + bytes.last() as nat
    }
}

/// The address that a record holds.
pub open spec fn record_address(record: Seq<u8>) -> SocketAddrV6 {
    SocketAddrV6::plain(
        big_endian(record.subrange(0, 16)) as u128,
        big_endian(record.subrange(16, 18)) as u16,
    )
}

/// The addresses in a row of records. A last record with port 0 ends the row
/// and is no address, and so does one that is cut short.
pub open spec fn addresses(records: Seq<u8>) -> Seq<SocketAddrV6>
    decreases records.len(),
{
    if records.len() < 18 || records.len() == 18 && records[16] == 0 && records[17] == 0 {
        seq![]
    } else {
        seq![record_address(records)] + addresses(records.skip(18))
    }
}

/// The addresses that a list of servers carries.
pub open spec fn reply_addresses(raw: Seq<u8>) -> Seq<SocketAddrV6> {
    let body = raw.skip(6);
    if has_key(body) {
        addresses(body.skip(6))
    } else {
        addresses(body)
    }
}

/// `xash3d_protocol::master::QueryServersResponse::decode`: takes a datagram
/// that begins with the header of a list of servers, and finds the key in it.
#[verifier::external_body]
fn decode_query_servers_response(raw: &[u8]) -> (r: Result<Option<u32>, ProtocolError>)
    ensures
        match r {
            Ok(key) => is_servers_reply(raw@) && key == reply_key(raw@),
            Err(e) => !is_servers_reply(raw@) && e@ == ProtocolError::Other(
                "Expected data not found"@,
            ),
        },
{
    match xash3d_protocol::master::QueryServersResponse::decode(raw) {
        Ok(packet) => Ok(packet.key),
        Err(e) => Err(ProtocolError::Other(e.to_string())),
    }
}

/// What `n` octets can count up to.
pub open spec fn limit(n: nat) -> nat
    decreases n,
{
    if n == 0 {
        1
    } else {
        limit((n - 1) as nat) * 256
    }
}

proof fn lemma_limit_grows(a: nat, b: nat)
    requires
        a <= b,
    ensures
        limit(a) <= limit(b),
    decreases b,
{
    if a < b {
        lemma_limit_grows(a, (b - 1) as nat);
    }
}

proof fn lemma_big_endian_bound(bytes: Seq<u8>)
    ensures
        big_endian(bytes) < limit(bytes.len()),
    decreases bytes.len(),
{
    if bytes.len() > 0 {
        lemma_big_endian_bound(bytes.drop_last());
    }
}

proof fn lemma_limit_u128()
    ensures
        limit(16) == 0x1_0000_0000_0000_0000_0000_0000_0000_0000,
        limit(2) == 0x1_0000,
{
    reveal_with_fuel(limit, 17);
}

/// Reads `count` octets from `from` on as one number.
fn read_number(raw: &[u8], from: usize, count: usize) -> (r: u128)
    requires
        from + count <= raw.len(),
        count <= 16,
    ensures
        r == big_endian(raw@.subrange(from as int, from + count)),
{
    let mut value: u128 = 0;
    let mut i: usize = 0;
    proof {
        lemma_limit_u128();
    }
    while i < count
        invariant
            i <= count <= 16,
            from + count <= raw.len(),
            value == big_endian(raw@.subrange(from as int, from + i)),
            limit(16) == 0x1_0000_0000_0000_0000_0000_0000_0000_0000,
        decreases count - i,
    {
        let ghost next = raw@.subrange(from as int, from + i + 1);
        proof {
            assert(next.drop_last() =~= raw@.subrange(from as int, from + i));
            lemma_big_endian_bound(next);
            lemma_limit_grows((i + 1) as nat, 16);
        }
        value = value * 256 + raw[from + i] as u128;
        i = i + 1;
    }
    value
}

/// Reads the addresses in the records from `from` on.
fn read_addresses(raw: &[u8], from: usize) -> (r: Vec<SocketAddrV6>)
    requires
        from <= raw@.len(),
    ensures
        r@ == addresses(raw@.skip(from as int)),
{
    let mut out: Vec<SocketAddrV6> = Vec::new();
    let mut at: usize = from;
    while raw.len() - at >= RECORD_SIZE
        invariant_except_break
            out@ + addresses(raw@.skip(at as int)) == addresses(raw@.skip(from as int)),
        invariant
            from <= at <= raw@.len(),
        ensures
            out@ == addresses(raw@.skip(from as int)),
        decreases raw@.len() - at,
    {
        let ghost rest = raw@.skip(at as int);
        if raw.len() - at == RECORD_SIZE && raw[at + 16] == 0 && raw[at + 17] == 0 {
            assert(out@ + addresses(rest) =~= out@);
            break;
        }
        let ip = read_number(raw, at, 16);
        let port = read_number(raw, at + 16, 2);
        proof {
            assert(rest.subrange(0, 16) =~= raw@.subrange(at as int, at + 16));
            assert(rest.subrange(16, 18) =~= raw@.subrange(at + 16, at + 18));
            lemma_big_endian_bound(rest.subrange(16, 18));
            lemma_limit_u128();
            assert(rest.skip(18) =~= raw@.skip(at + 18));
        }
        let ghost before = out@;
        out.push(SocketAddrV6 { ip, port: port as u16, flowinfo: 0, scope_id: 0 });
        at = at + RECORD_SIZE;
        assert(out@ + addresses(raw@.skip(at as int)) =~= before + addresses(rest));
    }
    out
}

/// A master's list of servers.
#[derive(Debug, PartialEq, Eq)]
pub struct QueryServersResponse {
    pub key: Option<u32>,
    pub addresses: Vec<SocketAddrV6>,
}

/// Reads a list of servers.
pub fn decode_servers(raw: &[u8]) -> (r: Result<QueryServersResponse, ProtocolError>)
    ensures
        match r {
            Ok(reply) => {
                &&& is_servers_reply(raw@)
                &&& reply.key == reply_key(raw@)
                &&& reply.addresses@ == reply_addresses(raw@)
            },
            Err(e) => !is_servers_reply(raw@) && e@ == ProtocolError::Other(
                "Expected data not found"@,
            ),
        },
{
    let key = decode_query_servers_response(raw)?;
    let from: usize = if key.is_some() {
        12
    } else {
        6
    };
    assert(key is Some ==> raw@.skip(6).skip(6) =~= raw@.skip(12));
    Ok(QueryServersResponse { key, addresses: read_addresses(raw, from) })
}

// ---------------------------------------------------------------------------
// Replies of game servers.
// ---------------------------------------------------------------------------
/// `\xff\xff\xff\xffinfo\n`, with which a game server's reply begins.
pub open spec fn info_header() -> Seq<u8> {
    seq![0xffu8, 0xff, 0xff, 0xff, 0x69, 0x6e, 0x66, 0x6f, 0x0a]
}

/// `: wrong version\n`, with which a game server turns a protocol down.
pub open spec fn wrong_version_tail() -> Seq<u8> {
    seq![
        0x3au8, 0x20, 0x77, 0x72, 0x6f, 0x6e, 0x67, 0x20,
        0x76, 0x65, 0x72, 0x73, 0x69, 0x6f, 0x6e, 0x0a,
    ]
}

/// Whether a game server's reply is a table of keys and values, each of them
/// behind a backslash.
pub open spec fn is_info_table(raw: Seq<u8>) -> bool {
    starts_with(raw, info_header()) && raw.len() > 9 && raw[9] == 0x5c
}

/// Whether a game server turns the protocol version down: in place of a table
/// it sends a text that ends in the words for that.
pub open spec fn is_wrong_version(raw: Seq<u8>) -> bool {
    let tail = wrong_version_tail();
    &&& starts_with(raw, info_header())
    &&& !is_info_table(raw)
    &&& raw.len() >= 9 + tail.len()
    &&& raw.skip(raw.len() - tail.len()) == tail
}

/// What `xash3d_protocol::server::GetServerInfoResponse::decode` makes of a
/// datagram.
pub uninterp spec fn server_info_decoded(raw: Seq<u8>) -> Result<
    GetServerInfoResponse<Seq<char>>,
    ProtocolError<Seq<char>>,
>;

/// `xash3d_protocol::server::GetServerInfoResponse::decode`: reads a game
/// server's reply. Claimed besides the name for its result: only a table is
/// read as information, the protocol version is told apart as invalid just
/// where the server turns it down, and a datagram without the header is
/// refused for that.
#[verifier::external_body]
pub(crate) fn decode_server_info(raw: &[u8]) -> (r: Result<GetServerInfoResponse, ProtocolError>)
    ensures
        result_view(r) == server_info_decoded(raw@),
        r is Ok ==> is_info_table(raw@),
        r is Err && r->Err_0@ == ProtocolError::<Seq<char>>::InvalidProtocolVersion
            <==> is_wrong_version(raw@),
        !starts_with(raw@, info_header()) ==> r is Err && r->Err_0@ == ProtocolError::Other(
            "Expected data not found"@,
        ),
{
    match xash3d_protocol::server::GetServerInfoResponse::<&str>::decode(raw) {
        Ok(p) => Ok(GetServerInfoResponse {
            gamedir: p.gamedir.to_owned(), map: p.map.to_owned(), host: p.host.to_owned(),
            protocol: p.protocol, numcl: p.numcl, maxcl: p.maxcl,
            dm: p.dm, team: p.team, coop: p.coop,
            password: p.password, dedicated: p.dedicated,
        }),
        Err(xash3d_protocol::Error::InvalidProtocolVersion) => Err(
            ProtocolError::InvalidProtocolVersion,
        ),
        Err(e) => Err(ProtocolError::Other(e.to_string())),
    }
}

// ---------------------------------------------------------------------------
// Raw bytes in words.
// ---------------------------------------------------------------------------
/// The character of a hexadecimal digit.
pub open spec fn hex_digit(n: nat) -> char {
    if n < 10 {
        digit(n)
    } else {
        (n + 87) as u8 as char
    }
}

/// One byte in words: itself where it can be printed, else an escape.
pub open spec fn escaped_byte(b: u8) -> Seq<char> {
    if b == 0x0a {
        seq!['\\', 'n']
    } else if b == 0x09 {
        seq!['\\', 't']
    } else if b == 0x5c {
        seq!['\\', '\\']
    } else if 0x20 <= b <= 0x7e {
        seq![b as char]
    } else {
        seq!['\\', 'x', hex_digit(b as nat / 16), hex_digit(b as nat % 16)]
    }
}

/// Raw bytes in words.
pub open spec fn escaped(raw: Seq<u8>) -> Seq<char>
    decreases raw.len(),
{
    if raw.len() == 0 {
        seq![]
    } else {
        escaped(raw.drop_last()) + escaped_byte(raw.last())
    }
}

/// `xash3d_protocol::wrappers::Str`, displayed: prints bytes as text, with an
/// escape for each that cannot stand for itself.
#[verifier::external_body]
pub(crate) fn escape(raw: &[u8]) -> (r: String)
    ensures
        r@ == escaped(raw@),
{
    xash3d_protocol::wrappers::Str(raw).to_string()
}

} // verus!
