//! What is known of a game server.

use crate::address::SocketAddrV6;
use crate::cli::Cli;
use crate::color::{renders, Colored, Terminal};
use crate::packet::{escape, escaped, GetServerInfoResponse};
use crate::text::{decimal, pad_end, pad_start, plain_layout, push_decimal, push_pad_end,
    push_pad_start, Layout};
use vstd::prelude::*;
use vstd::string::*;
use vstd::utf8::{decode_utf8, valid_utf8};

verus! {

/// A reading of the system clock, told by how far it is from the Unix epoch.
#[derive(Clone, Copy, Debug, PartialEq, Eq, Structural)]
pub enum SystemTime {
    SinceEpoch { secs: u64, nanos: u32 },
    BeforeEpoch { secs: u64, nanos: u32 },
}

/// The whole seconds since the Unix epoch; 0 for any time before it.
pub fn unix_time(time: &SystemTime) -> (r: u64)
    ensures
        r == match *time {
            SystemTime::SinceEpoch { secs, .. } => secs,
            SystemTime::BeforeEpoch { .. } => 0,
        },
{
    match time {
        SystemTime::SinceEpoch { secs, .. } => *secs,
        SystemTime::BeforeEpoch { .. } => 0,
    }
}

/// What a game server tells of itself. `T` is `String` in memory and
/// `Seq<char>` in contracts, here and in the types below.
#[derive(Clone, Debug, PartialEq, Eq)]
pub struct ServerInfo<T = String> {
    pub gamedir: T,
    pub map: T,
    pub host: T,
    pub protocol: u8,
    pub numcl: u8,
    pub maxcl: u8,
    pub dm: bool,
    pub team: bool,
    pub coop: bool,
    pub password: bool,
    pub dedicated: bool,
}

/// What came of asking a game server.
#[derive(Clone, Debug, PartialEq, Eq)]
pub enum ServerResultKind<T = String> {
    /// It told of itself.
    Info { info: ServerInfo<T> },
    /// It could not be asked.
    Error { message: T },
    /// Its reply could not be read.
    Invalid { message: T, response: T },
    /// It did not reply in time.
    Timeout,
    /// It speaks none of the protocol versions.
    Protocol,
    /// It is no longer listed.
    Remove,
}

/// What came of asking a game server, and when.
#[derive(Clone, Debug, PartialEq, Eq)]
pub struct ServerResult<T = String> {
    pub time: SystemTime,
    pub address: SocketAddrV6,
    /// How long the reply took, in microseconds.
    pub ping: Option<u64>,
    pub kind: ServerResultKind<T>,
}

impl<T: View> View for ServerInfo<T> {
    type V = ServerInfo<T::V>;

    open spec fn view(&self) -> ServerInfo<T::V> {
        ServerInfo {
            gamedir: self.gamedir@,
            map: self.map@,
            host: self.host@,
            protocol: self.protocol,
            numcl: self.numcl,
            maxcl: self.maxcl,
            dm: self.dm,
            team: self.team,
            coop: self.coop,
            password: self.password,
            dedicated: self.dedicated,
        }
    }
}

impl<T: View> View for ServerResultKind<T> {
    type V = ServerResultKind<T::V>;

    open spec fn view(&self) -> ServerResultKind<T::V> {
        match self {
            ServerResultKind::Info { info } => ServerResultKind::Info { info: info@ },
            ServerResultKind::Error { message } => ServerResultKind::Error { message: message@ },
            ServerResultKind::Invalid { message, response } => ServerResultKind::Invalid {
                message: message@,
                response: response@,
            },
            ServerResultKind::Timeout => ServerResultKind::Timeout,
            ServerResultKind::Protocol => ServerResultKind::Protocol,
            ServerResultKind::Remove => ServerResultKind::Remove,
        }
    }
}

impl<T: View> View for ServerResult<T> {
    type V = ServerResult<T::V>;

    open spec fn view(&self) -> ServerResult<T::V> {
        ServerResult {
            time: self.time,
            address: self.address,
            ping: self.ping,
            kind: self.kind@,
        }
    }
}

impl ServerResult {
    pub fn new(
        time: SystemTime,
        address: SocketAddrV6,
        ping: Option<u64>,
        kind: ServerResultKind,
    ) -> (r: Self)
        ensures
            r == (ServerResult { time, address, ping, kind }),
    {
        ServerResult { time, address, ping, kind }
    }

    pub fn ok(time: SystemTime, address: SocketAddrV6, ping: u64, info: ServerInfo) -> (r: Self)
        ensures
            r == (ServerResult {
                time,
                address,
                ping: Some(ping),
                kind: ServerResultKind::Info { info },
            }),
    {
        Self::new(time, address, Some(ping), ServerResultKind::Info { info })
    }

    pub fn timeout(time: SystemTime, address: SocketAddrV6) -> (r: Self)
        ensures
            r == (ServerResult {
                time,
                address,
                ping: None,
                kind: ServerResultKind::<String>::Timeout,
            }),
    {
        Self::new(time, address, None, ServerResultKind::Timeout)
    }

    pub fn protocol(time: SystemTime, address: SocketAddrV6, ping: u64) -> (r: Self)
        ensures
            r == (ServerResult {
                time,
                address,
                ping: Some(ping),
                kind: ServerResultKind::<String>::Protocol,
            }),
    {
        Self::new(time, address, Some(ping), ServerResultKind::Protocol)
    }

    pub fn error(time: SystemTime, address: SocketAddrV6, message: String) -> (r: Self)
        ensures
            r == (ServerResult {
                time,
                address,
                ping: None,
                kind: ServerResultKind::Error { message },
            }),
    {
        Self::new(time, address, None, ServerResultKind::Error { message })
    }

    pub fn invalid(
        time: SystemTime,
        address: SocketAddrV6,
        ping: u64,
        message: String,
        response: &[u8],
    ) -> (r: Self)
        ensures
            r@ == (ServerResult {
                time,
                address,
                ping: Some(ping),
                kind: ServerResultKind::Invalid {
                    message: message@,
                    response: escaped(response@),
                },
            }),
    {
        Self::new(
            time,
            address,
            Some(ping),
            ServerResultKind::Invalid { message, response: escape(response) },
        )
    }
}

/// The information in a game server's reply.
pub open spec fn info_of<T>(response: GetServerInfoResponse<T>) -> ServerInfo<T> {
    ServerInfo {
        gamedir: response.gamedir,
        map: response.map,
        host: response.host,
        protocol: response.protocol,
        numcl: response.numcl,
        maxcl: response.maxcl,
        dm: response.dm,
        team: response.team,
        coop: response.coop,
        password: response.password,
        dedicated: response.dedicated,
    }
}

impl From<GetServerInfoResponse> for ServerInfo {
    fn from(other: GetServerInfoResponse) -> (r: ServerInfo)
        ensures
            r.gamedir == other.gamedir,
            r.map == other.map,
            r.host == other.host,
            r.protocol == other.protocol,
            r.numcl == other.numcl,
            r.maxcl == other.maxcl,
            r.dm == other.dm,
            r.team == other.team,
            r.coop == other.coop,
            r.password == other.password,
            r.dedicated == other.dedicated,
    {
        ServerInfo {
            gamedir: other.gamedir,
            map: other.map,
            host: other.host,
            protocol: other.protocol,
            numcl: other.numcl,
            maxcl: other.maxcl,
            dm: other.dm,
            team: other.team,
            coop: other.coop,
            password: other.password,
            dedicated: other.dedicated,
        }
    }
}

impl vstd::std_specs::convert::FromSpecImpl<GetServerInfoResponse> for ServerInfo {
    open spec fn obeys_from_spec() -> bool {
        true
    }

    open spec fn from_spec(other: GetServerInfoResponse) -> ServerInfo {
        info_of(other)
    }
}

/// What `std::string::String::from_utf8_lossy` makes of bytes.
pub uninterp spec fn utf8_lossy(bytes: Seq<u8>) -> Seq<char>;

/// `std::string::String::from_utf8_lossy`: reads bytes as text and puts
/// replacement characters for what is no UTF-8. Claimed besides the name for
/// its result: valid UTF-8 is read as it is.
#[verifier::external_body]
fn from_utf8_lossy(bytes: &[u8]) -> (r: String)
    ensures
        r@ == utf8_lossy(bytes@),
        valid_utf8(bytes@) ==> r@ == decode_utf8(bytes@),
{
    String::from_utf8_lossy(bytes).into_owned()
}

/// A reply whose texts are raw bytes, read leniently.
pub open spec fn lossy(response: GetServerInfoResponse<Seq<u8>>) -> GetServerInfoResponse<
    Seq<char>,
> {
    GetServerInfoResponse {
        gamedir: utf8_lossy(response.gamedir),
        map: utf8_lossy(response.map),
        host: utf8_lossy(response.host),
        protocol: response.protocol,
        numcl: response.numcl,
        maxcl: response.maxcl,
        dm: response.dm,
        team: response.team,
        coop: response.coop,
        password: response.password,
        dedicated: response.dedicated,
    }
}

impl From<&GetServerInfoResponse<Vec<u8>>> for ServerInfo {
    fn from(other: &GetServerInfoResponse<Vec<u8>>) -> (r: ServerInfo)
        ensures
            r@ == info_of(lossy(other@)),
            r.gamedir@ == utf8_lossy(other.gamedir@),
            r.map@ == utf8_lossy(other.map@),
            r.host@ == utf8_lossy(other.host@),
            r.protocol == other.protocol,
            r.numcl == other.numcl,
            r.maxcl == other.maxcl,
            r.dm == other.dm,
            r.team == other.team,
            r.coop == other.coop,
            r.password == other.password,
            r.dedicated == other.dedicated,
            valid_utf8(other.host@) ==> r.host@ == decode_utf8(other.host@),
            valid_utf8(other.gamedir@) ==> r.gamedir@ == decode_utf8(other.gamedir@),
            valid_utf8(other.map@) ==> r.map@ == decode_utf8(other.map@),
    {
        ServerInfo {
            gamedir: from_utf8_lossy(other.gamedir.as_slice()),
            map: from_utf8_lossy(other.map.as_slice()),
            host: from_utf8_lossy(other.host.as_slice()),
            protocol: other.protocol,
            numcl: other.numcl,
            maxcl: other.maxcl,
            dm: other.dm,
            team: other.team,
            coop: other.coop,
            password: other.password,
            dedicated: other.dedicated,
        }
    }
}

impl vstd::std_specs::convert::FromSpecImpl<&GetServerInfoResponse<Vec<u8>>> for ServerInfo {
    /// Texts that are read anew have no other name than what they hold; the
    /// contract of `from` speaks of that.
    open spec fn obeys_from_spec() -> bool {
        false
    }

    open spec fn from_spec(other: &GetServerInfoResponse<Vec<u8>>) -> ServerInfo {
        arbitrary()
    }
}

/// Shows what a game server told of itself on one line.
pub struct ServerInfoPrinter<'a> {
    pub cli: &'a Cli,
    pub info: &'a ServerInfo,
}

/// The letter of a property that a server has, a dash where it has not.
pub open spec fn flag(c: char, cond: bool) -> char {
    if cond {
        c
    } else {
        '-'
    }
}

/// The line for a server whose name is shown as `host`: five properties, the
/// players of the seats, the game, the map and the name.
pub open spec fn info_line(info: ServerInfo<Seq<char>>, host: Seq<char>) -> Seq<char> {
    seq![
        flag('d', info.dm),
        flag('t', info.team),
        flag('c', info.coop),
        flag('p', info.password),
        flag('D', info.dedicated),
        ' ',
    ] + pad_start(decimal(info.numcl as nat), 2, ' ') + seq!['/'] + pad_end(
        decimal(info.maxcl as nat),
        2,
        ' ',
    ) + seq![' '] + pad_end(info.gamedir, 8, ' ') + seq![' '] + pad_end(info.map, 18, ' ') + seq![
        ' ',
        '"',
    ] + host + seq!['"']
}

/// Whether `shown` is how `host` can come out where no layout is asked for.
pub open spec fn shown_as(host: Seq<char>, forced: bool, out: Terminal, shown: Seq<char>) -> bool {
    renders(host, forced, out, plain_layout(), shown)
}

fn flag_char(c: char, cond: bool) -> (r: char)
    ensures
        r == flag(c, cond),
{
    if cond {
        c
    } else {
        '-'
    }
}

impl ServerInfo {
    pub fn printer<'a>(&'a self, cli: &'a Cli) -> (r: ServerInfoPrinter<'a>)
        ensures
            r.info == self,
            r.cli == cli,
    {
        ServerInfoPrinter { info: self, cli }
    }
}

impl<'a> ServerInfoPrinter<'a> {
    /// The line, with the server's name shown as `host`.
    #[verifier::rlimit(40)]
    pub fn fmt_named(&self, host: &str) -> (r: String)
        ensures
            r@ == info_line(self.info@, host@),
    {
        let info = self.info;
        let mut out = String::new();
        out.push(flag_char('d', info.dm));
        out.push(flag_char('t', info.team));
        out.push(flag_char('c', info.coop));
        out.push(flag_char('p', info.password));
        out.push(flag_char('D', info.dedicated));
        out.push(' ');
        let mut numcl = String::new();
        push_decimal(&mut numcl, info.numcl);
        push_pad_start(&mut out, numcl.as_str(), 2, ' ');
        out.push('/');
        let mut maxcl = String::new();
        push_decimal(&mut maxcl, info.maxcl);
        push_pad_end(&mut out, maxcl.as_str(), 2, ' ');
        out.push(' ');
        push_pad_end(&mut out, info.gamedir.as_str(), 8, ' ');
        out.push(' ');
        push_pad_end(&mut out, info.map.as_str(), 18, ' ');
        out.push(' ');
        out.push('"');
        out.append(host);
        out.push('"');
        proof {
            assert(numcl@ =~= decimal(info.numcl as nat));
            assert(maxcl@ =~= decimal(info.maxcl as nat));
            assert(out@ =~= info_line(info@, host@));
        }
        out
    }

    /// The line, with the server's name in its colours.
    pub fn fmt(&self, out: Terminal) -> (r: String)
        ensures
            exists|host: Seq<char>|
                shown_as(self.info.host@, self.cli.force_color, out, host) && r@
                    == #[trigger] info_line(self.info@, host),
    {
        let host = Colored::new(self.info.host.as_str(), self.cli.force_color).fmt(
            out,
            Layout::plain(),
        );
        assert(shown_as(self.info.host@, self.cli.force_color, out, host@));
        self.fmt_named(host.as_str())
    }
}

} // verus!
