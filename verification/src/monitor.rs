//! Watching game servers.

use crate::address::{SocketAddr, SocketAddrV6};
use crate::cli::Cli;
use crate::color::Terminal;
use crate::packet::GetServerInfoResponse;
use crate::server::{info_line, info_of, lossy, shown_as, ServerInfo, ServerResult,
    ServerResultKind, SystemTime};
use crate::table::Table;
use crate::text::{pad_end, pad_start, push_fill, push_pad_end, push_pad_start, repeat};
use vstd::prelude::*;
use vstd::string::*;

verus! {

/// What to say of a change.
#[derive(Debug, PartialEq, Eq)]
pub enum Notice<T = String> {
    Nothing,
    /// Data to be written as JSON.
    Json(ServerResult<T>),
    Text(T),
}

impl<T: View> View for Notice<T> {
    type V = Notice<T::V>;

    open spec fn view(&self) -> Notice<T::V> {
        match self {
            Notice::Nothing => Notice::Nothing,
            Notice::Json(result) => Notice::Json(result@),
            Notice::Text(text) => Notice::Text(text@),
        }
    }
}

/// The line that takes back what was told of a server.
pub open spec fn removed_line(addr: Seq<char>, line: Seq<char>) -> Seq<char> {
    pad_end(addr, 24, ' ') + " --- "@ + repeat(' ', 7) + " "@ + line + "\n"@
}

/// The line that tells of a server.
pub open spec fn added_line(addr: Seq<char>, ping: Seq<char>, line: Seq<char>) -> Seq<char> {
    pad_end(addr, 24, ' ') + " +++ "@ + pad_start(ping, 7, ' ') + " "@ + line + "\n"@
}

/// Appends the line that takes back what was told of a server.
pub fn push_removed(out: &mut String, addr: &str, line: &str)
    ensures
        final(out)@ == old(out)@ + removed_line(addr@, line@),
{
    push_pad_end(out, addr, 24, ' ');
    out.append(" --- ");
    push_fill(out, ' ', 0, 7);
    out.append(" ");
    out.append(line);
    out.append("\n");
    assert(out@ =~= old(out)@ + removed_line(addr@, line@));
}

/// Appends the line that tells of a server.
pub fn push_added(out: &mut String, addr: &str, ping: &str, line: &str)
    ensures
        final(out)@ == old(out)@ + added_line(addr@, ping@, line@),
{
    push_pad_end(out, addr, 24, ' ');
    out.append(" +++ ");
    push_pad_start(out, ping, 7, ' ');
    out.append(" ");
    out.append(line);
    out.append("\n");
    assert(out@ =~= old(out)@ + added_line(addr@, ping@, line@));
}

/// Whether `line` is how the line on a server can come out.
pub open spec fn line_shown(
    info: ServerInfo<Seq<char>>,
    forced: bool,
    out: Terminal,
    line: Seq<char>,
) -> bool {
    exists|host: Seq<char>|
        shown_as(info.host, forced, out, host) && line == #[trigger] info_line(info, host)
}

/// The servers that are watched, with what they told last.
pub struct Monitor<'a> {
    cli: &'a Cli,
    servers: Table<SocketAddr, ServerInfo>,
}

impl<'a> View for Monitor<'a> {
    type V = Map<SocketAddr, ServerInfo<Seq<char>>>;

    closed spec fn view(&self) -> Map<SocketAddr, ServerInfo<Seq<char>>> {
        self.servers@.map_values(|info: ServerInfo| info@)
    }
}

/// Something that happens to a watched server.
pub enum Change {
    /// It tells of itself.
    Update { addr: SocketAddr, info: ServerInfo<Seq<char>> },
    /// It does not reply.
    Timeout { addr: SocketAddr },
    /// It is no longer listed.
    Remove { addr: SocketAddr },
}

/// What is kept of the servers after a change: nothing new where every change
/// goes out as data.
pub open spec fn watched(
    json: bool,
    servers: Map<SocketAddr, ServerInfo<Seq<char>>>,
    change: Change,
) -> Map<SocketAddr, ServerInfo<Seq<char>>> {
    match change {
        Change::Update { addr, info } if !json => servers.insert(addr, info),
        Change::Remove { addr } if !json => servers.remove(addr),
        _ => servers,
    }
}

/// The IPv6 address that `addr` is.
fn only_v6(addr: &SocketAddr) -> (r: SocketAddrV6)
    requires
        addr is V6,
    ensures
        *addr == SocketAddr::V6(r),
{
    match addr {
        SocketAddr::V6(address) => *address,
        SocketAddr::V4 { .. } => vstd::pervasive::unreached(),
    }
}

impl<'a> Monitor<'a> {
    pub closed spec fn cli(self) -> &'a Cli {
        self.cli
    }

    pub fn new(cli: &'a Cli) -> (r: Self)
        ensures
            r.cli() == cli,
            r@ == Map::<SocketAddr, ServerInfo<Seq<char>>>::empty(),
    {
        let r = Monitor { cli, servers: Table::new() };
        assert(r@ =~= Map::empty());
        r
    }

    /// Takes in what the server at `addr` tells of itself after `ping`
    /// microseconds. `addr_text` and `ping_text` are how these are written.
    pub fn server_update(
        &mut self,
        addr: SocketAddr,
        addr_text: &str,
        info: &GetServerInfoResponse<Vec<u8>>,
        ping: u64,
        ping_text: &str,
        time: SystemTime,
        out: Terminal,
    ) -> (r: Notice)
        requires
            old(self).cli().json ==> addr is V6,
        ensures
            final(self).cli() == old(self).cli(),
            ({
                let now = info_of(lossy(info@));
                let forced = old(self).cli().force_color;
                &&& final(self)@ == watched(
                    old(self).cli().json,
                    old(self)@,
                    Change::Update { addr, info: now },
                )
                &&& if old(self).cli().json {
                    r@ == Notice::Json(
                        ServerResult {
                            time,
                            address: addr->V6_0,
                            ping: Some(ping),
                            kind: ServerResultKind::Info { info: now },
                        },
                    )
                } else {
                    &&& r is Text
                    &&& match old(self)@.get(addr) {
                        Some(was) => exists|a: Seq<char>, b: Seq<char>|
                            line_shown(was, forced, out, a) && line_shown(now, forced, out, b)
                                && r->Text_0@ == #[trigger] removed_line(addr_text@, a)
                                + #[trigger] added_line(addr_text@, ping_text@, b),
                        None => exists|b: Seq<char>|
                            line_shown(now, forced, out, b) && r->Text_0@
                                == #[trigger] added_line(addr_text@, ping_text@, b),
                    }
                }
            }),
    {
        let info = ServerInfo::from(info);
        if self.cli.json {
            let address = only_v6(&addr);
            return Notice::Json(ServerResult::ok(time, address, ping, info));
        }
        let ghost before = self@;
        let ghost now = info@;
        let mut text = String::new();
        if let Some(was) = self.servers.get(&addr) {
            let line = was.printer(self.cli).fmt(out);
            assert(line_shown(was@, self.cli.force_color, out, line@));
            push_removed(&mut text, addr_text, line.as_str());
            assert(text@ =~= removed_line(addr_text@, line@));
            assert(before.contains_key(addr) && before[addr] == was@);
        }
        let ghost head = text@;
        let line = info.printer(self.cli).fmt(out);
        assert(line_shown(now, self.cli.force_color, out, line@));
        push_added(&mut text, addr_text, ping_text, line.as_str());
        assert(head.len() == 0 ==> text@ =~= added_line(addr_text@, ping_text@, line@));
        self.servers.insert(addr, info);
        assert(self@ =~= before.insert(addr, now));
        Notice::Text(text)
    }

    /// Takes in that the server at `addr` does not reply.
    pub fn server_timeout(&mut self, addr: &SocketAddr, time: SystemTime) -> (r: Notice)
        requires
            old(self).cli().json ==> addr is V6,
        ensures
            final(self).cli() == old(self).cli(),
            final(self)@ == watched(
                old(self).cli().json,
                old(self)@,
                Change::Timeout { addr: *addr },
            ),
            r@ == if old(self).cli().json {
                Notice::Json(
                    ServerResult {
                        time,
                        address: addr->V6_0,
                        ping: None,
                        kind: ServerResultKind::<Seq<char>>::Timeout,
                    },
                )
            } else {
                Notice::Nothing
            },
    {
        if self.cli.json {
            let address = only_v6(addr);
            Notice::Json(ServerResult::timeout(time, address))
        } else {
            Notice::Nothing
        }
    }

    /// Takes in that the server at `addr` is no longer listed.
    pub fn server_remove(&mut self, addr: &SocketAddr, time: SystemTime) -> (r: Notice)
        requires
            old(self).cli().json ==> addr is V6,
        ensures
            final(self).cli() == old(self).cli(),
            final(self)@ == watched(
                old(self).cli().json,
                old(self)@,
                Change::Remove { addr: *addr },
            ),
            r@ == if old(self).cli().json {
                Notice::Json(
                    ServerResult {
                        time,
                        address: addr->V6_0,
                        ping: None,
                        kind: ServerResultKind::<Seq<char>>::Remove,
                    },
                )
            } else {
                Notice::Nothing
            },
    {
        if self.cli.json {
            let address = only_v6(addr);
            Notice::Json(ServerResult::new(time, address, None, ServerResultKind::Remove))
        } else {
            let ghost before = self@;
            self.servers.remove(addr);
            assert(self@ =~= before.remove(*addr));
            Notice::Nothing
        }
    }
}

} // verus!
