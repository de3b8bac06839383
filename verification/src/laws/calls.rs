//! What the calls return, told by what goes in and what comes out.

use crate::address::{find_v6, SocketAddr, SocketAddrV6};
use crate::cli::{Cli, Error};
use crate::color::{serialize_colored, without_codes, Colored, Terminal};
use crate::inquiry::{Inquiry, ServerQuery};
use crate::laws::reports::law_lists_add_up;
use crate::packet::{decode_servers, get_server_info, get_server_info_packet, is_servers_reply,
    query_servers, query_servers_packet, reply_addresses, reply_key, ProtocolError,
    QueryServersResponse};
use crate::report::{hosts_shown, lines, list_servers, query_server_info, servers_text,
    InfoResult, Label, ListResult, Report};
use crate::scan::{consequence, Consequence, ReceiveFailure, Scan, ServerList};
use crate::server::{info_line, shown_as, ServerInfo, ServerInfoPrinter, ServerResult,
    ServerResultKind, SystemTime};
use crate::text::{same_text, truth_text, Layout};
use vstd::prelude::*;

verus! {

/// A report is data where JSON is asked for, and that before all else, data for
/// a developer where that is asked for, and text elsewhere. The data is what the
/// user asked for and what came of it.
pub proof fn law_kinds_of_reports(
    cli: &Cli,
    servers: &Vec<ServerResult>,
    labels: &Vec<Label>,
    out: Terminal,
    r: Report<InfoResult>,
)
    requires
        call_ensures(query_server_info, (cli, servers, labels, out), r),
    ensures
        r is Json <==> cli.json,
        r is Debug <==> cli.debug && !cli.json,
        r is Text <==> !cli.debug && !cli.json,
        r matches Report::Json(data) ==> data.protocol@ == cli.protocol@ && data.master_timeout
            == cli.master_timeout && data.server_timeout == cli.server_timeout && data.masters@
            == cli.masters@ && data.filter@ == cli.filter@ && data.servers@ == servers@,
        r matches Report::Debug(data) ==> data.protocol@ == cli.protocol@ && data.master_timeout
            == cli.master_timeout && data.server_timeout == cli.server_timeout && data.masters@
            == cli.masters@ && data.filter@ == cli.filter@ && data.servers@ == servers@,
        r matches Report::Text(text) ==> exists|hosts: Seq<Seq<char>>|
            hosts_shown(servers@, cli.force_color, out, hosts) && text@ == #[trigger] servers_text(
                servers@,
                labels@,
                hosts,
            ),
{
}

/// So it is with the addresses that are listed; as text, each stands on a line
/// of its own.
pub proof fn law_kinds_of_lists(
    cli: &Cli,
    servers: &Vec<SocketAddrV6>,
    texts: &Vec<String>,
    r: Report<ListResult>,
)
    requires
        call_ensures(list_servers, (cli, servers, texts), r),
    ensures
        r is Json <==> cli.json,
        r is Debug <==> cli.debug && !cli.json,
        r is Text <==> !cli.debug && !cli.json,
        r matches Report::Json(data) ==> data.master_timeout == cli.master_timeout && data.masters@
            == cli.masters@ && data.filter@ == cli.filter@ && data.servers@ == servers@,
        r matches Report::Debug(data) ==> data.master_timeout == cli.master_timeout && data.masters@
            == cli.masters@ && data.filter@ == cli.filter@ && data.servers@ == servers@,
        r matches Report::Text(text) ==> text@ == lines(texts@) && (texts@.len() == 1 ==> text@
            == texts@[0]@.push('\n')),
{
    law_lists_add_up(texts@, seq![]);
}

/// A master is who stands in the list of masters, all of its address included.
pub proof fn law_masters_are_told_apart(scan: &Scan, a: &SocketAddrV6, r: bool)
    requires
        call_ensures(Scan::is_master, (scan, a), r),
    ensures
        r <==> exists|i: int|
            0 <= i < scan.masters@.len() && (#[trigger] scan.masters@[i]).ip == a.ip
                && scan.masters@[i].port == a.port && scan.masters@[i].flowinfo == a.flowinfo
                && scan.masters@[i].scope_id == a.scope_id,
{
    if exists|i: int|
        0 <= i < scan.masters@.len() && (#[trigger] scan.masters@[i]).ip == a.ip
            && scan.masters@[i].port == a.port && scan.masters@[i].flowinfo == a.flowinfo
            && scan.masters@[i].scope_id == a.scope_id {
        let i = choose|i: int|
            0 <= i < scan.masters@.len() && (#[trigger] scan.masters@[i]).ip == a.ip
                && scan.masters@[i].port == a.port && scan.masters@[i].flowinfo == a.flowinfo
                && scan.masters@[i].scope_id == a.scope_id;
        assert(scan.masters@[i] == *a);
    }
}

/// A key is right just where it is the user's, or where there is none on either
/// side.
pub proof fn law_right_keys(scan: &Scan, from: &str, key: Option<u32>, r: Result<(), String>)
    requires
        call_ensures(Scan::check_key, (scan, from, key), r),
    ensures
        r is Ok <==> (scan.cli.key is None && key is None) || (scan.cli.key is Some && key is Some
            && scan.cli.key->Some_0 == key->Some_0),
{
}

/// The request to the masters holds the user's filter; it fails just where the
/// filter is too long.
pub proof fn law_requests_to_masters(
    scan: &Scan,
    r: Result<Vec<u8>, Error>,
    filter: &str,
    q: Result<Vec<u8>, ProtocolError>,
)
    requires
        call_ensures(Scan::query_servers, (scan,), r),
        call_ensures(query_servers, (filter,), q),
    ensures
        r matches Ok(bytes) ==> bytes@ == query_servers_packet(0xff, "[::]:0"@, scan.cli.filter@),
        q matches Ok(bytes) ==> bytes@ == query_servers_packet(0xff, "[::]:0"@, filter@),
        r is Ok <==> query_servers_packet(0xff, "[::]:0"@, scan.cli.filter@).len() <= 512,
        q is Ok <==> query_servers_packet(0xff, "[::]:0"@, filter@).len() <= 512,
{
}

/// A request for information can always be made.
pub proof fn law_requests_to_servers(protocol: u8, r: Result<Vec<u8>, ProtocolError>)
    requires
        call_ensures(get_server_info, (protocol,), r),
    ensures
        r matches Ok(bytes) && bytes@ == get_server_info_packet(protocol),
{
}

/// A list of servers is read just where a datagram begins as one.
pub proof fn law_reading_lists(raw: &[u8], r: Result<QueryServersResponse, ProtocolError>)
    requires
        call_ensures(decode_servers, (raw,), r),
    ensures
        r is Ok <==> is_servers_reply(raw@),
        r matches Ok(list) ==> list.key == reply_key(raw@) && list.addresses@ == reply_addresses(
            raw@,
        ),
{
}

/// A scan that cannot receive is over if nothing came in time or the address is
/// in use, and fails else.
pub proof fn law_consequences(failure: ReceiveFailure, r: Consequence)
    requires
        call_ensures(consequence, (failure,), r),
    ensures
        r is End <==> failure is WouldBlock || failure is AddrInUse,
        r is Fail <==> failure is Other,
{
}

/// The address found is the first IPv6 address.
pub proof fn law_addresses_found(addrs: &[SocketAddr], r: Option<SocketAddrV6>)
    requires
        call_ensures(find_v6, (addrs,), r),
    ensures
        r is None <==> forall|i: int| 0 <= i < addrs@.len() ==> !((#[trigger] addrs@[i]) is V6),
        r matches Some(a) ==> exists|i: int|
            0 <= i < addrs@.len() && (#[trigger] addrs@[i]) == SocketAddr::V6(a) && forall|j: int|
                0 <= j < i ==> !((#[trigger] addrs@[j]) is V6),
{
}

/// What has elapsed of the wait for the masters and what is left of it add up
/// to the user's timeout.
pub proof fn law_waits_for_masters(list: &ServerList, now: u64, r: Option<u64>)
    requires
        call_ensures(ServerList::wait, (list, now), r),
        now >= list.start(),
    ensures
        r is Some <==> now - list.start() <= list.scan().cli.master_timeout * 1_000_000_000,
        r matches Some(left) ==> (now - list.start()) + left == list.scan().cli.master_timeout
            * 1_000_000_000,
{
}

/// The wait for replies lasts as long as masters or servers have time.
pub proof fn law_waits_for_replies(inquiry: &Inquiry, now: u64, r: Option<u128>)
    requires
        call_ensures(Inquiry::wait, (inquiry, now), r),
    ensures
        r is Some <==> now <= inquiry@.master_end || now <= inquiry@.server_end,
        r matches Some(left) ==> now + left >= inquiry@.master_end && now + left
            >= inquiry@.server_end && (now + left == inquiry@.master_end || now + left
            == inquiry@.server_end),
{
}

/// The addresses that were found come out, each once, in order.
pub proof fn law_addresses_come_out(list: ServerList, r: Vec<SocketAddrV6>, a: SocketAddrV6)
    requires
        call_ensures(ServerList::finish, (list,), r),
    ensures
        r@.contains(a) <==> list.found().contains(a),
        r@.no_duplicates(),
        forall|i: int, j: int|
            0 <= i < j < r@.len() ==> (#[trigger] r@[i]).precedes(#[trigger] r@[j]),
{
    assert(r@.to_set().contains(a) <==> r@.contains(a));
    assert forall|i: int, j: int| 0 <= i < r@.len() && 0 <= j < r@.len() && i != j implies r@[i]
        != r@[j] by {
        if i < j {
            assert(r@[i].precedes(r@[j]));
        } else {
            assert(r@[j].precedes(r@[i]));
        }
    }
}

/// Every server that is awaited or done with comes out with its result, each
/// once, in the order of addresses.
pub proof fn law_results_come_out(
    inquiry: Inquiry,
    time: SystemTime,
    r: Vec<ServerResult>,
    a: SocketAddrV6,
)
    requires
        call_ensures(Inquiry::finish, (inquiry, time), r),
    ensures
        inquiry@.active.contains_key(a) || inquiry@.out.contains_key(a) <==> exists|i: int|
            0 <= i < r@.len() && (#[trigger] r@[i]).address == a,
        forall|i: int|
            0 <= i < r@.len() && (#[trigger] r@[i]).address == a && inquiry@.active.contains_key(a)
                ==> r@[i].kind is Timeout && r@[i].ping is None && r@[i].time == time,
        forall|i: int|
            0 <= i < r@.len() && (#[trigger] r@[i]).address == a && !inquiry@.active.contains_key(a)
                ==> r@[i]@ == inquiry@.out[a],
        forall|i: int, j: int|
            0 <= i < j < r@.len() ==> (#[trigger] r@[i]).address.precedes(
                (#[trigger] r@[j]).address,
            ),
{
    let results = inquiry@.results(time);
    assert(results.contains_key(a) <==> inquiry@.active.contains_key(a) || inquiry@.out.contains_key(
        a,
    ));
    if exists|i: int| 0 <= i < r@.len() && (#[trigger] r@[i]).address == a {
        let i = choose|i: int| 0 <= i < r@.len() && (#[trigger] r@[i]).address == a;
        assert(results.contains_key(r@[i].address));
    }
    if results.contains_key(a) {
        assert(inquiry@.results(time).contains_key(a));
        assert(forall|b: SocketAddrV6| #[trigger]
            inquiry@.results(time).contains_key(b) ==> exists|i: int|
                0 <= i < r@.len() && (#[trigger] r@[i]).address == b);
        assert(exists|i: int| 0 <= i < r@.len() && (#[trigger] r@[i]).address == a);
    }
    assert forall|i: int|
        0 <= i < r@.len() && (#[trigger] r@[i]).address == a && inquiry@.active.contains_key(
            a,
        ) implies r@[i].kind is Timeout && r@[i].ping is None && r@[i].time == time by {
        assert(r@[i]@ == results[a]);
        assert(r@[i]@.kind is Timeout);
    }
}

/// A ping counts whole microseconds.
pub proof fn law_pings(query: &ServerQuery, now: u64, r: u64)
    requires
        call_ensures(ServerQuery::ping, (query, now), r),
        query.start <= now,
    ensures
        0 <= (now - query.start) - r * 1000 < 1000,
{
}

/// A line of a server shows that server's own information and name.
pub proof fn law_lines_of_servers(p: &ServerInfoPrinter, host: &str, out: Terminal, n: String, f: String)
    requires
        call_ensures(ServerInfoPrinter::fmt_named, (p, host), n),
        call_ensures(ServerInfoPrinter::fmt, (p, out), f),
    ensures
        n@ == info_line(p.info@, host@),
        exists|shown: Seq<char>|
            shown_as(p.info.host@, p.cli.force_color, out, shown) && f@ == #[trigger] info_line(
                p.info@,
                shown,
            ),
{
}

/// A serialized name has no codes, and a text to be shown is the one that was
/// given.
pub proof fn law_names(s: &str, forced: bool, r: String, c: Colored)
    requires
        call_ensures(serialize_colored, (s,), r),
        call_ensures(Colored::new, (s, forced), c),
    ensures
        r@ == without_codes(s@),
        c.inner@ == s@,
        c.forced == forced,
{
}

/// Texts are the same just where every character is.
pub proof fn law_same_texts(a: &str, b: &str, r: bool)
    requires
        call_ensures(same_text, (a, b), r),
    ensures
        r <==> a@.len() == b@.len() && forall|i: int|
            0 <= i < a@.len() ==> #[trigger] a@[i] == b@[i],
{
    if a@.len() == b@.len() && forall|i: int| 0 <= i < a@.len() ==> #[trigger] a@[i] == b@[i] {
        assert(a@ =~= b@);
    }
}

/// Results are made of what goes in: each is of its kind, and has a ping just
/// where one goes in.
pub proof fn law_results_are_made(
    time: SystemTime,
    address: SocketAddrV6,
    ping: u64,
    info: ServerInfo,
    message: String,
    response: &[u8],
    ok: ServerResult,
    timeout: ServerResult,
    protocol: ServerResult,
    error: ServerResult,
    invalid: ServerResult,
)
    requires
        call_ensures(ServerResult::ok, (time, address, ping, info), ok),
        call_ensures(ServerResult::timeout, (time, address), timeout),
        call_ensures(ServerResult::protocol, (time, address, ping), protocol),
        call_ensures(ServerResult::error, (time, address, message), error),
        call_ensures(ServerResult::invalid, (time, address, ping, message, response), invalid),
    ensures
        ok.time == time && ok.address == address && ok.ping == Some(ping),
        ok.kind matches ServerResultKind::Info { info: told } && told == info,
        timeout.time == time && timeout.address == address && timeout.ping is None,
        timeout.kind is Timeout,
        protocol.time == time && protocol.address == address && protocol.ping == Some(ping),
        protocol.kind is Protocol,
        error.time == time && error.address == address && error.ping is None,
        error.kind matches ServerResultKind::Error { message: m } && m == message,
        invalid.time == time && invalid.address == address && invalid.ping == Some(ping),
        invalid.kind matches ServerResultKind::Invalid { message: m, response: raw } && m@
            == message@ && raw@ == crate::packet::escaped(response@),
{
    assert(invalid@.kind is Invalid);
}

/// The word for a truth value tells it, and the plain layout asks for nothing.
pub proof fn law_words_and_layouts(b: bool, r: &'static str, l: Layout)
    requires
        call_ensures(truth_text, (b,), r),
        call_ensures(Layout::plain, (), l),
    ensures
        b ==> r@ == "true"@,
        !b ==> r@ == "false"@,
        l.fill == ' ' && l.align is None && l.width is None && l.precision is None,
{
}

} // verus!
