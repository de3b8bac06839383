//! What is told of the servers.

use crate::address::SocketAddrV6;
use crate::cli::Cli;
use crate::color::{Colored, Terminal};
use crate::server::{shown_as, ServerInfo, ServerResult, ServerResultKind};
use crate::text::{decimal, push_decimal, truth, truth_text, Layout};
use vstd::prelude::*;
use vstd::string::*;

verus! {

/// A report: data to be written as JSON or for a developer, or plain text.
#[derive(Debug, PartialEq, Eq)]
pub enum Report<R> {
    Json(R),
    Debug(R),
    Text(String),
}

/// The data of a report on servers.
#[derive(Clone, Copy, Debug)]
pub struct InfoResult<'a> {
    pub protocol: &'a Vec<u8>,
    pub master_timeout: u32,
    pub server_timeout: u32,
    pub masters: &'a Vec<String>,
    pub filter: &'a String,
    pub servers: &'a Vec<ServerResult>,
}

/// The data of a report on addresses.
#[derive(Clone, Copy, Debug)]
pub struct ListResult<'a> {
    pub master_timeout: u32,
    pub masters: &'a Vec<String>,
    pub filter: &'a String,
    pub servers: &'a Vec<SocketAddrV6>,
}

/// How the address of a server is written, and, where it has replied, how its
/// ping is, in milliseconds with three decimals. `T` is `String` in memory and
/// `Seq<char>` in contracts.
#[derive(Debug, PartialEq, Eq)]
pub struct Label<T = String> {
    pub address: T,
    pub ping: T,
}

impl<T: View> View for Label<T> {
    type V = Label<T::V>;

    open spec fn view(&self) -> Label<T::V> {
        Label { address: self.address@, ping: self.ping@ }
    }
}

/// One line of a report: a key and its value.
pub open spec fn field(key: Seq<char>, value: Seq<char>) -> Seq<char> {
    "    "@ + key + ": \""@ + value + "\"\n"@
}

/// The lines for the texts that a server told; its name is shown as `host`.
pub open spec fn text_fields(info: ServerInfo<Seq<char>>, host: Seq<char>) -> Seq<char> {
    field("status"@, "ok"@) + field("host"@, host) + field("gamedir"@, info.gamedir) + field(
        "map"@,
        info.map,
    )
}

/// The lines for the numbers that a server told.
pub open spec fn number_fields(info: ServerInfo<Seq<char>>) -> Seq<char> {
    field("protocol"@, decimal(info.protocol as nat)) + field("numcl"@, decimal(info.numcl as nat))
        + field("maxcl"@, decimal(info.maxcl as nat))
}

/// The lines for the properties that a server told.
pub open spec fn truth_fields(info: ServerInfo<Seq<char>>) -> Seq<char> {
    field("dm"@, truth(info.dm)) + field("team"@, truth(info.team)) + field(
        "coop"@,
        truth(info.coop),
    ) + field("password"@, truth(info.password))
}

/// The lines for what a server told of itself; its name is shown as `host`.
pub open spec fn info_fields(info: ServerInfo<Seq<char>>, host: Seq<char>) -> Seq<char> {
    text_fields(info, host) + number_fields(info) + truth_fields(info)
}

/// The lines for what came of asking a server.
pub open spec fn kind_fields(kind: ServerResultKind<Seq<char>>, host: Seq<char>) -> Seq<char> {
    match kind {
        ServerResultKind::Info { info } => info_fields(info, host),
        ServerResultKind::Timeout => field("status"@, "timeout"@),
        ServerResultKind::Protocol => field("status"@, "protocol"@),
        ServerResultKind::Error { message } => field("status"@, "error"@) + field(
            "message"@,
            message,
        ),
        ServerResultKind::Invalid { message, response } => field("status"@, "invalid"@) + field(
            "message"@,
            message,
        ) + field("response"@, response),
        ServerResultKind::Remove => seq![],
    }
}

/// The headline on a server: its address and, where it has replied, its ping.
pub open spec fn headline(replied: bool, label: Label<Seq<char>>) -> Seq<char> {
    "server: "@ + label.address + (if replied {
        " ["@ + label.ping + " ms]"@
    } else {
        seq![]
    }) + "\n"@
}

/// The text on one server: a headline, the lines and an empty line.
pub open spec fn server_text(
    result: ServerResult<Seq<char>>,
    label: Label<Seq<char>>,
    host: Seq<char>,
) -> Seq<char> {
    headline(result.ping is Some, label) + kind_fields(result.kind, host) + "\n"@
}

/// The text on all servers, one after the other.
pub open spec fn servers_text(
    results: Seq<ServerResult>,
    labels: Seq<Label>,
    hosts: Seq<Seq<char>>,
) -> Seq<char>
    decreases results.len(),
{
    if results.len() == 0 {
        seq![]
    } else {
        servers_text(results.drop_last(), labels.drop_last(), hosts.drop_last()) + server_text(
            results.last()@,
            labels.last()@,
            hosts.last(),
        )
    }
}

/// Whether `hosts` are how the names of the servers can come out.
pub open spec fn hosts_shown(
    results: Seq<ServerResult>,
    forced: bool,
    out: Terminal,
    hosts: Seq<Seq<char>>,
) -> bool {
    &&& hosts.len() == results.len()
    &&& forall|i: int|
        0 <= i < results.len() ==> match (#[trigger] results[i]).kind {
            ServerResultKind::Info { info } => shown_as(info.host@, forced, out, hosts[i]),
            _ => true,
        }
}

/// Texts, each on a line of its own.
pub open spec fn lines(texts: Seq<String>) -> Seq<char>
    decreases texts.len(),
{
    if texts.len() == 0 {
        seq![]
    } else {
        lines(texts.drop_last()) + texts.last()@ + "\n"@
    }
}

fn push_field(out: &mut String, key: &str, value: &str)
    ensures
        final(out)@ == old(out)@ + field(key@, value@),
{
    out.append("    ");
    out.append(key);
    out.append(": \"");
    out.append(value);
    out.append("\"\n");
    assert(out@ =~= old(out)@ + field(key@, value@));
}

fn push_number_field(out: &mut String, key: &str, value: u8)
    ensures
        final(out)@ == old(out)@ + field(key@, decimal(value as nat)),
{
    let mut text = String::new();
    push_decimal(&mut text, value);
    assert(text@ =~= decimal(value as nat));
    push_field(out, key, text.as_str());
}

fn push_text_fields(out: &mut String, info: &ServerInfo, host: &str)
    ensures
        final(out)@ == old(out)@ + text_fields(info@, host@),
{
    push_field(out, "status", "ok");
    push_field(out, "host", host);
    push_field(out, "gamedir", info.gamedir.as_str());
    push_field(out, "map", info.map.as_str());
    assert(out@ =~= old(out)@ + text_fields(info@, host@));
}

fn push_number_fields(out: &mut String, info: &ServerInfo)
    ensures
        final(out)@ == old(out)@ + number_fields(info@),
{
    push_number_field(out, "protocol", info.protocol);
    push_number_field(out, "numcl", info.numcl);
    push_number_field(out, "maxcl", info.maxcl);
    assert(out@ =~= old(out)@ + number_fields(info@));
}

fn push_truth_fields(out: &mut String, info: &ServerInfo)
    ensures
        final(out)@ == old(out)@ + truth_fields(info@),
{
    push_field(out, "dm", truth_text(info.dm));
    push_field(out, "team", truth_text(info.team));
    push_field(out, "coop", truth_text(info.coop));
    push_field(out, "password", truth_text(info.password));
    assert(out@ =~= old(out)@ + truth_fields(info@));
}

fn push_info_fields(out: &mut String, info: &ServerInfo, host: &str)
    ensures
        final(out)@ == old(out)@ + info_fields(info@, host@),
{
    push_text_fields(out, info, host);
    push_number_fields(out, info);
    push_truth_fields(out, info);
    assert(out@ =~= old(out)@ + info_fields(info@, host@));
}

fn push_headline(out: &mut String, replied: bool, label: &Label)
    ensures
        final(out)@ == old(out)@ + headline(replied, label@),
{
    out.append("server: ");
    out.append(label.address.as_str());
    if replied {
        out.append(" [");
        out.append(label.ping.as_str());
        out.append(" ms]");
    }
    out.append("\n");
    assert(out@ =~= old(out)@ + headline(replied, label@));
}

fn push_error_fields(out: &mut String, message: &str)
    ensures
        final(out)@ == old(out)@ + (field("status"@, "error"@) + field("message"@, message@)),
{
    push_field(out, "status", "error");
    push_field(out, "message", message);
    assert(out@ =~= old(out)@ + (field("status"@, "error"@) + field("message"@, message@)));
}

fn push_invalid_fields(out: &mut String, message: &str, response: &str)
    ensures
        final(out)@ == old(out)@ + (field("status"@, "invalid"@) + field("message"@, message@)
            + field("response"@, response@)),
{
    push_field(out, "status", "invalid");
    push_field(out, "message", message);
    push_field(out, "response", response);
    assert(out@ =~= old(out)@ + (field("status"@, "invalid"@) + field("message"@, message@)
        + field("response"@, response@)));
}

fn push_kind_fields(out: &mut String, kind: &ServerResultKind, host: &str)
    requires
        !(kind is Remove),
    ensures
        final(out)@ == old(out)@ + kind_fields(kind@, host@),
{
    match kind {
        ServerResultKind::Info { info } => push_info_fields(out, info, host),
        ServerResultKind::Timeout => push_field(out, "status", "timeout"),
        ServerResultKind::Protocol => push_field(out, "status", "protocol"),
        ServerResultKind::Error { message } => push_error_fields(out, message.as_str()),
        ServerResultKind::Invalid { message, response } => push_invalid_fields(
            out,
            message.as_str(),
            response.as_str(),
        ),
        ServerResultKind::Remove => {},
    }
}

/// Appends the text on one server, whose name is shown as `host`.
pub fn push_server(out: &mut String, result: &ServerResult, label: &Label, host: &str)
    requires
        !(result.kind is Remove),
    ensures
        final(out)@ == old(out)@ + server_text(result@, label@, host@),
{
    push_headline(out, result.ping.is_some(), label);
    push_kind_fields(out, &result.kind, host);
    out.append("\n");
    assert(out@ =~= old(out)@ + server_text(result@, label@, host@));
}

/// Reports what came of asking servers.
pub fn query_server_info<'a>(
    cli: &'a Cli,
    servers: &'a Vec<ServerResult>,
    labels: &Vec<Label>,
    out: Terminal,
) -> (r: Report<InfoResult<'a>>)
    requires
        labels@.len() == servers@.len(),
        forall|i: int| 0 <= i < servers@.len() ==> !((#[trigger] servers@[i]).kind is Remove),
    ensures
        ({
            let result = InfoResult {
                protocol: &cli.protocol,
                master_timeout: cli.master_timeout,
                server_timeout: cli.server_timeout,
                masters: &cli.masters,
                filter: &cli.filter,
                servers,
            };
            match r {
                Report::Json(data) => cli.json && data == result,
                Report::Debug(data) => !cli.json && cli.debug && data == result,
                Report::Text(text) => !cli.json && !cli.debug && exists|hosts: Seq<Seq<char>>|
                    hosts_shown(servers@, cli.force_color, out, hosts) && text@
                        == #[trigger] servers_text(servers@, labels@, hosts),
            }
        }),
{
    if cli.json || cli.debug {
        let result = InfoResult {
            protocol: &cli.protocol,
            master_timeout: cli.master_timeout,
            server_timeout: cli.server_timeout,
            masters: &cli.masters,
            filter: &cli.filter,
            servers,
        };
        return if cli.json {
            Report::Json(result)
        } else {
            Report::Debug(result)
        };
    }
    let mut text = String::new();
    let ghost mut hosts: Seq<Seq<char>> = seq![];
    let mut i: usize = 0;
    while i < servers.len()
        invariant
            i <= servers@.len() == labels@.len(),
            forall|j: int| 0 <= j < servers@.len() ==> !((#[trigger] servers@[j]).kind is Remove),
            hosts_shown(servers@.take(i as int), cli.force_color, out, hosts),
            text@ == servers_text(servers@.take(i as int), labels@.take(i as int), hosts),
        decreases servers@.len() - i,
    {
        let server = &servers[i];
        let host = match &server.kind {
            ServerResultKind::Info { info } => Colored::new(
                info.host.as_str(),
                cli.force_color,
            ).fmt(out, Layout::plain()),
            _ => String::new(),
        };
        push_server(&mut text, server, &labels[i], host.as_str());
        proof {
            let before = hosts;
            hosts = hosts.push(host@);
            assert(servers@.take(i + 1).drop_last() =~= servers@.take(i as int));
            assert(labels@.take(i + 1).drop_last() =~= labels@.take(i as int));
            assert(hosts.drop_last() =~= before);
            assert forall|j: int| 0 <= j < i + 1 implies match (#[trigger] servers@.take(
                i + 1,
            )[j]).kind {
                ServerResultKind::Info { info } => shown_as(
                    info.host@,
                    cli.force_color,
                    out,
                    hosts[j],
                ),
                _ => true,
            } by {
                if j < i {
                    assert(servers@.take(i as int)[j] == servers@.take(i + 1)[j]);
                }
            }
        }
        i = i + 1;
    }
    proof {
        assert(servers@.take(i as int) =~= servers@);
        assert(labels@.take(i as int) =~= labels@);
    }
    Report::Text(text)
}

/// Reports the addresses that were listed, written as `texts`.
pub fn list_servers<'a>(
    cli: &'a Cli,
    servers: &'a Vec<SocketAddrV6>,
    texts: &Vec<String>,
) -> (r: Report<ListResult<'a>>)
    requires
        texts@.len() == servers@.len(),
    ensures
        ({
            let result = ListResult {
                master_timeout: cli.master_timeout,
                masters: &cli.masters,
                filter: &cli.filter,
                servers,
            };
            match r {
                Report::Json(data) => cli.json && data == result,
                Report::Debug(data) => !cli.json && cli.debug && data == result,
                Report::Text(text) => !cli.json && !cli.debug && text@ == lines(texts@),
            }
        }),
{
    if cli.json || cli.debug {
        let result = ListResult {
            master_timeout: cli.master_timeout,
            masters: &cli.masters,
            filter: &cli.filter,
            servers,
        };
        return if cli.json {
            Report::Json(result)
        } else {
            Report::Debug(result)
        };
    }
    let mut text = String::new();
    let mut i: usize = 0;
    while i < texts.len()
        invariant
            i <= texts@.len(),
            text@ == lines(texts@.take(i as int)),
        decreases texts@.len() - i,
    {
        text.append(texts[i].as_str());
        text.append("\n");
        assert(texts@.take(i + 1).drop_last() =~= texts@.take(i as int));
        i = i + 1;
    }
    assert(texts@.take(i as int) =~= texts@);
    Report::Text(text)
}

} // verus!
