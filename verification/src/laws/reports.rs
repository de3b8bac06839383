//! What holds of the reports.

use crate::address::SocketAddr;
use crate::cli::{execute, Cli, Command, Error};
use crate::laws::texts::{law_filled_texts, law_fills, stands_at};
use crate::monitor::{added_line, removed_line, watched, Change};
use crate::report::{field, headline, info_fields, kind_fields, lines, number_fields, server_text,
    servers_text, text_fields, truth_fields, Label};
use crate::server::{ServerInfo, ServerResult, ServerResultKind};
use crate::text::{decimal, pad_end, pad_start, truth};
use vstd::prelude::*;

verus! {

/// One line of a report: four blanks, the key, and the value in quotes.
pub open spec fn line(key: Seq<char>, value: Seq<char>) -> Seq<char> {
    seq![' ', ' ', ' ', ' '] + key + seq![':', ' ', '"'] + value + seq!['"', '\n']
}

/// Whether `part` stands somewhere in `text`.
pub open spec fn holds(text: Seq<char>, part: Seq<char>) -> bool {
    exists|at: int| #[trigger] stands_at(text, at, part)
}

/// A key and its value make one line.
pub proof fn law_fields_are_lines(key: Seq<char>, value: Seq<char>)
    ensures
        field(key, value) == line(key, value),
        field(key, value).len() == key.len() + value.len() + 9,
{
    reveal_strlit("    ");
    reveal_strlit(": \"");
    reveal_strlit("\"\n");
    assert(field(key, value) =~= line(key, value));
}

proof fn lemma_holds_between(before: Seq<char>, text: Seq<char>, after: Seq<char>, part: Seq<char>)
    requires
        holds(text, part),
    ensures
        holds(before + text, part),
        holds(text + after, part),
{
    let at = choose|at: int| #[trigger] stands_at(text, at, part);
    assert(stands_at(before + text, before.len() + at, part));
    assert(stands_at(text + after, at, part));
}

proof fn lemma_holds_itself(text: Seq<char>)
    ensures
        holds(text, text),
{
    assert(stands_at(text, 0, text));
}

proof fn lemma_text_lines(info: ServerInfo<Seq<char>>, host: Seq<char>)
    ensures
        holds(text_fields(info, host), line("status"@, "ok"@)),
        holds(text_fields(info, host), line("host"@, host)),
        holds(text_fields(info, host), line("gamedir"@, info.gamedir)),
        holds(text_fields(info, host), line("map"@, info.map)),
        text_fields(info, host).len() == line("status"@, "ok"@).len() + line("host"@, host).len()
            + line("gamedir"@, info.gamedir).len() + line("map"@, info.map).len(),
{
    law_fields_are_lines("status"@, "ok"@);
    law_fields_are_lines("host"@, host);
    law_fields_are_lines("gamedir"@, info.gamedir);
    law_fields_are_lines("map"@, info.map);
    let a = line("status"@, "ok"@);
    let b = line("host"@, host);
    let c = line("gamedir"@, info.gamedir);
    let d = line("map"@, info.map);
    lemma_holds_four(a, b, c, d);
}

proof fn lemma_holds_four(a: Seq<char>, b: Seq<char>, c: Seq<char>, d: Seq<char>)
    ensures
        holds(a + b + c + d, a),
        holds(a + b + c + d, b),
        holds(a + b + c + d, c),
        holds(a + b + c + d, d),
{
    lemma_holds_itself(a);
    lemma_holds_itself(b);
    lemma_holds_itself(c);
    lemma_holds_itself(d);
    lemma_holds_between(seq![], a, b, a);
    lemma_holds_between(seq![], a + b, c, a);
    lemma_holds_between(seq![], a + b + c, d, a);
    lemma_holds_between(a, b, c, b);
    lemma_holds_between(seq![], a + b, c, b);
    lemma_holds_between(seq![], a + b + c, d, b);
    lemma_holds_between(a + b, c, d, c);
    lemma_holds_between(seq![], a + b + c, d, c);
    lemma_holds_between(a + b + c, d, seq![], d);
}

proof fn lemma_number_lines(info: ServerInfo<Seq<char>>)
    ensures
        holds(number_fields(info), line("protocol"@, decimal(info.protocol as nat))),
        holds(number_fields(info), line("numcl"@, decimal(info.numcl as nat))),
        holds(number_fields(info), line("maxcl"@, decimal(info.maxcl as nat))),
        number_fields(info).len() == line("protocol"@, decimal(info.protocol as nat)).len() + line(
            "numcl"@,
            decimal(info.numcl as nat),
        ).len() + line("maxcl"@, decimal(info.maxcl as nat)).len(),
{
    law_fields_are_lines("protocol"@, decimal(info.protocol as nat));
    law_fields_are_lines("numcl"@, decimal(info.numcl as nat));
    law_fields_are_lines("maxcl"@, decimal(info.maxcl as nat));
    let a = line("protocol"@, decimal(info.protocol as nat));
    let b = line("numcl"@, decimal(info.numcl as nat));
    let c = line("maxcl"@, decimal(info.maxcl as nat));
    lemma_holds_four(a, b, c, seq![]);
    assert(a + b + c + seq![] =~= number_fields(info));
}

proof fn lemma_truth_lines(info: ServerInfo<Seq<char>>)
    ensures
        holds(truth_fields(info), line("dm"@, truth(info.dm))),
        holds(truth_fields(info), line("team"@, truth(info.team))),
        holds(truth_fields(info), line("coop"@, truth(info.coop))),
        holds(truth_fields(info), line("password"@, truth(info.password))),
        truth_fields(info).len() == line("dm"@, truth(info.dm)).len() + line(
            "team"@,
            truth(info.team),
        ).len() + line("coop"@, truth(info.coop)).len() + line(
            "password"@,
            truth(info.password),
        ).len(),
{
    law_fields_are_lines("dm"@, truth(info.dm));
    law_fields_are_lines("team"@, truth(info.team));
    law_fields_are_lines("coop"@, truth(info.coop));
    law_fields_are_lines("password"@, truth(info.password));
    lemma_holds_four(
        line("dm"@, truth(info.dm)),
        line("team"@, truth(info.team)),
        line("coop"@, truth(info.coop)),
        line("password"@, truth(info.password)),
    );
}

proof fn lemma_in_first(a: Seq<char>, b: Seq<char>, c: Seq<char>, part: Seq<char>)
    requires
        holds(a, part),
    ensures
        holds(a + b + c, part),
{
    lemma_holds_between(seq![], a, b, part);
    lemma_holds_between(seq![], a + b, c, part);
}

proof fn lemma_in_second(a: Seq<char>, b: Seq<char>, c: Seq<char>, part: Seq<char>)
    requires
        holds(b, part),
    ensures
        holds(a + b + c, part),
{
    lemma_holds_between(a, b, c, part);
    lemma_holds_between(seq![], a + b, c, part);
}

proof fn lemma_in_third(a: Seq<char>, b: Seq<char>, c: Seq<char>, part: Seq<char>)
    requires
        holds(c, part),
    ensures
        holds(a + b + c, part),
{
    lemma_holds_between(a + b, c, seq![], part);
}

/// The report on a server that told of itself has a line for each thing told,
/// under its own name and with the value that was told, and nothing else: the
/// lines together are all of it.
pub proof fn law_reports_tell_each_thing(info: ServerInfo<Seq<char>>, host: Seq<char>)
    ensures
        ({
            let text = kind_fields(ServerResultKind::Info { info }, host);
            &&& holds(text, line("status"@, "ok"@))
            &&& holds(text, line("host"@, host))
            &&& holds(text, line("gamedir"@, info.gamedir))
            &&& holds(text, line("map"@, info.map))
            &&& holds(text, line("protocol"@, decimal(info.protocol as nat)))
            &&& holds(text, line("numcl"@, decimal(info.numcl as nat)))
            &&& holds(text, line("maxcl"@, decimal(info.maxcl as nat)))
            &&& holds(text, line("dm"@, truth(info.dm)))
            &&& holds(text, line("team"@, truth(info.team)))
            &&& holds(text, line("coop"@, truth(info.coop)))
            &&& holds(text, line("password"@, truth(info.password)))
            &&& text.len() == line("status"@, "ok"@).len() + line("host"@, host).len() + line(
                "gamedir"@,
                info.gamedir,
            ).len() + line("map"@, info.map).len() + line(
                "protocol"@,
                decimal(info.protocol as nat),
            ).len() + line("numcl"@, decimal(info.numcl as nat)).len() + line(
                "maxcl"@,
                decimal(info.maxcl as nat),
            ).len() + line("dm"@, truth(info.dm)).len() + line("team"@, truth(info.team)).len()
                + line("coop"@, truth(info.coop)).len() + line(
                "password"@,
                truth(info.password),
            ).len()
        }),
{
    let a = text_fields(info, host);
    let b = number_fields(info);
    let c = truth_fields(info);
    lemma_text_lines(info, host);
    lemma_number_lines(info);
    lemma_truth_lines(info);
    assert(kind_fields(ServerResultKind::Info { info }, host) == info_fields(info, host));
    assert(info_fields(info, host) == a + b + c);
    lemma_in_first(a, b, c, line("status"@, "ok"@));
    lemma_in_first(a, b, c, line("host"@, host));
    lemma_in_first(a, b, c, line("gamedir"@, info.gamedir));
    lemma_in_first(a, b, c, line("map"@, info.map));
    lemma_in_second(a, b, c, line("protocol"@, decimal(info.protocol as nat)));
    lemma_in_second(a, b, c, line("numcl"@, decimal(info.numcl as nat)));
    lemma_in_second(a, b, c, line("maxcl"@, decimal(info.maxcl as nat)));
    lemma_in_third(a, b, c, line("dm"@, truth(info.dm)));
    lemma_in_third(a, b, c, line("team"@, truth(info.team)));
    lemma_in_third(a, b, c, line("coop"@, truth(info.coop)));
    lemma_in_third(a, b, c, line("password"@, truth(info.password)));
}

/// The report on a server that told nothing says why, in one line, and has what
/// else is known of that on lines of its own.
pub proof fn law_reports_tell_failures(message: Seq<char>, response: Seq<char>, host: Seq<char>)
    ensures
        kind_fields(ServerResultKind::Timeout, host) == line("status"@, "timeout"@),
        kind_fields(ServerResultKind::Protocol, host) == line("status"@, "protocol"@),
        kind_fields(ServerResultKind::Error { message }, host) == line("status"@, "error"@) + line(
            "message"@,
            message,
        ),
        kind_fields(ServerResultKind::Invalid { message, response }, host) == line(
            "status"@,
            "invalid"@,
        ) + line("message"@, message) + line("response"@, response),
{
    law_fields_are_lines("status"@, "timeout"@);
    law_fields_are_lines("status"@, "protocol"@);
    law_fields_are_lines("status"@, "error"@);
    law_fields_are_lines("status"@, "invalid"@);
    law_fields_are_lines("message"@, message);
    law_fields_are_lines("response"@, response);
}

/// The text on a server begins with its address, which the ping follows just
/// where there is one; then come what is told of it and an empty line.
pub proof fn law_reports_name_the_server(
    result: ServerResult<Seq<char>>,
    label: Label<Seq<char>>,
    host: Seq<char>,
)
    ensures
        ({
            let text = server_text(result, label, host);
            let n = label.address.len() as int;
            let told = kind_fields(result.kind, host);
            let start = if result.ping is Some {
                16 + n - 1 + label.ping.len()
            } else {
                9 + n
            };
            &&& stands_at(text, 0, seq!['s', 'e', 'r', 'v', 'e', 'r', ':', ' '])
            &&& stands_at(text, 8, label.address)
            &&& result.ping is Some ==> {
                &&& stands_at(text, 8 + n, seq![' ', '['])
                &&& stands_at(text, 10 + n, label.ping)
                &&& stands_at(text, 10 + n + label.ping.len(), seq![' ', 'm', 's', ']', '\n'])
            }
            &&& result.ping is None ==> text[8 + n] == '\n'
            &&& stands_at(text, start, told)
            &&& text.len() == start + told.len() + 1
            &&& text.last() == '\n'
        }),
{
    reveal_strlit("server: ");
    reveal_strlit(" [");
    reveal_strlit(" ms]");
    reveal_strlit("\n");
    let head = headline(result.ping is Some, label);
    let told = kind_fields(result.kind, host);
    let text = server_text(result, label, host);
    assert(text == head + told + "\n"@);
    assert(forall|i: int| 0 <= i < head.len() ==> text[i] == head[i]);
}

/// The texts on two rows of servers stand one behind the other, and the text on
/// one server is its own.
pub proof fn law_reports_add_up(
    a: Seq<ServerResult>,
    b: Seq<ServerResult>,
    al: Seq<Label>,
    bl: Seq<Label>,
    ah: Seq<Seq<char>>,
    bh: Seq<Seq<char>>,
)
    requires
        al.len() == a.len(),
        ah.len() == a.len(),
        bl.len() == b.len(),
        bh.len() == b.len(),
    ensures
        servers_text(a + b, al + bl, ah + bh) == servers_text(a, al, ah) + servers_text(b, bl, bh),
        a.len() == 1 ==> servers_text(a, al, ah) == server_text(a[0]@, al[0]@, ah[0]),
        a.len() == 0 ==> servers_text(a, al, ah).len() == 0,
    decreases b.len(),
{
    reveal_with_fuel(servers_text, 2);
    if a.len() == 1 {
        assert(servers_text(a, al, ah) =~= server_text(a[0]@, al[0]@, ah[0]));
    }
    if b.len() == 0 {
        assert(a + b =~= a);
        assert(al + bl =~= al);
        assert(ah + bh =~= ah);
        assert(servers_text(a, al, ah) + servers_text(b, bl, bh) =~= servers_text(a, al, ah));
    } else {
        law_reports_add_up(a, b.drop_last(), al, bl.drop_last(), ah, bh.drop_last());
        assert((a + b).drop_last() =~= a + b.drop_last());
        assert((al + bl).drop_last() =~= al + bl.drop_last());
        assert((ah + bh).drop_last() =~= ah + bh.drop_last());
        let last = server_text(b.last()@, bl.last()@, bh.last());
        let front = servers_text(a, al, ah);
        let middle = servers_text(b.drop_last(), bl.drop_last(), bh.drop_last());
        assert(servers_text(a + b, al + bl, ah + bh) == (front + middle) + last);
        assert(servers_text(b, bl, bh) == middle + last);
        assert((front + middle) + last =~= front + (middle + last));
    }
}

/// Addresses are listed one on each line, in order.
pub proof fn law_lists_add_up(a: Seq<String>, b: Seq<String>)
    ensures
        lines(a + b) == lines(a) + lines(b),
        a.len() == 1 ==> lines(a) == a[0]@.push('\n'),
        a.len() == 0 ==> lines(a).len() == 0,
    decreases b.len(),
{
    reveal_strlit("\n");
    reveal_with_fuel(lines, 2);
    if a.len() == 1 {
        assert(a.drop_last() =~= seq![]);
        assert(lines(a) =~= a[0]@.push('\n'));
    }
    if b.len() == 0 {
        assert(a + b =~= a);
        assert(lines(a) + lines(b) =~= lines(a));
    } else {
        law_lists_add_up(a, b.drop_last());
        assert((a + b).drop_last() =~= a + b.drop_last());
        assert(lines(a + b) =~= lines(a) + lines(b));
    }
}

/// The line that tells of a server and the one that takes that back begin with
/// its address, have their sign behind it and end with what is told. The former
/// has the ping before that, at the right of seven places, and the latter
/// blanks.
pub proof fn law_lines_of_the_monitor(addr: Seq<char>, ping: Seq<char>, told: Seq<char>)
    ensures
        ({
            let added = added_line(addr, ping, told);
            let removed = removed_line(addr, told);
            let n: int = if addr.len() > 24 { addr.len() as int } else { 24 };
            let w: int = if ping.len() > 7 { ping.len() as int } else { 7 };
            &&& stands_at(added, 0, addr)
            &&& stands_at(removed, 0, addr)
            &&& forall|i: int| addr.len() <= i < n ==> #[trigger] added[i] == ' '
            &&& forall|i: int| addr.len() <= i < n ==> #[trigger] removed[i] == ' '
            &&& stands_at(added, n, seq![' ', '+', '+', '+', ' '])
            &&& stands_at(removed, n, seq![' ', '-', '-', '-', ' '])
            &&& stands_at(added, n + 5 + w - ping.len(), ping)
            &&& forall|i: int| n + 5 <= i < n + 5 + w - ping.len() ==> #[trigger] added[i] == ' '
            &&& forall|i: int| n + 5 <= i < n + 13 ==> #[trigger] removed[i] == ' '
            &&& added[n + 5 + w] == ' '
            &&& stands_at(added, n + 6 + w, told)
            &&& stands_at(removed, n + 13, told)
            &&& added.len() == n + 7 + w + told.len()
            &&& removed.len() == n + 14 + told.len()
            &&& added.last() == '\n'
            &&& removed.last() == '\n'
        }),
{
    reveal_strlit(" --- ");
    reveal_strlit(" +++ ");
    reveal_strlit(" ");
    reveal_strlit("\n");
    law_filled_texts(addr, 24, ' ');
    law_filled_texts(ping, 7, ' ');
    law_fills(' ', 7);
    let n: int = if addr.len() > 24 { addr.len() as int } else { 24 };
    let w: int = if ping.len() > 7 { ping.len() as int } else { 7 };
    let a = pad_end(addr, 24, ' ');
    let p = pad_start(ping, 7, ' ');
    assert(forall|i: int| 0 <= i < addr.len() ==> a.take(addr.len() as int)[i] == a[i]);
    assert(forall|i: int|
        0 <= i < ping.len() ==> #[trigger] p.skip(w - ping.len())[i] == p[w - ping.len() + i]);
    let added = added_line(addr, ping, told);
    assert(added == a + " +++ "@ + p + " "@ + told + "\n"@);
    assert forall|i: int| 0 <= i < ping.len() implies added[n + 5 + w - ping.len() + i]
        == #[trigger] ping[i] by {
        assert(p.skip(w - ping.len())[i] == ping[i]);
    }
}

/// A change touches what is kept of its own server alone. Where every change
/// goes out as data, nothing is kept; else an update is kept, a removal drops
/// what was kept, and a timeout changes nothing.
pub proof fn law_changes_touch_their_server_alone(
    servers: Map<SocketAddr, ServerInfo<Seq<char>>>,
    addr: SocketAddr,
    info: ServerInfo<Seq<char>>,
    other: SocketAddr,
)
    requires
        other != addr,
    ensures
        watched(true, servers, Change::Update { addr, info }) == servers,
        watched(true, servers, Change::Timeout { addr }) == servers,
        watched(true, servers, Change::Remove { addr }) == servers,
        watched(false, servers, Change::Timeout { addr }) == servers,
        watched(false, servers, Change::Update { addr, info }).get(addr) == Some(info),
        watched(false, servers, Change::Update { addr, info }).get(other) == servers.get(other),
        watched(false, servers, Change::Remove { addr }).get(addr) is None,
        watched(false, servers, Change::Remove { addr }).get(other) == servers.get(other),
{
}

/// A command is found by the first argument alone, and the others are the
/// servers to ask, where servers can be named.
pub proof fn law_commands(cli: &Cli, r: Result<Command, Error>)
    requires
        call_ensures(execute, (cli,), r),
    ensures
        ({
            let all = cli.args@.len() == 0 || cli.args@[0]@ == Seq::<char>::empty()
                || cli.args@[0]@ == seq!['a', 'l', 'l'];
            let info = cli.args@.len() > 0 && cli.args@[0]@ == seq!['i', 'n', 'f', 'o'];
            let list = cli.args@.len() > 0 && cli.args@[0]@ == seq!['l', 'i', 's', 't'];
            let monitor = cli.args@.len() > 0 && cli.args@[0]@ == seq![
                'm', 'o', 'n', 'i', 't', 'o', 'r',
            ];
            &&& r is Err <==> !all && !info && !list && !monitor
            &&& r matches Err(e) ==> e is UndefinedCommand
            &&& r == Ok::<Command, Error>(Command::List) <==> list
            &&& r == Ok::<Command, Error>(Command::Monitor) <==> monitor
            &&& r matches Ok(Command::Info { servers }) ==> {
                &&& all || info
                &&& all ==> servers@.len() == 0
                &&& info ==> servers@.len() == cli.args@.len() - 1 && forall|i: int|
                    0 <= i < servers@.len() ==> #[trigger] servers@[i] == cli.args@[i + 1]
            }
        }),
{
    reveal_strlit("");
    reveal_strlit("all");
    reveal_strlit("info");
    reveal_strlit("list");
    reveal_strlit("monitor");
    assert(""@ =~= Seq::<char>::empty());
    assert("all"@ =~= seq!['a', 'l', 'l']);
    assert("info"@ =~= seq!['i', 'n', 'f', 'o']);
    assert("list"@ =~= seq!['l', 'i', 's', 't']);
    assert("monitor"@ =~= seq!['m', 'o', 'n', 'i', 't', 'o', 'r']);
    assert("all"@.len() == 3 && "info"@.len() == 4 && "list"@.len() == 4 && "monitor"@.len() == 7);
    assert("info"@[0] != "list"@[0]);
}

} // verus!
