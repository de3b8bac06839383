//! What holds of what servers tell and of how that is shown.

use crate::color::{joined, without_codes, Terminal};
use crate::laws::colors::{law_every_run_is_painted_and_shown, shows_pieces};
use crate::laws::law_without_colors_the_text_is_plain;
use crate::laws::texts::{law_filled_texts, law_numbers_read_back, stands_at, value};
use crate::monitor::line_shown;
use crate::packet::GetServerInfoResponse;
use crate::report::hosts_shown;
use crate::server::{flag, info_line, info_of, lossy, shown_as, unix_time, utf8_lossy, ServerInfo,
    ServerResult, ServerResultKind, SystemTime};
use crate::text::{decimal, pad_end, pad_start, plain_layout};
use vstd::prelude::*;

verus! {

/// What is kept of a reply is what the reply says under the same name, and
/// nothing else.
pub proof fn law_what_is_told_is_kept<T>(response: GetServerInfoResponse<T>)
    ensures
        ({
            let info = info_of(response);
            &&& info.gamedir == response.gamedir
            &&& info.map == response.map
            &&& info.host == response.host
            &&& info.protocol == response.protocol
            &&& info.numcl == response.numcl
            &&& info.maxcl == response.maxcl
            &&& info.dm <==> response.dm
            &&& info.team <==> response.team
            &&& info.coop <==> response.coop
            &&& info.password <==> response.password
            &&& info.dedicated <==> response.dedicated
        }),
{
}

/// Two replies are kept as the same information only if they say the same.
pub proof fn law_nothing_told_is_lost<T>(a: GetServerInfoResponse<T>, b: GetServerInfoResponse<T>)
    requires
        info_of(a) == info_of(b),
    ensures
        a == b,
{
}

/// Reading the texts of a reply leniently changes nothing but the texts, each
/// of them by itself.
pub proof fn law_lenient_reading(response: GetServerInfoResponse<Seq<u8>>)
    ensures
        ({
            let read = lossy(response);
            &&& read.gamedir == utf8_lossy(response.gamedir)
            &&& read.map == utf8_lossy(response.map)
            &&& read.host == utf8_lossy(response.host)
            &&& read.protocol == response.protocol
            &&& read.numcl == response.numcl
            &&& read.maxcl == response.maxcl
            &&& read.dm <==> response.dm
            &&& read.team <==> response.team
            &&& read.coop <==> response.coop
            &&& read.password <==> response.password
            &&& read.dedicated <==> response.dedicated
        }),
{
}

/// A time since the epoch is told in the whole seconds that it has; any time
/// before it is told as 0.
pub proof fn law_times_in_seconds(time: SystemTime, r: u64)
    requires
        call_ensures(unix_time, (&time,), r),
    ensures
        time matches SystemTime::SinceEpoch { secs, nanos } ==> r == secs,
        time matches SystemTime::BeforeEpoch { secs, nanos } ==> r == 0,
{
}

/// How many characters a text takes that is filled up to `width`.
pub open spec fn filled(text: Seq<char>, width: int) -> int {
    if text.len() > width {
        text.len() as int
    } else {
        width
    }
}

/// Where the slash, the game, the map and the name stand in the line on a
/// server, which has its properties, its players and seats, its game and its
/// map before them.
pub open spec fn slash_at(info: ServerInfo<Seq<char>>) -> int {
    6 + filled(decimal(info.numcl as nat), 2)
}

pub open spec fn game_at(info: ServerInfo<Seq<char>>) -> int {
    slash_at(info) + 2 + filled(decimal(info.maxcl as nat), 2)
}

pub open spec fn map_at(info: ServerInfo<Seq<char>>) -> int {
    game_at(info) + filled(info.gamedir, 8) + 1
}

pub open spec fn name_at(info: ServerInfo<Seq<char>>) -> int {
    map_at(info) + filled(info.map, 18) + 2
}

proof fn lemma_behind(text: Seq<char>, part: Seq<char>)
    ensures
        stands_at(text + part, text.len() as int, part),
{
}

proof fn lemma_longer(text: Seq<char>, more: Seq<char>, at: int, part: Seq<char>)
    requires
        stands_at(text, at, part),
    ensures
        stands_at(text + more, at, part),
{
}

proof fn lemma_parts(info: ServerInfo<Seq<char>>, host: Seq<char>)
    ensures
        ({
            let line = info_line(info, host);
            let players = pad_start(decimal(info.numcl as nat), 2, ' ');
            let seats = pad_end(decimal(info.maxcl as nat), 2, ' ');
            let flags = seq![
                flag('d', info.dm),
                flag('t', info.team),
                flag('c', info.coop),
                flag('p', info.password),
                flag('D', info.dedicated),
                ' ',
            ];
            &&& stands_at(line, 0, flags)
            &&& stands_at(line, 6, players)
            &&& stands_at(line, slash_at(info), seq!['/'])
            &&& stands_at(line, slash_at(info) + 1, seats)
            &&& stands_at(line, game_at(info) - 1, seq![' '])
            &&& stands_at(line, game_at(info), pad_end(info.gamedir, 8, ' '))
            &&& stands_at(line, map_at(info) - 1, seq![' '])
            &&& stands_at(line, map_at(info), pad_end(info.map, 18, ' '))
            &&& stands_at(line, name_at(info) - 2, seq![' ', '"'])
            &&& stands_at(line, name_at(info), host)
            &&& stands_at(line, name_at(info) + host.len(), seq!['"'])
            &&& line.len() == name_at(info) + host.len() + 1
        }),
{
    let players = pad_start(decimal(info.numcl as nat), 2, ' ');
    let seats = pad_end(decimal(info.maxcl as nat), 2, ' ');
    let game = pad_end(info.gamedir, 8, ' ');
    let map = pad_end(info.map, 18, ' ');
    law_filled_texts(decimal(info.numcl as nat), 2, ' ');
    law_filled_texts(decimal(info.maxcl as nat), 2, ' ');
    law_filled_texts(info.gamedir, 8, ' ');
    law_filled_texts(info.map, 18, ' ');
    let l0 = seq![
        flag('d', info.dm),
        flag('t', info.team),
        flag('c', info.coop),
        flag('p', info.password),
        flag('D', info.dedicated),
        ' ',
    ];
    let l1 = l0 + players;
    let l2 = l1 + seq!['/'];
    let l3 = l2 + seats;
    let l4 = l3 + seq![' '];
    let l5 = l4 + game;
    let l6 = l5 + seq![' '];
    let l7 = l6 + map;
    let l8 = l7 + seq![' ', '"'];
    let l9 = l8 + host;
    let l10 = l9 + seq!['"'];
    assert(info_line(info, host) == l10);
    assert(l1.len() == slash_at(info));
    assert(l4.len() == game_at(info));
    assert(l6.len() == map_at(info));
    assert(l8.len() == name_at(info));
    assert(forall|i: int| 0 <= i < l1.len() ==> l10[i] == l1[i]);
    assert(forall|i: int| 0 <= i < l4.len() ==> l10[i] == l4[i]);
    assert(forall|i: int| 0 <= i < l8.len() ==> l10[i] == l8[i]);
    lemma_behind(l0, players);
    lemma_behind(l1, seq!['/']);
    lemma_longer(l2, seats, l1.len() as int, seq!['/']);
    lemma_longer(l3, seq![' '], l1.len() as int, seq!['/']);
    lemma_behind(l2, seats);
    lemma_longer(l3, seq![' '], l2.len() as int, seats);
    lemma_behind(l3, seq![' ']);
    lemma_behind(l4, game);
    lemma_longer(l5, seq![' '], l4.len() as int, game);
    lemma_longer(l6, map, l4.len() as int, game);
    lemma_longer(l7, seq![' ', '"'], l4.len() as int, game);
    lemma_behind(l5, seq![' ']);
    lemma_longer(l6, map, l5.len() as int, seq![' ']);
    lemma_longer(l7, seq![' ', '"'], l5.len() as int, seq![' ']);
    lemma_behind(l6, map);
    lemma_longer(l7, seq![' ', '"'], l6.len() as int, map);
    lemma_behind(l7, seq![' ', '"']);
    lemma_behind(l8, host);
    lemma_longer(l9, seq!['"'], l8.len() as int, host);
    lemma_behind(l9, seq!['"']);
}

/// The line on a server shows each of its properties by a letter at that
/// property's place, and a dash just where it has not that property.
pub proof fn law_lines_tell_the_properties(info: ServerInfo<Seq<char>>, host: Seq<char>)
    ensures
        ({
            let line = info_line(info, host);
            &&& line.len() > 6
            &&& line[0] == if info.dm { 'd' } else { '-' }
            &&& line[1] == if info.team { 't' } else { '-' }
            &&& line[2] == if info.coop { 'c' } else { '-' }
            &&& line[3] == if info.password { 'p' } else { '-' }
            &&& line[4] == if info.dedicated { 'D' } else { '-' }
            &&& line[5] == ' '
        }),
{
    lemma_parts(info, host);
    let line = info_line(info, host);
    let flags = seq![
        flag('d', info.dm),
        flag('t', info.team),
        flag('c', info.coop),
        flag('p', info.password),
        flag('D', info.dedicated),
        ' ',
    ];
    assert(stands_at(line, 0, flags));
    assert(flags[0] == line[0]);
    assert(flags[1] == line[1]);
    assert(flags[2] == line[2]);
    assert(flags[3] == line[3]);
    assert(flags[4] == line[4]);
    assert(flags[5] == line[5]);
}

/// The line on a server shows the players directly before a slash and the seats
/// directly behind it, as numbers that read as theirs.
pub proof fn law_lines_tell_the_players(info: ServerInfo<Seq<char>>, host: Seq<char>)
    ensures
        ({
            let line = info_line(info, host);
            let players = decimal(info.numcl as nat);
            let seats = decimal(info.maxcl as nat);
            let slash = slash_at(info);
            &&& line[slash] == '/'
            &&& value(line.subrange(slash - players.len(), slash)) == info.numcl
            &&& forall|i: int| 6 <= i < slash - players.len() ==> #[trigger] line[i] == ' '
            &&& value(line.subrange(slash + 1, slash + 1 + seats.len())) == info.maxcl
            &&& forall|i: int|
                slash + 1 + seats.len() <= i < game_at(info) ==> #[trigger] line[i] == ' '
        }),
{
    lemma_parts(info, host);
    let line = info_line(info, host);
    let players = decimal(info.numcl as nat);
    let seats = decimal(info.maxcl as nat);
    let slash = slash_at(info);
    let p = pad_start(players, 2, ' ');
    let s = pad_end(seats, 2, ' ');
    law_filled_texts(players, 2, ' ');
    law_filled_texts(seats, 2, ' ');
    law_numbers_read_back(info.numcl as nat);
    law_numbers_read_back(info.maxcl as nat);
    assert(seq!['/'][0] == line[slash + 0]);
    assert forall|i: int| 0 <= i < players.len() implies line[slash - players.len() + i]
        == players[i] by {
        assert(p.skip(p.len() - players.len())[i] == p[p.len() - players.len() + i]);
        assert(line[6 + (p.len() - players.len() + i)] == p[p.len() - players.len() + i]);
    }
    assert(line.subrange(slash - players.len(), slash) =~= players);
    assert forall|i: int| 0 <= i < seats.len() implies line[slash + 1 + i] == seats[i] by {
        assert(s.take(seats.len() as int)[i] == s[i]);
    }
    assert(line.subrange(slash + 1, slash + 1 + seats.len()) =~= seats);
    assert forall|i: int| 6 <= i < slash - players.len() implies #[trigger] line[i] == ' ' by {
        assert(line[6 + (i - 6)] == p[i - 6]);
    }
    assert forall|i: int| slash + 1 + seats.len() <= i < game_at(info) implies #[trigger] line[i]
        == ' ' by {
        if i < game_at(info) - 1 {
            assert(line[slash + 1 + (i - slash - 1)] == s[i - slash - 1]);
        } else {
            assert(seq![' '][0] == line[game_at(info) - 1 + 0]);
        }
    }
}

/// The line on a server shows its game, its map and its name, each of them
/// whole, with blanks between them and the name in quotes at the end.
pub proof fn law_lines_tell_game_map_and_name(info: ServerInfo<Seq<char>>, host: Seq<char>)
    ensures
        ({
            let line = info_line(info, host);
            let game = game_at(info);
            let map = map_at(info);
            let name = name_at(info);
            &&& stands_at(line, game, info.gamedir)
            &&& forall|i: int| game + info.gamedir.len() <= i < map ==> #[trigger] line[i] == ' '
            &&& stands_at(line, map, info.map)
            &&& forall|i: int| map + info.map.len() <= i < name - 1 ==> #[trigger] line[i] == ' '
            &&& line[name - 1] == '"'
            &&& stands_at(line, name, host)
            &&& line.len() == name + host.len() + 1
            &&& line.last() == '"'
        }),
{
    lemma_parts(info, host);
    let line = info_line(info, host);
    let game = game_at(info);
    let map = map_at(info);
    let name = name_at(info);
    let g = pad_end(info.gamedir, 8, ' ');
    let m = pad_end(info.map, 18, ' ');
    law_filled_texts(info.gamedir, 8, ' ');
    law_filled_texts(info.map, 18, ' ');
    assert forall|i: int| 0 <= i < info.gamedir.len() implies line[game + i]
        == #[trigger] info.gamedir[i] by {
        assert(g.take(info.gamedir.len() as int)[i] == g[i]);
    }
    assert forall|i: int| 0 <= i < info.map.len() implies line[map + i] == #[trigger] info.map[i] by {
        assert(m.take(info.map.len() as int)[i] == m[i]);
    }
    assert forall|i: int| game + info.gamedir.len() <= i < map implies #[trigger] line[i] == ' ' by {
        if i < map - 1 {
            assert(line[game + (i - game)] == g[i - game]);
        } else {
            assert(seq![' '][0] == line[map - 1 + 0]);
        }
    }
    assert(seq![' ', '"'][0] == line[name - 2 + 0]);
    assert(seq![' ', '"'][1] == line[name - 2 + 1]);
    assert forall|i: int| map + info.map.len() <= i < name - 1 implies #[trigger] line[i] == ' ' by {
        if i < name - 2 {
            assert(line[map + (i - map)] == m[i - map]);
        }
    }
    assert(seq!['"'][0] == line[name + host.len() + 0]);
}

/// A name is shown without its colour codes where colours cannot be shown, and
/// not at all where they could be and there is nobody to see them.
pub proof fn law_names_as_they_are_shown(
    host: Seq<char>,
    forced: bool,
    out: Terminal,
    shown: Seq<char>,
)
    requires
        shown_as(host, forced, out, shown),
    ensures
        !out.color ==> shown == without_codes(host),
        out.color && !forced && !out.tty ==> shown.len() == 0,
        out.color && (forced || out.tty) ==> exists|pieces: Seq<String>| #[trigger]
            shows_pieces(host, plain_layout(), shown, pieces) && shown == joined(pieces),
{
    if !out.color {
        law_without_colors_the_text_is_plain(host, forced, out, plain_layout(), shown);
    } else if forced || out.tty {
        law_every_run_is_painted_and_shown(host, forced, out, plain_layout(), shown);
        let pieces = choose|pieces: Seq<String>| #[trigger]
            shows_pieces(host, plain_layout(), shown, pieces);
        assert(shown =~= joined(pieces));
        assert(shows_pieces(host, plain_layout(), shown, pieces) && shown == joined(pieces));
    }
}

/// In a report and in the line of the monitor every server that told of itself
/// is shown under its own name, as that can be shown.
pub proof fn law_own_names_are_shown(
    results: Seq<ServerResult>,
    forced: bool,
    out: Terminal,
    hosts: Seq<Seq<char>>,
    i: int,
    info: ServerInfo<Seq<char>>,
    line: Seq<char>,
)
    ensures
        hosts_shown(results, forced, out, hosts) && 0 <= i < results.len() ==> hosts.len()
            == results.len() && (results[i].kind matches ServerResultKind::Info { info: told }
            ==> shown_as(told.host@, forced, out, hosts[i])),
        line_shown(info, forced, out, line) ==> exists|host: Seq<char>|
            shown_as(info.host, forced, out, host) && line == #[trigger] info_line(info, host),
{
    if hosts_shown(results, forced, out, hosts) && 0 <= i < results.len() {
        let result = results[i];
    }
}

} // verus!
