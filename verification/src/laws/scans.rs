//! What holds of the conversation with masters.

use crate::address::SocketAddrV6;
use crate::inquiry::{deadline, micros_between};
use crate::laws::texts::stands_at;
use crate::packet::{escaped, is_servers_reply, reply_addresses, reply_key};
use crate::scan::{complaint, invalid_key_text, invalid_packet_text, is_accepted, listed, time_left,
    Scan};
use vstd::prelude::*;

verus! {

/// What has elapsed of a wait and what is left of it add up to the time that
/// the user gave, from all of it at the beginning to nothing; after that
/// nothing is left.
pub proof fn law_wait_takes_the_whole_timeout(start: u64, timeout: u32, now: u64)
    ensures
        time_left(start, timeout, start) == Some((timeout * 1_000_000_000) as u64),
        now <= start ==> time_left(start, timeout, now) == time_left(start, timeout, start),
        start <= now <= start + timeout * 1_000_000_000 ==> time_left(start, timeout, now) is Some
            && (now - start) + time_left(start, timeout, now)->Some_0 == timeout * 1_000_000_000,
        now > start + timeout * 1_000_000_000 ==> time_left(start, timeout, now) is None,
{
}

/// A deadline lies the user's seconds after the beginning.
pub proof fn law_deadlines(now: u64, timeout: u32)
    ensures
        deadline(now, timeout) - now == timeout * 1_000_000_000,
{
}

/// A ping is the time between request and reply in whole microseconds.
pub proof fn law_pings_are_whole_microseconds(start: u64, now: u64)
    ensures
        start <= now ==> 0 <= (now - start) - micros_between(start, now) * 1000 < 1000,
        now <= start ==> micros_between(start, now) == 0,
{
}

/// A datagram counts as a list just where a master sent it, it begins as a
/// list does, and it has the key that the user gave, or none where the user
/// gave none.
pub proof fn law_what_counts_as_a_list(scan: Scan, from: SocketAddrV6, raw: Seq<u8>)
    ensures
        is_accepted(scan, from, raw) ==> exists|i: int|
            0 <= i < scan.masters@.len() && #[trigger] scan.masters@[i] == from,
        is_accepted(scan, from, raw) ==> is_servers_reply(raw),
        is_accepted(scan, from, raw) ==> (reply_key(raw) is Some <==> scan.cli.key is Some),
        is_accepted(scan, from, raw) && scan.cli.key is Some ==> reply_key(raw)->Some_0
            == scan.cli.key->Some_0,
        scan.masters@.contains(from) && is_servers_reply(raw) && reply_key(raw) is None
            && scan.cli.key is None ==> is_accepted(scan, from, raw),
        scan.masters@.contains(from) && is_servers_reply(raw) && reply_key(raw) is Some
            && scan.cli.key is Some && reply_key(raw)->Some_0 == scan.cli.key->Some_0
            ==> is_accepted(scan, from, raw),
{
}

/// An address is found just where it was found before or stands in the list
/// that counts.
pub proof fn law_what_is_found(
    scan: Scan,
    found: Set<SocketAddrV6>,
    from: SocketAddrV6,
    raw: Seq<u8>,
    a: SocketAddrV6,
)
    ensures
        listed(scan, found, from, raw).contains(a) <==> found.contains(a) || is_accepted(
            scan,
            from,
            raw,
        ) && exists|i: int|
            0 <= i < reply_addresses(raw).len() && #[trigger] reply_addresses(raw)[i] == a,
{
    let list = reply_addresses(raw);
    if exists|i: int| 0 <= i < list.len() && #[trigger] list[i] == a {
        assert(list.contains(a));
    }
}

/// A master is complained about just where what it sent does not count, and
/// nobody else ever is. The complaint about a key and that about a packet are
/// told apart by whether a list came, and name the master; the latter also
/// shows all that came, at its end.
pub proof fn law_complaints(scan: Scan, from: SocketAddrV6, name: Seq<char>, raw: Seq<u8>)
    ensures
        complaint(scan, from, name, raw) is Some <==> scan.masters@.contains(from) && !is_accepted(
            scan,
            from,
            raw,
        ),
        complaint(scan, from, name, raw) matches Some(text) ==> {
            &&& is_servers_reply(raw) ==> {
                &&& text.len() == 32 + name.len()
                &&& text.take(7) == seq!['e', 'r', 'r', 'o', 'r', ':', ' ']
                &&& stands_at(text, 31, name)
                &&& text.last() == ')'
            }
            &&& !is_servers_reply(raw) ==> {
                let shown = escaped(raw);
                &&& text.len() == 41 + name.len() + shown.len()
                &&& text.take(6) == seq!['w', 'a', 'r', 'n', ':', ' ']
                &&& stands_at(text, 33, name)
                &&& stands_at(text, name.len() + 40int, shown)
                &&& text.last() == '"'
            }
        },
{
    reveal_strlit("error: invalid key from master(");
    reveal_strlit(")");
    reveal_strlit("warn: invalid packet from master ");
    reveal_strlit(", raw \"");
    reveal_strlit("\"");
    let k = invalid_key_text(name);
    assert(k.take(7) =~= seq!['e', 'r', 'r', 'o', 'r', ':', ' ']);
    let p = invalid_packet_text(name, raw);
    assert(p.take(6) =~= seq!['w', 'a', 'r', 'n', ':', ' ']);
}

} // verus!
