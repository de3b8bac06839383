//! What every single event does to an inquiry.

use crate::address::SocketAddrV6;
use crate::inquiry::{ask_step, asked_with, fresh, lemma_fresh, InquiryView, StepView};
use crate::packet::{escaped, get_server_info_packet, is_servers_reply, reply_addresses,
    server_info_decoded, GetServerInfoResponse, ProtocolError};
use crate::scan::{invalid_key_text, is_accepted, Scan};
use crate::server::{ServerResultKind, SystemTime};
use vstd::prelude::*;

verus! {

/// At the beginning no server is known, and masters and servers have the time
/// that the user gave each of them.
pub proof fn law_inquiries_begin_empty(scan: Scan, now: u64, a: SocketAddrV6)
    ensures
        ({
            let s = InquiryView::init(scan, now);
            &&& !s.seen.contains(a)
            &&& !s.asked.contains_key(a)
            &&& !s.active.contains_key(a)
            &&& !s.out.contains_key(a)
            &&& s.master_end - now == scan.cli.master_timeout * 1_000_000_000
            &&& s.server_end - now == scan.cli.server_timeout * 1_000_000_000
        }),
{
}

/// Of servers that come up, just those that were not known are about to be
/// asked, in the first protocol version. All of them are known afterwards, and
/// nothing else changes.
pub proof fn law_new_servers_are_about_to_be_asked(
    s: InquiryView,
    list: Seq<SocketAddrV6>,
    a: SocketAddrV6,
)
    ensures
        ({
            let n = s.add(list);
            &&& n.seen.contains(a) <==> s.seen.contains(a) || list.contains(a)
            &&& list.contains(a) && !s.seen.contains(a) ==> n.asked.contains_key(a) && n.asked[a]
                == 0
            &&& !list.contains(a) || s.seen.contains(a) ==> n.asked.contains_key(a)
                == s.asked.contains_key(a) && (s.asked.contains_key(a) ==> n.asked[a] == s.asked[a])
            &&& n.active == s.active
            &&& n.out == s.out
            &&& n.master_end == s.master_end
            &&& n.server_end == s.server_end
        }),
{
    lemma_fresh(s.seen, list);
    assert(fresh(s.seen, list).contains(a) <==> list.contains(a) && !s.seen.contains(a));
    assert(list.to_set().contains(a) <==> list.contains(a));
}

/// Servers that come up are asked in the order in which they first come up: of
/// two of them, the one that is asked first stands in the list before the other
/// one does.
pub proof fn law_new_servers_keep_their_order(
    seen: Set<SocketAddrV6>,
    list: Seq<SocketAddrV6>,
    i: int,
    j: int,
)
    requires
        0 <= i < j < fresh(seen, list).len(),
    ensures
        exists|p: int|
            0 <= p < list.len() && #[trigger] list[p] == fresh(seen, list)[i] && !list.take(
                p + 1,
            ).contains(fresh(seen, list)[j]),
    decreases list.len(),
{
    let init = list.drop_last();
    let fewer = fresh(seen, init);
    lemma_fresh(seen, init);
    lemma_fresh(seen, list);
    if j < fewer.len() {
        law_new_servers_keep_their_order(seen, init, i, j);
        let p = choose|p: int|
            0 <= p < init.len() && #[trigger] init[p] == fewer[i] && !init.take(p + 1).contains(
                fewer[j],
            );
        assert(list[p] == init[p]);
        assert(list.take(p + 1) =~= init.take(p + 1));
    } else {
        assert(fresh(seen, list) == fewer.push(list.last()));
        assert(fewer.contains(fewer[i]));
        let p = choose|p: int| 0 <= p < init.len() && init[p] == fewer[i];
        assert(list[p] == init[p]);
        if list.take(p + 1).contains(list.last()) {
            let front = list.take(p + 1);
            let q = choose|q: int| 0 <= q < front.len() && front[q] == list.last();
            assert(init[q] == list.last());
        }
    }
}

/// A request that went out is awaited from then on, in the version that was
/// noted; one that did not is the server's result. Only the first request to a
/// server moves the end of the wait, to the user's time from then on.
pub proof fn law_requests(
    scan: Scan,
    s: InquiryView,
    address: SocketAddrV6,
    message: Seq<char>,
    now: u64,
    time: SystemTime,
    other: SocketAddrV6,
)
    requires
        s.asked.contains_key(address),
        other != address,
    ensures
        ({
            let n = s.sent(scan, address, Ok(()), now, time);
            &&& !n.asked.contains_key(address)
            &&& n.active.contains_key(address)
            &&& n.active[address].start == now
            &&& n.active[address].protocol == s.asked[address]
            &&& n.out == s.out
            &&& n.seen == s.seen
            &&& n.master_end == s.master_end
            &&& s.asked[address] == 0 ==> n.server_end - now == scan.cli.server_timeout
                * 1_000_000_000
            &&& s.asked[address] != 0 ==> n.server_end == s.server_end
            &&& n.asked.contains_key(other) == s.asked.contains_key(other)
            &&& s.asked.contains_key(other) ==> n.asked[other] == s.asked[other]
            &&& n.active.contains_key(other) == s.active.contains_key(other)
            &&& s.active.contains_key(other) ==> n.active[other] == s.active[other]
        }),
        ({
            let n = s.sent(scan, address, Err(message), now, time);
            &&& !n.asked.contains_key(address)
            &&& n.out.contains_key(address)
            &&& n.out[address].address == address
            &&& n.out[address].time == time
            &&& n.out[address].ping is None
            &&& n.out[address].kind matches ServerResultKind::Error { message: m } && m == message
            &&& n.active == s.active
            &&& n.seen == s.seen
            &&& n.master_end == s.master_end
            &&& n.server_end == s.server_end
            &&& n.asked.contains_key(other) == s.asked.contains_key(other)
            &&& s.asked.contains_key(other) ==> n.asked[other] == s.asked[other]
            &&& n.out.contains_key(other) == s.out.contains_key(other)
            &&& s.out.contains_key(other) ==> n.out[other] == s.out[other]
        }),
{
}

/// A reply ends the wait for its server, whatever it says, and touches no other
/// server and no end of a wait.
pub proof fn law_replies_touch_their_server_alone(
    scan: Scan,
    s: InquiryView,
    from: SocketAddrV6,
    reply: Result<GetServerInfoResponse<Seq<char>>, ProtocolError<Seq<char>>>,
    raw: Seq<u8>,
    now: u64,
    time: SystemTime,
    other: SocketAddrV6,
)
    requires
        other != from,
    ensures
        ({
            let n = s.replied(scan, from, reply, raw, now, time);
            &&& !n.active.contains_key(from)
            &&& !s.active.contains_key(from) ==> n == s
            &&& n.seen == s.seen
            &&& n.master_end == s.master_end
            &&& n.server_end == s.server_end
            &&& n.asked.contains_key(other) == s.asked.contains_key(other)
            &&& s.asked.contains_key(other) ==> n.asked[other] == s.asked[other]
            &&& n.active.contains_key(other) == s.active.contains_key(other)
            &&& s.active.contains_key(other) ==> n.active[other] == s.active[other]
            &&& n.out.contains_key(other) == s.out.contains_key(other)
            &&& s.out.contains_key(other) ==> n.out[other] == s.out[other]
        }),
{
}

/// What a server tells of itself is its result, with the time that the reply
/// took: each property, number and text under its own name.
pub proof fn law_information_is_the_result(
    scan: Scan,
    s: InquiryView,
    from: SocketAddrV6,
    response: GetServerInfoResponse<Seq<char>>,
    raw: Seq<u8>,
    now: u64,
    time: SystemTime,
)
    requires
        s.active.contains_key(from),
        s.active[from].start <= now,
    ensures
        ({
            let n = s.replied(scan, from, Ok(response), raw, now, time);
            let result = n.out[from];
            &&& n.out.contains_key(from)
            &&& n.asked == s.asked
            &&& result.address == from
            &&& result.time == time
            &&& result.ping is Some
            &&& 0 <= (now - s.active[from].start) - result.ping->Some_0 * 1000 < 1000
            &&& result.kind matches ServerResultKind::Info { info }
            &&& info.gamedir == response.gamedir
            &&& info.map == response.map
            &&& info.host == response.host
            &&& info.protocol == response.protocol
            &&& info.numcl == response.numcl
            &&& info.maxcl == response.maxcl
            &&& info.dm == response.dm
            &&& info.team == response.team
            &&& info.coop == response.coop
            &&& info.password == response.password
            &&& info.dedicated == response.dedicated
        }),
        s.replied_step(scan, from, Ok(response)) is Wait,
{
}

/// A server that turns a version down is asked in the next one that the user
/// gave; if there is none, that is its result, with the time that the reply
/// took.
pub proof fn law_next_version_is_tried(
    scan: Scan,
    s: InquiryView,
    from: SocketAddrV6,
    raw: Seq<u8>,
    now: u64,
    time: SystemTime,
)
    requires
        s.active.contains_key(from),
        s.active[from].start <= now,
    ensures
        ({
            let no = Err::<GetServerInfoResponse<Seq<char>>, ProtocolError<Seq<char>>>(
                ProtocolError::InvalidProtocolVersion,
            );
            let n = s.replied(scan, from, no, raw, now, time);
            let step = s.replied_step(scan, from, no);
            let next = s.active[from].protocol + 1;
            &&& next < scan.cli.protocol@.len() ==> {
                &&& n.asked.contains_key(from)
                &&& n.asked[from] == next
                &&& n.out == s.out
                &&& step matches StepView::Ask { servers, packet }
                &&& servers.len() == 1
                &&& servers[0] == from
                &&& packet == get_server_info_packet(scan.cli.protocol@[next])
            }
            &&& next >= scan.cli.protocol@.len() ==> {
                &&& n.asked == s.asked
                &&& n.out.contains_key(from)
                &&& n.out[from].kind is Protocol
                &&& n.out[from].address == from
                &&& n.out[from].time == time
                &&& n.out[from].ping is Some
                &&& 0 <= (now - s.active[from].start) - n.out[from].ping->Some_0 * 1000 < 1000
                &&& step is Wait
            }
        }),
{
    let versions = scan.cli.protocol.len();
    assert(versions == scan.cli.protocol@.len());
}

/// A reply that cannot be read is kept as the server's result, with the reason
/// and all of its bytes in words.
pub proof fn law_unreadable_replies_are_kept(
    scan: Scan,
    s: InquiryView,
    from: SocketAddrV6,
    reason: Seq<char>,
    raw: Seq<u8>,
    now: u64,
    time: SystemTime,
)
    requires
        s.active.contains_key(from),
        s.active[from].start <= now,
    ensures
        ({
            let unread = Err::<GetServerInfoResponse<Seq<char>>, ProtocolError<Seq<char>>>(
                ProtocolError::Other(reason),
            );
            let n = s.replied(scan, from, unread, raw, now, time);
            let result = n.out[from];
            &&& n.out.contains_key(from)
            &&& n.asked == s.asked
            &&& result.address == from
            &&& result.time == time
            &&& result.ping is Some
            &&& 0 <= (now - s.active[from].start) - result.ping->Some_0 * 1000 < 1000
            &&& result.kind matches ServerResultKind::Invalid { message, response }
            &&& message == reason
            &&& response == escaped(raw)
            &&& s.replied_step(scan, from, unread) is Wait
        }),
{
}

/// A datagram is a master's list just where a master sent it and it begins as
/// one; then, with the right key, its new servers are asked in the first
/// version, and with a wrong one the master is complained about and nothing
/// changes. All else, from a master too, is the reply of a server.
pub proof fn law_datagrams(
    scan: Scan,
    s: InquiryView,
    from: SocketAddrV6,
    name: Seq<char>,
    raw: Seq<u8>,
    now: u64,
    time: SystemTime,
)
    ensures
        ({
            let n = s.received(scan, from, raw, now, time);
            let step = s.received_step(scan, from, name, raw);
            let list = scan.masters@.contains(from) && is_servers_reply(raw);
            &&& list && is_accepted(scan, from, raw) ==> {
                &&& n == s.add(reply_addresses(raw))
                &&& step is Wait || step is Ask
                &&& step is Wait <==> fresh(s.seen, reply_addresses(raw)).len() == 0
                &&& step matches StepView::Ask { servers, packet } ==> {
                    &&& servers == fresh(s.seen, reply_addresses(raw))
                    &&& packet == get_server_info_packet(scan.cli.protocol@[0])
                }
            }
            &&& list && !is_accepted(scan, from, raw) ==> {
                &&& n == s
                &&& step matches StepView::Complain { message }
                &&& message == invalid_key_text(name)
            }
            &&& !list ==> {
                &&& n == s.replied(scan, from, server_info_decoded(raw), raw, now, time)
                &&& step == s.replied_step(scan, from, server_info_decoded(raw))
            }
        }),
{
}

/// The step that has servers asked sends all of them, and nobody else, the
/// request in the version that is meant; for no servers nothing is sent.
pub proof fn law_steps_that_ask(scan: Scan, servers: Seq<SocketAddrV6>, protocol: int)
    ensures
        servers.len() == 0 <==> ask_step(scan, servers, protocol) is Wait,
        servers.len() > 0 ==> (ask_step(scan, servers, protocol) matches StepView::Ask {
            servers: asked,
            packet,
        } && asked == servers && packet == get_server_info_packet(scan.cli.protocol@[protocol])),
{
}

/// In the end a server that is still awaited has timed out, without a ping, and
/// every other result is the one that was noted; nobody else has one.
pub proof fn law_results_at_the_end(s: InquiryView, time: SystemTime, a: SocketAddrV6)
    ensures
        ({
            let results = s.results(time);
            &&& results.contains_key(a) <==> s.active.contains_key(a) || s.out.contains_key(a)
            &&& s.active.contains_key(a) ==> {
                &&& results[a].kind is Timeout
                &&& results[a].address == a
                &&& results[a].time == time
                &&& results[a].ping is None
            }
            &&& s.out.contains_key(a) && !s.active.contains_key(a) ==> results[a] == s.out[a]
        }),
{
}

/// Having servers asked notes each of them with the version, and leaves what is
/// noted of others.
pub proof fn law_what_is_noted(
    asked: Map<SocketAddrV6, usize>,
    servers: Seq<SocketAddrV6>,
    protocol: usize,
    a: SocketAddrV6,
)
    ensures
        ({
            let n = asked_with(asked, servers, protocol);
            &&& servers.contains(a) ==> n.contains_key(a) && n[a] == protocol
            &&& !servers.contains(a) ==> n.contains_key(a) == asked.contains_key(a) && (
            asked.contains_key(a) ==> n[a] == asked[a])
        }),
{
}

} // verus!
