//! What holds of the library as a whole.

use crate::address::{SocketAddr, SocketAddrV6};
use crate::color::{codes_len, first_run, first_run_len, lemma_run_lens, padded_runs, plain_len,
    renders, runs, starts_with_code, without_codes, RunView, Terminal};
use crate::inquiry::{fresh, lemma_fresh, InquiryView, StepView};
use crate::monitor::{watched, Change};
use crate::packet::{addresses, big_endian, get_server_info_packet, has_key, is_servers_reply,
    limit, record_address, reply_addresses, reply_key, server_info_decoded, servers_header};
use crate::scan::{is_accepted, listed, time_left, Scan};
use crate::server::{ServerInfo, SystemTime};
use crate::text::Layout;
use vstd::prelude::*;

pub mod addresses;
pub mod calls;
pub mod colors;
pub mod inquiries;
pub mod packets;
pub mod reports;
pub mod scans;
pub mod servers;
pub mod texts;
pub mod views;

verus! {

/// Something that happens while game servers are asked.
pub enum Event {
    /// The user names servers.
    Named { list: Seq<SocketAddrV6> },
    /// The attempt to ask a server has an outcome.
    Sent { address: SocketAddrV6, outcome: Result<(), Seq<char>>, now: u64, time: SystemTime },
    /// A datagram comes in.
    Received { from: SocketAddrV6, raw: Seq<u8>, now: u64, time: SystemTime },
}

/// The servers that an event brings up.
pub open spec fn brought_up(scan: Scan, e: Event) -> Seq<SocketAddrV6> {
    match e {
        Event::Named { list } => list,
        Event::Received { from, raw, .. } if is_accepted(scan, from, raw) => reply_addresses(raw),
        _ => seq![],
    }
}

/// What is known after an event.
pub open spec fn after(scan: Scan, s: InquiryView, e: Event) -> InquiryView {
    match e {
        Event::Named { list } => s.add(list),
        Event::Sent { address, outcome, now, time } => s.sent(scan, address, outcome, now, time),
        Event::Received { from, raw, now, time } => s.received(scan, from, raw, now, time),
    }
}

/// Whether an event can happen: only who is about to be asked is asked, and
/// nobody can be asked without any protocol version.
pub open spec fn can_happen(scan: Scan, s: InquiryView, e: Event) -> bool {
    &&& e is Sent ==> s.asked.contains_key(e->Sent_address)
    &&& fresh(s.seen, brought_up(scan, e)).len() > 0 ==> scan.cli.protocol@.len() > 0
}

/// What is known after many events.
pub open spec fn run(scan: Scan, s: InquiryView, events: Seq<Event>) -> InquiryView
    decreases events.len(),
{
    if events.len() == 0 {
        s
    } else {
        after(scan, run(scan, s, events.drop_last()), events.last())
    }
}

/// Whether events can happen one after the other.
pub open spec fn can_run(scan: Scan, s: InquiryView, events: Seq<Event>) -> bool
    decreases events.len(),
{
    events.len() > 0 ==> can_run(scan, s, events.drop_last()) && can_happen(
        scan,
        run(scan, s, events.drop_last()),
        events.last(),
    )
}

/// The servers that events bring up.
pub open spec fn all_brought_up(scan: Scan, events: Seq<Event>) -> Set<SocketAddrV6>
    decreases events.len(),
{
    if events.len() == 0 {
        Set::empty()
    } else {
        all_brought_up(scan, events.drop_last()).union(brought_up(scan, events.last()).to_set())
    }
}

/// The protocol versions, by their place in the user's list, in which the
/// server at `a` is asked in the course of events.
pub open spec fn versions_asked(
    scan: Scan,
    s: InquiryView,
    events: Seq<Event>,
    a: SocketAddrV6,
) -> Seq<usize>
    decreases events.len(),
{
    if events.len() == 0 {
        seq![]
    } else {
        let earlier = versions_asked(scan, s, events.drop_last(), a);
        let before = run(scan, s, events.drop_last());
        let now = run(scan, s, events);
        if !before.asked.contains_key(a) && now.asked.contains_key(a) {
            earlier.push(now.asked[a])
        } else {
            earlier
        }
    }
}

proof fn lemma_after_wf(scan: Scan, s: InquiryView, e: Event)
    requires
        s.wf(scan.cli.protocol@.len()),
        can_happen(scan, s, e),
    ensures
        after(scan, s, e).wf(scan.cli.protocol@.len()),
{
    let protocols = scan.cli.protocol@.len();
    match e {
        Event::Named { list } => {
            s.lemma_add(list, protocols);
        },
        Event::Sent { address, outcome, now, time } => {
            s.lemma_sent(scan, address, outcome, now, time, protocols);
        },
        Event::Received { from, raw, now, time } => {
            if is_accepted(scan, from, raw) {
                s.lemma_add(reply_addresses(raw), protocols);
            } else {
                s.lemma_replied(scan, from, server_info_decoded(raw), raw, now, time);
            }
        },
    }
}

/// However events come, every server that has come up is about to be asked,
/// awaited or done with, and only one of these.
pub proof fn law_servers_are_in_one_place(scan: Scan, now: u64, events: Seq<Event>)
    requires
        can_run(scan, InquiryView::init(scan, now), events),
    ensures
        run(scan, InquiryView::init(scan, now), events).wf(scan.cli.protocol@.len()),
    decreases events.len(),
{
    if events.len() > 0 {
        law_servers_are_in_one_place(scan, now, events.drop_last());
        lemma_after_wf(
            scan,
            run(scan, InquiryView::init(scan, now), events.drop_last()),
            events.last(),
        );
    }
}

/// However events come, a server that has not come up is nowhere, and one that
/// has is in just one of three places: about to be asked, awaited, or done with.
/// One that is asked or awaited has been so in a version that the user gave,
/// and one that is done with has a result under its own address.
pub proof fn law_each_server_is_in_one_place(
    scan: Scan,
    now: u64,
    events: Seq<Event>,
    a: SocketAddrV6,
)
    requires
        can_run(scan, InquiryView::init(scan, now), events),
    ensures
        ({
            let s = run(scan, InquiryView::init(scan, now), events);
            let places = (if s.asked.contains_key(a) {
                1int
            } else {
                0
            }) + (if s.active.contains_key(a) {
                1int
            } else {
                0
            }) + (if s.out.contains_key(a) {
                1int
            } else {
                0
            });
            &&& s.seen.contains(a) ==> places == 1
            &&& !s.seen.contains(a) ==> places == 0
            &&& s.asked.contains_key(a) ==> s.asked[a] < scan.cli.protocol@.len()
            &&& s.active.contains_key(a) ==> s.active[a].protocol < scan.cli.protocol@.len()
            &&& s.out.contains_key(a) ==> s.out[a].address == a
        }),
{
    law_servers_are_in_one_place(scan, now, events);
    let s = run(scan, InquiryView::init(scan, now), events);
    assert(s.seen.contains(a) <==> s.asked.contains_key(a) || s.active.contains_key(a)
        || s.out.contains_key(a));
}

/// The servers that have come up are those that the user named and those that
/// the masters listed with the right key, and no others.
pub proof fn law_seen_is_what_was_brought_up(scan: Scan, now: u64, events: Seq<Event>)
    requires
        can_run(scan, InquiryView::init(scan, now), events),
    ensures
        run(scan, InquiryView::init(scan, now), events).seen == all_brought_up(scan, events),
    decreases events.len(),
{
    let start = InquiryView::init(scan, now);
    if events.len() > 0 {
        law_seen_is_what_was_brought_up(scan, now, events.drop_last());
        let s = run(scan, start, events.drop_last());
        let up = brought_up(scan, events.last());
        if up.len() == 0 {
            assert(up.to_set() =~= Set::empty());
        }
        assert(s.seen.union(Set::empty()) =~= s.seen);
        match events.last() {
            Event::Received { from, raw, now, time } => {
                if !is_accepted(scan, from, raw) {
                    assert(up =~= seq![]);
                }
            },
            Event::Sent { .. } => {
                assert(up =~= seq![]);
            },
            Event::Named { .. } => {},
        }
    }
}

/// Once every server that was to be asked has been, each server that has come
/// up has a result of its own, and nobody else has one.
pub proof fn law_every_server_has_a_result(
    scan: Scan,
    now: u64,
    events: Seq<Event>,
    time: SystemTime,
)
    requires
        can_run(scan, InquiryView::init(scan, now), events),
        run(scan, InquiryView::init(scan, now), events).asked.dom() == Set::<SocketAddrV6>::empty(),
    ensures
        ({
            let results = run(scan, InquiryView::init(scan, now), events).results(time);
            &&& results.dom() == all_brought_up(scan, events)
            &&& forall|a: SocketAddrV6| #[trigger]
                results.contains_key(a) ==> results[a].address == a && !(results[a].kind is Remove)
        }),
{
    law_servers_are_in_one_place(scan, now, events);
    law_seen_is_what_was_brought_up(scan, now, events);
    let s = run(scan, InquiryView::init(scan, now), events);
    let results = s.results(time);
    assert forall|a: SocketAddrV6| #[trigger] results.dom().contains(a) <==> s.seen.contains(
        a,
    ) by {
        assert(!s.asked.dom().contains(a));
    }
    assert(results.dom() =~= s.seen);
    assert forall|a: SocketAddrV6| #[trigger] results.contains_key(a) implies results[a].address
        == a && !(results[a].kind is Remove) by {
        if !s.active.contains_key(a) {
            assert(s.out.contains_key(a));
        }
    }
}

/// A result stands: no event changes what came of a server.
pub proof fn law_results_are_final(scan: Scan, s: InquiryView, events: Seq<Event>)
    requires
        s.wf(scan.cli.protocol@.len()),
        can_run(scan, s, events),
    ensures
        run(scan, s, events).wf(scan.cli.protocol@.len()),
        s.out.submap_of(run(scan, s, events).out),
    decreases events.len(),
{
    if events.len() > 0 {
        law_results_are_final(scan, s, events.drop_last());
        let before = run(scan, s, events.drop_last());
        lemma_after_wf(scan, before, events.last());
        let now = run(scan, s, events);
        assert forall|a: SocketAddrV6| before.out.contains_key(a) implies now.out.contains_key(a)
            && now.out[a] == before.out[a] by {
            assert(!before.active.contains_key(a) && !before.asked.contains_key(a));
        }
    }
}

/// A result has a ping just where a reply came in, and tells of a timeout just
/// where a reply is still awaited.
pub proof fn law_pings_tell_replies(scan: Scan, now: u64, events: Seq<Event>, time: SystemTime)
    requires
        can_run(scan, InquiryView::init(scan, now), events),
    ensures
        ({
            let s = run(scan, InquiryView::init(scan, now), events);
            let results = s.results(time);
            forall|a: SocketAddrV6| #[trigger]
                results.contains_key(a) ==> {
                    &&& results[a].ping is Some <==> results[a].kind is Info
                        || results[a].kind is Invalid || results[a].kind is Protocol
                    &&& results[a].kind is Timeout <==> s.active.contains_key(a)
                }
        }),
    decreases events.len(),
{
    let start = InquiryView::init(scan, now);
    let s = run(scan, start, events);
    if events.len() > 0 {
        law_pings_tell_replies(scan, now, events.drop_last(), time);
        law_servers_are_in_one_place(scan, now, events.drop_last());
        law_servers_are_in_one_place(scan, now, events);
        let before = run(scan, start, events.drop_last());
        assert forall|a: SocketAddrV6| #[trigger] s.results(time).contains_key(a) implies {
            let result = s.results(time)[a];
            &&& result.ping is Some <==> result.kind is Info || result.kind is Invalid
                || result.kind is Protocol
            &&& result.kind is Timeout <==> s.active.contains_key(a)
        } by {
            if !s.active.contains_key(a) {
                assert(s.out.contains_key(a));
                if before.out.contains_key(a) {
                    assert(!before.active.contains_key(a) && !before.asked.contains_key(a));
                    assert(before.results(time).contains_key(a));
                }
            }
        }
    }
}

/// A server is asked in the protocol versions in the user's order, in each of
/// them once: first in the first, then, as long as it turns them down, in the
/// next.
pub proof fn law_versions_are_tried_in_order(
    scan: Scan,
    now: u64,
    events: Seq<Event>,
    a: SocketAddrV6,
)
    requires
        can_run(scan, InquiryView::init(scan, now), events),
    ensures
        ({
            let asked = versions_asked(scan, InquiryView::init(scan, now), events, a);
            let s = run(scan, InquiryView::init(scan, now), events);
            &&& asked.len() <= scan.cli.protocol@.len()
            &&& forall|i: int| 0 <= i < asked.len() ==> #[trigger] asked[i] == i
            &&& !s.seen.contains(a) ==> asked.len() == 0
            &&& s.asked.contains_key(a) ==> asked.len() == s.asked[a] + 1
            &&& s.active.contains_key(a) ==> asked.len() == s.active[a].protocol + 1
            &&& s.out.contains_key(a) ==> asked.len() > 0
        }),
    decreases events.len(),
{
    if events.len() > 0 {
        let start = InquiryView::init(scan, now);
        law_versions_are_tried_in_order(scan, now, events.drop_last(), a);
        law_servers_are_in_one_place(scan, now, events.drop_last());
        law_servers_are_in_one_place(scan, now, events);
        let before = run(scan, start, events.drop_last());
        let e = events.last();
        let up = brought_up(scan, e);
        lemma_fresh(before.seen, up);
        let s = run(scan, start, events);
        assert(before.seen.contains(a) <==> before.asked.contains_key(a)
            || before.active.contains_key(a) || before.out.contains_key(a));
        assert(s.seen.contains(a) <==> s.asked.contains_key(a) || s.active.contains_key(a)
            || s.out.contains_key(a));
        let asked_up = fresh(before.seen, up);
        assert(asked_up.contains(a) <==> up.contains(a) && !before.seen.contains(a));
        let earlier = versions_asked(scan, start, events.drop_last(), a);
        match e {
            Event::Named { list } => {
                assert(s.asked.contains_key(a) <==> before.asked.contains_key(a)
                    || asked_up.contains(a));
            },
            Event::Sent { address, outcome, now, time } => {
                assert(s.asked.contains_key(a) ==> before.asked.contains_key(a));
            },
            Event::Received { from, raw, now, time } => {
                if is_accepted(scan, from, raw) {
                    assert(s.asked.contains_key(a) <==> before.asked.contains_key(a)
                        || asked_up.contains(a));
                } else if a != from {
                    assert(s.asked.contains_key(a) == before.asked.contains_key(a));
                } else if before.active.contains_key(a) {
                    assert(before.active[a].protocol < scan.cli.protocol.len());
                    assert(s.asked.contains_key(a) ==> s.asked[a] == before.active[a].protocol + 1);
                }
            },
        }
        assert(s.asked.contains_key(a) && !before.asked.contains_key(a) ==> s.asked[a]
            == earlier.len());
    }
}

/// A server that is known is not asked because it comes up again.
pub proof fn law_known_servers_are_not_asked_again(
    s: InquiryView,
    list: Seq<SocketAddrV6>,
    a: SocketAddrV6,
)
    requires
        s.seen.contains(a),
    ensures
        !fresh(s.seen, list).contains(a),
        s.add(list).asked.contains_key(a) == s.asked.contains_key(a),
        s.asked.contains_key(a) ==> s.add(list).asked[a] == s.asked[a],
{
    lemma_fresh(s.seen, list);
}

/// A step has just those servers asked that are about to be, each in the
/// protocol version that is noted for it.
pub proof fn law_step_asks_who_is_about_to_be_asked(
    scan: Scan,
    s: InquiryView,
    from: SocketAddrV6,
    from_text: Seq<char>,
    raw: Seq<u8>,
    now: u64,
    time: SystemTime,
)
    requires
        s.wf(scan.cli.protocol@.len()),
    ensures
        ({
            let next = s.received(scan, from, raw, now, time);
            match s.received_step(scan, from, from_text, raw) {
                StepView::Ask { servers, packet } => {
                    &&& servers.len() > 0
                    &&& forall|a: SocketAddrV6| #[trigger]
                        next.asked.contains_key(a) <==> s.asked.contains_key(a) || servers.contains(
                            a,
                        )
                    &&& forall|a: SocketAddrV6|
                        servers.contains(a) ==> packet == get_server_info_packet(
                            scan.cli.protocol@[#[trigger] next.asked[a] as int],
                        )
                },
                _ => next.asked == s.asked,
            }
        }),
{
    let next = s.received(scan, from, raw, now, time);
    let list = reply_addresses(raw);
    lemma_fresh(s.seen, list);
    if is_accepted(scan, from, raw) {
        if fresh(s.seen, list).len() == 0 {
            assert(next.asked =~= s.asked);
        }
    } else if s.is_retry(scan, from, server_info_decoded(raw)) {
        let servers = seq![from];
        assert(servers[0] == from);
        assert(s.active[from].protocol < scan.cli.protocol.len());
        if !(scan.masters@.contains(from) && is_servers_reply(raw)) {
            assert(next.asked =~= s.asked.insert(
                from,
                (s.active[from].protocol + 1) as usize,
            ));
            assert forall|a: SocketAddrV6| #[trigger] next.asked.contains_key(a)
                <==> s.asked.contains_key(a) || servers.contains(a) by {}
        }
    }
}

/// Who has nothing to say changes nothing: a datagram counts only if it is a
/// master's list with the right key or comes from a server that is awaited.
pub proof fn law_others_change_nothing(
    scan: Scan,
    s: InquiryView,
    from: SocketAddrV6,
    from_text: Seq<char>,
    raw: Seq<u8>,
    now: u64,
    time: SystemTime,
)
    requires
        !is_accepted(scan, from, raw),
        !s.active.contains_key(from) || scan.masters@.contains(from) && is_servers_reply(raw),
    ensures
        s.received(scan, from, raw, now, time) == s,
        !(s.received_step(scan, from, from_text, raw) is Ask),
        forall|found: Set<SocketAddrV6>| #[trigger] listed(scan, found, from, raw) == found,
{
}

/// The masters' lists can come in any order, and more than once.
pub proof fn law_lists_come_in_any_order(
    scan: Scan,
    found: Set<SocketAddrV6>,
    from1: SocketAddrV6,
    raw1: Seq<u8>,
    from2: SocketAddrV6,
    raw2: Seq<u8>,
)
    ensures
        listed(scan, listed(scan, found, from1, raw1), from2, raw2) == listed(
            scan,
            listed(scan, found, from2, raw2),
            from1,
            raw1,
        ),
        listed(scan, listed(scan, found, from1, raw1), from1, raw1) == listed(
            scan,
            found,
            from1,
            raw1,
        ),
        found.subset_of(listed(scan, found, from1, raw1)),
{
    assert(listed(scan, listed(scan, found, from1, raw1), from2, raw2) =~= listed(
        scan,
        listed(scan, found, from2, raw2),
        from1,
        raw1,
    ));
    assert(listed(scan, listed(scan, found, from1, raw1), from1, raw1) =~= listed(
        scan,
        found,
        from1,
        raw1,
    ));
}

/// The wait for the masters only gets shorter, and once over it stays so.
pub proof fn law_wait_gets_shorter(start: u64, timeout: u32, now: u64, later: u64)
    requires
        now <= later,
    ensures
        time_left(start, timeout, now) is None ==> time_left(start, timeout, later) is None,
        time_left(start, timeout, later) is Some ==> time_left(start, timeout, later)->Some_0
            <= time_left(start, timeout, now)->Some_0,
{
}

/// Only the first request to a server makes the wait for servers longer, and
/// nothing the wait for masters.
pub proof fn law_only_first_requests_prolong_the_wait(scan: Scan, s: InquiryView, e: Event)
    ensures
        after(scan, s, e).master_end == s.master_end,
        !(e is Sent && e->Sent_outcome is Ok && s.asked[e->Sent_address] == 0) ==> after(
            scan,
            s,
            e,
        ).server_end == s.server_end,
{
}

/// The octets of `value`, big end first.
pub open spec fn octets(value: nat, count: nat) -> Seq<u8>
    decreases count,
{
    if count == 0 {
        seq![]
    } else {
        octets(value / 256, (count - 1) as nat).push((value % 256) as u8)
    }
}

/// The record of an address.
pub open spec fn record(a: SocketAddrV6) -> Seq<u8> {
    octets(a.ip as nat, 16) + octets(a.port as nat, 2)
}

/// The records of addresses.
pub open spec fn records(list: Seq<SocketAddrV6>) -> Seq<u8>
    decreases list.len(),
{
    if list.len() == 0 {
        seq![]
    } else {
        record(list[0]) + records(list.skip(1))
    }
}

proof fn lemma_octets(value: nat, count: nat)
    requires
        value < limit(count),
    ensures
        octets(value, count).len() == count,
        big_endian(octets(value, count)) == value,
    decreases count,
{
    if count > 0 {
        let init = octets(value / 256, (count - 1) as nat);
        assert(value / 256 < limit((count - 1) as nat));
        lemma_octets(value / 256, (count - 1) as nat);
        assert(init.push((value % 256) as u8).drop_last() =~= init);
    }
}

pub(crate) proof fn lemma_record(a: SocketAddrV6, rest: Seq<u8>)
    requires
        a == SocketAddrV6::plain(a.ip, a.port),
    ensures
        record(a).len() == 18,
        record_address(record(a) + rest) == a,
{
    reveal_with_fuel(limit, 17);
    lemma_octets(a.ip as nat, 16);
    lemma_octets(a.port as nat, 2);
    let all = record(a) + rest;
    assert(all.subrange(0, 16) =~= octets(a.ip as nat, 16));
    assert(all.subrange(16, 18) =~= octets(a.port as nat, 2));
}

/// What is read of a list is what was written to it, if a record of zeros
/// stands at its end.
pub proof fn law_addresses_read_back(list: Seq<SocketAddrV6>)
    requires
        forall|i: int|
            0 <= i < list.len() ==> (#[trigger] list[i]) == SocketAddrV6::plain(
                list[i].ip,
                list[i].port,
            ),
    ensures
        addresses(records(list) + Seq::new(18, |i: int| 0u8)) == list,
    decreases list.len(),
{
    let end = Seq::new(18, |i: int| 0u8);
    if list.len() == 0 {
        assert(records(list) + end =~= end);
        assert(addresses(end) =~= list);
    } else {
        let rest = records(list.skip(1)) + end;
        lemma_record(list[0], rest);
        assert forall|i: int| 0 <= i < list.skip(1).len() implies (#[trigger] list.skip(1)[i])
            == SocketAddrV6::plain(list.skip(1)[i].ip, list.skip(1)[i].port) by {
            assert(list.skip(1)[i] == list[i + 1]);
        }
        law_addresses_read_back(list.skip(1));
        let all = records(list) + end;
        assert(all =~= record(list[0]) + rest);
        assert(all.skip(18) =~= rest);
        assert(addresses(all) =~= seq![list[0]] + list.skip(1));
        assert(seq![list[0]] + list.skip(1) =~= list);
    }
}

/// A list of servers as a master sends it.
pub open spec fn list_packet(key: Option<u32>, list: Seq<SocketAddrV6>) -> Seq<u8> {
    let head = match key {
        Some(k) => seq![
            0x7fu8,
            (k % 0x100) as u8,
            (k / 0x100 % 0x100) as u8,
            (k / 0x1_0000 % 0x100) as u8,
            (k / 0x100_0000) as u8,
            8,
        ],
        None => seq![],
    };
    seq![0xffu8, 0xff, 0xff, 0xff, 'f' as u8, '\n' as u8] + head + records(list) + Seq::new(18, |i: int| 0u8)
}

proof fn lemma_key_bytes(k: u32)
    ensures
        (k % 0x100) + (k / 0x100 % 0x100) * 0x100 + (k / 0x1_0000 % 0x100) * 0x1_0000 + (k
            / 0x100_0000) * 0x100_0000 == k,
{
}

/// A list of servers that is sent is read with its key and its addresses. One
/// without a key must not look as if it had one.
#[verifier::rlimit(60)]
pub proof fn law_lists_read_back(key: Option<u32>, list: Seq<SocketAddrV6>)
    requires
        forall|i: int|
            0 <= i < list.len() ==> (#[trigger] list[i]) == SocketAddrV6::plain(
                list[i].ip,
                list[i].port,
            ),
        key is None ==> !has_key(records(list) + Seq::new(18, |i: int| 0u8)),
    ensures
        is_servers_reply(list_packet(key, list)),
        reply_key(list_packet(key, list)) == key,
        reply_addresses(list_packet(key, list)) == list,
{
    let raw = list_packet(key, list);
    let rest = records(list) + Seq::new(18, |i: int| 0u8);
    law_addresses_read_back(list);
    assert(raw.take(6) =~= servers_header());
    let body = raw.skip(6);
    match key {
        Some(k) => {
            assert(body.skip(6) =~= rest);
            lemma_key_bytes(k);
            assert(body[0] == 0x7f && body[5] == 8);
            assert(body[1] == k % 0x100 && body[2] == k / 0x100 % 0x100);
            assert(body[3] == k / 0x1_0000 % 0x100 && body[4] == k / 0x100_0000);
        },
        None => {
            assert(body =~= rest);
        },
    }
}

/// The text of all runs, without their codes.
pub open spec fn runs_text(runs: Seq<RunView>) -> Seq<char>
    decreases runs.len(),
{
    if runs.len() == 0 {
        seq![]
    } else {
        runs[0].1 + runs_text(runs.skip(1))
    }
}

proof fn lemma_codes_dropped(text: Seq<char>)
    ensures
        without_codes(text) == without_codes(text.skip(codes_len(text) as int)),
    decreases text.len(),
{
    lemma_run_lens(text);
    if starts_with_code(text) {
        lemma_codes_dropped(text.skip(2));
        lemma_run_lens(text.skip(2));
        assert(text.skip(2).skip(codes_len(text.skip(2)) as int) =~= text.skip(
            codes_len(text) as int,
        ));
    } else {
        assert(text.skip(0) =~= text);
    }
}

proof fn lemma_plain_kept(text: Seq<char>)
    ensures
        without_codes(text) == text.take(plain_len(text) as int) + without_codes(
            text.skip(plain_len(text) as int),
        ),
    decreases text.len(),
{
    lemma_run_lens(text);
    if text.len() == 0 || starts_with_code(text) {
        assert(text.skip(0) =~= text);
        assert(text.take(0) + without_codes(text) =~= without_codes(text));
    } else {
        let rest = text.skip(1);
        lemma_plain_kept(rest);
        lemma_run_lens(rest);
        let n = plain_len(rest) as int;
        assert(rest.skip(n) =~= text.skip(n + 1));
        assert(seq![text[0]] + rest.take(n) =~= text.take(n + 1));
        assert(without_codes(text) =~= text.take(n + 1) + without_codes(text.skip(n + 1)));
    }
}

/// What a serialized name reads is what its runs show: both leave out the
/// colour codes and nothing else.
pub proof fn law_runs_show_the_text_without_codes(text: Seq<char>)
    ensures
        runs_text(runs(text)) == without_codes(text),
    decreases text.len(),
{
    lemma_run_lens(text);
    if text.len() > 0 {
        let n = codes_len(text) as int;
        let rest = text.skip(n);
        lemma_codes_dropped(text);
        lemma_plain_kept(rest);
        lemma_run_lens(rest);
        let next = text.skip(first_run_len(text) as int);
        assert(rest.skip(plain_len(rest) as int) =~= next);
        law_runs_show_the_text_without_codes(next);
        assert(runs(text).skip(1) =~= runs(next));
        assert(runs(text)[0] == first_run(text));
    }
}

pub(crate) proof fn lemma_runs_text_last(runs: Seq<RunView>)
    requires
        runs.len() > 0,
    ensures
        runs_text(runs) == runs_text(runs.drop_last()) + runs.last().1,
    decreases runs.len(),
{
    if runs.len() == 1 {
        assert(runs.skip(1) =~= seq![]);
        assert(runs.drop_last() =~= seq![]);
        assert(runs_text(runs) =~= runs_text(runs.drop_last()) + runs.last().1);
    } else {
        lemma_runs_text_last(runs.skip(1));
        assert(runs.skip(1).drop_last() =~= runs.drop_last().skip(1));
        assert(runs_text(runs) =~= runs_text(runs.drop_last()) + runs.last().1);
    }
}

proof fn lemma_padded_runs(runs: Seq<RunView>, layout: Layout)
    requires
        layout.is_plain(),
    ensures
        padded_runs(runs, layout) == runs_text(runs),
    decreases runs.len(),
{
    if runs.len() > 0 {
        lemma_padded_runs(runs.drop_last(), layout);
        lemma_runs_text_last(runs);
        assert(layout.padded(runs.last().1) =~= runs.last().1);
    }
}

/// Where colours cannot be shown and neither a width nor a precision is asked
/// for, a text is shown as it is serialized: without its colour codes.
pub proof fn law_without_colors_the_text_is_plain(
    text: Seq<char>,
    forced: bool,
    out: Terminal,
    layout: Layout,
    shown: Seq<char>,
)
    requires
        !out.color,
        layout.is_plain(),
        renders(text, forced, out, layout, shown),
    ensures
        shown == without_codes(text),
{
    lemma_padded_runs(runs(text), layout);
    law_runs_show_the_text_without_codes(text);
    assert(shown =~= padded_runs(runs(text), layout));
}

/// What is kept of the watched servers after many changes.
pub open spec fn watched_after(json: bool, changes: Seq<Change>) -> Map<
    SocketAddr,
    ServerInfo<Seq<char>>,
>
    decreases changes.len(),
{
    if changes.len() == 0 {
        Map::empty()
    } else {
        watched(json, watched_after(json, changes.drop_last()), changes.last())
    }
}

/// What the server at `a` told last, unless it was removed since.
pub open spec fn told_last(changes: Seq<Change>, a: SocketAddr) -> Option<ServerInfo<Seq<char>>>
    decreases changes.len(),
{
    if changes.len() == 0 {
        None
    } else {
        match changes.last() {
            Change::Update { addr, info } if addr == a => Some(info),
            Change::Remove { addr } if addr == a => None,
            _ => told_last(changes.drop_last(), a),
        }
    }
}

/// What is kept of a watched server, and is taken back when it tells anew, is
/// what it told last; nothing is kept where every change goes out as data.
pub proof fn law_what_is_kept_was_told_last(json: bool, changes: Seq<Change>, a: SocketAddr)
    ensures
        watched_after(json, changes).get(a) == if json {
            None
        } else {
            told_last(changes, a)
        },
    decreases changes.len(),
{
    if changes.len() > 0 {
        law_what_is_kept_was_told_last(json, changes.drop_last(), a);
    }
}

} // verus!
