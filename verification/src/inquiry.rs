//! Asking game servers what they are.
//!
//! An `Inquiry` holds what is known of every server that has come up. It is
//! told what was sent and what was received, and tells what to send next.

use crate::address::SocketAddrV6;
use crate::cli::Error;
use crate::packet::{decode_server_info, decode_servers, escaped, get_server_info,
    get_server_info_packet, is_info_table, is_servers_reply, is_wrong_version,
    query_servers_packet, reply_addresses, result_view, server_info_decoded, GetServerInfoResponse, ProtocolError, PACKET_SIZE};
use crate::scan::{invalid_key_text, is_accepted, Scan, SECOND};
use crate::server::{info_of, ServerInfo, ServerResult, ServerResultKind, SystemTime};
use crate::table::{contents, lemma_contents, Rank, Table};
use vstd::prelude::*;

verus! {

/// A request that waits for its reply.
#[derive(Clone, Copy, Debug, PartialEq, Eq, Structural)]
pub struct ServerQuery {
    /// When it was sent, in nanoseconds of a clock that never goes back.
    pub start: u64,
    /// Which of the protocol versions it was sent in.
    pub protocol: usize,
}

/// How many microseconds lie between two readings of the clock.
pub open spec fn micros_between(start: u64, now: u64) -> u64 {
    if now >= start {
        ((now - start) / 1000) as u64
    } else {
        0
    }
}

impl ServerQuery {
    pub fn new(start: u64, protocol: usize) -> (r: Self)
        ensures
            r == (ServerQuery { start, protocol }),
    {
        ServerQuery { start, protocol }
    }

    /// How long the request has waited at `now`, in microseconds.
    pub fn ping(&self, now: u64) -> (r: u64)
        ensures
            r == micros_between(self.start, now),
            now >= self.start ==> r * 1000 <= now - self.start < r * 1000 + 1000,
    {
        if now >= self.start {
            (now - self.start) / 1000
        } else {
            0
        }
    }
}

/// What is known of the game servers.
#[verifier::ext_equal]
pub struct InquiryView {
    /// Every server that has come up.
    pub seen: Set<SocketAddrV6>,
    /// The servers that are about to be asked, and in which of the protocol
    /// versions.
    pub asked: Map<SocketAddrV6, usize>,
    /// The servers whose reply is awaited.
    pub active: Map<SocketAddrV6, ServerQuery>,
    /// What came of the others.
    pub out: Map<SocketAddrV6, ServerResult<Seq<char>>>,
    /// Until when the masters, and the servers, can reply.
    pub master_end: u128,
    pub server_end: u128,
}

/// What to do next.
#[derive(Debug, PartialEq, Eq)]
pub enum Step {
    /// Wait for a datagram.
    Wait,
    /// Send `packet` to every master.
    QueryServers { packet: Vec<u8> },
    /// Send `packet` to each of `servers`.
    Ask { servers: Vec<SocketAddrV6>, packet: Vec<u8> },
    /// Say `message`.
    Complain { message: String },
}

/// What a step holds.
pub enum StepView {
    Wait,
    QueryServers { packet: Seq<u8> },
    Ask { servers: Seq<SocketAddrV6>, packet: Seq<u8> },
    Complain { message: Seq<char> },
}

impl View for Step {
    type V = StepView;

    open spec fn view(&self) -> StepView {
        match self {
            Step::Wait => StepView::Wait,
            Step::QueryServers { packet } => StepView::QueryServers { packet: packet@ },
            Step::Ask { servers, packet } => StepView::Ask { servers: servers@, packet: packet@ },
            Step::Complain { message } => StepView::Complain { message: message@ },
        }
    }
}

/// What came of an attempt to send.
pub open spec fn outcome_view(outcome: Result<(), String>) -> Result<(), Seq<char>> {
    match outcome {
        Ok(_) => Ok(()),
        Err(message) => Err(message@),
    }
}

/// Those of `list` that are not in `seen`, each once, in the order in which
/// they first come up.
pub open spec fn fresh(seen: Set<SocketAddrV6>, list: Seq<SocketAddrV6>) -> Seq<SocketAddrV6>
    decreases list.len(),
{
    if list.len() == 0 {
        seq![]
    } else {
        let init = fresh(seen, list.drop_last());
        if seen.contains(list.last()) || list.drop_last().contains(list.last()) {
            init
        } else {
            init.push(list.last())
        }
    }
}

/// `asked`, with every one of `servers` to be asked in version `protocol`.
pub open spec fn asked_with(
    asked: Map<SocketAddrV6, usize>,
    servers: Seq<SocketAddrV6>,
    protocol: usize,
) -> Map<SocketAddrV6, usize> {
    Map::new(
        |a: SocketAddrV6| asked.contains_key(a) || servers.contains(a),
        |a: SocketAddrV6|
            if servers.contains(a) {
                protocol
            } else {
                asked[a]
            },
    )
}

/// What to send to the servers that come up for the first time.
pub open spec fn ask_step(scan: Scan, servers: Seq<SocketAddrV6>, protocol: int) -> StepView {
    if servers.len() == 0 {
        StepView::Wait
    } else {
        StepView::Ask { servers, packet: get_server_info_packet(scan.cli.protocol@[protocol]) }
    }
}

/// The end of a wait of `timeout` seconds that begins at `now`.
pub open spec fn deadline(now: u64, timeout: u32) -> u128 {
    (now + timeout * SECOND) as u128
}

impl InquiryView {
    /// Nothing is known of any server.
    pub open spec fn init(scan: Scan, now: u64) -> InquiryView {
        InquiryView {
            seen: Set::empty(),
            asked: Map::empty(),
            active: Map::empty(),
            out: Map::empty(),
            master_end: deadline(now, scan.cli.master_timeout),
            server_end: deadline(now, scan.cli.server_timeout),
        }
    }

    /// Every server that has come up is about to be asked, awaited or done
    /// with, and only one of these.
    pub open spec fn wf(self, protocols: nat) -> bool {
        &&& forall|a: SocketAddrV6| #[trigger]
            self.seen.contains(a) <==> self.asked.contains_key(a) || self.active.contains_key(a)
                || self.out.contains_key(a)
        &&& forall|a: SocketAddrV6| #[trigger]
            self.asked.contains_key(a) ==> !self.active.contains_key(a) && !self.out.contains_key(a)
                && self.asked[a] < protocols
        &&& forall|a: SocketAddrV6| #[trigger]
            self.active.contains_key(a) ==> !self.out.contains_key(a) && self.active[a].protocol
                < protocols
        &&& forall|a: SocketAddrV6| #[trigger]
            self.out.contains_key(a) ==> self.out[a].address == a && !(self.out[a].kind is Remove)
    }

    /// After `list` has come up.
    pub open spec fn add(self, list: Seq<SocketAddrV6>) -> InquiryView {
        InquiryView {
            seen: self.seen.union(list.to_set()),
            asked: asked_with(self.asked, fresh(self.seen, list), 0),
            ..self
        }
    }

    /// With `kind` as what came of the server at `address`.
    pub open spec fn done(
        self,
        time: SystemTime,
        address: SocketAddrV6,
        ping: Option<u64>,
        kind: ServerResultKind<Seq<char>>,
    ) -> InquiryView {
        InquiryView {
            out: self.out.insert(address, ServerResult { time, address, ping, kind }),
            ..self
        }
    }

    /// After the attempt to ask the server at `address`. The first request
    /// to a server gives all servers their time to reply anew.
    pub open spec fn sent(
        self,
        scan: Scan,
        address: SocketAddrV6,
        outcome: Result<(), Seq<char>>,
        now: u64,
        time: SystemTime,
    ) -> InquiryView {
        let protocol = self.asked[address];
        let rest = InquiryView { asked: self.asked.remove(address), ..self };
        match outcome {
            Ok(_) => InquiryView {
                active: rest.active.insert(address, ServerQuery { start: now, protocol }),
                server_end: if protocol == 0 {
                    deadline(now, scan.cli.server_timeout)
                } else {
                    rest.server_end
                },
                ..rest
            },
            Err(message) => rest.done(time, address, None, ServerResultKind::Error { message }),
        }
    }

    /// Whether the server at `from` is to be asked again: it turned the
    /// protocol version down, and there is another one.
    pub open spec fn is_retry(
        self,
        scan: Scan,
        from: SocketAddrV6,
        reply: Result<GetServerInfoResponse<Seq<char>>, ProtocolError<Seq<char>>>,
    ) -> bool {
        &&& self.active.contains_key(from)
        &&& reply is Err
        &&& reply->Err_0 is InvalidProtocolVersion
        &&& self.active[from].protocol + 1 < scan.cli.protocol@.len()
    }

    /// After the datagram `raw` of the server at `from`, which reads as
    /// `reply`.
    pub open spec fn replied(
        self,
        scan: Scan,
        from: SocketAddrV6,
        reply: Result<GetServerInfoResponse<Seq<char>>, ProtocolError<Seq<char>>>,
        raw: Seq<u8>,
        now: u64,
        time: SystemTime,
    ) -> InquiryView {
        if !self.active.contains_key(from) {
            self
        } else {
            let query = self.active[from];
            let ping = Some(micros_between(query.start, now));
            let rest = InquiryView { active: self.active.remove(from), ..self };
            match reply {
                Ok(response) => rest.done(
                    time,
                    from,
                    ping,
                    ServerResultKind::Info { info: info_of(response) },
                ),
                Err(ProtocolError::InvalidProtocolVersion) => if self.is_retry(scan, from, reply) {
                    InquiryView {
                        asked: rest.asked.insert(from, (query.protocol + 1) as usize),
                        ..rest
                    }
                } else {
                    rest.done(time, from, ping, ServerResultKind::Protocol)
                },
                Err(ProtocolError::Other(message)) => rest.done(
                    time,
                    from,
                    ping,
                    ServerResultKind::Invalid { message, response: escaped(raw) },
                ),
            }
        }
    }

    /// What to do after that.
    pub open spec fn replied_step(
        self,
        scan: Scan,
        from: SocketAddrV6,
        reply: Result<GetServerInfoResponse<Seq<char>>, ProtocolError<Seq<char>>>,
    ) -> StepView {
        if self.is_retry(scan, from, reply) {
            ask_step(scan, seq![from], self.active[from].protocol + 1)
        } else {
            StepView::Wait
        }
    }

    /// After a datagram. A list of servers counts if a master sent it and the
    /// key is right; what else comes in, from a master too, can be the reply
    /// of a game server.
    pub open spec fn received(
        self,
        scan: Scan,
        from: SocketAddrV6,
        raw: Seq<u8>,
        now: u64,
        time: SystemTime,
    ) -> InquiryView {
        if scan.masters@.contains(from) && is_servers_reply(raw) {
            if is_accepted(scan, from, raw) {
                self.add(reply_addresses(raw))
            } else {
                self
            }
        } else {
            self.replied(scan, from, server_info_decoded(raw), raw, now, time)
        }
    }

    /// What to do after that.
    pub open spec fn received_step(
        self,
        scan: Scan,
        from: SocketAddrV6,
        from_text: Seq<char>,
        raw: Seq<u8>,
    ) -> StepView {
        if scan.masters@.contains(from) && is_servers_reply(raw) {
            if is_accepted(scan, from, raw) {
                ask_step(scan, fresh(self.seen, reply_addresses(raw)), 0)
            } else {
                StepView::Complain { message: invalid_key_text(from_text) }
            }
        } else {
            self.replied_step(scan, from, server_info_decoded(raw))
        }
    }

    /// What came of all servers, if those that are still awaited have not
    /// replied in time.
    pub open spec fn results(self, time: SystemTime) -> Map<
        SocketAddrV6,
        ServerResult<Seq<char>>,
    > {
        Map::new(
            |a: SocketAddrV6| self.out.contains_key(a) || self.active.contains_key(a),
            |a: SocketAddrV6|
                if self.active.contains_key(a) {
                    ServerResult {
                        time,
                        address: a,
                        ping: None,
                        kind: ServerResultKind::Timeout,
                    }
                } else {
                    self.out[a]
                },
        )
    }
}

/// What is known of the game servers.
pub struct Inquiry<'a> {
    scan: &'a Scan<'a>,
    seen: Table<SocketAddrV6, ()>,
    asked: Table<SocketAddrV6, usize>,
    active: Table<SocketAddrV6, ServerQuery>,
    out: Table<SocketAddrV6, ServerResult>,
    master_end: u128,
    server_end: u128,
}

impl<'a> View for Inquiry<'a> {
    type V = InquiryView;

    closed spec fn view(&self) -> InquiryView {
        InquiryView {
            seen: self.seen@.dom(),
            asked: self.asked@,
            active: self.active@,
            out: self.out@.map_values(|r: ServerResult| r@),
            master_end: self.master_end,
            server_end: self.server_end,
        }
    }
}

/// What comes up fresh is what is in the list and was not seen.
pub proof fn lemma_fresh(seen: Set<SocketAddrV6>, list: Seq<SocketAddrV6>)
    ensures
        forall|a: SocketAddrV6| #[trigger]
            fresh(seen, list).contains(a) <==> list.contains(a) && !seen.contains(a),
        fresh(seen, list).no_duplicates(),
    decreases list.len(),
{
    if list.len() > 0 {
        let init = list.drop_last();
        let last = list.last();
        lemma_fresh(seen, init);
        let fewer = fresh(seen, init);
        assert forall|a: SocketAddrV6| #[trigger] fresh(seen, list).contains(a) <==> list.contains(
            a,
        ) && !seen.contains(a) by {
            assert(list =~= init.push(last));
            assert(list.contains(a) <==> init.contains(a) || a == last) by {
                if init.contains(a) {
                    let k = choose|k: int| 0 <= k < init.len() && init[k] == a;
                    assert(list[k] == a);
                }
                if a == last {
                    assert(list[list.len() - 1] == a);
                }
            }
            assert(fewer.push(last).contains(a) <==> fewer.contains(a) || a == last) by {
                if fewer.contains(a) {
                    let k = choose|k: int| 0 <= k < fewer.len() && fewer[k] == a;
                    assert(fewer.push(last)[k] == a);
                }
                if a == last {
                    assert(fewer.push(last)[fewer.len() as int] == a);
                }
            }
            assert(fewer.contains(a) <==> init.contains(a) && !seen.contains(a));
        }
        assert(fewer.contains(last) <==> init.contains(last) && !seen.contains(last));
    }
}

impl InquiryView {
    /// Servers that come up leave the rest in order.
    pub proof fn lemma_add(self, list: Seq<SocketAddrV6>, protocols: nat)
        requires
            self.wf(protocols),
            fresh(self.seen, list).len() > 0 ==> protocols > 0,
        ensures
            self.add(list).wf(protocols),
    {
        lemma_fresh(self.seen, list);
        let next = self.add(list);
        let asked = fresh(self.seen, list);
        assert forall|a: SocketAddrV6| #[trigger] next.asked.contains_key(a) implies {
            &&& !next.active.contains_key(a)
            &&& !next.out.contains_key(a)
            &&& next.asked[a] < protocols
        } by {
            if asked.contains(a) {
                assert(!self.seen.contains(a));
            } else {
                assert(self.asked.contains_key(a));
            }
        }
        assert forall|a: SocketAddrV6| #[trigger] next.seen.contains(a)
            <==> next.asked.contains_key(a) || next.active.contains_key(a)
            || next.out.contains_key(a) by {
            assert(self.seen.contains(a) <==> self.asked.contains_key(a)
                || self.active.contains_key(a) || self.out.contains_key(a));
            assert(asked.contains(a) <==> list.contains(a) && !self.seen.contains(a));
        }
    }

    /// So does the attempt to ask a server,
    pub proof fn lemma_sent(
        self,
        scan: Scan,
        address: SocketAddrV6,
        outcome: Result<(), Seq<char>>,
        now: u64,
        time: SystemTime,
        protocols: nat,
    )
        requires
            self.wf(protocols),
            self.asked.contains_key(address),
        ensures
            self.sent(scan, address, outcome, now, time).wf(protocols),
    {
        let next = self.sent(scan, address, outcome, now, time);
        assert forall|a: SocketAddrV6| #[trigger] next.seen.contains(a)
            <==> next.asked.contains_key(a) || next.active.contains_key(a)
            || next.out.contains_key(a) by {
            assert(self.seen.contains(a) <==> self.asked.contains_key(a)
                || self.active.contains_key(a) || self.out.contains_key(a));
        }
    }

    /// and so does a reply.
    pub proof fn lemma_replied(
        self,
        scan: Scan,
        from: SocketAddrV6,
        reply: Result<GetServerInfoResponse<Seq<char>>, ProtocolError<Seq<char>>>,
        raw: Seq<u8>,
        now: u64,
        time: SystemTime,
    )
        requires
            self.wf(scan.cli.protocol@.len()),
        ensures
            self.replied(scan, from, reply, raw, now, time).wf(scan.cli.protocol@.len()),
    {
        let next = self.replied(scan, from, reply, raw, now, time);
        let versions = scan.cli.protocol.len();
        assert forall|a: SocketAddrV6| #[trigger] next.seen.contains(a)
            <==> next.asked.contains_key(a) || next.active.contains_key(a)
            || next.out.contains_key(a) by {
            assert(self.seen.contains(a) <==> self.asked.contains_key(a)
                || self.active.contains_key(a) || self.out.contains_key(a));
        }
        assert forall|a: SocketAddrV6| #[trigger] next.asked.contains_key(a) implies {
            &&& !next.active.contains_key(a)
            &&& !next.out.contains_key(a)
            &&& next.asked[a] < versions
        } by {
            if a != from {
                assert(self.asked.contains_key(a));
            }
        }
    }
}

/// The set of a list with one more member.
proof fn lemma_to_set_push(list: Seq<SocketAddrV6>, a: SocketAddrV6)
    ensures
        list.push(a).to_set() == list.to_set().insert(a),
{
    broadcast use vstd::seq_lib::group_seq_properties;

    assert(list.push(a).to_set() =~= list.to_set().insert(a));
}

impl<'a> Scan<'a> {
    /// Begins to ask: the servers of `list`, or, if it is empty, the masters
    /// for the servers that they know.
    pub fn server_info(&'a self, list: &[SocketAddrV6], now: u64) -> (r: Result<
        (Inquiry<'a>, Step),
        Error,
    >)
        requires
            list@.len() > 0 ==> self.cli.protocol@.len() > 0,
        ensures
            ({
                let packet = query_servers_packet(0xff, "[::]:0"@, self.cli.filter@);
                match r {
                    Ok((inquiry, step)) => {
                        &&& inquiry.scan() == self
                        &&& inquiry.wf()
                        &&& inquiry@ == InquiryView::init(*self, now).add(list@)
                        &&& if list@.len() == 0 {
                            packet.len() <= PACKET_SIZE && step@ == StepView::QueryServers {
                                packet,
                            }
                        } else {
                            step@ == ask_step(*self, fresh(Set::empty(), list@), 0)
                        }
                    },
                    Err(Error::Protocol(e)) => {
                        &&& list@.len() == 0
                        &&& packet.len() > PACKET_SIZE
                        &&& e@ == ProtocolError::Other("Unexpected end of buffer"@)
                    },
                    Err(_) => false,
                }
            }),
    {
        let mut inquiry = Inquiry {
            scan: self,
            seen: Table::new(),
            asked: Table::new(),
            active: Table::new(),
            out: Table::new(),
            master_end: now as u128 + (self.cli.master_timeout as u64 * SECOND) as u128,
            server_end: now as u128 + (self.cli.server_timeout as u64 * SECOND) as u128,
        };
        assert(inquiry@ =~= InquiryView::init(*self, now));
        if list.len() == 0 {
            let packet = self.query_servers()?;
            assert(inquiry@ =~= InquiryView::init(*self, now).add(list@)) by {
                assert(list@.to_set() =~= Set::empty());
            }
            Ok((inquiry, Step::QueryServers { packet }))
        } else {
            let step = inquiry.add(list);
            Ok((inquiry, step))
        }
    }
}

impl<'a> Inquiry<'a> {
    pub closed spec fn scan(self) -> &'a Scan<'a> {
        self.scan
    }

    pub open spec fn wf(self) -> bool {
        self@.wf(self.scan().cli.protocol@.len())
    }

    /// Has the servers that come up for the first time asked.
    fn add(&mut self, list: &[SocketAddrV6]) -> (r: Step)
        requires
            old(self).wf(),
            fresh(old(self)@.seen, list@).len() > 0 ==> old(self).scan().cli.protocol@.len() > 0,
        ensures
            final(self).wf(),
            final(self).scan() == old(self).scan(),
            final(self)@ == old(self)@.add(list@),
            r@ == ask_step(*old(self).scan(), fresh(old(self)@.seen, list@), 0),
    {
        let ghost before = self@;
        let mut servers: Vec<SocketAddrV6> = Vec::new();
        let mut i: usize = 0;
        proof {
            assert(list@.take(0).to_set() =~= Set::empty());
            assert(before.add(list@.take(0)) =~= before);
        }
        while i < list.len()
            invariant
                i <= list@.len(),
                self.scan == old(self).scan,
                self@ == before.add(list@.take(i as int)),
                servers@ == fresh(before.seen, list@.take(i as int)),
            decreases list@.len() - i,
        {
            let a = list[i];
            let ghost now = self@;
            let ghost taken = list@.take(i as int);
            proof {
                assert(list@.take(i + 1) =~= taken.push(a));
                assert(taken.push(a).drop_last() =~= taken);
                lemma_to_set_push(taken, a);
            }
            let known = self.seen.insert(a, ());
            if known.is_none() {
                self.asked.insert(a, 0);
                servers.push(a);
                proof {
                    let asked = fresh(before.seen, taken);
                    assert forall|b: SocketAddrV6|
                        asked.push(a).contains(b) <==> asked.contains(b) || b == a by {
                        if asked.contains(b) {
                            let k = choose|k: int| 0 <= k < asked.len() && asked[k] == b;
                            assert(asked.push(a)[k] == b);
                        }
                        assert(asked.push(a)[asked.len() as int] == a);
                    }
                    assert(self@.asked =~= asked_with(before.asked, asked.push(a), 0));
                }
            }
            assert(self@.seen =~= before.seen.union(taken.push(a).to_set()));
            assert(self@ =~= before.add(taken.push(a)));
            i = i + 1;
        }
        proof {
            assert(list@.take(i as int) =~= list@);
            before.lemma_add(list@, self.scan().cli.protocol@.len());
        }
        self.ask(servers, 0)
    }

    /// The step that has `servers` asked in one of the protocol versions.
    fn ask(&self, servers: Vec<SocketAddrV6>, protocol: usize) -> (r: Step)
        requires
            servers@.len() > 0 ==> protocol < self.scan().cli.protocol@.len(),
        ensures
            r@ == ask_step(*self.scan(), servers@, protocol as int),
    {
        if servers.len() == 0 {
            Step::Wait
        } else {
            let packet = get_server_info(self.scan.cli.protocol[protocol]).unwrap();
            Step::Ask { servers, packet }
        }
    }

    /// Notes what came of the server at `address`.
    fn done(&mut self, address: SocketAddrV6, result: ServerResult)
        ensures
            final(self).scan() == old(self).scan(),
            final(self)@ == (InquiryView {
                out: old(self)@.out.insert(address, result@),
                ..old(self)@
            }),
    {
        let ghost before = self@;
        self.out.insert(address, result);
        assert(self@.out =~= before.out.insert(address, result@));
    }

    /// Takes in the outcome of an attempt to ask the server at `address`.
    pub fn sent(
        &mut self,
        address: SocketAddrV6,
        outcome: Result<(), String>,
        now: u64,
        time: SystemTime,
    )
        requires
            old(self).wf(),
            old(self)@.asked.contains_key(address),
        ensures
            final(self).wf(),
            final(self).scan() == old(self).scan(),
            final(self)@ == old(self)@.sent(
                *old(self).scan(),
                address,
                outcome_view(outcome),
                now,
                time,
            ),
    {
        let ghost before = self@;
        let ghost told = outcome_view(outcome);
        if let Some(protocol) = self.asked.remove(&address) {
            match outcome {
                Ok(_) => {
                    let query = ServerQuery::new(now, protocol);
                    if protocol == 0 {
                        self.server_end = query.start as u128 + (self.scan.cli.server_timeout as u64
                            * SECOND) as u128;
                    }
                    self.active.insert(address, query);
                },
                Err(message) => {
                    self.done(address, ServerResult::error(time, address, message));
                },
            }
        }
        proof {
            before.lemma_sent(
                *self.scan(),
                address,
                told,
                now,
                time,
                self.scan().cli.protocol@.len(),
            );
        }
    }

    /// Takes in the datagram `raw` of the server at `from`, which reads as
    /// `reply`.
    pub fn reply(
        &mut self,
        from: SocketAddrV6,
        reply: Result<GetServerInfoResponse, ProtocolError>,
        raw: &[u8],
        now: u64,
        time: SystemTime,
    ) -> (r: Step)
        requires
            old(self).wf(),
        ensures
            final(self).wf(),
            final(self).scan() == old(self).scan(),
            final(self)@ == old(self)@.replied(
                *old(self).scan(),
                from,
                result_view(reply),
                raw@,
                now,
                time,
            ),
            r@ == old(self)@.replied_step(*old(self).scan(), from, result_view(reply)),
            old(self)@.active.contains_key(from) ==> (result_view(reply) matches Ok(response) ==> {
                &&& final(self)@.out.contains_key(from)
                &&& final(self)@.out[from].kind matches ServerResultKind::Info { info }
                &&& info.gamedir == response.gamedir
                &&& info.map == response.map
                &&& info.host == response.host
                &&& info.protocol == response.protocol
                &&& info.numcl == response.numcl
                &&& info.maxcl == response.maxcl
                &&& info.dm == response.dm
                &&& info.team == response.team
                &&& info.coop == response.coop
                &&& info.password == response.password
                &&& info.dedicated == response.dedicated
            }),
    {
        let ghost before = self@;
        let ghost read = result_view(reply);
        let query = match self.active.remove(&from) {
            Some(query) => query,
            None => {
                assert(self@ =~= before);
                return Step::Wait;
            },
        };
        assert(before.active.contains_key(from));
        let versions = self.scan.cli.protocol.len();
        let ping = query.ping(now);
        let step = match reply {
            Ok(response) => {
                let info = ServerInfo::from(response);
                self.done(from, ServerResult::ok(time, from, ping, info));
                Step::Wait
            },
            Err(ProtocolError::InvalidProtocolVersion) => {
                let next = query.protocol + 1;
                if next < versions {
                    self.asked.insert(from, next);
                    let mut servers: Vec<SocketAddrV6> = Vec::new();
                    servers.push(from);
                    assert(servers@ =~= seq![from]);
                    self.ask(servers, next)
                } else {
                    self.done(from, ServerResult::protocol(time, from, ping));
                    Step::Wait
                }
            },
            Err(ProtocolError::Other(message)) => {
                self.done(from, ServerResult::invalid(time, from, ping, message, raw));
                Step::Wait
            },
        };
        proof {
            before.lemma_replied(*self.scan(), from, read, raw@, now, time);
        }
        step
    }

    /// Whether a datagram brings up servers that have to be asked.
    pub fn brings_up(&self, from: &SocketAddrV6, raw: &[u8]) -> (r: bool)
        ensures
            r == (is_accepted(*self.scan(), *from, raw@) && fresh(
                self@.seen,
                reply_addresses(raw@),
            ).len() > 0),
    {
        if !self.scan.is_master(from) {
            return false;
        }
        let list = match decode_servers(raw) {
            Ok(list) => list,
            Err(_) => return false,
        };
        if self.scan.check_key("", list.key).is_err() {
            return false;
        }
        let ghost all = list.addresses@;
        proof {
            lemma_fresh(self@.seen, all);
        }
        let mut i: usize = 0;
        while i < list.addresses.len()
            invariant
                i <= all.len(),
                all == list.addresses@,
                all == reply_addresses(raw@),
                is_accepted(*self.scan(), *from, raw@),
                forall|a: SocketAddrV6| #[trigger]
                    fresh(self@.seen, all).contains(a) <==> all.contains(a) && !self@.seen.contains(
                        a,
                    ),
                forall|j: int| 0 <= j < i ==> self@.seen.contains(#[trigger] all[j]),
            decreases all.len() - i,
        {
            if !self.seen.contains_key(&list.addresses[i]) {
                assert(fresh(self@.seen, all).contains(all[i as int]));
                return true;
            }
            i = i + 1;
        }
        proof {
            if fresh(self@.seen, all).len() > 0 {
                assert(fresh(self@.seen, all).contains(fresh(self@.seen, all)[0]));
            }
        }
        false
    }

    /// Takes in a datagram.
    pub fn receive(
        &mut self,
        from: SocketAddrV6,
        from_text: &str,
        raw: &[u8],
        now: u64,
        time: SystemTime,
    ) -> (r: Step)
        requires
            old(self).wf(),
            is_accepted(*old(self).scan(), from, raw@) && fresh(
                old(self)@.seen,
                reply_addresses(raw@),
            ).len() > 0 ==> old(self).scan().cli.protocol@.len() > 0,
        ensures
            final(self).wf(),
            final(self).scan() == old(self).scan(),
            final(self)@ == old(self)@.received(*old(self).scan(), from, raw@, now, time),
            r@ == old(self)@.received_step(*old(self).scan(), from, from_text@, raw@),
            old(self)@.active.contains_key(from) && !(old(self).scan().masters@.contains(from)
                && is_servers_reply(raw@)) ==> (server_info_decoded(raw@) matches Ok(response) ==> {
                &&& final(self)@.out.contains_key(from)
                &&& final(self)@.out[from].kind matches ServerResultKind::Info { info }
                &&& info.gamedir == response.gamedir
                &&& info.map == response.map
                &&& info.host == response.host
                &&& info.protocol == response.protocol
                &&& info.numcl == response.numcl
                &&& info.maxcl == response.maxcl
                &&& info.dm == response.dm
                &&& info.team == response.team
                &&& info.coop == response.coop
                &&& info.password == response.password
                &&& info.dedicated == response.dedicated
            }),
            old(self)@.active.contains_key(from) && !(old(self).scan().masters@.contains(from)
                && is_servers_reply(raw@)) ==> if is_wrong_version(raw@) {
                if old(self)@.active[from].protocol + 1 < old(self).scan().cli.protocol@.len() {
                    final(self)@.asked.contains_key(from)
                } else {
                    final(self)@.out.contains_key(from) && final(self)@.out[from].kind is Protocol
                }
            } else {
                &&& final(self)@.out.contains_key(from)
                &&& final(self)@.out[from].kind is Info || final(self)@.out[from].kind is Invalid
                &&& final(self)@.out[from].kind is Info ==> is_info_table(raw@)
            },
    {
        if self.scan.is_master(&from) {
            if let Ok(list) = decode_servers(raw) {
                return match self.scan.check_key(from_text, list.key) {
                    Ok(_) => self.add(list.addresses.as_slice()),
                    Err(message) => Step::Complain { message },
                };
            }
        }
        self.reply(from, decode_server_info(raw), raw, now, time)
    }

    /// How much longer to wait at `now`, in nanoseconds; `None` if neither a
    /// master nor a server can reply any more.
    pub fn wait(&self, now: u64) -> (r: Option<u128>)
        ensures
            ({
                let end = if self@.master_end > self@.server_end {
                    self@.master_end
                } else {
                    self@.server_end
                };
                r == if now <= end {
                    Some((end - now) as u128)
                } else {
                    None
                }
            }),
            match r {
                Some(left) => {
                    &&& now + left >= self@.master_end
                    &&& now + left >= self@.server_end
                    &&& now + left == self@.master_end || now + left == self@.server_end
                },
                None => now > self@.master_end && now > self@.server_end,
            },
    {
        let end: u128 = if self.master_end > self.server_end {
            self.master_end
        } else {
            self.server_end
        };
        if now as u128 <= end {
            Some(end - now as u128)
        } else {
            None
        }
    }

    /// What came of the servers, in the order of their addresses.
    pub fn finish(self, time: SystemTime) -> (r: Vec<ServerResult>)
        requires
            self.wf(),
        ensures
            forall|i: int|
                0 <= i < r@.len() ==> self@.results(time).contains_key(
                    (#[trigger] r@[i]).address,
                ) && r@[i]@ == self@.results(time)[r@[i].address],
            forall|a: SocketAddrV6| #[trigger]
                self@.results(time).contains_key(a) ==> exists|i: int|
                    0 <= i < r@.len() && (#[trigger] r@[i]).address == a,
            forall|i: int, j: int|
                0 <= i < j < r@.len() ==> (#[trigger] r@[i]).address.precedes(
                    (#[trigger] r@[j]).address,
                ),
    {
        let ghost all = self@.results(time);
        let mut out = self.out;
        let late = self.active.into_keys();
        let mut i: usize = 0;
        proof {
            assert(late@.take(0).to_set() =~= Set::empty());
            assert(out@.map_values(|r: ServerResult| r@) =~= all.restrict(
                self@.out.dom().union(late@.take(0).to_set()),
            ));
        }
        while i < late.len()
            invariant
                i <= late@.len(),
                out@.map_values(|r: ServerResult| r@) == all.restrict(
                    self@.out.dom().union(late@.take(i as int).to_set()),
                ),
                late@.to_set() == self@.active.dom(),
                all == self@.results(time),
            decreases late@.len() - i,
        {
            let address = late[i];
            let ghost before = out@;
            let result = ServerResult::timeout(time, address);
            let ghost shown = result@;
            out.insert(address, result);
            proof {
                assert(late@.take(i + 1) =~= late@.take(i as int).push(address));
                lemma_to_set_push(late@.take(i as int), address);
                assert(late@.to_set().contains(late@[i as int]));
                assert(all[address] == shown);
                assert(out@.map_values(|r: ServerResult| r@) =~= before.map_values(
                    |r: ServerResult| r@,
                ).insert(address, shown));
                assert(out@.map_values(|r: ServerResult| r@) =~= all.restrict(
                    self@.out.dom().union(late@.take(i + 1).to_set()),
                ));
            }
            i = i + 1;
        }
        assert(late@.take(i as int) =~= late@);
        assert(out@.map_values(|r: ServerResult| r@) =~= all);
        let entries = out.into_entries();
        let ghost held = entries@;
        let mut results: Vec<ServerResult> = Vec::new();
        for entry in it: entries
            invariant
                it.seq() == held,
                results@.len() == it.index(),
                forall|j: int| 0 <= j < results@.len() ==> results@[j] == held[j].1,
        {
            results.push(entry.1);
        }
        proof {
            lemma_contents(held);
            let m = contents(held);
            assert(m.map_values(|r: ServerResult| r@) == all);
            assert forall|j: int| 0 <= j < results@.len() implies {
                &&& all.contains_key(held[j].0)
                &&& all[held[j].0] == (#[trigger] results@[j])@
                &&& results@[j].address == held[j].0
            } by {
                let a = held[j].0;
                assert(m.contains_key(a) && m[a] == results@[j]);
                assert(m.map_values(|r: ServerResult| r@).contains_key(a));
                assert(m.map_values(|r: ServerResult| r@)[a] == m[a]@);
                if !self@.active.contains_key(a) {
                    assert(self@.out.contains_key(a));
                }
                assert(all[a].address == a);
            }
            assert forall|a: SocketAddrV6| #[trigger]
                self@.results(time).contains_key(a) implies exists|k: int|
                0 <= k < results@.len() && (#[trigger] results@[k]).address == a by {
                assert(m.map_values(|r: ServerResult| r@).contains_key(a));
                assert(m.contains_key(a));
                let k = choose|k: int| 0 <= k < held.len() && (#[trigger] held[k]).0 == a;
                assert(results@[k].address == a);
            }
            assert forall|i: int, j: int| 0 <= i < j < results@.len() implies (
            #[trigger] results@[i]).address.precedes((#[trigger] results@[j]).address) by {
                assert(held[i].0.rank() < held[j].0.rank());
            }
        }
        results
    }
}

} // verus!
