//! Asking master and game servers.

use crate::address::SocketAddrV6;
use crate::cli::{Cli, Error};
use crate::packet::{decode_servers, escape, escaped, is_servers_reply, query_servers,
    query_servers_packet, reply_addresses, reply_key, ProtocolError, PACKET_SIZE};
use crate::table::Table;
use vstd::prelude::*;
use vstd::string::*;

verus! {

/// Nanoseconds in a second.
pub const SECOND: u64 = 1_000_000_000;

/// The master servers, and what is asked of them.
pub struct Scan<'a> {
    pub cli: &'a Cli,
    pub masters: Vec<SocketAddrV6>,
}

/// What is said of a master that sends the wrong key.
pub open spec fn invalid_key_text(from: Seq<char>) -> Seq<char> {
    "error: invalid key from master("@ + from + ")"@
}

/// What is said of a master that sends anything else than a list of servers.
pub open spec fn invalid_packet_text(from: Seq<char>, raw: Seq<u8>) -> Seq<char> {
    "warn: invalid packet from master "@ + from + ", raw \""@ + escaped(raw) + "\""@
}

impl<'a> Scan<'a> {
    pub fn new(cli: &'a Cli, masters: Vec<SocketAddrV6>) -> (r: Self)
        ensures
            r.cli == cli,
            r.masters == masters,
    {
        Scan { cli, masters }
    }

    pub fn is_master(&self, addr: &SocketAddrV6) -> (r: bool)
        ensures
            r == self.masters@.contains(*addr),
    {
        let mut i: usize = 0;
        while i < self.masters.len()
            invariant
                i <= self.masters@.len(),
                forall|j: int| 0 <= j < i ==> self.masters@[j] != *addr,
            decreases self.masters@.len() - i,
        {
            if self.masters[i] == *addr {
                return true;
            }
            i = i + 1;
        }
        false
    }

    /// The request that goes to every master.
    pub fn query_servers(&self) -> (r: Result<Vec<u8>, Error>)
        ensures
            ({
                let packet = query_servers_packet(0xff, "[::]:0"@, self.cli.filter@);
                match r {
                    Ok(bytes) => packet.len() <= PACKET_SIZE && bytes@ == packet,
                    Err(Error::Protocol(e)) => packet.len() > PACKET_SIZE && e@
                        == ProtocolError::Other("Unexpected end of buffer"@),
                    Err(_) => false,
                }
            }),
    {
        match query_servers(self.cli.filter.as_str()) {
            Ok(packet) => Ok(packet),
            Err(e) => Err(Error::from(e)),
        }
    }

    /// Whether a list of servers carries the key that it has to; if not, what
    /// to say of the master `from`.
    pub fn check_key(&self, from: &str, key: Option<u32>) -> (r: Result<(), String>)
        ensures
            match r {
                Ok(_) => self.cli.key == key,
                Err(message) => self.cli.key != key && message@ == invalid_key_text(from@),
            },
    {
        let matches = match (self.cli.key, key) {
            (Some(a), Some(b)) => a == b,
            (None, None) => true,
            _ => false,
        };
        if matches {
            Ok(())
        } else {
            let mut message = "error: invalid key from master(".to_owned();
            message.append(from);
            message.append(")");
            Err(message)
        }
    }

    /// Begins to collect the addresses that the masters list.
    pub fn servers(&'a self, now: u64) -> (r: ServerList<'a>)
        ensures
            r.scan() == self,
            r.start() == now,
            r.found() == Set::<SocketAddrV6>::empty(),
    {
        let set: Table<SocketAddrV6, ()> = Table::new();
        assert(set@.dom() =~= Set::empty());
        ServerList { scan: self, start: now, set }
    }
}

/// Why no datagram was received.
#[derive(Clone, Copy, Debug, PartialEq, Eq, Structural)]
pub enum ReceiveFailure {
    /// There was none in time.
    WouldBlock,
    AddrInUse,
    Other,
}

/// What a failure to receive does to a scan.
#[derive(Clone, Copy, Debug, PartialEq, Eq, Structural)]
pub enum Consequence {
    /// The scan is over, and what was found counts.
    End,
    /// The scan fails.
    Fail,
}

/// Finds out what a failure to receive does to a scan.
pub fn consequence(failure: ReceiveFailure) -> (r: Consequence)
    ensures
        r == if failure is Other {
            Consequence::Fail
        } else {
            Consequence::End
        },
{
    match failure {
        ReceiveFailure::WouldBlock => Consequence::End,
        ReceiveFailure::AddrInUse => Consequence::End,
        ReceiveFailure::Other => Consequence::Fail,
    }
}

/// How much of `timeout` seconds is left at `now` of a wait that began at
/// `start`, in nanoseconds.
pub open spec fn time_left(start: u64, timeout: u32, now: u64) -> Option<u64> {
    let elapsed = if now >= start {
        now - start
    } else {
        0
    };
    if elapsed <= timeout * SECOND {
        Some((timeout * SECOND - elapsed) as u64)
    } else {
        None
    }
}

/// The addresses that the masters have listed so far.
pub struct ServerList<'a> {
    scan: &'a Scan<'a>,
    start: u64,
    set: Table<SocketAddrV6, ()>,
}

impl<'a> ServerList<'a> {
    pub closed spec fn scan(self) -> &'a Scan<'a> {
        self.scan
    }

    pub closed spec fn start(self) -> u64 {
        self.start
    }

    pub closed spec fn found(self) -> Set<SocketAddrV6> {
        self.set@.dom()
    }

    /// How much longer to wait at `now`, in nanoseconds; `None` if no longer.
    pub fn wait(&self, now: u64) -> (r: Option<u64>)
        ensures
            r == time_left(self.start(), self.scan().cli.master_timeout, now),
            ({
                let all = self.scan().cli.master_timeout * 1_000_000_000;
                match r {
                    Some(left) => if now >= self.start() {
                        (now - self.start()) + left == all
                    } else {
                        left == all
                    },
                    None => now - self.start() > all,
                }
            }),
    {
        let elapsed: u64 = if now >= self.start {
            now - self.start
        } else {
            0
        };
        let timeout: u64 = self.scan.cli.master_timeout as u64 * SECOND;
        if elapsed <= timeout {
            Some(timeout - elapsed)
        } else {
            None
        }
    }

    /// Takes in a datagram. Only the lists of the masters count, and of these
    /// only those with the right key. What else a master sends is complained
    /// about.
    pub fn receive(&mut self, from: SocketAddrV6, from_text: &str, raw: &[u8]) -> (r: Option<
        String,
    >)
        ensures
            final(self).scan() == old(self).scan(),
            final(self).start() == old(self).start(),
            final(self).found() == listed(
                *old(self).scan(),
                old(self).found(),
                from,
                raw@,
            ),
            match r {
                None => complaint(*old(self).scan(), from, from_text@, raw@) is None,
                Some(text) => complaint(*old(self).scan(), from, from_text@, raw@) == Some(text@),
            },
    {
        if !self.scan.is_master(&from) {
            return None;
        }
        match decode_servers(raw) {
            Ok(reply) => {
                match self.scan.check_key(from_text, reply.key) {
                    Ok(_) => {
                        let mut i: usize = 0;
                        let ghost before = self.set@.dom();
                        let ghost all = reply.addresses@;
                        assert(all.take(0).to_set() =~= Set::empty());
                        assert(before.union(Set::empty()) =~= before);
                        while i < reply.addresses.len()
                            invariant
                                i <= all.len(),
                                all == reply.addresses@,
                                self.scan == old(self).scan,
                                self.start == old(self).start,
                                self.set@.dom() == before.union(all.take(i as int).to_set()),
                            decreases all.len() - i,
                        {
                            self.set.insert(reply.addresses[i], ());
                            assert(all.take(i + 1) =~= all.take(i as int).push(all[i as int]));
                            assert(all.take(i + 1).to_set() =~= all.take(i as int).to_set().insert(
                                all[i as int],
                            )) by {
                                broadcast use vstd::seq_lib::group_seq_properties;
                            }
                            assert(before.union(all.take(i + 1).to_set()) =~= before.union(
                                all.take(i as int).to_set(),
                            ).insert(all[i as int]));
                            i = i + 1;
                        }
                        assert(all.take(i as int) =~= all);
                        None
                    },
                    Err(message) => Some(message),
                }
            },
            Err(_) => {
                let mut message = "warn: invalid packet from master ".to_owned();
                message.append(from_text);
                message.append(", raw \"");
                message.append(escape(raw).as_str());
                message.append("\"");
                Some(message)
            },
        }
    }

    /// The addresses in order.
    pub fn finish(self) -> (r: Vec<SocketAddrV6>)
        ensures
            r@.to_set() == self.found(),
            forall|i: int, j: int|
                0 <= i < j < r@.len() ==> (#[trigger] r@[i]).precedes(#[trigger] r@[j]),
    {
        self.set.into_keys()
    }
}

/// Whether a datagram is a list of servers that counts.
pub open spec fn is_accepted(scan: Scan, from: SocketAddrV6, raw: Seq<u8>) -> bool {
    scan.masters@.contains(from) && is_servers_reply(raw) && reply_key(raw) == scan.cli.key
}

/// The addresses known after a datagram.
pub open spec fn listed(
    scan: Scan,
    found: Set<SocketAddrV6>,
    from: SocketAddrV6,
    raw: Seq<u8>,
) -> Set<SocketAddrV6> {
    if is_accepted(scan, from, raw) {
        found.union(reply_addresses(raw).to_set())
    } else {
        found
    }
}

/// What is said of a datagram while addresses are collected.
pub open spec fn complaint(
    scan: Scan,
    from: SocketAddrV6,
    from_text: Seq<char>,
    raw: Seq<u8>,
) -> Option<Seq<char>> {
    if !scan.masters@.contains(from) || is_accepted(scan, from, raw) {
        None
    } else if is_servers_reply(raw) {
        Some(invalid_key_text(from_text))
    } else {
        Some(invalid_packet_text(from_text, raw))
    }
}

} // verus!
