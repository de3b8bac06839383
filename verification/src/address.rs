//! Socket addresses as plain values.

use crate::table::Rank;
use vstd::prelude::*;
use vstd::string::*;

verus! {

/// An IPv6 socket address.
#[derive(Clone, Copy, Debug, PartialEq, Eq, Structural)]
pub struct SocketAddrV6 {
    /// The 128-bit address, most significant octet first.
    pub ip: u128,
    pub port: u16,
    pub flowinfo: u32,
    pub scope_id: u32,
}

/// A socket address of either family.
#[derive(Clone, Copy, Debug, PartialEq, Eq, Structural)]
pub enum SocketAddr {
    V4 { ip: u32, port: u16 },
    V6(SocketAddrV6),
}

impl SocketAddrV6 {
    /// The address that a packet carries: it has neither flow nor scope.
    pub open spec fn plain(ip: u128, port: u16) -> SocketAddrV6 {
        SocketAddrV6 { ip, port, flowinfo: 0, scope_id: 0 }
    }

    /// Addresses are ordered by their IP, then port, flow and scope.
    pub open spec fn precedes(self, other: SocketAddrV6) -> bool {
        ||| self.ip < other.ip
        ||| self.ip == other.ip && self.port < other.port
        ||| self.ip == other.ip && self.port == other.port && self.flowinfo < other.flowinfo
        ||| self.ip == other.ip && self.port == other.port && self.flowinfo == other.flowinfo
            && self.scope_id < other.scope_id
    }
}

impl Rank for SocketAddrV6 {
    open spec fn rank(self) -> int {
        self.ip * 0x1_0000_0000_0000_0000_0000 + self.port * 0x1_0000_0000_0000_0000
            + self.flowinfo * 0x1_0000_0000 + self.scope_id
    }

    proof fn lemma_rank_injective(a: SocketAddrV6, b: SocketAddrV6) {
    }

    fn less(&self, other: &SocketAddrV6) -> bool {
        if self.ip != other.ip {
            self.ip < other.ip
        } else if self.port != other.port {
            self.port < other.port
        } else if self.flowinfo != other.flowinfo {
            self.flowinfo < other.flowinfo
        } else {
            self.scope_id < other.scope_id
        }
    }
}

impl Rank for SocketAddr {
    /// Every IPv4 address comes before every IPv6 address.
    open spec fn rank(self) -> int {
        match self {
            SocketAddr::V4 { ip, port } => ip * 0x1_0000 + port,
            SocketAddr::V6(addr) => 0x1_0000_0000_0000 + addr.rank(),
        }
    }

    proof fn lemma_rank_injective(a: SocketAddr, b: SocketAddr) {
        match (a, b) {
            (SocketAddr::V6(x), SocketAddr::V6(y)) => {
                SocketAddrV6::lemma_rank_injective(x, y);
            },
            (SocketAddr::V6(x), SocketAddr::V4 { ip, port }) => {
                assert(x.rank() >= 0);
            },
            (SocketAddr::V4 { ip, port }, SocketAddr::V6(y)) => {
                assert(y.rank() >= 0);
            },
            _ => {},
        }
    }

    fn less(&self, other: &SocketAddr) -> bool {
        match (self, other) {
            (SocketAddr::V4 { ip: a, port: p }, SocketAddr::V4 { ip: b, port: q }) => {
                if *a != *b {
                    *a < *b
                } else {
                    *p < *q
                }
            },
            (SocketAddr::V4 { .. }, SocketAddr::V6(_)) => true,
            (SocketAddr::V6(_), SocketAddr::V4 { .. }) => false,
            (SocketAddr::V6(a), SocketAddr::V6(b)) => a.less(b),
        }
    }
}

/// The first IPv6 address among those that a host has.
pub open spec fn first_v6(addrs: Seq<SocketAddr>) -> Option<SocketAddrV6>
    decreases addrs.len(),
{
    if addrs.len() == 0 {
        None
    } else {
        match addrs[0] {
            SocketAddr::V6(addr) => Some(addr),
            SocketAddr::V4 { .. } => first_v6(addrs.skip(1)),
        }
    }
}

/// Finds the first IPv6 address among those that a host has.
pub fn find_v6(addrs: &[SocketAddr]) -> (r: Option<SocketAddrV6>)
    ensures
        r == first_v6(addrs@),
        match r {
            Some(addr) => exists|i: int|
                0 <= i < addrs@.len() && (#[trigger] addrs@[i]) == SocketAddr::V6(addr) && forall|
                    j: int,
                |
                    0 <= j < i ==> !((#[trigger] addrs@[j]) is V6),
            None => forall|i: int| 0 <= i < addrs@.len() ==> !((#[trigger] addrs@[i]) is V6),
        },
{
    let mut i: usize = 0;
    assert(addrs@.skip(0) =~= addrs@);
    while i < addrs.len()
        invariant
            i <= addrs@.len(),
            first_v6(addrs@.skip(i as int)) == first_v6(addrs@),
            forall|j: int| 0 <= j < i ==> !((#[trigger] addrs@[j]) is V6),
        decreases addrs@.len() - i,
    {
        if let SocketAddr::V6(addr) = addrs[i] {
            assert(addrs@[i as int] == SocketAddr::V6(addr));
            return Some(addr);
        }
        assert(addrs@.skip(i as int).skip(1) =~= addrs@.skip(i + 1));
        i = i + 1;
    }
    None
}

/// Takes in the addresses that `host` was resolved to: the first IPv6 address
/// goes to `out`. If there is none, it returns what to say of that.
pub fn get_socket_addr(host: &str, resolved: &[SocketAddr], out: &mut Vec<SocketAddrV6>) -> (r:
    Option<String>)
    ensures
        match first_v6(resolved@) {
            Some(addr) => r is None && final(out)@ == old(out)@.push(addr),
            None => final(out)@ == old(out)@ && r is Some && r->Some_0@
                == "warn: failed to resolve address for "@ + host@,
        },
        r is Some <==> forall|i: int|
            0 <= i < resolved@.len() ==> !((#[trigger] resolved@[i]) is V6),
        r is None ==> final(out)@.len() == old(out)@.len() + 1 && resolved@.contains(
            SocketAddr::V6(final(out)@.last()),
        ),
{
    match find_v6(resolved) {
        Some(addr) => {
            out.push(addr);
            None
        },
        None => {
            let mut message = "warn: failed to resolve address for ".to_owned();
            message.append(host);
            Some(message)
        },
    }
}

} // verus!
