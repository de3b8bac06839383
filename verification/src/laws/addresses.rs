//! What holds of addresses.

use crate::address::{first_v6, SocketAddr, SocketAddrV6};
use vstd::prelude::*;

verus! {

/// The address taken of a host is its first IPv6 address: there is none just
/// where the host has none, and no other one stands before it.
pub proof fn law_first_address_is_taken(addrs: Seq<SocketAddr>, a: SocketAddrV6)
    ensures
        first_v6(addrs) is None <==> forall|i: int|
            0 <= i < addrs.len() ==> !((#[trigger] addrs[i]) is V6),
        first_v6(addrs) == Some(a) <==> exists|i: int|
                0 <= i < addrs.len() && (#[trigger] addrs[i]) == SocketAddr::V6(a) && forall|j: int|
                    0 <= j < i ==> !((#[trigger] addrs[j]) is V6),
    decreases addrs.len(),
{
    if addrs.len() > 0 {
        let rest = addrs.skip(1);
        law_first_address_is_taken(rest, a);
        assert(forall|i: int| 0 <= i < rest.len() ==> rest[i] == addrs[i + 1]);
        assert(forall|i: int| 1 <= i < addrs.len() ==> addrs[i] == rest[i - 1]);
        if !(addrs[0] is V6) {
            assert(first_v6(addrs) == first_v6(rest));
        }
        if addrs[0] is V6 {
            if addrs[0] == SocketAddr::V6(a) {
                assert(first_v6(addrs) == Some(a));
            }
            if first_v6(addrs) == Some(a) {
                assert(addrs[0] == SocketAddr::V6(a));
            }
        } else {
            if first_v6(rest) == Some(a) {
                let i = choose|i: int|
                    0 <= i < rest.len() && (#[trigger] rest[i]) == SocketAddr::V6(a) && forall|
                        j: int,
                    |
                        0 <= j < i ==> !((#[trigger] rest[j]) is V6);
                assert(addrs[i + 1] == SocketAddr::V6(a));
                assert forall|j: int| 0 <= j < i + 1 implies !((#[trigger] addrs[j]) is V6) by {
                    if j > 0 {
                        assert(!(rest[j - 1] is V6));
                    }
                }
            }
            if exists|i: int|
                0 <= i < addrs.len() && (#[trigger] addrs[i]) == SocketAddr::V6(a) && forall|
                    j: int,
                |
                    0 <= j < i ==> !((#[trigger] addrs[j]) is V6) {
                let i = choose|i: int|
                    0 <= i < addrs.len() && (#[trigger] addrs[i]) == SocketAddr::V6(a)
                        && forall|j: int| 0 <= j < i ==> !((#[trigger] addrs[j]) is V6);
                assert(rest[i - 1] == SocketAddr::V6(a));
                assert forall|j: int| 0 <= j < i - 1 implies !((#[trigger] rest[j]) is V6) by {
                    assert(!(addrs[j + 1] is V6));
                }
            }
        }
    }
}

/// Addresses are in a strict total order, in which the IP counts first, then
/// the port, the flow and the scope.
pub proof fn law_addresses_are_ordered(a: SocketAddrV6, b: SocketAddrV6, c: SocketAddrV6)
    ensures
        !a.precedes(a),
        a != b ==> a.precedes(b) != b.precedes(a),
        a.precedes(b) && b.precedes(c) ==> a.precedes(c),
        a.ip < b.ip ==> a.precedes(b),
        a.ip == b.ip && a.port < b.port ==> a.precedes(b),
        a.ip == b.ip && a.port == b.port && a.flowinfo < b.flowinfo ==> a.precedes(b),
        a.ip == b.ip && a.port == b.port && a.flowinfo == b.flowinfo && a.scope_id < b.scope_id
            ==> a.precedes(b),
{
}

} // verus!
