//! IPv4 subnet arithmetic: network and broadcast addresses of a prefix, and
//! enumeration of the usable discovery targets of a subnet.

use vstd::prelude::*;

verus! {

/// The netmask of a prefix length: the top `prefix` bits set.
pub open spec fn mask_of(prefix: u8) -> u32
    recommends
        prefix <= 32,
{
    if prefix == 0 {
        0u32
    } else {
        0xffff_ffffu32 << ((32 - prefix) as u32)
    }
}

/// The network address of the subnet holding `ip`.
pub open spec fn network_addr(ip: u32, prefix: u8) -> u32
    recommends
        prefix <= 32,
{
    ip & mask_of(prefix)
}

/// The broadcast address of the subnet holding `ip`.
pub open spec fn broadcast_addr(ip: u32, prefix: u8) -> u32
    recommends
        prefix <= 32,
{
    ip | !mask_of(prefix)
}

/// Whether `a` lies in the subnet holding `ip`: the masked prefixes agree.
pub open spec fn in_subnet(a: u32, ip: u32, prefix: u8) -> bool
    recommends
        prefix <= 32,
{
    a & mask_of(prefix) == ip & mask_of(prefix)
}

/// An address shares the subnet's prefix exactly when it lies between the
/// network and broadcast addresses.
pub proof fn lemma_subnet_range(ip: u32, prefix: u8, a: u32)
    requires
        prefix <= 32,
    ensures
        in_subnet(a, ip, prefix) <==> network_addr(ip, prefix) <= a <= broadcast_addr(ip, prefix),
{
    if prefix == 0 {
        assert((a & 0u32 == ip & 0u32) <==> (ip & 0u32 <= a <= ip | !0u32)) by (bit_vector);
    } else {
        let sh: u32 = (32 - prefix) as u32;
        assert(sh <= 31);
        assert(forall|x: u32, y: u32, s: u32|
            s <= 31 ==> ((x & (0xffff_ffffu32 << s) == y & (0xffff_ffffu32 << s)) <==> (y & (
            0xffff_ffffu32 << s) <= x <= y | !(0xffff_ffffu32 << s)))) by (bit_vector);
    }
}

/// The network address never exceeds the broadcast address.
pub proof fn lemma_network_le_broadcast(ip: u32, prefix: u8)
    requires
        prefix <= 32,
    ensures
        network_addr(ip, prefix) <= broadcast_addr(ip, prefix),
{
    let m = mask_of(prefix);
    assert(forall|x: u32, n: u32| (x & n) <= (x | !n)) by (bit_vector);
}

fn netmask(prefix: u8) -> (m: u32)
    requires
        prefix <= 32,
    ensures
        m == mask_of(prefix),
{
    if prefix == 0 {
        0
    } else {
        0xffff_ffffu32 << ((32 - prefix) as u32)
    }
}

/// Compute the network and broadcast addresses of the subnet holding `ip`.
pub fn subnet_bounds(ip: u32, prefix: u8) -> (r: (u32, u32))
    requires
        prefix <= 32,
    ensures
        r.0 == network_addr(ip, prefix),
        r.1 == broadcast_addr(ip, prefix),
{
    let m = netmask(prefix);
    (ip & m, ip | !m)
}

/// Enumerate the discovery targets of a subnet: every address strictly
/// between the network and broadcast addresses, each exactly once, in
/// ascending numeric order.
pub fn enumerate_targets(ip: u32, prefix: u8) -> (r: Vec<u32>)
    requires
        prefix <= 32,
    ensures
        r@.len() == (if broadcast_addr(ip, prefix) > network_addr(ip, prefix) + 1 {
            broadcast_addr(ip, prefix) - network_addr(ip, prefix) - 1
        } else {
            0
        }),
        forall|i: int|
            0 <= i < r@.len() ==> r@[i] == network_addr(ip, prefix) + 1 + i,
{
    let (net, bc) = subnet_bounds(ip, prefix);
    proof {
        lemma_network_le_broadcast(ip, prefix);
    }
    let mut v: Vec<u32> = Vec::new();
    if bc > net {
        let mut a: u32 = net + 1;
        while a < bc
            invariant
                net < bc,
                net + 1 <= a <= bc,
                v@.len() == a - net - 1,
                forall|i: int| 0 <= i < v@.len() ==> v@[i] == net + 1 + i,
            decreases bc - a,
        {
            v.push(a);
            a = a + 1;
        }
    }
    v
}

/// The enumerated target list of a subnet excludes exactly the network and
/// broadcast addresses: an address appears in it if and only if it lies in
/// the subnet and is neither of those two; no address appears twice; and the
/// list is strictly ascending.
pub proof fn lemma_targets_exact(ip: u32, prefix: u8, s: Seq<u32>)
    requires
        prefix <= 32,
        s.len() == (if broadcast_addr(ip, prefix) > network_addr(ip, prefix) + 1 {
            broadcast_addr(ip, prefix) - network_addr(ip, prefix) - 1
        } else {
            0
        }),
        forall|i: int| 0 <= i < s.len() ==> s[i] == network_addr(ip, prefix) + 1 + i,
    ensures
        forall|a: u32|
            (exists|i: int| 0 <= i < s.len() && s[i] == a) <==> (in_subnet(a, ip, prefix) && a
                != network_addr(ip, prefix) && a != broadcast_addr(ip, prefix)),
        forall|i: int, j: int| 0 <= i < j < s.len() ==> s[i] < s[j],
{
    let net = network_addr(ip, prefix);
    let bc = broadcast_addr(ip, prefix);
    assert forall|a: u32|
        (exists|i: int| 0 <= i < s.len() && s[i] == a) <==> (in_subnet(a, ip, prefix) && a != net
            && a != bc) by {
        lemma_subnet_range(ip, prefix, a);
        if in_subnet(a, ip, prefix) && a != net && a != bc {
            let w = a - net - 1;
            assert(0 <= w < s.len());
            assert(s[w] == a);
        }
    }
}

} // verus!
