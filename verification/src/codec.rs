//! Byte-exact construction and parsing of Ethernet frames carrying ARP
//! messages: a 14-byte Ethernet II header (EtherType 0x0806) followed by a
//! 28-byte ARP payload (hardware type Ethernet, protocol type IPv4, address
//! lengths 6 and 4), 42 bytes in all.

use vstd::prelude::*;
use crate::net::Mac;

verus! {

/// ARP operation code of a request.
pub const OP_REQUEST: u16 = 1;

/// ARP operation code of a reply.
pub const OP_REPLY: u16 = 2;

/// Total length of an Ethernet frame carrying one ARP message.
pub const ARP_FRAME_LEN: usize = 42;

/// The most significant octet of an IPv4 address held as one 32-bit value.
pub open spec fn ip_b0(ip: u32) -> u8 {
    ((ip >> 24) & 0xff) as u8
}

pub open spec fn ip_b1(ip: u32) -> u8 {
    ((ip >> 16) & 0xff) as u8
}

pub open spec fn ip_b2(ip: u32) -> u8 {
    ((ip >> 8) & 0xff) as u8
}

pub open spec fn ip_b3(ip: u32) -> u8 {
    (ip & 0xff) as u8
}

/// The four octets of an IPv4 address, most significant first.
pub open spec fn ip_bytes(ip: u32) -> Seq<u8> {
    seq![ip_b0(ip), ip_b1(ip), ip_b2(ip), ip_b3(ip)]
}

/// The address whose octets, most significant first, are the arguments.
pub open spec fn ip_of(a: u8, b: u8, c: u8, d: u8) -> u32 {
    ((a as u32) << 24) | ((b as u32) << 16) | ((c as u32) << 8) | (d as u32)
}

/// Splitting an address into octets and reassembling them is the identity.
pub proof fn lemma_ip_bytes_round_trip(ip: u32)
    ensures
        ip_of(ip_b0(ip), ip_b1(ip), ip_b2(ip), ip_b3(ip)) == ip,
{
    assert((((((ip >> 24) & 0xff) as u8) as u32) << 24) | (((((ip >> 16) & 0xff) as u8) as u32)
        << 16) | (((((ip >> 8) & 0xff) as u8) as u32) << 8) | (((ip & 0xff) as u8) as u32)
        == ip) by (bit_vector);
}

/// The 42 bytes of an Ethernet frame carrying one ARP message, field by
/// field: Ethernet destination, source and EtherType 0x0806; then hardware
/// type 1, protocol type 0x0800, address lengths 6 and 4, the operation, and
/// the sender and target hardware and protocol addresses.
pub open spec fn arp_frame(
    op: u16,
    eth_dst: Mac,
    eth_src: Mac,
    sender_hw: Mac,
    sender_ip: u32,
    target_hw: Mac,
    target_ip: u32,
) -> Seq<u8> {
    seq![
        eth_dst.b0,
        eth_dst.b1,
        eth_dst.b2,
        eth_dst.b3,
        eth_dst.b4,
        eth_dst.b5,
        eth_src.b0,
        eth_src.b1,
        eth_src.b2,
        eth_src.b3,
        eth_src.b4,
        eth_src.b5,
        0x08u8,
        0x06u8,
        0x00u8,
        0x01u8,
        0x08u8,
        0x00u8,
        0x06u8,
        0x04u8,
        (op >> 8) as u8,
        (op & 0xff) as u8,
        sender_hw.b0,
        sender_hw.b1,
        sender_hw.b2,
        sender_hw.b3,
        sender_hw.b4,
        sender_hw.b5,
        ip_b0(sender_ip),
        ip_b1(sender_ip),
        ip_b2(sender_ip),
        ip_b3(sender_ip),
        target_hw.b0,
        target_hw.b1,
        target_hw.b2,
        target_hw.b3,
        target_hw.b4,
        target_hw.b5,
        ip_b0(target_ip),
        ip_b1(target_ip),
        ip_b2(target_ip),
        ip_b3(target_ip),
    ]
}

fn push_mac(v: &mut Vec<u8>, m: &Mac)
    ensures
        final(v)@ == old(v)@ + m.bytes(),
{
    v.push(m.b0);
    v.push(m.b1);
    v.push(m.b2);
    v.push(m.b3);
    v.push(m.b4);
    v.push(m.b5);
    proof {
        assert(final(v)@ =~= old(v)@ + m.bytes());
    }
}

fn push_ip(v: &mut Vec<u8>, ip: u32)
    ensures
        final(v)@ == old(v)@ + ip_bytes(ip),
{
    proof {
        assert((ip >> 24) & 0xff < 256 && (ip >> 16) & 0xff < 256 && (ip >> 8) & 0xff < 256 && ip
            & 0xff < 256) by (bit_vector);
    }
    v.push(((ip >> 24) & 0xff) as u8);
    v.push(((ip >> 16) & 0xff) as u8);
    v.push(((ip >> 8) & 0xff) as u8);
    v.push((ip & 0xff) as u8);
    proof {
        assert(final(v)@ =~= old(v)@ + ip_bytes(ip));
    }
}

/// Build the full 42-byte frame for one ARP message with the given fields.
pub fn encode_arp(
    op: u16,
    eth_dst: &Mac,
    eth_src: &Mac,
    sender_hw: &Mac,
    sender_ip: u32,
    target_hw: &Mac,
    target_ip: u32,
) -> (r: Vec<u8>)
    ensures
        r@ == arp_frame(op, *eth_dst, *eth_src, *sender_hw, sender_ip, *target_hw, target_ip),
        r@.len() == ARP_FRAME_LEN,
{
    let mut v: Vec<u8> = Vec::new();
    push_mac(&mut v, eth_dst);
    push_mac(&mut v, eth_src);
    v.push(0x08);
    v.push(0x06);
    v.push(0x00);
    v.push(0x01);
    v.push(0x08);
    v.push(0x00);
    v.push(0x06);
    v.push(0x04);
    proof {
        assert(op >> 8 < 256 && op & 0xff < 256) by (bit_vector);
    }
    v.push((op >> 8) as u8);
    v.push((op & 0xff) as u8);
    push_mac(&mut v, sender_hw);
    push_ip(&mut v, sender_ip);
    push_mac(&mut v, target_hw);
    push_ip(&mut v, target_ip);
    proof {
        assert(v@ =~= arp_frame(op, *eth_dst, *eth_src, *sender_hw, sender_ip, *target_hw,
            target_ip));
    }
    v
}

/// Encode a forged ARP request aimed at one known host: the target's
/// hardware address is both the Ethernet destination and the ARP target.
pub fn encode_request(source_mac: &Mac, source_ip: u32, target_mac: &Mac, target_ip: u32) -> (r:
    Vec<u8>)
    ensures
        r@ == arp_frame(OP_REQUEST, *target_mac, *source_mac, *source_mac, source_ip, *target_mac,
            target_ip),
        r@.len() == ARP_FRAME_LEN,
{
    encode_arp(OP_REQUEST, target_mac, source_mac, source_mac, source_ip, target_mac, target_ip)
}

/// Encode a discovery probe: an ARP request broadcast on the wire, with the
/// all-zero placeholder as the ARP target hardware address.
pub fn encode_probe(source_mac: &Mac, source_ip: u32, target_ip: u32) -> (r: Vec<u8>)
    ensures
        r@ == arp_frame(OP_REQUEST, crate::net::broadcast_mac(), *source_mac, *source_mac,
            source_ip, crate::net::zero_mac(), target_ip),
        r@.len() == ARP_FRAME_LEN,
{
    let bcast = Mac::broadcast();
    let zero = Mac::zero();
    encode_arp(OP_REQUEST, &bcast, source_mac, source_mac, source_ip, &zero, target_ip)
}

/// Whether a frame is long enough to carry an EtherType and that EtherType
/// is ARP (0x0806).
pub open spec fn is_arp_frame(b: Seq<u8>) -> bool {
    b.len() >= 14 && b[12] == 0x08 && b[13] == 0x06
}

/// What `decode_reply` yields on a byte sequence: `None` unless the frame is
/// long enough to carry an ARP message, its EtherType is 0x0806 and the ARP
/// operation is Reply; otherwise the sender protocol and hardware addresses,
/// verbatim.
pub open spec fn spec_decode_reply(b: Seq<u8>) -> Option<(u32, Mac)> {
    if b.len() < 42 {
        None
    } else if b[12] != 0x08 || b[13] != 0x06 {
        None
    } else if b[20] != 0x00 || b[21] != 0x02 {
        None
    } else {
        Some((ip_of(b[28], b[29], b[30], b[31]), Mac {
            b0: b[22],
            b1: b[23],
            b2: b[24],
            b3: b[25],
            b4: b[26],
            b5: b[27],
        }))
    }
}

/// Classify one captured frame. A frame that is too short, is not ARP, or
/// does not carry a Reply yields `None`; a reply yields the sender's
/// protocol address and hardware address, read verbatim from the frame.
pub fn decode_reply(frame: &Vec<u8>) -> (r: Option<(u32, Mac)>)
    ensures
        r == spec_decode_reply(frame@),
{
    if frame.len() < 42 {
        return None;
    }
    if frame[12] != 0x08 || frame[13] != 0x06 {
        return None;
    }
    if frame[20] != 0x00 || frame[21] != 0x02 {
        return None;
    }
    let ip = ((frame[28] as u32) << 24) | ((frame[29] as u32) << 16) | ((frame[30] as u32) << 8) | (
    frame[31] as u32);
    let mac = Mac {
        b0: frame[22],
        b1: frame[23],
        b2: frame[24],
        b3: frame[25],
        b4: frame[26],
        b5: frame[27],
    };
    Some((ip, mac))
}

/// Overwrite the ARP operation field of a 42-byte frame with Reply.
pub fn mark_reply(frame: &mut Vec<u8>)
    requires
        old(frame)@.len() == ARP_FRAME_LEN,
    ensures
        final(frame)@ == old(frame)@.update(20, 0x00u8).update(21, 0x02u8),
{
    frame[20] = 0x00;
    frame[21] = 0x02;
}

/// An encoded request whose operation field is overwritten with Reply
/// decodes to exactly the sender address pair that was encoded: the codec
/// round-trips for every valid source and target tuple.
pub proof fn lemma_request_reply_round_trip(
    source_mac: Mac,
    source_ip: u32,
    target_mac: Mac,
    target_ip: u32,
)
    ensures
        spec_decode_reply(
            arp_frame(OP_REQUEST, target_mac, source_mac, source_mac, source_ip, target_mac,
                target_ip).update(20, 0x00u8).update(21, 0x02u8),
        ) == Some((source_ip, source_mac)),
{
    let f = arp_frame(OP_REQUEST, target_mac, source_mac, source_mac, source_ip, target_mac,
        target_ip);
    let g = f.update(20, 0x00u8).update(21, 0x02u8);
    assert(g.len() == 42);
    assert(g[12] == 0x08 && g[13] == 0x06);
    assert(g[20] == 0x00 && g[21] == 0x02);
    assert(g[22] == source_mac.b0 && g[23] == source_mac.b1 && g[24] == source_mac.b2 && g[25]
        == source_mac.b3 && g[26] == source_mac.b4 && g[27] == source_mac.b5);
    lemma_ip_bytes_round_trip(source_ip);
    assert(g[28] == ip_b0(source_ip) && g[29] == ip_b1(source_ip) && g[30] == ip_b2(source_ip)
        && g[31] == ip_b3(source_ip));
}

} // verus!
