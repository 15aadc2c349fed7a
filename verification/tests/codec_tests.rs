use arpflood::codec::{decode_reply, encode_arp, encode_probe, encode_request, mark_reply, OP_REPLY};
use arpflood::net::Mac;

fn sample_source() -> Mac {
    Mac::new(0xde, 0xad, 0xbe, 0xef, 0x00, 0x01)
}

fn sample_target() -> Mac {
    Mac::new(0x12, 0x34, 0x56, 0x78, 0x9a, 0xbc)
}

#[test]
fn request_frame_layout_is_byte_exact() {
    let src = sample_source();
    let tgt = sample_target();
    // 192.168.1.5 and 192.168.1.77
    let frame = encode_request(&src, 0xc0a80105, &tgt, 0xc0a8014d);
    let expected: Vec<u8> = vec![
        // Ethernet destination: the target's hardware address
        0x12, 0x34, 0x56, 0x78, 0x9a, 0xbc,
        // Ethernet source
        0xde, 0xad, 0xbe, 0xef, 0x00, 0x01,
        // EtherType ARP
        0x08, 0x06,
        // hardware type Ethernet
        0x00, 0x01,
        // protocol type IPv4
        0x08, 0x00,
        // address lengths 6 and 4
        0x06, 0x04,
        // operation: Request
        0x00, 0x01,
        // sender hardware address
        0xde, 0xad, 0xbe, 0xef, 0x00, 0x01,
        // sender protocol address
        0xc0, 0xa8, 0x01, 0x05,
        // target hardware address
        0x12, 0x34, 0x56, 0x78, 0x9a, 0xbc,
        // target protocol address
        0xc0, 0xa8, 0x01, 0x4d,
    ];
    assert_eq!(frame, expected);
}

#[test]
fn probe_frame_broadcasts_with_zero_target() {
    let src = sample_source();
    let frame = encode_probe(&src, 0x0a000001, 0x0a0000fe);
    assert_eq!(frame.len(), 42);
    assert_eq!(&frame[0..6], &[0xff, 0xff, 0xff, 0xff, 0xff, 0xff]);
    assert_eq!(&frame[6..12], &[0xde, 0xad, 0xbe, 0xef, 0x00, 0x01]);
    assert_eq!(&frame[12..14], &[0x08, 0x06]);
    assert_eq!(&frame[20..22], &[0x00, 0x01]);
    assert_eq!(&frame[28..32], &[0x0a, 0x00, 0x00, 0x01]);
    assert_eq!(&frame[32..38], &[0x00, 0x00, 0x00, 0x00, 0x00, 0x00]);
    assert_eq!(&frame[38..42], &[0x0a, 0x00, 0x00, 0xfe]);
}

#[test]
fn reply_round_trips_to_encoded_sender() {
    let src = sample_source();
    let tgt = sample_target();
    let mut frame = encode_request(&src, 0xc0a80105, &tgt, 0xc0a8014d);
    mark_reply(&mut frame);
    let decoded = decode_reply(&frame);
    assert_eq!(decoded, Some((0xc0a80105, src)));
}

#[test]
fn directly_encoded_reply_decodes_to_its_sender() {
    let answerer = Mac::new(0xaa, 0xbb, 0xcc, 0xdd, 0xee, 0xff);
    let asker = sample_source();
    let frame = encode_arp(OP_REPLY, &asker, &answerer, &answerer, 0x0a00002a, &asker, 0x0a000001);
    assert_eq!(decode_reply(&frame), Some((0x0a00002a, answerer)));
}

#[test]
fn decode_rejects_request_operation() {
    let src = sample_source();
    let tgt = sample_target();
    let frame = encode_request(&src, 0xc0a80105, &tgt, 0xc0a8014d);
    assert_eq!(decode_reply(&frame), None);
}

#[test]
fn decode_rejects_non_arp_ethertype() {
    let src = sample_source();
    let tgt = sample_target();
    let mut frame = encode_request(&src, 0xc0a80105, &tgt, 0xc0a8014d);
    mark_reply(&mut frame);
    // EtherType IPv4 instead of ARP
    frame[12] = 0x08;
    frame[13] = 0x00;
    assert_eq!(decode_reply(&frame), None);
}

#[test]
fn decode_rejects_truncated_frames() {
    assert_eq!(decode_reply(&Vec::new()), None);
    assert_eq!(decode_reply(&vec![0x08, 0x06]), None);
    let src = sample_source();
    let tgt = sample_target();
    let mut frame = encode_request(&src, 0xc0a80105, &tgt, 0xc0a8014d);
    mark_reply(&mut frame);
    frame.truncate(41);
    assert_eq!(decode_reply(&frame), None);
}

#[test]
fn decode_accepts_padded_frames() {
    let src = sample_source();
    let tgt = sample_target();
    let mut frame = encode_request(&src, 0xc0a80105, &tgt, 0xc0a8014d);
    mark_reply(&mut frame);
    // Ethernet padding up to the 60-byte minimum must not hide a reply.
    while frame.len() < 60 {
        frame.push(0);
    }
    assert_eq!(decode_reply(&frame), Some((0xc0a80105, src)));
}
