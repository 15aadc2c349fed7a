use arpflood::codec::{encode_probe, encode_request, mark_reply};
use arpflood::net::Mac;
use arpflood::scanner::{probe_frames, ScanSession};

fn reply_frame(sender_mac: Mac, sender_ip: u32) -> Vec<u8> {
    let other = Mac::new(2, 2, 2, 2, 2, 2);
    let mut frame = encode_request(&sender_mac, sender_ip, &other, 0x0a000001);
    mark_reply(&mut frame);
    frame
}

#[test]
fn only_non_arp_traffic_yields_nothing() {
    let mut session = ScanSession::new();
    let mut ipv4 = vec![0u8; 60];
    ipv4[12] = 0x08;
    ipv4[13] = 0x00;
    let frames = vec![ipv4, vec![0u8; 42], vec![0xffu8; 60]];
    session.observe_all(&frames);
    assert_eq!(session.hosts.len(), 0);
}

#[test]
fn one_reply_then_garbage_yields_one_host() {
    let mut session = ScanSession::new();
    let good = reply_frame(Mac::new(0xaa, 0xbb, 0xcc, 0xdd, 0xee, 0xff), 0x0a000002);
    let frames = vec![good, vec![0x08u8, 0x06u8], vec![0u8; 13], vec![0x5au8; 41]];
    session.observe_all(&frames);
    assert_eq!(session.hosts.len(), 1);
    assert_eq!(session.hosts[0].ip, 0x0a000002);
    assert_eq!(session.hosts[0].mac_text, "aa:bb:cc:dd:ee:ff");
}

#[test]
fn duplicate_replies_are_kept_in_arrival_order() {
    let mut session = ScanSession::new();
    let first = reply_frame(Mac::new(1, 1, 1, 1, 1, 1), 0x0a000003);
    let second = reply_frame(Mac::new(4, 4, 4, 4, 4, 4), 0x0a000004);
    session.observe_all(&vec![first.clone(), second, first]);
    assert_eq!(session.hosts.len(), 3);
    assert_eq!(session.hosts[0].ip, 0x0a000003);
    assert_eq!(session.hosts[1].ip, 0x0a000004);
    assert_eq!(session.hosts[2].ip, 0x0a000003);
    assert_eq!(session.hosts[0].mac_text, session.hosts[2].mac_text);
}

#[test]
fn observe_frame_reports_what_it_appended() {
    let mut session = ScanSession::new();
    let good = reply_frame(Mac::new(1, 2, 3, 4, 5, 6), 0x0a000005);
    let found = session.observe_frame(&good);
    assert_eq!(found, Some((0x0a000005, Mac::new(1, 2, 3, 4, 5, 6))));
    assert_eq!(session.observe_frame(&vec![0u8; 42]), None);
    assert_eq!(session.hosts.len(), 1);
}

#[test]
fn probe_frames_cover_each_target_in_order() {
    let src = Mac::new(0xde, 0xad, 0xbe, 0xef, 0x00, 0x01);
    let targets = vec![0x0a000001u32, 0x0a000002, 0x0a000003];
    let probes = probe_frames(&src, 0x0a000007, &targets);
    assert_eq!(probes.len(), 3);
    for (i, target) in targets.iter().enumerate() {
        assert_eq!(probes[i], encode_probe(&src, 0x0a000007, *target));
    }
}
