//! Collection of discovery results: every captured frame that decodes as an
//! ARP reply contributes one discovered host, in order of arrival, with
//! duplicates kept; every other frame is discarded without effect.

use vstd::prelude::*;
use crate::codec::arp_frame;
use crate::codec::encode_probe;
use crate::codec::is_arp_frame;
use crate::codec::OP_REQUEST;
use crate::codec::spec_decode_reply;
use crate::codec::decode_reply;
use crate::net::broadcast_mac;
use crate::net::zero_mac;
use crate::net::Mac;
use crate::net::mac_text;
use crate::net::mac_text_spec;
use crate::net::lemma_mac_text_round_trip;
use crate::net::spec_parse_mac;

verus! {

/// A host seen answering a discovery probe: its protocol address and the
/// canonical text of its hardware address.
pub struct DiscoveredHost {
    pub ip: u32,
    pub mac_text: String,
}

impl DiscoveredHost {
    /// The pair the host stands for: address and hardware-address text.
    pub open spec fn model(self) -> (u32, Seq<char>) {
        (self.ip, self.mac_text@)
    }
}

/// The models of a list of discovered hosts, in order.
pub open spec fn hosts_model(s: Seq<DiscoveredHost>) -> Seq<(u32, Seq<char>)> {
    s.map_values(|h: DiscoveredHost| h.model())
}

/// The host entry one decoded reply gives rise to.
pub open spec fn reply_model(p: (u32, Mac)) -> (u32, Seq<char>) {
    (p.0, mac_text_spec(p.1))
}

/// The hosts a sequence of captured frames yields, in order of arrival:
/// one entry per frame that decodes as an ARP reply, nothing for any other
/// frame, duplicates kept.
pub open spec fn replies_of(frames: Seq<Seq<u8>>) -> Seq<(u32, Seq<char>)>
    decreases frames.len(),
{
    if frames.len() == 0 {
        Seq::empty()
    } else {
        replies_of(frames.drop_last()) + (match spec_decode_reply(frames.last()) {
            Some(p) => seq![reply_model(p)],
            None => Seq::<(u32, Seq<char>)>::empty(),
        })
    }
}

/// The accumulating result list of one discovery scan.
pub struct ScanSession {
    pub hosts: Vec<DiscoveredHost>,
}

impl ScanSession {
    pub fn new() -> (s: ScanSession)
        ensures
            s.hosts@.len() == 0,
    {
        ScanSession { hosts: Vec::new() }
    }

    /// Classify one captured frame: append a discovered host exactly when
    /// the frame decodes as an ARP reply, and report what was decoded.
    /// A malformed or non-ARP frame leaves the session unchanged.
    pub fn observe_frame(&mut self, frame: &Vec<u8>) -> (found: Option<(u32, Mac)>)
        ensures
            found == spec_decode_reply(frame@),
            match found {
                Some(p) => hosts_model(final(self).hosts@) == hosts_model(old(self).hosts@).push(
                    reply_model(p),
                ),
                None => final(self).hosts@ == old(self).hosts@,
            },
    {
        match decode_reply(frame) {
            Some((ip, mac)) => {
                let text = mac_text(&mac);
                self.hosts.push(DiscoveredHost { ip, mac_text: text });
                proof {
                    assert(hosts_model(final(self).hosts@) =~= hosts_model(old(self).hosts@).push(
                        reply_model((ip, mac)),
                    ));
                }
                Some((ip, mac))
            },
            None => None,
        }
    }

    /// Classify a batch of captured frames in arrival order: the session
    /// gains exactly the hosts the frames' replies yield, appended in order.
    pub fn observe_all(&mut self, frames: &Vec<Vec<u8>>)
        ensures
            hosts_model(final(self).hosts@) == hosts_model(old(self).hosts@) + replies_of(
                frames.deep_view(),
            ),
    {
        let ghost dv = frames.deep_view();
        let mut i: usize = 0;
        proof {
            assert(dv.take(0) =~= Seq::<Seq<u8>>::empty());
            assert(hosts_model(self.hosts@) =~= hosts_model(old(self).hosts@) + replies_of(
                dv.take(0),
            ));
        }
        while i < frames.len()
            invariant
                i <= frames.len(),
                dv == frames.deep_view(),
                hosts_model(self.hosts@) == hosts_model(old(self).hosts@) + replies_of(dv.take(
                    i as int,
                )),
            decreases frames.len() - i,
        {
            let found = self.observe_frame(&frames[i]);
            proof {
                assert(dv.take(i + 1).drop_last() =~= dv.take(i as int));
                assert(dv.take(i + 1).last() == frames[i as int]@);
                match spec_decode_reply(frames[i as int]@) {
                    Some(p) => {
                        assert(hosts_model(self.hosts@) =~= hosts_model(old(self).hosts@)
                            + replies_of(dv.take(i + 1)));
                    },
                    None => {
                        assert(hosts_model(self.hosts@) =~= hosts_model(old(self).hosts@)
                            + replies_of(dv.take(i + 1)));
                    },
                }
            }
            i = i + 1;
        }
        proof {
            assert(dv.take(frames.len() as int) =~= dv);
        }
    }
}

/// Encode one discovery probe per enumerated target, in enumeration order:
/// each a broadcast ARP request naming that target's protocol address, with
/// the all-zero placeholder as the ARP target hardware address.
pub fn probe_frames(source_mac: &Mac, source_ip: u32, targets: &Vec<u32>) -> (r: Vec<Vec<u8>>)
    ensures
        r@.len() == targets@.len(),
        forall|i: int|
            0 <= i < r@.len() ==> r@[i]@ == arp_frame(OP_REQUEST, broadcast_mac(), *source_mac,
                *source_mac, source_ip, zero_mac(), targets@[i]),
{
    let mut r: Vec<Vec<u8>> = Vec::new();
    let mut i: usize = 0;
    while i < targets.len()
        invariant
            i <= targets.len(),
            r@.len() == i,
            forall|j: int|
                0 <= j < r@.len() ==> r@[j]@ == arp_frame(OP_REQUEST, broadcast_mac(), *source_mac,
                    *source_mac, source_ip, zero_mac(), targets@[j]),
        decreases targets.len() - i,
    {
        r.push(encode_probe(source_mac, source_ip, targets[i]));
        i = i + 1;
    }
    r
}

/// Every host a capture yields carries hardware-address text that parses
/// back to an address: a flood aimed at a scanned host can never find its
/// stored text malformed.
pub proof fn lemma_scanned_text_parses(frames: Seq<Seq<u8>>, j: int)
    requires
        0 <= j < replies_of(frames).len(),
    ensures
        spec_parse_mac(replies_of(frames)[j].1) is Some,
    decreases frames.len(),
{
    if frames.len() > 0 {
        let head = frames.drop_last();
        match spec_decode_reply(frames.last()) {
            Some(p) => {
                if j < replies_of(head).len() {
                    lemma_scanned_text_parses(head, j);
                } else {
                    assert(replies_of(frames)[j] == reply_model(p));
                    lemma_mac_text_round_trip(p.1);
                }
            },
            None => {
                assert(replies_of(frames) =~= replies_of(head));
                lemma_scanned_text_parses(head, j);
            },
        }
    }
}

/// A capture window fed only non-ARP frames yields no hosts at all.
pub proof fn lemma_non_arp_yields_nothing(frames: Seq<Seq<u8>>)
    requires
        forall|i: int| 0 <= i < frames.len() ==> !is_arp_frame(frames[i]),
    ensures
        replies_of(frames) == Seq::<(u32, Seq<char>)>::empty(),
    decreases frames.len(),
{
    if frames.len() > 0 {
        lemma_non_arp_yields_nothing(frames.drop_last());
        assert(!is_arp_frame(frames.last()));
        assert(spec_decode_reply(frames.last()) is None);
        assert(replies_of(frames) =~= Seq::<(u32, Seq<char>)>::empty());
    }
}

/// One well-formed ARP reply followed by any amount of malformed or
/// irrelevant traffic yields exactly that one host: garbage neither hides
/// the reply nor adds entries.
pub proof fn lemma_one_reply_then_garbage(frames: Seq<Seq<u8>>, p: (u32, Mac))
    requires
        frames.len() >= 1,
        spec_decode_reply(frames[0]) == Some(p),
        forall|i: int| 1 <= i < frames.len() ==> spec_decode_reply(frames[i]) is None,
    ensures
        replies_of(frames) == seq![reply_model(p)],
    decreases frames.len(),
{
    if frames.len() == 1 {
        assert(frames.last() == frames[0]);
        assert(frames.drop_last() =~= Seq::<Seq<u8>>::empty());
        assert(replies_of(Seq::<Seq<u8>>::empty()) =~= Seq::<(u32, Seq<char>)>::empty());
        assert(replies_of(frames) =~= seq![reply_model(p)]);
    } else {
        let head = frames.drop_last();
        assert(head[0] == frames[0]);
        assert forall|i: int| 1 <= i < head.len() implies spec_decode_reply(
            #[trigger] head[i],
        ) is None by {
            assert(head[i] == frames[i]);
        }
        lemma_one_reply_then_garbage(head, p);
        assert(frames.last() == frames[frames.len() - 1]);
        assert(spec_decode_reply(frames[frames.len() - 1]) is None);
        assert(replies_of(frames) =~= seq![reply_model(p)]);
    }
}

} // verus!
