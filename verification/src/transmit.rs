//! The serialized send endpoint. A transmitter accepts one whole frame per
//! send and records it as one unit on the wire, so callers that take turns —
//! however their turns are ordered — can never interleave the bytes of two
//! frames. Swapping in a fresh channel is a single atomic step as well: it
//! starts a new, empty wire log.

use vstd::prelude::*;
use vstd::seq_lib::*;

verus! {

/// The bytes a sequence of whole frames puts on the wire, in order.
pub open spec fn wire_bytes(frames: Seq<Seq<u8>>) -> Seq<u8> {
    frames.flatten()
}

/// A send endpoint that writes one whole frame at a time and records the
/// frames it has written, oldest first. One value of this type stands for
/// one exclusively held channel: a caller must own it (or hold the lock
/// around it) for the duration of exactly one send.
pub struct Transmitter {
    wire: Vec<Vec<u8>>,
    generation: u64,
}

impl Transmitter {
    /// The frames written so far, each one contiguous, oldest first.
    pub closed spec fn frames(self) -> Seq<Seq<u8>> {
        self.wire.deep_view()
    }

    /// How many times the underlying channel has been replaced.
    pub closed spec fn generation_of(self) -> u64 {
        self.generation
    }

    pub fn new() -> (t: Transmitter)
        ensures
            t.frames() == Seq::<Seq<u8>>::empty(),
            t.generation_of() == 0,
    {
        let t = Transmitter { wire: Vec::new(), generation: 0 };
        proof {
            assert(t.frames() =~= Seq::<Seq<u8>>::empty());
        }
        t
    }

    /// Write one frame: the wire gains exactly that frame, whole, at the
    /// end, and nothing else changes. Because the whole frame is appended in
    /// one step, no schedule of callers can split or interleave it.
    pub fn send(&mut self, frame: Vec<u8>)
        ensures
            final(self).frames() == old(self).frames().push(frame@),
            final(self).generation_of() == old(self).generation_of(),
    {
        self.wire.push(frame);
        proof {
            assert(final(self).frames() =~~= old(self).frames().push(frame@));
        }
    }

    /// Swap in a fresh channel: the wire log restarts empty and the
    /// generation count advances by one. Takes the transmitter exclusively,
    /// so no send can observe a half-swapped channel.
    pub fn replace(&mut self)
        requires
            old(self).generation_of() < u64::MAX,
        ensures
            final(self).frames() == Seq::<Seq<u8>>::empty(),
            final(self).generation_of() == old(self).generation_of() + 1,
    {
        self.wire = Vec::new();
        self.generation = self.generation + 1;
        proof {
            assert(final(self).frames() =~= Seq::<Seq<u8>>::empty());
        }
    }

    /// The number of frames written so far.
    pub fn sent_count(&self) -> (n: usize)
        ensures
            n == self.frames().len(),
    {
        self.wire.len()
    }

    /// Hand the recorded frames out, oldest first.
    pub fn into_frames(self) -> (r: Vec<Vec<u8>>)
        ensures
            r.deep_view() == self.frames(),
    {
        self.wire
    }
}

/// Two callers that each send one whole frame through a transmitter leave
/// the wire holding the earlier bytes followed by each frame contiguous and
/// intact, whichever caller's send is serialized first: no interleaving of
/// the two frames' bytes can occur.
pub proof fn lemma_sends_never_interleave(earlier: Seq<Seq<u8>>, a: Seq<u8>, b: Seq<u8>)
    ensures
        wire_bytes(earlier.push(a).push(b)) == wire_bytes(earlier) + a + b,
        wire_bytes(earlier.push(b).push(a)) == wire_bytes(earlier) + b + a,
{
    broadcast use Seq::lemma_flatten_push;

    assert(wire_bytes(earlier.push(a).push(b)) =~= wire_bytes(earlier) + a + b);
    assert(wire_bytes(earlier.push(b).push(a)) =~= wire_bytes(earlier) + b + a);
}

} // verus!
