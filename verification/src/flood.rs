//! Rate-limited flood scheduling: the exact sequence of frame emissions and
//! pauses a flood of one target performs — one freshly encoded forged
//! request per packet, a pause of the configured delay between consecutive
//! sends, and no pause after the last send.

use vstd::prelude::*;
use crate::codec::arp_frame;
use crate::codec::encode_request;
use crate::codec::OP_REQUEST;
use crate::net::Mac;

verus! {

/// How many packets one flood sends, and the pause between two of them.
#[derive(Clone, Copy, PartialEq, Eq, Structural, Debug)]
pub struct FloodConfig {
    pub packets_per_target: usize,
    pub delay_ms: u64,
}

/// One action of a flood worker: put a frame on the wire, or wait.
pub enum FloodStep {
    Emit(Vec<u8>),
    Pause(u64),
}

/// The shape of a flood plan for `n` packets: `2n - 1` steps (none for
/// `n == 0`), the frame at every even position, the pause at every odd one —
/// so emissions and pauses alternate, and the plan both starts and ends with
/// an emission.
pub open spec fn plan_shape(steps: Seq<FloodStep>, n: int, frame: Seq<u8>, delay: u64) -> bool {
    &&& steps.len() == (if n == 0 {
        0int
    } else {
        2 * n - 1
    })
    &&& forall|i: int|
        0 <= i < steps.len() && i % 2 == 0 ==> ((#[trigger] steps[i]) matches FloodStep::Emit(f)
            && f@ == frame)
    &&& forall|i: int|
        0 <= i < steps.len() && i % 2 == 1 ==> ((#[trigger] steps[i]) matches FloodStep::Pause(d)
            && d == delay)
}

/// Build the plan of one flood: `packets_per_target` forged requests toward
/// the target, each encoded afresh with the target's hardware address as
/// both Ethernet destination and ARP target, separated by pauses of
/// `delay_ms`, with no trailing pause.
pub fn build_flood_plan(
    config: &FloodConfig,
    source_mac: &Mac,
    source_ip: u32,
    target_mac: &Mac,
    target_ip: u32,
) -> (steps: Vec<FloodStep>)
    ensures
        plan_shape(steps@, config.packets_per_target as int, arp_frame(OP_REQUEST, *target_mac,
            *source_mac, *source_mac, source_ip, *target_mac, target_ip), config.delay_ms),
{
    let n = config.packets_per_target;
    let ghost frame = arp_frame(OP_REQUEST, *target_mac, *source_mac, *source_mac, source_ip,
        *target_mac, target_ip);
    let mut steps: Vec<FloodStep> = Vec::new();
    if n == 0 {
        return steps;
    }
    steps.push(FloodStep::Emit(encode_request(source_mac, source_ip, target_mac, target_ip)));
    let mut k: usize = 1;
    while k < n
        invariant
            1 <= k <= n,
            n == config.packets_per_target,
            frame == arp_frame(OP_REQUEST, *target_mac, *source_mac, *source_mac, source_ip,
                *target_mac, target_ip),
            steps@.len() == 2 * k - 1,
            forall|i: int|
                0 <= i < steps@.len() && i % 2 == 0 ==> ((#[trigger] steps@[i])
                    matches FloodStep::Emit(f) && f@ == frame),
            forall|i: int|
                0 <= i < steps@.len() && i % 2 == 1 ==> ((#[trigger] steps@[i])
                    matches FloodStep::Pause(d) && d == config.delay_ms),
        decreases n - k,
    {
        let ghost prev = steps@;
        steps.push(FloodStep::Pause(config.delay_ms));
        let fresh = encode_request(source_mac, source_ip, target_mac, target_ip);
        proof {
            assert(fresh@ == frame);
        }
        steps.push(FloodStep::Emit(fresh));
        proof {
            assert(steps@.len() == prev.len() + 2);
            assert forall|i: int|
                0 <= i < steps@.len() && i % 2 == 0 implies ((#[trigger] steps@[i])
                matches FloodStep::Emit(f) && f@ == frame) by {
                if i < prev.len() {
                    assert(steps@[i] == prev[i]);
                } else {
                    assert(i == prev.len() + 1);
                }
            }
            assert forall|i: int|
                0 <= i < steps@.len() && i % 2 == 1 implies ((#[trigger] steps@[i])
                matches FloodStep::Pause(d) && d == config.delay_ms) by {
                if i < prev.len() {
                    assert(steps@[i] == prev[i]);
                } else {
                    assert(i == prev.len());
                }
            }
        }
        k = k + 1;
    }
    steps
}

/// How many emissions a sequence of steps holds.
pub open spec fn emit_count(steps: Seq<FloodStep>) -> int
    decreases steps.len(),
{
    if steps.len() == 0 {
        0
    } else {
        emit_count(steps.drop_last()) + (if steps.last() is Emit {
            1int
        } else {
            0int
        })
    }
}

/// How many pauses a sequence of steps holds.
pub open spec fn pause_count(steps: Seq<FloodStep>) -> int
    decreases steps.len(),
{
    if steps.len() == 0 {
        0
    } else {
        pause_count(steps.drop_last()) + (if steps.last() is Pause {
            1int
        } else {
            0int
        })
    }
}

/// A flood plan for `n` packets emits exactly `n` frames and pauses exactly
/// `n - 1` times: one pause between consecutive sends and none after the
/// last.
pub proof fn lemma_plan_counts(steps: Seq<FloodStep>, n: int, frame: Seq<u8>, delay: u64)
    requires
        n >= 0,
        plan_shape(steps, n, frame, delay),
    ensures
        emit_count(steps) == n,
        pause_count(steps) == (if n == 0 {
            0int
        } else {
            n - 1
        }),
    decreases n,
{
    if n == 0 {
    } else if n == 1 {
        assert(steps.last() is Emit);
        assert(steps.drop_last() =~= Seq::<FloodStep>::empty());
        assert(emit_count(Seq::<FloodStep>::empty()) == 0);
        assert(pause_count(Seq::<FloodStep>::empty()) == 0);
    } else {
        let s1 = steps.drop_last();
        let s2 = s1.drop_last();
        assert(steps[2 * n - 2] is Emit);
        assert(steps.last() is Emit);
        assert(s1.last() == steps[2 * n - 3]);
        assert(steps[2 * n - 3] is Pause);
        assert forall|i: int| 0 <= i < s2.len() && i % 2 == 0 implies (#[trigger] s2[i])
            matches FloodStep::Emit(f) && f@ == frame by {
            assert(s2[i] == steps[i]);
        }
        assert forall|i: int| 0 <= i < s2.len() && i % 2 == 1 implies (#[trigger] s2[i])
            matches FloodStep::Pause(d) && d == delay by {
            assert(s2[i] == steps[i]);
        }
        assert(plan_shape(s2, n - 1, frame, delay));
        lemma_plan_counts(s2, n - 1, frame, delay);
        assert(emit_count(steps) == emit_count(s1) + 1);
        assert(emit_count(s1) == emit_count(s2));
        assert(pause_count(steps) == pause_count(s1));
        assert(pause_count(s1) == pause_count(s2) + 1);
    }
}

} // verus!
