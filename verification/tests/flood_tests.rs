use arpflood::codec::encode_request;
use arpflood::flood::{build_flood_plan, FloodConfig, FloodStep};
use arpflood::net::Mac;

fn counts(steps: &[FloodStep]) -> (usize, usize) {
    let mut emits = 0;
    let mut pauses = 0;
    for step in steps {
        match step {
            FloodStep::Emit(_) => emits += 1,
            FloodStep::Pause(_) => pauses += 1,
        }
    }
    (emits, pauses)
}

#[test]
fn five_packets_mean_five_sends_and_four_pauses() {
    let config = FloodConfig { packets_per_target: 5, delay_ms: 10 };
    let src = Mac::new(0xde, 0xad, 0xbe, 0xef, 0x00, 0x01);
    let tgt = Mac::new(0x12, 0x34, 0x56, 0x78, 0x9a, 0xbc);
    let steps = build_flood_plan(&config, &src, 0xc0a80105, &tgt, 0xc0a8014d);
    assert_eq!(steps.len(), 9);
    let (emits, pauses) = counts(&steps);
    assert_eq!(emits, 5);
    assert_eq!(pauses, 4);
    // No trailing pause: the plan ends with an emission.
    assert!(matches!(steps.last(), Some(FloodStep::Emit(_))));
    let expected = encode_request(&src, 0xc0a80105, &tgt, 0xc0a8014d);
    for (i, step) in steps.iter().enumerate() {
        if i % 2 == 0 {
            match step {
                FloodStep::Emit(frame) => assert_eq!(frame, &expected),
                FloodStep::Pause(_) => panic!("pause at an even position"),
            }
        } else {
            match step {
                FloodStep::Pause(d) => assert_eq!(*d, 10),
                FloodStep::Emit(_) => panic!("emission at an odd position"),
            }
        }
    }
}

#[test]
fn zero_packets_mean_an_empty_plan() {
    let config = FloodConfig { packets_per_target: 0, delay_ms: 10 };
    let src = Mac::new(1, 1, 1, 1, 1, 1);
    let tgt = Mac::new(2, 2, 2, 2, 2, 2);
    let steps = build_flood_plan(&config, &src, 1, &tgt, 2);
    assert_eq!(steps.len(), 0);
}

#[test]
fn one_packet_means_one_send_and_no_pause() {
    let config = FloodConfig { packets_per_target: 1, delay_ms: 99 };
    let src = Mac::new(1, 1, 1, 1, 1, 1);
    let tgt = Mac::new(2, 2, 2, 2, 2, 2);
    let steps = build_flood_plan(&config, &src, 1, &tgt, 2);
    assert_eq!(steps.len(), 1);
    let (emits, pauses) = counts(&steps);
    assert_eq!(emits, 1);
    assert_eq!(pauses, 0);
}
