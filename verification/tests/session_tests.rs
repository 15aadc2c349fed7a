use arpflood::codec::encode_request;
use arpflood::flood::{FloodConfig, FloodStep};
use arpflood::net::Mac;
use arpflood::scanner::DiscoveredHost;
use arpflood::session::{NetworkIdentity, SelectError, Session};

fn identity() -> NetworkIdentity {
    NetworkIdentity {
        ip: 0xc0a80105,
        prefix: 24,
        mac: Mac::new(0xde, 0xad, 0xbe, 0xef, 0x00, 0x01),
    }
}

fn session_with_one_host() -> Session {
    let mut session = Session::new(identity(), FloodConfig { packets_per_target: 3, delay_ms: 7 });
    session.store_scan(vec![DiscoveredHost {
        ip: 0xc0a8014d,
        mac_text: String::from("12:34:56:78:9a:bc"),
    }]);
    session
}

#[test]
fn selecting_before_any_scan_is_rejected() {
    let session = Session::new(identity(), FloodConfig { packets_per_target: 3, delay_ms: 7 });
    assert_eq!(session.request_flood(0).err(), Some(SelectError::NoScanResults));
}

#[test]
fn negative_index_is_rejected_without_touching_config() {
    let session = session_with_one_host();
    assert_eq!(session.request_flood(-1).err(), Some(SelectError::IndexOutOfRange));
    assert_eq!(session.config, FloodConfig { packets_per_target: 3, delay_ms: 7 });
}

#[test]
fn index_at_host_count_is_rejected_without_touching_config() {
    let session = session_with_one_host();
    assert_eq!(session.request_flood(1).err(), Some(SelectError::IndexOutOfRange));
    assert_eq!(session.request_flood(7).err(), Some(SelectError::IndexOutOfRange));
    assert_eq!(session.config, FloodConfig { packets_per_target: 3, delay_ms: 7 });
}

#[test]
fn unparseable_stored_hardware_text_is_rejected() {
    let mut session = session_with_one_host();
    session.store_scan(vec![DiscoveredHost {
        ip: 0xc0a8014d,
        mac_text: String::from("not a hardware address"),
    }]);
    assert_eq!(session.request_flood(0).err(), Some(SelectError::BadHardwareText));
}

#[test]
fn valid_choice_yields_the_unicast_flood_plan() {
    let session = session_with_one_host();
    let steps = session.request_flood(0).ok().expect("choice should be accepted");
    assert_eq!(steps.len(), 5);
    let expected = encode_request(
        &Mac::new(0xde, 0xad, 0xbe, 0xef, 0x00, 0x01),
        0xc0a80105,
        &Mac::new(0x12, 0x34, 0x56, 0x78, 0x9a, 0xbc),
        0xc0a8014d,
    );
    match &steps[0] {
        FloodStep::Emit(frame) => assert_eq!(frame, &expected),
        FloodStep::Pause(_) => panic!("plan must start with an emission"),
    }
    match &steps[1] {
        FloodStep::Pause(d) => assert_eq!(*d, 7),
        FloodStep::Emit(_) => panic!("second step must be a pause"),
    }
}

#[test]
fn parameter_edits_change_only_their_field() {
    let mut session = session_with_one_host();
    session.set_packets_per_target(100000);
    assert_eq!(session.config, FloodConfig { packets_per_target: 100000, delay_ms: 7 });
    session.set_delay_ms(2);
    assert_eq!(session.config, FloodConfig { packets_per_target: 100000, delay_ms: 2 });
    assert_eq!(session.hosts.len(), 1);
}
