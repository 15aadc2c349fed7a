use arpflood::subnet::{enumerate_targets, subnet_bounds};

#[test]
fn bounds_of_a_slash_24() {
    // 192.168.1.5/24
    let (net, bc) = subnet_bounds(0xc0a80105, 24);
    assert_eq!(net, 0xc0a80100);
    assert_eq!(bc, 0xc0a801ff);
}

#[test]
fn slash_24_has_254_targets_ascending() {
    let targets = enumerate_targets(0xc0a80105, 24);
    assert_eq!(targets.len(), 254);
    assert_eq!(targets[0], 0xc0a80101);
    assert_eq!(targets[253], 0xc0a801fe);
    for w in targets.windows(2) {
        assert!(w[0] < w[1]);
    }
    assert!(!targets.contains(&0xc0a80100));
    assert!(!targets.contains(&0xc0a801ff));
}

#[test]
fn slash_31_and_32_have_no_targets() {
    assert_eq!(enumerate_targets(0xc0a80105, 31).len(), 0);
    assert_eq!(enumerate_targets(0xc0a80105, 32).len(), 0);
}

#[test]
fn slash_30_has_two_targets() {
    // 10.0.0.0/30: network .0, hosts .1 and .2, broadcast .3
    let targets = enumerate_targets(0x0a000000, 30);
    assert_eq!(targets, vec![0x0a000001, 0x0a000002]);
}

#[test]
fn prefix_zero_spans_everything_but_the_ends() {
    let (net, bc) = subnet_bounds(0x01020304, 0);
    assert_eq!(net, 0x00000000);
    assert_eq!(bc, 0xffffffff);
}
