//! The rule-based router: fresh identities, matching, removal.

use agw::{Call, Packet, Router, RuleMatch};

fn call(s: &str) -> Call {
    Call::from_bytes(s.as_bytes()).unwrap()
}

fn data_packet(port: u8, src: &str, dst: &str, data: &[u8]) -> Packet {
    Packet::Data { port, pid: 0xF0, src: call(src), dst: call(dst), data: data.to_vec() }
}

#[test]
fn add_hands_out_increasing_identities() {
    let mut r = Router::new();
    let a = r.add(RuleMatch::Data { port: 0, src: call("M0THC-2"), dst: call("M0THC-1") });
    let b = r.add(RuleMatch::Data { port: 1, src: call("M0THC-2"), dst: call("M0THC-1") });
    assert_eq!(a, 1);
    assert_eq!(b, 2);
}

#[test]
fn route_names_every_matching_rule() {
    let mut r = Router::new();
    let a = r.add(RuleMatch::Data { port: 0, src: call("M0THC-2"), dst: call("M0THC-1") });
    let b = r.add(
        RuleMatch::ConnectionEstablished { port: 0, src: call("M0THC-2"), dst: call("M0THC-1") },
    );
    let c = r.add(RuleMatch::Data { port: 0, src: call("M0THC-2"), dst: call("M0THC-1") });
    let p = data_packet(0, "M0THC-2", "M0THC-1", b"x");
    assert_eq!(r.route(&p), vec![a, c]);
    let est = Packet::ConnectionEstablished {
        port: 0,
        pid: 0xF0,
        src: call("M0THC-2"),
        dst: call("M0THC-1"),
    };
    assert_eq!(r.route(&est), vec![b]);
}

#[test]
fn route_filters_on_port_and_calls() {
    let mut r = Router::new();
    let _ = r.add(RuleMatch::Data { port: 0, src: call("M0THC-2"), dst: call("M0THC-1") });
    assert!(r.route(&data_packet(1, "M0THC-2", "M0THC-1", b"x")).is_empty());
    assert!(r.route(&data_packet(0, "M0XXX-2", "M0THC-1", b"x")).is_empty());
    assert!(r.route(&data_packet(0, "M0THC-2", "M0XXX-1", b"x")).is_empty());
    assert!(r.route(&Packet::VersionQuery).is_empty());
}

#[test]
fn del_removes_only_the_named_rule() {
    let mut r = Router::new();
    let a = r.add(RuleMatch::Data { port: 0, src: call("M0THC-2"), dst: call("M0THC-1") });
    let b = r.add(RuleMatch::Data { port: 0, src: call("M0THC-2"), dst: call("M0THC-1") });
    r.del(a);
    let p = data_packet(0, "M0THC-2", "M0THC-1", b"x");
    assert_eq!(r.route(&p), vec![b]);
    r.del(b);
    assert!(r.route(&p).is_empty());
}
