//! The frame codec: byte-exact serialization, parsing, round trips.

use agw::{parse_header, parse_reply, Call, Header, Packet, PortCap, Reply, HEADER_LEN};

fn call(s: &str) -> Call {
    Call::from_bytes(s.as_bytes()).unwrap()
}

fn split_frame(bytes: &[u8]) -> (Header, Vec<u8>) {
    assert!(bytes.len() >= HEADER_LEN);
    let arr: [u8; HEADER_LEN] = bytes[..HEADER_LEN].try_into().unwrap();
    let h = parse_header(&arr).unwrap();
    (h, bytes[HEADER_LEN..].to_vec())
}

#[test]
fn header_serialize_layout() {
    let h = Header::new(2, b'D', 0xF0, Some(call("M0THC-1")), Some(call("M0THC-2")), 5);
    let v = h.serialize();
    assert_eq!(v.len(), 36);
    assert_eq!(v[0], 2);
    assert_eq!(&v[1..4], &[0, 0, 0]);
    assert_eq!(v[4], b'D');
    assert_eq!(v[5], 0);
    assert_eq!(v[6], 0xF0);
    assert_eq!(v[7], 0);
    assert_eq!(&v[8..18], &[77, 48, 84, 72, 67, 45, 49, 0, 0, 0]);
    assert_eq!(&v[18..28], &[77, 48, 84, 72, 67, 45, 50, 0, 0, 0]);
    assert_eq!(&v[28..32], &[5, 0, 0, 0]);
    assert_eq!(&v[32..36], &[0, 0, 0, 0]);
}

#[test]
fn header_round_trip() {
    let h = Header::new(1, b'C', 0xF0, Some(call("M0THC-1")), None, 7);
    let v = h.serialize();
    let arr: [u8; HEADER_LEN] = v.try_into().unwrap();
    let back = parse_header(&arr).unwrap();
    assert_eq!(back.port(), 1);
    assert_eq!(back.data_kind(), b'C');
    assert_eq!(back.pid(), 0xF0);
    assert_eq!(back.data_len(), 7);
    assert_eq!(back.src().as_ref().unwrap().string(), "M0THC-1");
    assert!(back.dst().is_none());
}

#[test]
fn parse_header_rejects_bad_callsign_bytes() {
    let mut v = Header::new(0, b'C', 0, None, None, 0).serialize();
    v[9] = b' ';
    let arr: [u8; HEADER_LEN] = v.try_into().unwrap();
    assert!(parse_header(&arr).is_err());
}

#[test]
fn version_query_bytes() {
    let v = Packet::VersionQuery.serialize();
    let mut want = vec![0u8; 36];
    want[4] = b'R';
    assert_eq!(v, want);
}

#[test]
fn frame_length_matches_length_field() {
    // Every emitted frame is exactly HEADER_LEN + data_len bytes.
    let samples: Vec<Packet> = vec![
        Packet::VersionQuery,
        Packet::VersionReply(2, 1),
        Packet::PortCap(3),
        Packet::PortInfo(1),
        Packet::RegisterCallsign(0, 0xF0, call("M0THC-1")),
        Packet::Connect { port: 0, pid: 0xF0, src: call("M0THC-1"), dst: call("M0THC-2") },
        Packet::ConnectVia {
            port: 0,
            pid: 0xF0,
            src: call("M0THC-1"),
            dst: call("M0THC-2"),
            via: vec![call("WIDE1-1"), call("WIDE2-2")],
        },
        Packet::IncomingConnect { port: 0, pid: 0xF0, src: call("M0THC-2"), dst: call("M0THC-1") },
        Packet::ConnectionEstablished {
            port: 0,
            pid: 0xF0,
            src: call("M0THC-2"),
            dst: call("M0THC-1"),
        },
        Packet::Disconnect { port: 0, pid: 0xF0, src: call("M0THC-1"), dst: call("M0THC-2") },
        Packet::Unproto {
            port: 0,
            pid: 0xF0,
            src: call("M0THC-1"),
            dst: call("APZ001"),
            data: b"hello world".to_vec(),
        },
        Packet::Data {
            port: 0,
            pid: 0xF0,
            src: call("M0THC-1"),
            dst: call("M0THC-2"),
            data: b"hi".to_vec(),
        },
        Packet::PortCapReply {
            port: 0,
            cap: PortCap {
                baud: 1,
                traffic: 2,
                txdelay: 3,
                txtail: 4,
                persist: 5,
                slottime: 6,
                maxframe: 7,
                active_connections: 8,
                bytes_per_2min: 0x40302010,
            },
        },
    ];
    for p in samples {
        let v = p.serialize();
        let len = u32::from_le_bytes(v[28..32].try_into().unwrap()) as usize;
        assert_eq!(v.len(), HEADER_LEN + len, "length field wrong for {p:?}");
    }
}

#[test]
fn version_reply_round_trip() {
    let p = Packet::VersionReply(2005, 127);
    let (h, d) = split_frame(&p.serialize());
    assert_eq!(d, vec![0xD5, 0x07, 0, 0, 127, 0, 0, 0]);
    assert_eq!(Packet::parse(&h, &d).unwrap(), p);
}

#[test]
fn established_round_trip_and_banner() {
    let p = Packet::ConnectionEstablished {
        port: 0,
        pid: 0xF0,
        src: call("M0THC-2"),
        dst: call("M0THC-1"),
    };
    let (h, d) = split_frame(&p.serialize());
    assert_eq!(d, b"*** CONNECTED With Station M0THC-2".to_vec());
    assert_eq!(Packet::parse(&h, &d).unwrap(), p);
}

#[test]
fn incoming_connect_round_trip_and_banner() {
    let p = Packet::IncomingConnect {
        port: 0,
        pid: 0xF0,
        src: call("M0THC-2"),
        dst: call("M0THC-1"),
    };
    let (h, d) = split_frame(&p.serialize());
    assert_eq!(d, b"*** CONNECTED To Station M0THC-2".to_vec());
    assert_eq!(Packet::parse(&h, &d).unwrap(), p);
}

#[test]
fn caps_banner_is_accepted() {
    let h = Header::new(0, b'C', 0xF0, Some(call("M0THC-2")), Some(call("M0THC-1")), 18);
    let p = Packet::parse(&h, b"*** CONNECTED WITH M0THC-2").unwrap();
    assert!(matches!(p, Packet::ConnectionEstablished { .. }));
}

#[test]
fn unknown_banner_is_an_error() {
    let h = Header::new(0, b'C', 0xF0, Some(call("M0THC-2")), Some(call("M0THC-1")), 3);
    assert!(Packet::parse(&h, b"eh?").is_err());
}

#[test]
fn data_and_disconnect_round_trip() {
    let p = Packet::Data {
        port: 1,
        pid: 0xF0,
        src: call("M0THC-2"),
        dst: call("M0THC-1"),
        data: b"hello".to_vec(),
    };
    let (h, d) = split_frame(&p.serialize());
    assert_eq!(Packet::parse(&h, &d).unwrap(), p);

    let p = Packet::Disconnect { port: 1, pid: 0xF0, src: call("M0THC-2"), dst: call("M0THC-1") };
    let (h, d) = split_frame(&p.serialize());
    assert!(d.is_empty());
    assert_eq!(Packet::parse(&h, &d).unwrap(), p);
}

#[test]
fn port_cap_reply_round_trip() {
    let cap = PortCap {
        baud: 1,
        traffic: 2,
        txdelay: 3,
        txtail: 4,
        persist: 5,
        slottime: 6,
        maxframe: 7,
        active_connections: 8,
        bytes_per_2min: 0x40302010,
    };
    let p = Packet::PortCapReply { port: 0, cap };
    let (h, d) = split_frame(&p.serialize());
    assert_eq!(d, vec![1, 2, 3, 4, 5, 6, 7, 8, 0x10, 0x20, 0x30, 0x40]);
    assert_eq!(Packet::parse(&h, &d).unwrap(), p);
}

#[test]
fn connect_via_payload_layout() {
    let p = Packet::ConnectVia {
        port: 0,
        pid: 0xF0,
        src: call("M0THC-1"),
        dst: call("M0THC-2"),
        via: vec![call("WIDE1-1")],
    };
    let (h, d) = split_frame(&p.serialize());
    assert_eq!(h.data_kind(), b'v');
    assert_eq!(d.len(), 11);
    assert_eq!(d[0], 1);
    assert_eq!(&d[1..11], call("WIDE1-1").bytes());
}

#[test]
fn unknown_kind_is_kept_whole() {
    let h = Header::new(0, b'K', 0, None, None, 4);
    let p = Packet::parse(&h, &[9, 8, 7, 6]).unwrap();
    match p {
        Packet::Unknown { header, data } => {
            assert_eq!(header.data_kind(), b'K');
            assert_eq!(data, vec![9, 8, 7, 6]);
        },
        other => panic!("expected Unknown, got {other:?}"),
    }
}

#[test]
fn truncated_version_reply_is_malformed() {
    let h = Header::new(0, b'R', 0, None, None, 0);
    assert!(Packet::parse(&h, &[]).is_err());
    assert!(Packet::parse(&h, &[4, 0, 0]).is_err());
}

#[test]
fn parse_reply_dispatches_every_kind() {
    let none = Header::new(0, b'R', 0, None, None, 8);
    assert_eq!(
        parse_reply(&none, &[4, 0, 0, 0, 3, 0, 0, 0]).unwrap(),
        Reply::Version(4, 3)
    );
    let h = |k: u8| Header::new(0, k, 0, None, None, 0);
    assert_eq!(parse_reply(&h(b'X'), &[1]).unwrap(), Reply::CallsignRegistration(true));
    assert_eq!(parse_reply(&h(b'X'), &[0]).unwrap(), Reply::CallsignRegistration(false));
    assert_eq!(
        parse_reply(&h(b'G'), b"2;Port1 ABC;Port2 DEF;").unwrap(),
        Reply::PortInfo("2;Port1 ABC;Port2 DEF;".to_string())
    );
    assert_eq!(
        parse_reply(&h(b'C'), b"*** CONNECTED With Station M0THC-2").unwrap(),
        Reply::Connected("*** CONNECTED With Station M0THC-2".to_string())
    );
    assert_eq!(
        parse_reply(&h(b'D'), b"payload").unwrap(),
        Reply::ConnectedData(b"payload".to_vec())
    );
    assert_eq!(parse_reply(&h(b'd'), &[]).unwrap(), Reply::Disconnect);
    assert_eq!(parse_reply(&h(b'T'), &[1, 2]).unwrap(), Reply::ConnectedSent(vec![1, 2]));
    assert_eq!(parse_reply(&h(b'U'), b"beacon").unwrap(), Reply::Unproto(b"beacon".to_vec()));
    assert_eq!(
        parse_reply(&h(b'y'), &[2, 0, 0, 0]).unwrap(),
        Reply::FramesOutstandingPort(2)
    );
    assert_eq!(
        parse_reply(&h(b'Y'), &[3, 0, 0, 0]).unwrap(),
        Reply::FramesOutstandingConnection(3)
    );
    assert_eq!(
        parse_reply(&h(b'H'), b"M0THC-1").unwrap(),
        Reply::HeardStations("M0THC-1".to_string())
    );
    assert_eq!(parse_reply(&h(b'I'), &[5]).unwrap(), Reply::MonitorConnected(vec![5]));
    assert_eq!(parse_reply(&h(b'S'), &[6]).unwrap(), Reply::MonitorSupervisory(vec![6]));
    assert_eq!(parse_reply(&h(b'K'), &[7]).unwrap(), Reply::Raw(vec![7]));
    match parse_reply(&h(b'Q'), &[1]).unwrap() {
        Reply::Unknown(hd, d) => {
            assert_eq!(hd.data_kind(), b'Q');
            assert_eq!(d, vec![1]);
        },
        other => panic!("expected Unknown, got {other:?}"),
    }
}

#[test]
fn parse_reply_rejects_wrong_sizes() {
    let h = |k: u8| Header::new(0, k, 0, None, None, 0);
    assert!(parse_reply(&h(b'R'), &[4, 0]).is_err());
    assert!(parse_reply(&h(b'X'), &[]).is_err());
    assert!(parse_reply(&h(b'g'), &[1, 2, 3]).is_err());
    assert!(parse_reply(&h(b'y'), &[1]).is_err());
    assert!(parse_reply(&h(b'Y'), &[1, 2, 3, 4, 5]).is_err());
    assert!(parse_reply(&h(b'd'), &[1]).is_err());
    assert!(parse_reply(&h(b'G'), &[0xFF, 0xFE]).is_err());
}

#[test]
fn port_cap_reply_fields() {
    let h = Header::new(0, b'g', 0, None, None, 12);
    let got = parse_reply(&h, &[1, 2, 3, 4, 5, 6, 7, 8, 0x10, 0x20, 0x30, 0x40]).unwrap();
    match got {
        Reply::PortCaps(c) => {
            assert_eq!(c.baud, 1);
            assert_eq!(c.traffic, 2);
            assert_eq!(c.txdelay, 3);
            assert_eq!(c.txtail, 4);
            assert_eq!(c.persist, 5);
            assert_eq!(c.slottime, 6);
            assert_eq!(c.maxframe, 7);
            assert_eq!(c.active_connections, 8);
            assert_eq!(c.bytes_per_2min, 0x40302010);
        },
        other => panic!("expected PortCaps, got {other:?}"),
    }
}
