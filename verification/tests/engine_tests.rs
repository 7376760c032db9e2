//! The blocking client against a scripted host: the request/response
//! operations, virtual circuits, and the overflow queue.

use std::sync::mpsc::{channel, Receiver, Sender};

use agw::{parse_header, parse_reply, Call, Header, Reply, AGW, AgwError, HEADER_LEN};

fn call(s: &str) -> Call {
    Call::from_bytes(s.as_bytes()).unwrap()
}

/// An engine whose host side the test scripts by hand.
fn engine() -> (AGW, Sender<(Header, Reply)>, Receiver<Vec<u8>>) {
    let (tx_out, rx_out) = channel::<Vec<u8>>();
    let (tx_in, rx_in) = channel::<(Header, Reply)>();
    (AGW::new(tx_out, rx_in), tx_in, rx_out)
}

/// Decode wire bytes from the host into the frame the reader thread
/// would deliver.
fn host_frame(port: u8, kind: u8, pid: u8, src: Option<&str>, dst: Option<&str>, payload: &[u8]) -> (Header, Reply) {
    let h = Header::new(
        port,
        kind,
        pid,
        src.map(call),
        dst.map(call),
        payload.len() as u32,
    );
    let bytes = h.serialize();
    let arr: [u8; HEADER_LEN] = bytes.try_into().unwrap();
    let header = parse_header(&arr).unwrap();
    let reply = parse_reply(&header, payload).unwrap();
    (header, reply)
}

#[test]
fn version_returns_major_minor() {
    let (mut a, tx_in, rx_out) = engine();
    tx_in
        .send(host_frame(0, b'R', 0, None, None, &[4, 0, 0, 0, 3, 0, 0, 0]))
        .unwrap();
    assert_eq!(a.version().unwrap(), (4, 3));
    // The emitted query is a bare header: port 0, kind 'R', rest zero.
    let sent = rx_out.recv().unwrap();
    let mut want = vec![0u8; 36];
    want[4] = b'R';
    assert_eq!(sent, want);
}

#[test]
fn version_skips_unrelated_frames() {
    let (mut a, tx_in, _rx_out) = engine();
    tx_in.send(host_frame(0, b'U', 0, None, None, b"beacon")).unwrap();
    tx_in
        .send(host_frame(0, b'R', 0, None, None, &[1, 0, 0, 0, 2, 0, 0, 0]))
        .unwrap();
    assert_eq!(a.version().unwrap(), (1, 2));
}

#[test]
fn send_failure_is_transport() {
    let (mut a, _tx_in, rx_out) = engine();
    drop(rx_out);
    assert_eq!(a.version().unwrap_err(), AgwError::Transport);
}

#[test]
fn connect_times_out_without_a_reply() {
    let (mut a, _tx_in, _rx_out) = engine();
    a.set_connect_timeout(50);
    let e = a
        .connect(0, 0xF0, &call("M0THC-1"), &call("M0THC-2"), &[])
        .unwrap_err();
    assert_eq!(e, AgwError::ConnectTimeout);
}

#[test]
fn version_reports_closed_channel() {
    let (mut a, tx_in, _rx_out) = engine();
    drop(tx_in);
    assert_eq!(a.version().unwrap_err(), AgwError::QueueClosed);
}

#[test]
fn port_cap_returns_parsed_fields() {
    let (mut a, tx_in, rx_out) = engine();
    tx_in
        .send(host_frame(0, b'g', 0, None, None, &[1, 2, 3, 4, 5, 6, 7, 8, 0x10, 0x20, 0x30, 0x40]))
        .unwrap();
    let cap = a.port_cap(0).unwrap();
    assert_eq!(cap.baud, 1);
    assert_eq!(cap.traffic, 2);
    assert_eq!(cap.txdelay, 3);
    assert_eq!(cap.txtail, 4);
    assert_eq!(cap.persist, 5);
    assert_eq!(cap.slottime, 6);
    assert_eq!(cap.maxframe, 7);
    assert_eq!(cap.active_connections, 8);
    assert_eq!(cap.bytes_per_2min, 0x40302010);
    let sent = rx_out.recv().unwrap();
    assert_eq!(sent[4], b'g');
    assert_eq!(sent[0], 0);
    assert_eq!(sent.len(), 36);
}

#[test]
fn port_info_returns_string() {
    let (mut a, tx_in, _rx_out) = engine();
    tx_in
        .send(host_frame(0, b'G', 0, None, None, b"1;Port1 AGW;"))
        .unwrap();
    assert_eq!(a.port_info(0).unwrap(), "1;Port1 AGW;");
}

#[test]
fn unproto_emits_one_frame() {
    let (mut a, _tx_in, rx_out) = engine();
    a.unproto(0, 0xF0, &call("M0THC-1"), &call("APZ001"), b"hello world").unwrap();
    let sent = rx_out.recv().unwrap();
    assert_eq!(sent[4], b'M');
    assert_eq!(sent[6], 0xF0);
    assert_eq!(sent.len(), 36 + 11);
    assert_eq!(&sent[36..], b"hello world");
}

#[test]
fn register_callsign_emits_x_frame() {
    let (mut a, _tx_in, rx_out) = engine();
    a.register_callsign(0, 0xF0, &call("M0THC-1")).unwrap();
    let sent = rx_out.recv().unwrap();
    assert_eq!(sent[4], b'X');
    assert_eq!(&sent[8..18], call("M0THC-1").bytes());
}

#[test]
fn connect_happy_path() {
    let (mut a, tx_in, rx_out) = engine();
    tx_in
        .send(host_frame(
            0,
            b'C',
            0xF0,
            Some("M0THC-2"),
            Some("M0THC-1"),
            b"*** CONNECTED With Station M0THC-2",
        ))
        .unwrap();
    let c = a
        .connect(0, 0xF0, &call("M0THC-1"), &call("M0THC-2"), &[])
        .unwrap();
    assert_eq!(c.connect_string(), "*** CONNECTED With Station M0THC-2");
    // One 36-byte frame, kind 'C', src=M0THC-1, dst=M0THC-2.
    let sent = rx_out.recv().unwrap();
    assert_eq!(sent.len(), 36);
    assert_eq!(sent[4], b'C');
    assert_eq!(&sent[8..18], call("M0THC-1").bytes());
    assert_eq!(&sent[18..28], call("M0THC-2").bytes());
    assert!(rx_out.try_recv().is_err());
}

#[test]
fn connect_ignores_frames_for_others() {
    let (mut a, tx_in, _rx_out) = engine();
    tx_in.send(host_frame(0, b'U', 0, None, None, b"noise")).unwrap();
    tx_in
        .send(host_frame(0, b'C', 0xF0, Some("M0XXX-9"), Some("M0THC-1"), b"*** CONNECTED With Station M0XXX-9"))
        .unwrap();
    tx_in
        .send(host_frame(0, b'C', 0xF0, Some("M0THC-2"), Some("M0THC-1"), b"*** CONNECTED With Station M0THC-2"))
        .unwrap();
    let c = a
        .connect(0, 0xF0, &call("M0THC-1"), &call("M0THC-2"), &[])
        .unwrap();
    assert_eq!(c.connect_string(), "*** CONNECTED With Station M0THC-2");
}

#[test]
fn connect_rejects_unknown_banner() {
    let (mut a, tx_in, _rx_out) = engine();
    tx_in
        .send(host_frame(0, b'C', 0xF0, Some("M0THC-2"), Some("M0THC-1"), b"busy"))
        .unwrap();
    let e = a
        .connect(0, 0xF0, &call("M0THC-1"), &call("M0THC-2"), &[])
        .unwrap_err();
    assert_eq!(e, AgwError::UnexpectedBanner);
}

#[test]
fn connect_seven_hops_emits_via_frame() {
    let (mut a, tx_in, rx_out) = engine();
    let via: Vec<Call> = (1..=7).map(|i| call(&format!("WIDE{i}-{i}"))).collect();
    tx_in
        .send(host_frame(0, b'C', 0xF0, Some("M0THC-2"), Some("M0THC-1"), b"*** CONNECTED With Station M0THC-2"))
        .unwrap();
    let c = a
        .connect(0, 0xF0, &call("M0THC-1"), &call("M0THC-2"), &via)
        .unwrap();
    assert_eq!(c.connect_string(), "*** CONNECTED With Station M0THC-2");
    let sent = rx_out.recv().unwrap();
    assert_eq!(sent[4], b'v');
    assert_eq!(sent.len(), 36 + 1 + 70);
    assert_eq!(sent[36], 7);
}

#[test]
fn connect_eight_hops_is_too_many() {
    let (mut a, _tx_in, rx_out) = engine();
    let via: Vec<Call> = (0..8).map(|i| call(&format!("WIDE1-{i}"))).collect();
    let e = a
        .connect(0, 0xF0, &call("M0THC-1"), &call("M0THC-2"), &via)
        .unwrap_err();
    assert_eq!(e, AgwError::TooManyHops);
    // No frame was emitted.
    assert!(rx_out.try_recv().is_err());
}

#[test]
fn read_interleaves_data_and_ignores_beacons() {
    let (mut a, tx_in, _rx_out) = engine();
    tx_in
        .send(host_frame(0, b'C', 0xF0, Some("M0THC-2"), Some("M0THC-1"), b"*** CONNECTED With Station M0THC-2"))
        .unwrap();
    let c = a
        .connect(0, 0xF0, &call("M0THC-1"), &call("M0THC-2"), &[])
        .unwrap();
    tx_in.send(host_frame(0, b'U', 0, None, None, b"beacon")).unwrap();
    tx_in
        .send(host_frame(0, b'D', 0xF0, Some("M0THC-2"), Some("M0THC-1"), b"hello"))
        .unwrap();
    tx_in
        .send(host_frame(0, b'D', 0xF0, Some("M0THC-2"), Some("M0THC-1"), b"world"))
        .unwrap();
    assert_eq!(c.read(&mut a).unwrap(), b"hello");
    assert_eq!(c.read(&mut a).unwrap(), b"world");
    // The beacon is observable on the overflow queue.
    assert_eq!(a.overflow_len(), 1);
}

#[test]
fn read_preserves_per_circuit_order_across_queueing() {
    let (mut a, tx_in, _rx_out) = engine();
    tx_in
        .send(host_frame(0, b'D', 0xF0, Some("M0THC-2"), Some("M0THC-1"), b"one"))
        .unwrap();
    tx_in
        .send(host_frame(0, b'D', 0xF0, Some("M0THC-2"), Some("M0THC-1"), b"two"))
        .unwrap();
    tx_in
        .send(host_frame(0, b'R', 0, None, None, &[9, 0, 0, 0, 9, 0, 0, 0]))
        .unwrap();
    // The version call drains the channel, parking both data frames.
    assert_eq!(a.version().unwrap(), (9, 9));
    tx_in
        .send(host_frame(0, b'C', 0xF0, Some("M0THC-2"), Some("M0THC-1"), b"*** CONNECTED With Station M0THC-2"))
        .unwrap();
    let c = a
        .connect(0, 0xF0, &call("M0THC-1"), &call("M0THC-2"), &[])
        .unwrap();
    // Reads serve the overflow queue first, in arrival order.
    assert_eq!(c.read(&mut a).unwrap(), b"one");
    assert_eq!(c.read(&mut a).unwrap(), b"two");
}

#[test]
fn remote_disconnect_ends_the_stream() {
    let (mut a, tx_in, _rx_out) = engine();
    tx_in
        .send(host_frame(0, b'C', 0xF0, Some("M0THC-2"), Some("M0THC-1"), b"*** CONNECTED With Station M0THC-2"))
        .unwrap();
    let c = a
        .connect(0, 0xF0, &call("M0THC-1"), &call("M0THC-2"), &[])
        .unwrap();
    tx_in
        .send(host_frame(0, b'D', 0xF0, Some("M0THC-2"), Some("M0THC-1"), b"bye"))
        .unwrap();
    tx_in
        .send(host_frame(0, b'd', 0xF0, Some("M0THC-2"), Some("M0THC-1"), b""))
        .unwrap();
    assert_eq!(c.read(&mut a).unwrap(), b"bye");
    assert_eq!(c.read(&mut a).unwrap_err(), AgwError::RemoteDisconnected);
    // The error persists on later reads.
    assert_eq!(c.read(&mut a).unwrap_err(), AgwError::RemoteDisconnected);
    // A write after a remote disconnect is accepted here: the circuit
    // was never locally disconnected.
    assert_eq!(c.write(&mut a, b"abc").unwrap(), 3);
}

#[test]
fn write_emits_data_frame_and_skips_empty() {
    let (mut a, tx_in, rx_out) = engine();
    tx_in
        .send(host_frame(0, b'C', 0xF0, Some("M0THC-2"), Some("M0THC-1"), b"*** CONNECTED With Station M0THC-2"))
        .unwrap();
    let c = a
        .connect(0, 0xF0, &call("M0THC-1"), &call("M0THC-2"), &[])
        .unwrap();
    let _connect_frame = rx_out.recv().unwrap();
    assert_eq!(c.write(&mut a, b"").unwrap(), 0);
    assert!(rx_out.try_recv().is_err());
    assert_eq!(c.write(&mut a, b"hello").unwrap(), 5);
    let sent = rx_out.recv().unwrap();
    assert_eq!(sent[4], b'D');
    assert_eq!(&sent[8..18], call("M0THC-1").bytes());
    assert_eq!(&sent[18..28], call("M0THC-2").bytes());
    assert_eq!(&sent[36..], b"hello");
}

#[test]
fn disconnect_is_idempotent() {
    let (mut a, tx_in, rx_out) = engine();
    tx_in
        .send(host_frame(0, b'C', 0xF0, Some("M0THC-2"), Some("M0THC-1"), b"*** CONNECTED With Station M0THC-2"))
        .unwrap();
    let mut c = a
        .connect(0, 0xF0, &call("M0THC-1"), &call("M0THC-2"), &[])
        .unwrap();
    let _connect_frame = rx_out.recv().unwrap();
    c.disconnect(&mut a).unwrap();
    let sent = rx_out.recv().unwrap();
    assert_eq!(sent[4], b'd');
    assert_eq!(sent.len(), 36);
    // The second disconnect emits nothing.
    c.disconnect(&mut a).unwrap();
    assert!(rx_out.try_recv().is_err());
    // A locally disconnected circuit refuses to emit data.
    assert!(c.write(&mut a, b"x").is_err());
}

#[test]
fn make_writer_produces_frames_without_the_engine() {
    let (mut a, tx_in, _rx_out) = engine();
    tx_in
        .send(host_frame(0, b'C', 0xF0, Some("M0THC-2"), Some("M0THC-1"), b"*** CONNECTED With Station M0THC-2"))
        .unwrap();
    let c = a
        .connect(0, 0xF0, &call("M0THC-1"), &call("M0THC-2"), &[])
        .unwrap();
    let w = c.make_writer();
    let frame = w.data(b"hi").unwrap();
    assert_eq!(frame[4], b'D');
    assert_eq!(&frame[36..], b"hi");
    let d = w.disconnect();
    assert_eq!(d[4], b'd');
    assert_eq!(d.len(), 36);
}

#[test]
fn sender_feeds_the_outbound_queue() {
    let (mut a, tx_in, rx_out) = engine();
    tx_in
        .send(host_frame(0, b'C', 0xF0, Some("M0THC-2"), Some("M0THC-1"), b"*** CONNECTED With Station M0THC-2"))
        .unwrap();
    let c = a
        .connect(0, 0xF0, &call("M0THC-1"), &call("M0THC-2"), &[])
        .unwrap();
    let _connect_frame = rx_out.recv().unwrap();
    let tx = c.sender(&a);
    tx.send(vec![1, 2, 3]).unwrap();
    assert_eq!(rx_out.recv().unwrap(), vec![1, 2, 3]);
}
