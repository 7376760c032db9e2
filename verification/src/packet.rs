//! The typed frame codec: one tagged union of frame variants, a byte-exact
//! serializer, and a parser for the inbound variants.

use vstd::prelude::*;

use crate::call::{call_text, lemma_call_text_end_bounds, Call};
use crate::err::AgwError;
use crate::header::{header_wf, lemma_header_bytes_len, spec_header_bytes, Header, HEADER_LEN};
use vstd::bytes::{
    lemma_auto_spec_u16_to_from_le_bytes, lemma_auto_spec_u32_to_from_le_bytes,
    spec_u16_from_le_bytes, spec_u16_to_le_bytes, spec_u32_from_le_bytes, spec_u32_to_le_bytes,
    u16_from_le_bytes, u16_to_le_bytes, u32_from_le_bytes, u32_to_le_bytes,
};
use vstd::seq_lib::*;
use vstd::slice::{slice_subrange, slice_to_vec};

verus! {

broadcast use crate::call::lemma_call_view_len;

/// Frame tag bytes, as ASCII: the protocol names each frame type by one
/// letter in the header's data-kind field.
pub const KIND_VERSION: u8 = 0x52;  // 'R'

pub const KIND_PORT_INFO: u8 = 0x47;  // 'G'

pub const KIND_PORT_CAP: u8 = 0x67;  // 'g'

pub const KIND_REGISTER: u8 = 0x58;  // 'X'

pub const KIND_CONNECT: u8 = 0x43;  // 'C'

pub const KIND_CONNECT_VIA: u8 = 0x76;  // 'v'

pub const KIND_DISCONNECT: u8 = 0x64;  // 'd'

pub const KIND_DATA: u8 = 0x44;  // 'D'

pub const KIND_UNPROTO: u8 = 0x4d;  // 'M'

/// Capabilities of one host port, the 12-byte payload of a `g` reply.
#[derive(Clone, Copy, Debug, PartialEq, Eq, Structural)]
pub struct PortCap {
    pub baud: u8,
    pub traffic: u8,
    pub txdelay: u8,
    pub txtail: u8,
    pub persist: u8,
    pub slottime: u8,
    pub maxframe: u8,
    pub active_connections: u8,
    pub bytes_per_2min: u32,
}

/// One typed frame.  Outbound-only variants (queries, connects, unproto)
/// and inbound-only variants (replies, established banners) share the
/// union; unknown inbound tags are kept whole for forward compatibility.
#[derive(Clone, Debug, PartialEq, Eq)]
pub enum Packet {
    VersionQuery,
    VersionReply(u16, u16),
    PortCap(u8),
    PortInfo(u8),
    RegisterCallsign(u8, u8, Call),
    Connect { port: u8, pid: u8, src: Call, dst: Call },
    ConnectVia { port: u8, pid: u8, src: Call, dst: Call, via: Vec<Call> },
    IncomingConnect { port: u8, pid: u8, src: Call, dst: Call },
    ConnectionEstablished { port: u8, pid: u8, src: Call, dst: Call },
    Disconnect { port: u8, pid: u8, src: Call, dst: Call },
    Unproto { port: u8, pid: u8, src: Call, dst: Call, data: Vec<u8> },
    Data { port: u8, pid: u8, src: Call, dst: Call, data: Vec<u8> },
    PortCapReply { port: u8, cap: PortCap },
    Unknown { header: Header, data: Vec<u8> },
}

// ------------------------------------------------------------------
// Banner prefixes of the `C` reply.  The host writes one of two banner
// families for an accepted outbound connect, and a third for an accepted
// inbound connect.
// ------------------------------------------------------------------
/// `*** CONNECTED WITH`
pub open spec fn spec_pre_with_caps() -> Seq<u8> {
    seq![
        42u8,
        42u8,
        42u8,
        32u8,
        67u8,
        79u8,
        78u8,
        78u8,
        69u8,
        67u8,
        84u8,
        69u8,
        68u8,
        32u8,
        87u8,
        73u8,
        84u8,
        72u8,
    ]
}

/// `*** CONNECTED With Station `
pub open spec fn spec_pre_with_station() -> Seq<u8> {
    seq![
        42u8,
        42u8,
        42u8,
        32u8,
        67u8,
        79u8,
        78u8,
        78u8,
        69u8,
        67u8,
        84u8,
        69u8,
        68u8,
        32u8,
        87u8,
        105u8,
        116u8,
        104u8,
        32u8,
        83u8,
        116u8,
        97u8,
        116u8,
        105u8,
        111u8,
        110u8,
        32u8,
    ]
}

/// `*** CONNECTED To Station `
pub open spec fn spec_pre_to_station() -> Seq<u8> {
    seq![
        42u8,
        42u8,
        42u8,
        32u8,
        67u8,
        79u8,
        78u8,
        78u8,
        69u8,
        67u8,
        84u8,
        69u8,
        68u8,
        32u8,
        84u8,
        111u8,
        32u8,
        83u8,
        116u8,
        97u8,
        116u8,
        105u8,
        111u8,
        110u8,
        32u8,
    ]
}

/// The banner means the outbound connect succeeded.
pub open spec fn is_with_banner(d: Seq<u8>) -> bool {
    spec_pre_with_caps().is_prefix_of(d) || spec_pre_with_station().is_prefix_of(d)
}

/// The banner means the host accepted an inbound connect.
pub open spec fn is_to_banner(d: Seq<u8>) -> bool {
    spec_pre_to_station().is_prefix_of(d)
}

pub(crate) fn pre_with_caps() -> (v: Vec<u8>)
    ensures
        v@ == spec_pre_with_caps(),
{
    let v = vec![
        42u8, 42u8, 42u8, 32u8, 67u8, 79u8, 78u8, 78u8, 69u8, 67u8, 84u8, 69u8, 68u8, 32u8, 87u8,
        73u8, 84u8, 72u8,
    ];
    proof {
        assert(v@ =~= spec_pre_with_caps());
    }
    v
}

pub(crate) fn pre_with_station() -> (v: Vec<u8>)
    ensures
        v@ == spec_pre_with_station(),
{
    let v = vec![
        42u8, 42u8, 42u8, 32u8, 67u8, 79u8, 78u8, 78u8, 69u8, 67u8, 84u8, 69u8, 68u8, 32u8, 87u8,
        105u8, 116u8, 104u8, 32u8, 83u8, 116u8, 97u8, 116u8, 105u8, 111u8, 110u8, 32u8,
    ];
    proof {
        assert(v@ =~= spec_pre_with_station());
    }
    v
}

pub(crate) fn pre_to_station() -> (v: Vec<u8>)
    ensures
        v@ == spec_pre_to_station(),
{
    let v = vec![
        42u8, 42u8, 42u8, 32u8, 67u8, 79u8, 78u8, 78u8, 69u8, 67u8, 84u8, 69u8, 68u8, 32u8, 84u8,
        111u8, 32u8, 83u8, 116u8, 97u8, 116u8, 105u8, 111u8, 110u8, 32u8,
    ];
    proof {
        assert(v@ =~= spec_pre_to_station());
    }
    v
}

/// Does `d` begin with `prefix`?
pub(crate) fn starts_with(d: &[u8], prefix: &Vec<u8>) -> (r: bool)
    ensures
        r == prefix@.is_prefix_of(d@),
{
    if d.len() < prefix.len() {
        return false;
    }
    let mut i: usize = 0;
    while i < prefix.len()
        invariant
            0 <= i <= prefix@.len() <= d@.len(),
            forall|j: int| 0 <= j < i ==> prefix@[j] == d@[j],
        decreases prefix@.len() - i,
    {
        if prefix[i] != d[i] {
            assert(!prefix@.is_prefix_of(d@));
            return false;
        }
        i += 1;
    }
    proof {
        assert(prefix@ =~= d@.subrange(0, prefix@.len() as int));
    }
    true
}

// ------------------------------------------------------------------
// The byte-level model of every frame.
// ------------------------------------------------------------------
/// The concatenated 10-byte forms of the digipeater callsigns.
pub open spec fn spec_via_calls(s: Seq<Call>) -> Seq<u8>
    decreases s.len(),
{
    if s.len() == 0 {
        Seq::empty()
    } else {
        spec_via_calls(s.drop_last()) + s.last()@
    }
}

pub proof fn lemma_via_calls_len(s: Seq<Call>)
    ensures
        spec_via_calls(s).len() == 10 * s.len(),
    decreases s.len(),
{
    if s.len() != 0 {
        lemma_via_calls_len(s.drop_last());
    }
}

/// The canonical banner for an accepted outbound connect to `src`.
pub open spec fn spec_established_banner(src: Call) -> Seq<u8> {
    spec_pre_with_station() + call_text(src@)
}

/// The canonical banner for an accepted inbound connect from `src`.
pub open spec fn spec_incoming_banner(src: Call) -> Seq<u8> {
    spec_pre_to_station() + call_text(src@)
}

/// The 12 payload bytes of a port-capabilities reply.
pub open spec fn spec_portcap_payload(c: PortCap) -> Seq<u8> {
    seq![c.baud, c.traffic, c.txdelay, c.txtail, c.persist, c.slottime, c.maxframe,
        c.active_connections,
    ] + spec_u32_to_le_bytes(c.bytes_per_2min)
}

/// The capabilities encoded in a 12-byte `g` payload.
pub open spec fn spec_parse_portcap(d: Seq<u8>) -> PortCap {
    PortCap {
        baud: d[0],
        traffic: d[1],
        txdelay: d[2],
        txtail: d[3],
        persist: d[4],
        slottime: d[5],
        maxframe: d[6],
        active_connections: d[7],
        bytes_per_2min: spec_u32_from_le_bytes(d.subrange(8, 12)),
    }
}

/// The payload bytes that follow the header for each frame variant.
pub open spec fn spec_packet_payload(p: Packet) -> Seq<u8> {
    match p {
        Packet::VersionQuery => Seq::empty(),
        Packet::VersionReply(maj, min) => spec_u16_to_le_bytes(maj) + seq![0u8, 0u8]
            + spec_u16_to_le_bytes(min) + seq![0u8, 0u8],
        Packet::PortCap(_) => Seq::empty(),
        Packet::PortInfo(_) => Seq::empty(),
        Packet::RegisterCallsign(_, _, _) => Seq::empty(),
        Packet::Connect { .. } => Seq::empty(),
        Packet::ConnectVia { via, .. } => seq![via@.len() as u8] + spec_via_calls(via@),
        Packet::IncomingConnect { src, .. } => spec_incoming_banner(src),
        Packet::ConnectionEstablished { src, .. } => spec_established_banner(src),
        Packet::Disconnect { .. } => Seq::empty(),
        Packet::Unproto { data, .. } => data@,
        Packet::Data { data, .. } => data@,
        Packet::PortCapReply { cap, .. } => spec_portcap_payload(cap),
        Packet::Unknown { data, .. } => data@,
    }
}

/// The header that each frame variant is emitted under.  Its length field
/// always equals the payload length.
pub open spec fn spec_packet_header(p: Packet) -> Header {
    let len = spec_packet_payload(p).len() as u32;
    match p {
        Packet::VersionQuery => Header {
            port: 0,
            data_kind: KIND_VERSION,
            pid: 0,
            src: None,
            dst: None,
            data_len: len,
        },
        Packet::VersionReply(_, _) => Header {
            port: 0,
            data_kind: KIND_VERSION,
            pid: 0,
            src: None,
            dst: None,
            data_len: len,
        },
        Packet::PortCap(port) => Header {
            port,
            data_kind: KIND_PORT_CAP,
            pid: 0,
            src: None,
            dst: None,
            data_len: len,
        },
        Packet::PortInfo(port) => Header {
            port,
            data_kind: KIND_PORT_INFO,
            pid: 0,
            src: None,
            dst: None,
            data_len: len,
        },
        Packet::RegisterCallsign(port, pid, src) => Header {
            port,
            data_kind: KIND_REGISTER,
            pid,
            src: Some(src),
            dst: None,
            data_len: len,
        },
        Packet::Connect { port, pid, src, dst } => Header {
            port,
            data_kind: KIND_CONNECT,
            pid,
            src: Some(src),
            dst: Some(dst),
            data_len: len,
        },
        Packet::ConnectVia { port, pid, src, dst, .. } => Header {
            port,
            data_kind: KIND_CONNECT_VIA,
            pid,
            src: Some(src),
            dst: Some(dst),
            data_len: len,
        },
        Packet::IncomingConnect { port, pid, src, dst } => Header {
            port,
            data_kind: KIND_CONNECT,
            pid,
            src: Some(src),
            dst: Some(dst),
            data_len: len,
        },
        Packet::ConnectionEstablished { port, pid, src, dst } => Header {
            port,
            data_kind: KIND_CONNECT,
            pid,
            src: Some(src),
            dst: Some(dst),
            data_len: len,
        },
        Packet::Disconnect { port, pid, src, dst } => Header {
            port,
            data_kind: KIND_DISCONNECT,
            pid,
            src: Some(src),
            dst: Some(dst),
            data_len: len,
        },
        Packet::Unproto { port, pid, src, dst, .. } => Header {
            port,
            data_kind: KIND_UNPROTO,
            pid,
            src: Some(src),
            dst: Some(dst),
            data_len: len,
        },
        Packet::Data { port, pid, src, dst, .. } => Header {
            port,
            data_kind: KIND_DATA,
            pid,
            src: Some(src),
            dst: Some(dst),
            data_len: len,
        },
        Packet::PortCapReply { port, .. } => Header {
            port,
            data_kind: KIND_PORT_CAP,
            pid: 0,
            src: None,
            dst: None,
            data_len: len,
        },
        Packet::Unknown { header, .. } => Header { data_len: len, ..header },
    }
}

/// The whole wire image of a frame: header bytes then payload bytes.
pub open spec fn spec_packet_bytes(p: Packet) -> Seq<u8> {
    spec_header_bytes(spec_packet_header(p)) + spec_packet_payload(p)
}

/// Legal field values for emission: present callsigns valid and
/// non-empty, at most 7 digipeater hops, payloads within the length
/// field's range.
pub open spec fn packet_wf(p: Packet) -> bool {
    match p {
        Packet::VersionQuery => true,
        Packet::VersionReply(_, _) => true,
        Packet::PortCap(_) => true,
        Packet::PortInfo(_) => true,
        Packet::RegisterCallsign(_, _, src) => src.wf() && !src.spec_is_empty(),
        Packet::Connect { src, dst, .. } => call_pair_wf(src, dst),
        Packet::ConnectVia { src, dst, via, .. } => call_pair_wf(src, dst) && via@.len() <= 7
            && forall|i: int| 0 <= i < via@.len() ==> (#[trigger] via@[i]).wf(),
        Packet::IncomingConnect { src, dst, .. } => call_pair_wf(src, dst),
        Packet::ConnectionEstablished { src, dst, .. } => call_pair_wf(src, dst),
        Packet::Disconnect { src, dst, .. } => call_pair_wf(src, dst),
        Packet::Unproto { src, dst, data, .. } => call_pair_wf(src, dst) && data@.len()
            <= 0xFFFF_FFFF,
        Packet::Data { src, dst, data, .. } => call_pair_wf(src, dst) && data@.len()
            <= 0xFFFF_FFFF,
        Packet::PortCapReply { .. } => true,
        Packet::Unknown { header, data } => header_wf(header) && data@.len() <= 0xFFFF_FFFF,
    }
}

/// Both endpoint callsigns are valid and present.
pub open spec fn call_pair_wf(src: Call, dst: Call) -> bool {
    src.wf() && !src.spec_is_empty() && dst.wf() && !dst.spec_is_empty()
}

// ------------------------------------------------------------------
// What the parser accepts, and what a parsed frame means.
// ------------------------------------------------------------------
/// The tags this codec gives a typed meaning to on receive.
pub open spec fn known_kind(k: u8) -> bool {
    k == KIND_VERSION || k == KIND_CONNECT || k == KIND_DATA || k == KIND_DISCONNECT || k
        == KIND_PORT_CAP
}

/// Exactly when `parse` succeeds on a header and payload.
pub open spec fn parse_ok(h: Header, d: Seq<u8>) -> bool {
    if h.data_kind == KIND_VERSION {
        d.len() == 8
    } else if h.data_kind == KIND_CONNECT {
        h.src is Some && h.dst is Some && (is_with_banner(d) || is_to_banner(d))
    } else if h.data_kind == KIND_DATA {
        h.src is Some && h.dst is Some
    } else if h.data_kind == KIND_DISCONNECT {
        h.src is Some && h.dst is Some && d.len() == 0
    } else if h.data_kind == KIND_PORT_CAP {
        d.len() == 12
    } else {
        true
    }
}

/// The error reported when `parse` fails.
pub open spec fn spec_parse_err(h: Header, d: Seq<u8>) -> AgwError {
    if h.data_kind == KIND_CONNECT && h.src is Some && h.dst is Some {
        AgwError::UnexpectedBanner
    } else {
        AgwError::MalformedFrame
    }
}

/// What it means for `(h, d)` to parse to exactly the frame `p`.
pub open spec fn parses_to(h: Header, d: Seq<u8>, p: Packet) -> bool {
    match p {
        Packet::VersionReply(maj, min) => h.data_kind == KIND_VERSION && d.len() == 8 && maj
            == spec_u16_from_le_bytes(d.subrange(0, 2)) && min == spec_u16_from_le_bytes(
            d.subrange(4, 6),
        ),
        Packet::ConnectionEstablished { port, pid, src, dst } => h.data_kind == KIND_CONNECT
            && is_with_banner(d) && port == h.port && pid == h.pid && h.src == Some(src) && h.dst
            == Some(dst),
        Packet::IncomingConnect { port, pid, src, dst } => h.data_kind == KIND_CONNECT
            && !is_with_banner(d) && is_to_banner(d) && port == h.port && pid == h.pid && h.src
            == Some(src) && h.dst == Some(dst),
        Packet::Data { port, pid, src, dst, data } => h.data_kind == KIND_DATA && port == h.port
            && pid == h.pid && h.src == Some(src) && h.dst == Some(dst) && data@ == d,
        Packet::Disconnect { port, pid, src, dst } => h.data_kind == KIND_DISCONNECT && d.len()
            == 0 && port == h.port && pid == h.pid && h.src == Some(src) && h.dst == Some(dst),
        Packet::PortCapReply { port, cap } => h.data_kind == KIND_PORT_CAP && d.len() == 12 && port
            == h.port && cap == spec_parse_portcap(d),
        Packet::Unknown { header, data } => !known_kind(h.data_kind) && header == h && data@ == d,
        _ => false,
    }
}

impl Packet {
    /// Emit the frame: the 36-byte header followed by the payload.
    pub fn serialize(&self) -> (r: Vec<u8>)
        requires
            packet_wf(*self),
        ensures
            r@ == spec_packet_bytes(*self),
    {
        match self {
            Packet::VersionQuery => {
                let out = Header::new(0, KIND_VERSION, 0, None, None, 0).serialize();
                proof {
                    assert(out@ =~= spec_packet_bytes(*self));
                }
                out
            },
            Packet::VersionReply(maj, min) => {
                let mut payload = u16_to_le_bytes(*maj);
                payload.push(0);
                payload.push(0);
                let mut minb = u16_to_le_bytes(*min);
                payload.append(&mut minb);
                payload.push(0);
                payload.push(0);
                proof {
                    lemma_auto_spec_u16_to_from_le_bytes();
                    assert(payload@ =~= spec_packet_payload(*self));
                }
                let h = Header::new(0, KIND_VERSION, 0, None, None, payload.len() as u32);
                let mut out = h.serialize();
                out.append(&mut payload);
                proof {
                    assert(out@ =~= spec_packet_bytes(*self));
                }
                out
            },
            Packet::PortCap(port) => {
                let out = Header::new(*port, KIND_PORT_CAP, 0, None, None, 0).serialize();
                proof {
                    assert(out@ =~= spec_packet_bytes(*self));
                }
                out
            },
            Packet::PortInfo(port) => {
                let out = Header::new(*port, KIND_PORT_INFO, 0, None, None, 0).serialize();
                proof {
                    assert(out@ =~= spec_packet_bytes(*self));
                }
                out
            },
            Packet::RegisterCallsign(port, pid, src) => {
                let out = Header::new(*port, KIND_REGISTER, *pid, Some(*src), None, 0).serialize();
                proof {
                    assert(out@ =~= spec_packet_bytes(*self));
                }
                out
            },
            Packet::Connect { port, pid, src, dst } => {
                let out = Header::new(
                    *port,
                    KIND_CONNECT,
                    *pid,
                    Some(*src),
                    Some(*dst),
                    0,
                ).serialize();
                proof {
                    assert(out@ =~= spec_packet_bytes(*self));
                }
                out
            },
            Packet::ConnectVia { port, pid, src, dst, via } => {
                let mut hops: Vec<u8> = Vec::new();
                hops.push(via.len() as u8);
                let mut i: usize = 0;
                while i < via.len()
                    invariant
                        0 <= i <= via@.len() <= 7,
                        hops@ == (seq![via@.len() as u8] + spec_via_calls(via@.take(i as int))),
                    decreases 7 - i,
                {
                    let c = &via[i];
                    hops.extend_from_slice(c.bytes());
                    proof {
                        assert(via@.take(i + 1).drop_last() =~= via@.take(i as int));
                        assert(via@.take(i + 1).last() == via@[i as int]);
                        assert(hops@ =~= seq![via@.len() as u8] + spec_via_calls(
                            via@.take(i + 1),
                        ));
                    }
                    i += 1;
                }
                proof {
                    assert(via@.take(via@.len() as int) =~= via@);
                    lemma_via_calls_len(via@);
                }
                let h = Header::new(
                    *port,
                    KIND_CONNECT_VIA,
                    *pid,
                    Some(*src),
                    Some(*dst),
                    hops.len() as u32,
                );
                let mut out = h.serialize();
                out.append(&mut hops);
                proof {
                    assert(out@ =~= spec_packet_bytes(*self));
                }
                out
            },
            Packet::IncomingConnect { port, pid, src, dst } => {
                let mut banner = pre_to_station();
                let mut text = src.text_bytes();
                banner.append(&mut text);
                proof {
                    lemma_call_text_end_bounds(src@);
                }
                let h = Header::new(
                    *port,
                    KIND_CONNECT,
                    *pid,
                    Some(*src),
                    Some(*dst),
                    banner.len() as u32,
                );
                let mut out = h.serialize();
                out.append(&mut banner);
                proof {
                    assert(out@ =~= spec_packet_bytes(*self));
                }
                out
            },
            Packet::ConnectionEstablished { port, pid, src, dst } => {
                let mut banner = pre_with_station();
                let mut text = src.text_bytes();
                banner.append(&mut text);
                proof {
                    lemma_call_text_end_bounds(src@);
                }
                let h = Header::new(
                    *port,
                    KIND_CONNECT,
                    *pid,
                    Some(*src),
                    Some(*dst),
                    banner.len() as u32,
                );
                let mut out = h.serialize();
                out.append(&mut banner);
                proof {
                    assert(out@ =~= spec_packet_bytes(*self));
                }
                out
            },
            Packet::Disconnect { port, pid, src, dst } => {
                let out = Header::new(
                    *port,
                    KIND_DISCONNECT,
                    *pid,
                    Some(*src),
                    Some(*dst),
                    0,
                ).serialize();
                proof {
                    assert(out@ =~= spec_packet_bytes(*self));
                }
                out
            },
            Packet::Unproto { port, pid, src, dst, data } => {
                let h = Header::new(
                    *port,
                    KIND_UNPROTO,
                    *pid,
                    Some(*src),
                    Some(*dst),
                    data.len() as u32,
                );
                let mut out = h.serialize();
                out.extend_from_slice(data.as_slice());
                proof {
                    assert(out@ =~= spec_packet_bytes(*self));
                }
                out
            },
            Packet::Data { port, pid, src, dst, data } => {
                let h = Header::new(
                    *port,
                    KIND_DATA,
                    *pid,
                    Some(*src),
                    Some(*dst),
                    data.len() as u32,
                );
                let mut out = h.serialize();
                out.extend_from_slice(data.as_slice());
                proof {
                    assert(out@ =~= spec_packet_bytes(*self));
                }
                out
            },
            Packet::PortCapReply { port, cap } => {
                let mut payload: Vec<u8> = Vec::new();
                payload.push(cap.baud);
                payload.push(cap.traffic);
                payload.push(cap.txdelay);
                payload.push(cap.txtail);
                payload.push(cap.persist);
                payload.push(cap.slottime);
                payload.push(cap.maxframe);
                payload.push(cap.active_connections);
                let mut rate = u32_to_le_bytes(cap.bytes_per_2min);
                payload.append(&mut rate);
                proof {
                    lemma_auto_spec_u32_to_from_le_bytes();
                    assert(payload@ =~= spec_portcap_payload(*cap));
                }
                let h = Header::new(*port, KIND_PORT_CAP, 0, None, None, payload.len() as u32);
                let mut out = h.serialize();
                out.append(&mut payload);
                proof {
                    assert(out@ =~= spec_packet_bytes(*self));
                }
                out
            },
            Packet::Unknown { header, data } => {
                let h = Header::new(
                    header.port,
                    header.data_kind,
                    header.pid,
                    header.src,
                    header.dst,
                    data.len() as u32,
                );
                let mut out = h.serialize();
                out.extend_from_slice(data.as_slice());
                proof {
                    assert(out@ =~= spec_packet_bytes(*self));
                }
                out
            },
        }
    }

    /// Give the inbound frame its typed meaning, dispatching on the tag.
    ///
    /// Succeeds exactly as `parse_ok` says; the result satisfies
    /// `parses_to` for the given header and payload.
    pub fn parse(header: &Header, data: &[u8]) -> (r: Result<Packet, AgwError>)
        ensures
            r is Ok <==> parse_ok(*header, data@),
            r matches Ok(p) ==> parses_to(*header, data@, p),
            r matches Err(e) ==> e == spec_parse_err(*header, data@),
    {
        let kind = header.data_kind;
        if kind == KIND_VERSION {
            if data.len() != 8 {
                return Err(AgwError::MalformedFrame);
            }
            let major = u16_from_le_bytes(slice_subrange(data, 0, 2));
            let minor = u16_from_le_bytes(slice_subrange(data, 4, 6));
            Ok(Packet::VersionReply(major, minor))
        } else if kind == KIND_CONNECT {
            let src = match header.src {
                Some(c) => c,
                None => {
                    return Err(AgwError::MalformedFrame);
                },
            };
            let dst = match header.dst {
                Some(c) => c,
                None => {
                    return Err(AgwError::MalformedFrame);
                },
            };
            let with_caps = pre_with_caps();
            let with_station = pre_with_station();
            let to_station = pre_to_station();
            if starts_with(data, &with_caps) || starts_with(data, &with_station) {
                Ok(
                    Packet::ConnectionEstablished {
                        port: header.port,
                        pid: header.pid,
                        src,
                        dst,
                    },
                )
            } else if starts_with(data, &to_station) {
                Ok(Packet::IncomingConnect { port: header.port, pid: header.pid, src, dst })
            } else {
                Err(AgwError::UnexpectedBanner)
            }
        } else if kind == KIND_DATA {
            let src = match header.src {
                Some(c) => c,
                None => {
                    return Err(AgwError::MalformedFrame);
                },
            };
            let dst = match header.dst {
                Some(c) => c,
                None => {
                    return Err(AgwError::MalformedFrame);
                },
            };
            Ok(
                Packet::Data {
                    port: header.port,
                    pid: header.pid,
                    src,
                    dst,
                    data: slice_to_vec(data),
                },
            )
        } else if kind == KIND_DISCONNECT {
            let src = match header.src {
                Some(c) => c,
                None => {
                    return Err(AgwError::MalformedFrame);
                },
            };
            let dst = match header.dst {
                Some(c) => c,
                None => {
                    return Err(AgwError::MalformedFrame);
                },
            };
            if data.len() != 0 {
                return Err(AgwError::MalformedFrame);
            }
            Ok(Packet::Disconnect { port: header.port, pid: header.pid, src, dst })
        } else if kind == KIND_PORT_CAP {
            if data.len() != 12 {
                return Err(AgwError::MalformedFrame);
            }
            let cap = parse_portcap(data);
            Ok(Packet::PortCapReply { port: header.port, cap })
        } else {
            Ok(Packet::Unknown { header: *header, data: slice_to_vec(data) })
        }
    }
}

/// Decode the 12-byte port-capabilities payload.
pub(crate) fn parse_portcap(data: &[u8]) -> (r: PortCap)
    requires
        data@.len() == 12,
    ensures
        r == spec_parse_portcap(data@),
{
    let bytes_per_2min = u32_from_le_bytes(slice_subrange(data, 8, 12));
    PortCap {
        baud: data[0],
        traffic: data[1],
        txdelay: data[2],
        txtail: data[3],
        persist: data[4],
        slottime: data[5],
        maxframe: data[6],
        active_connections: data[7],
        bytes_per_2min,
    }
}

/// The variants that the host can send, i.e. those that `parse` can
/// give back.
pub open spec fn inbound_variant(p: Packet) -> bool {
    match p {
        Packet::VersionReply(_, _) => true,
        Packet::ConnectionEstablished { .. } => true,
        Packet::IncomingConnect { .. } => true,
        Packet::Data { .. } => true,
        Packet::Disconnect { .. } => true,
        Packet::PortCapReply { .. } => true,
        _ => false,
    }
}

/// The payload of a legal frame always fits the 32-bit length field.
pub proof fn lemma_payload_len_fits(p: Packet)
    requires
        packet_wf(p),
    ensures
        spec_packet_payload(p).len() <= 0xFFFF_FFFF,
        spec_packet_header(p).data_len == spec_packet_payload(p).len(),
{
    lemma_auto_spec_u16_to_from_le_bytes();
    lemma_auto_spec_u32_to_from_le_bytes();
    match p {
        Packet::ConnectVia { via, .. } => {
            lemma_via_calls_len(via@);
        },
        Packet::IncomingConnect { src, .. } => {
            lemma_call_text_end_bounds(src@);
        },
        Packet::ConnectionEstablished { src, .. } => {
            lemma_call_text_end_bounds(src@);
        },
        _ => {},
    }
}

/// Every emitted frame is exactly `HEADER_LEN + data_len` bytes, and the
/// little-endian length field at offsets 28..32 equals the length of the
/// payload that follows the header.
pub proof fn lemma_frame_length(p: Packet)
    requires
        packet_wf(p),
    ensures
        spec_packet_bytes(p).len() == HEADER_LEN + spec_packet_payload(p).len(),
        spec_u32_from_le_bytes(spec_packet_bytes(p).subrange(28, 32)) == spec_packet_payload(
            p,
        ).len(),
{
    let h = spec_packet_header(p);
    lemma_payload_len_fits(p);
    lemma_header_bytes_len(h);
    lemma_auto_spec_u32_to_from_le_bytes();
    assert(spec_packet_bytes(p).subrange(28, 32) =~= spec_u32_to_le_bytes(h.data_len));
}

/// Codec round trip: an inbound frame variant with legal fields, once
/// serialized, parses back to exactly itself.
pub proof fn lemma_codec_round_trip(p: Packet)
    requires
        packet_wf(p),
        inbound_variant(p),
    ensures
        parse_ok(spec_packet_header(p), spec_packet_payload(p)),
        parses_to(spec_packet_header(p), spec_packet_payload(p), p),
{
    let h = spec_packet_header(p);
    let d = spec_packet_payload(p);
    lemma_auto_spec_u16_to_from_le_bytes();
    lemma_auto_spec_u32_to_from_le_bytes();
    match p {
        Packet::VersionReply(maj, min) => {
            assert(d.subrange(0, 2) =~= spec_u16_to_le_bytes(maj));
            assert(d.subrange(4, 6) =~= spec_u16_to_le_bytes(min));
        },
        Packet::ConnectionEstablished { src, .. } => {
            assert(spec_pre_with_station().is_prefix_of(d)) by {
                assert(d.subrange(0, 27) =~= spec_pre_with_station());
            }
        },
        Packet::IncomingConnect { src, .. } => {
            assert(spec_pre_to_station().is_prefix_of(d)) by {
                assert(d.subrange(0, 25) =~= spec_pre_to_station());
            }
            assert(d[14] == 84);
            assert(!spec_pre_with_caps().is_prefix_of(d)) by {
                if spec_pre_with_caps().is_prefix_of(d) {
                    assert(d.subrange(0, 18)[14] == d[14]);
                }
            }
            assert(!spec_pre_with_station().is_prefix_of(d)) by {
                if spec_pre_with_station().is_prefix_of(d) {
                    assert(d.subrange(0, 27)[14] == d[14]);
                }
            }
        },
        Packet::Data { data, .. } => {
        },
        Packet::Disconnect { .. } => {
        },
        Packet::PortCapReply { port, cap } => {
            assert(d.subrange(8, 12) =~= spec_u32_to_le_bytes(cap.bytes_per_2min));
            assert(spec_parse_portcap(d) == cap);
        },
        _ => {},
    }
}

} // verus!
