//! The inbound reply parser used by the blocking client: every tag the
//! host can send, decoded to a typed reply.

use vstd::prelude::*;

use crate::err::AgwError;
use crate::header::Header;
use crate::packet::{
    spec_parse_portcap, parse_portcap, PortCap, KIND_CONNECT, KIND_DATA, KIND_DISCONNECT,
    KIND_PORT_CAP, KIND_PORT_INFO, KIND_REGISTER, KIND_VERSION,
};
use crate::text::bytes_to_string;
use vstd::bytes::{spec_u16_from_le_bytes, spec_u32_from_le_bytes, u16_from_le_bytes, u32_from_le_bytes};
use vstd::slice::{slice_subrange, slice_to_vec};
use vstd::utf8::{encode_utf8, valid_utf8};

verus! {

/// Tags that only appear inbound.
pub const KIND_HEARD: u8 = 0x48;  // 'H'

pub const KIND_MONITOR_CONNECTED: u8 = 0x49;  // 'I'

pub const KIND_RAW: u8 = 0x4b;  // 'K'

pub const KIND_MONITOR_SUPERVISORY: u8 = 0x53;  // 'S'

pub const KIND_SENT: u8 = 0x54;  // 'T'

pub const KIND_UNPROTO_RX: u8 = 0x55;  // 'U'

pub const KIND_FRAMES_PORT: u8 = 0x79;  // 'y'

pub const KIND_FRAMES_CIRCUIT: u8 = 0x59;  // 'Y'

/// One decoded inbound frame, as routed by the multiplexer.
#[derive(Clone, Debug, PartialEq, Eq)]
pub enum Reply {
    Version(u16, u16),  // R
    CallsignRegistration(bool),  // X
    PortInfo(String),  // G
    PortCaps(PortCap),  // g
    FramesOutstandingPort(u32),  // y
    FramesOutstandingConnection(u32),  // Y
    HeardStations(String),  // H
    Connected(String),  // C
    ConnectedData(Vec<u8>),  // D
    Disconnect,  // d
    MonitorConnected(Vec<u8>),  // I
    MonitorSupervisory(Vec<u8>),  // S
    Unproto(Vec<u8>),  // U
    ConnectedSent(Vec<u8>),  // T
    Raw(Vec<u8>),  // K
    Unknown(Header, Vec<u8>),
}

/// The tags `parse_reply` gives a typed meaning to.
pub open spec fn reply_known_kind(k: u8) -> bool {
    ||| k == KIND_VERSION
    ||| k == KIND_REGISTER
    ||| k == KIND_CONNECT
    ||| k == KIND_DATA
    ||| k == KIND_DISCONNECT
    ||| k == KIND_SENT
    ||| k == KIND_UNPROTO_RX
    ||| k == KIND_PORT_INFO
    ||| k == KIND_PORT_CAP
    ||| k == KIND_FRAMES_PORT
    ||| k == KIND_FRAMES_CIRCUIT
    ||| k == KIND_HEARD
    ||| k == KIND_MONITOR_CONNECTED
    ||| k == KIND_MONITOR_SUPERVISORY
    ||| k == KIND_RAW
}

/// Exactly when `parse_reply` succeeds: fixed-width replies must have
/// their exact size, text replies must be valid UTF-8.
pub open spec fn reply_parse_ok(h: Header, d: Seq<u8>) -> bool {
    if h.data_kind == KIND_VERSION {
        d.len() == 8
    } else if h.data_kind == KIND_REGISTER {
        d.len() == 1
    } else if h.data_kind == KIND_CONNECT || h.data_kind == KIND_PORT_INFO || h.data_kind
        == KIND_HEARD {
        valid_utf8(d)
    } else if h.data_kind == KIND_PORT_CAP {
        d.len() == 12
    } else if h.data_kind == KIND_FRAMES_PORT || h.data_kind == KIND_FRAMES_CIRCUIT {
        d.len() == 4
    } else if h.data_kind == KIND_DISCONNECT {
        d.len() == 0
    } else {
        true
    }
}

/// What it means for `(h, d)` to decode to exactly the reply `r`.
pub open spec fn reply_parses_to(h: Header, d: Seq<u8>, r: Reply) -> bool {
    match r {
        Reply::Version(maj, min) => h.data_kind == KIND_VERSION && d.len() == 8 && maj
            == spec_u16_from_le_bytes(d.subrange(0, 2)) && min == spec_u16_from_le_bytes(
            d.subrange(4, 6),
        ),
        Reply::CallsignRegistration(ok) => h.data_kind == KIND_REGISTER && d.len() == 1 && ok == (
        d[0] == 1),
        Reply::PortInfo(s) => h.data_kind == KIND_PORT_INFO && encode_utf8(s@) == d,
        Reply::PortCaps(c) => h.data_kind == KIND_PORT_CAP && d.len() == 12 && c
            == spec_parse_portcap(d),
        Reply::FramesOutstandingPort(n) => h.data_kind == KIND_FRAMES_PORT && d.len() == 4 && n
            == spec_u32_from_le_bytes(d),
        Reply::FramesOutstandingConnection(n) => h.data_kind == KIND_FRAMES_CIRCUIT && d.len() == 4
            && n == spec_u32_from_le_bytes(d),
        Reply::HeardStations(s) => h.data_kind == KIND_HEARD && encode_utf8(s@) == d,
        Reply::Connected(s) => h.data_kind == KIND_CONNECT && encode_utf8(s@) == d,
        Reply::ConnectedData(v) => h.data_kind == KIND_DATA && v@ == d,
        Reply::Disconnect => h.data_kind == KIND_DISCONNECT && d.len() == 0,
        Reply::MonitorConnected(v) => h.data_kind == KIND_MONITOR_CONNECTED && v@ == d,
        Reply::MonitorSupervisory(v) => h.data_kind == KIND_MONITOR_SUPERVISORY && v@ == d,
        Reply::Unproto(v) => h.data_kind == KIND_UNPROTO_RX && v@ == d,
        Reply::ConnectedSent(v) => h.data_kind == KIND_SENT && v@ == d,
        Reply::Raw(v) => h.data_kind == KIND_RAW && v@ == d,
        Reply::Unknown(hdr, v) => !reply_known_kind(h.data_kind) && hdr == h && v@ == d,
    }
}

/// Decode one inbound frame for the multiplexer, dispatching on the tag.
pub fn parse_reply(header: &Header, data: &[u8]) -> (r: Result<Reply, AgwError>)
    ensures
        r is Ok <==> reply_parse_ok(*header, data@),
        r matches Ok(rep) ==> reply_parses_to(*header, data@, rep),
        r matches Err(e) ==> e == AgwError::MalformedFrame,
{
    let kind = header.data_kind;
    if kind == KIND_VERSION {
        if data.len() != 8 {
            return Err(AgwError::MalformedFrame);
        }
        let major = u16_from_le_bytes(slice_subrange(data, 0, 2));
        let minor = u16_from_le_bytes(slice_subrange(data, 4, 6));
        Ok(Reply::Version(major, minor))
    } else if kind == KIND_REGISTER {
        if data.len() != 1 {
            return Err(AgwError::MalformedFrame);
        }
        Ok(Reply::CallsignRegistration(data[0] == 1))
    } else if kind == KIND_CONNECT {
        match bytes_to_string(data) {
            Some(s) => Ok(Reply::Connected(s)),
            None => Err(AgwError::MalformedFrame),
        }
    } else if kind == KIND_DATA {
        Ok(Reply::ConnectedData(slice_to_vec(data)))
    } else if kind == KIND_DISCONNECT {
        if data.len() != 0 {
            return Err(AgwError::MalformedFrame);
        }
        Ok(Reply::Disconnect)
    } else if kind == KIND_SENT {
        Ok(Reply::ConnectedSent(slice_to_vec(data)))
    } else if kind == KIND_UNPROTO_RX {
        Ok(Reply::Unproto(slice_to_vec(data)))
    } else if kind == KIND_PORT_INFO {
        match bytes_to_string(data) {
            Some(s) => Ok(Reply::PortInfo(s)),
            None => Err(AgwError::MalformedFrame),
        }
    } else if kind == KIND_PORT_CAP {
        if data.len() != 12 {
            return Err(AgwError::MalformedFrame);
        }
        Ok(Reply::PortCaps(parse_portcap(data)))
    } else if kind == KIND_FRAMES_PORT {
        if data.len() != 4 {
            return Err(AgwError::MalformedFrame);
        }
        let n = u32_from_le_bytes(data);
        proof {
            assert(data@.subrange(0, 4) =~= data@);
        }
        Ok(Reply::FramesOutstandingPort(n))
    } else if kind == KIND_FRAMES_CIRCUIT {
        if data.len() != 4 {
            return Err(AgwError::MalformedFrame);
        }
        let n = u32_from_le_bytes(data);
        Ok(Reply::FramesOutstandingConnection(n))
    } else if kind == KIND_HEARD {
        match bytes_to_string(data) {
            Some(s) => Ok(Reply::HeardStations(s)),
            None => Err(AgwError::MalformedFrame),
        }
    } else if kind == KIND_MONITOR_CONNECTED {
        Ok(Reply::MonitorConnected(slice_to_vec(data)))
    } else if kind == KIND_MONITOR_SUPERVISORY {
        Ok(Reply::MonitorSupervisory(slice_to_vec(data)))
    } else if kind == KIND_RAW {
        Ok(Reply::Raw(slice_to_vec(data)))
    } else {
        Ok(Reply::Unknown(*header, slice_to_vec(data)))
    }
}

} // verus!
