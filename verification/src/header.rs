//! The 36-byte fixed frame header, packed little-endian.

use vstd::prelude::*;

use crate::call::{call_bytes_ok, Call};
use crate::err::AgwError;
use vstd::bytes::{
    lemma_auto_spec_u32_to_from_le_bytes, spec_u32_from_le_bytes, spec_u32_to_le_bytes,
    u32_from_le_bytes, u32_to_le_bytes,
};

verus! {

broadcast use crate::call::lemma_call_view_len;

/// Size of the fixed header on the wire.
pub const HEADER_LEN: usize = 36;

/// The decoded fixed header of one frame.
///
/// An absent callsign field is `None` and is all zeros on the wire.
#[derive(Clone, Copy, Debug, PartialEq, Eq)]
pub struct Header {
    pub port: u8,
    pub pid: u8,
    pub data_kind: u8,
    pub data_len: u32,
    pub src: Option<Call>,
    pub dst: Option<Call>,
}

/// The 10 wire bytes of an optional callsign field.
pub open spec fn spec_call_field(c: Option<Call>) -> Seq<u8> {
    match c {
        Some(cc) => cc@,
        None => Seq::new(10, |i: int| 0u8),
    }
}

/// Every byte of the field is zero, i.e. the callsign is absent.
pub open spec fn field_all_zero(s: Seq<u8>) -> bool {
    forall|i: int| 0 <= i < s.len() ==> s[i] == 0
}

/// How a decoded callsign field relates to its 10 wire bytes: all-zero
/// decodes to `None`, anything else to the callsign with those bytes.
pub open spec fn opt_field_matches(c: Option<Call>, s: Seq<u8>) -> bool {
    if field_all_zero(s) {
        c is None
    } else {
        c matches Some(cc) && cc@ == s
    }
}

/// A header fit for emission: present callsigns are valid and non-empty.
pub open spec fn header_wf(h: Header) -> bool {
    &&& (h.src matches Some(c) ==> c.wf() && !c.spec_is_empty())
    &&& (h.dst matches Some(c) ==> c.wf() && !c.spec_is_empty())
}

/// The exact 36 bytes that `serialize` emits for a header.
pub open spec fn spec_header_bytes(h: Header) -> Seq<u8> {
    seq![h.port, 0u8, 0u8, 0u8, h.data_kind, 0u8, h.pid, 0u8] + spec_call_field(h.src)
        + spec_call_field(h.dst) + spec_u32_to_le_bytes(h.data_len) + seq![0u8, 0u8, 0u8, 0u8]
}

/// The packed header is always exactly `HEADER_LEN` bytes.
pub proof fn lemma_header_bytes_len(h: Header)
    ensures
        spec_header_bytes(h).len() == HEADER_LEN,
{
    vstd::bytes::lemma_auto_spec_u32_to_from_le_bytes();
}

impl Header {
    pub fn port(&self) -> (r: u8)
        ensures
            r == self.port,
    {
        self.port
    }

    pub fn pid(&self) -> (r: u8)
        ensures
            r == self.pid,
    {
        self.pid
    }

    pub fn data_kind(&self) -> (r: u8)
        ensures
            r == self.data_kind,
    {
        self.data_kind
    }

    pub fn data_len(&self) -> (r: u32)
        ensures
            r == self.data_len,
    {
        self.data_len
    }

    pub fn src(&self) -> (r: &Option<Call>)
        ensures
            r == &self.src,
    {
        &self.src
    }

    pub fn dst(&self) -> (r: &Option<Call>)
        ensures
            r == &self.dst,
    {
        &self.dst
    }

    pub fn new(
        port: u8,
        data_kind: u8,
        pid: u8,
        src: Option<Call>,
        dst: Option<Call>,
        data_len: u32,
    ) -> (r: Header)
        ensures
            r == (Header { port, data_kind, pid, src, dst, data_len }),
    {
        Header { port, data_kind, pid, data_len, src, dst }
    }

    /// Pack the header into its 36 wire bytes.
    pub fn serialize(&self) -> (r: Vec<u8>)
        ensures
            r@ == spec_header_bytes(*self),
            r@.len() == HEADER_LEN,
    {
        let mut v: Vec<u8> = Vec::new();
        v.push(self.port);
        v.push(0);
        v.push(0);
        v.push(0);
        v.push(self.data_kind);
        v.push(0);
        v.push(self.pid);
        v.push(0);
        push_call_field(&mut v, &self.src);
        push_call_field(&mut v, &self.dst);
        let mut lenb = u32_to_le_bytes(self.data_len);
        proof {
            lemma_auto_spec_u32_to_from_le_bytes();
        }
        v.append(&mut lenb);
        v.push(0);
        v.push(0);
        v.push(0);
        v.push(0);
        proof {
            assert(v@ =~= spec_header_bytes(*self));
        }
        v
    }
}

/// Append the 10 wire bytes of an optional callsign field.
fn push_call_field(v: &mut Vec<u8>, c: &Option<Call>)
    ensures
        final(v)@ == old(v)@ + spec_call_field(*c),
{
    match c {
        Some(cc) => {
            let b = cc.bytes();
            v.extend_from_slice(b);
        },
        None => {
            let ghost start = v@;
            let mut i: usize = 0;
            while i < 10
                invariant
                    0 <= i <= 10,
                    v@.len() == start.len() + i,
                    v@ == start + Seq::new(i as nat, |j: int| 0u8),
                decreases 10 - i,
            {
                v.push(0);
                proof {
                    assert(v@ =~= start + Seq::new((i + 1) as nat, |j: int| 0u8));
                }
                i += 1;
            }
        },
    }
}

/// Unpack 36 wire bytes into a header.  Fails exactly when either
/// callsign field holds a byte that no callsign may hold.
pub fn parse_header(header: &[u8; HEADER_LEN]) -> (r: Result<Header, AgwError>)
    ensures
        r is Ok <==> call_bytes_ok(header@.subrange(8, 18)) && call_bytes_ok(
            header@.subrange(18, 28),
        ),
        r matches Ok(h) ==> {
            &&& h.port == header@[0]
            &&& h.data_kind == header@[4]
            &&& h.pid == header@[6]
            &&& h.data_len == spec_u32_from_le_bytes(header@.subrange(28, 32))
            &&& opt_field_matches(h.src, header@.subrange(8, 18))
            &&& opt_field_matches(h.dst, header@.subrange(18, 28))
            &&& header_wf(h)
        },
        r matches Err(e) ==> e == AgwError::InvalidCallsign,
    {
    let src = match parse_call_field(header, 8) {
        Ok(c) => c,
        Err(e) => {
            return Err(e);
        },
    };
    let dst = match parse_call_field(header, 18) {
        Ok(c) => c,
        Err(e) => {
            return Err(e);
        },
    };
    let mut lenb: Vec<u8> = Vec::new();
    let mut i: usize = 28;
    while i < 32
        invariant
            28 <= i <= 32,
            lenb@ =~= header@.subrange(28, i as int),
        decreases 32 - i,
    {
        lenb.push(header[i]);
        proof {
            assert(lenb@ =~= header@.subrange(28, i + 1));
        }
        i += 1;
    }
    let data_len = u32_from_le_bytes(lenb.as_slice());
    Ok(Header { port: header[0], data_kind: header[4], pid: header[6], data_len, src, dst })
}

/// Decode one 10-byte callsign field starting at `at`; all-zero is `None`.
fn parse_call_field(header: &[u8; HEADER_LEN], at: usize) -> (r: Result<Option<Call>, AgwError>)
    requires
        at + 10 <= header@.len(),
    ensures
        r is Ok <==> call_bytes_ok(header@.subrange(at as int, at + 10)),
        r matches Ok(c) ==> {
            &&& opt_field_matches(c, header@.subrange(at as int, at + 10))
            &&& (c matches Some(cc) ==> cc.wf() && !cc.spec_is_empty())
        },
        r matches Err(e) ==> e == AgwError::InvalidCallsign,
{
    let ghost field = header@.subrange(at as int, at + 10);
    let mut b: Vec<u8> = Vec::new();
    let mut i: usize = at;
    while i < at + 10
        invariant
            at <= i <= at + 10,
            at + 10 <= header@.len(),
            b@ =~= header@.subrange(at as int, i as int),
        decreases at + 10 - i,
    {
        b.push(header[i]);
        proof {
            assert(b@ =~= header@.subrange(at as int, i + 1));
        }
        i += 1;
    }
    let call = match Call::from_bytes(b.as_slice()) {
        Ok(c) => c,
        Err(e) => {
            return Err(e);
        },
    };
    proof {
        assert(call@ =~= field);
    }
    if call.is_empty() {
        Ok(None)
    } else {
        Ok(Some(call))
    }
}

} // verus!
