//! Callsigns in the 10-byte padded form that AGW frames carry.

use vstd::prelude::*;

use crate::err::AgwError;
use crate::text::{ascii_seq_is_valid_utf8, bytes_to_string};
use vstd::utf8::encode_utf8;

verus! {

/// A byte that may appear in the 10-byte callsign form: zero padding,
/// an ASCII alphanumeric, or `-` (0x2d) before the SSID.
pub open spec fn call_byte_ok(b: u8) -> bool {
    ||| b == 0
    ||| 0x30 <= b <= 0x39
    ||| 0x41 <= b <= 0x5a
    ||| 0x61 <= b <= 0x7a
    ||| b == 0x2d
}

/// Every byte of the sequence is acceptable in a callsign field.
pub open spec fn call_bytes_ok(s: Seq<u8>) -> bool {
    forall|i: int| 0 <= i < s.len() ==> call_byte_ok(#[trigger] s[i])
}

/// The textual part of a padded callsign: the bytes before the first zero.
pub open spec fn call_text(s: Seq<u8>) -> Seq<u8> {
    s.take(call_text_end(s))
}

/// Index of the first zero byte, or the length when none occurs.
pub open spec fn call_text_end(s: Seq<u8>) -> int
    decreases s.len(),
{
    if s.len() == 0 {
        0
    } else if s[0] == 0 {
        0
    } else {
        1 + call_text_end(s.drop_first())
    }
}

/// The text of a callsign ends within the field and holds no zero byte.
pub proof fn lemma_call_text_end_bounds(s: Seq<u8>)
    ensures
        0 <= call_text_end(s) <= s.len(),
        forall|j: int| 0 <= j < call_text_end(s) ==> s[j] != 0,
    decreases s.len(),
{
    if s.len() != 0 && s[0] != 0 {
        lemma_call_text_end_bounds(s.drop_first());
        assert forall|j: int| 0 <= j < call_text_end(s) implies s[j] != 0 by {
            if j > 0 {
                assert(s.drop_first()[j - 1] != 0);
            }
        }
    }
}

proof fn lemma_call_text_end_at(s: Seq<u8>, i: int)
    requires
        0 <= i <= s.len(),
        forall|j: int| 0 <= j < i ==> s[j] != 0,
        i < s.len() ==> s[i] == 0,
    ensures
        call_text_end(s) == i,
    decreases s.len(),
{
    if i == 0 {
    } else {
        assert(s[0] != 0);
        lemma_call_text_end_at(s.drop_first(), i - 1);
    }
}

/// Callsign, including SSID.
///
/// Max length is 10, because that is the field width in the AGW protocol.
/// The all-zero value stands for an absent callsign field.
#[derive(Clone, Copy, Debug, PartialEq, Eq)]
pub struct Call {
    bytes: [u8; 10],
}

impl View for Call {
    type V = Seq<u8>;

    closed spec fn view(&self) -> Seq<u8> {
        self.bytes@
    }
}

impl Call {
    /// Always 10 bytes, each zero, alphanumeric or `-`.
    pub open spec fn wf(&self) -> bool {
        self@.len() == 10 && call_bytes_ok(self@)
    }

    /// True when every byte is zero, i.e. the field is absent.
    pub open spec fn spec_is_empty(&self) -> bool {
        forall|i: int| 0 <= i < self@.len() ==> self@[i] == 0
    }

    /// Validate and pad a textual callsign.  Accepts at most 10 bytes,
    /// each zero, alphanumeric or `-`; anything else is rejected.
    pub fn from_bytes(bytes: &[u8]) -> (r: Result<Call, AgwError>)
        ensures
            r is Ok <==> bytes@.len() <= 10 && call_bytes_ok(bytes@),
            r matches Ok(c) ==> {
                &&& c.wf()
                &&& forall|i: int| 0 <= i < bytes@.len() ==> c@[i] == bytes@[i]
                &&& forall|i: int| bytes@.len() <= i < 10 ==> c@[i] == 0
            },
            r matches Err(e) ==> e == AgwError::InvalidCallsign,
    {
        if bytes.len() > 10 {
            return Err(AgwError::InvalidCallsign);
        }
        let mut arr: [u8; 10] = [0; 10];
        let mut i: usize = 0;
        while i < bytes.len()
            invariant
                i <= bytes@.len() <= 10,
                forall|j: int| 0 <= j < i ==> arr@[j] == bytes@[j],
                forall|j: int| i <= j < 10 ==> arr@[j] == 0,
                forall|j: int| 0 <= j < i ==> call_byte_ok(#[trigger] bytes@[j]),
            decreases bytes@.len() - i,
        {
            let b = bytes[i];
            let ok = b == 0 || (0x30 <= b && b <= 0x39) || (0x41 <= b && b <= 0x5a) || (0x61 <= b
                && b <= 0x7a) || b == 0x2d;
            if !ok {
                return Err(AgwError::InvalidCallsign);
            }
            arr[i] = b;
            i += 1;
        }
        Ok(Call { bytes: arr })
    }

    /// The full 10-byte padded form, as written into a frame header.
    pub fn bytes(&self) -> (r: &[u8])
        ensures
            r@ == self@,
    {
        self.bytes.as_slice()
    }

    /// The textual bytes: everything before the first zero.
    pub fn text_bytes(&self) -> (r: Vec<u8>)
        ensures
            r@ == call_text(self@),
    {
        let mut v: Vec<u8> = Vec::new();
        let mut i: usize = 0;
        while i < 10
            invariant
                0 <= i <= 10,
                self@.len() == 10,
                v@ == self@.take(i as int),
                forall|j: int| 0 <= j < i ==> self@[j] != 0,
            decreases 10 - i,
        {
            let b = self.bytes[i];
            if b == 0 {
                proof {
                    lemma_call_text_end_at(self@, i as int);
                }
                return v;
            }
            v.push(b);
            proof {
                assert(v@ =~= self@.take(i + 1));
            }
            i += 1;
        }
        proof {
            lemma_call_text_end_at(self@, 10);
        }
        v
    }

    /// The callsign as text, trailing padding removed.
    pub fn string(&self) -> (r: String)
        requires
            self.wf(),
        ensures
            encode_utf8(r@) == call_text(self@),
    {
        let v = self.text_bytes();
        proof {
            lemma_call_text_end_bounds(self@);
            assert forall|i: int| 0 <= i < v@.len() implies v@[i] < 128 by {
                assert(v@[i] == self@[i]);
                assert(call_byte_ok(self@[i]));
                assert(self@[i] != 0);
            }
            ascii_seq_is_valid_utf8(v@);
        }
        match bytes_to_string(v.as_slice()) {
            Some(s) => s,
            None => String::new(),
        }
    }

    /// Return true if the callsign is empty.
    ///
    /// Sometimes this is the correct thing for incoming or outgoing AGW
    /// frames: querying the outgoing frame queue, for example, carries
    /// neither source nor destination.
    pub fn is_empty(&self) -> (r: bool)
        ensures
            r == self.spec_is_empty(),
    {
        let mut i: usize = 0;
        while i < 10
            invariant
                0 <= i <= 10,
                self@.len() == 10,
                forall|j: int| 0 <= j < i ==> self@[j] == 0,
            decreases 10 - i,
        {
            if self.bytes[i] != 0 {
                return false;
            }
            i += 1;
        }
        true
    }

    /// Byte-wise equality of the padded forms.
    pub fn same(&self, other: &Call) -> (r: bool)
        ensures
            r == (self@ == other@),
    {
        let mut i: usize = 0;
        while i < 10
            invariant
                0 <= i <= 10,
                self@.len() == 10,
                other@.len() == 10,
                forall|j: int| 0 <= j < i ==> self@[j] == other@[j],
            decreases 10 - i,
        {
            if self.bytes[i] != other.bytes[i] {
                return false;
            }
            i += 1;
        }
        proof {
            assert(self@ =~= other@);
        }
        true
    }
}

/// The padded form is always exactly 10 bytes.
pub broadcast proof fn lemma_call_view_len(c: Call)
    ensures
        (#[trigger] c@).len() == 10,
{
}

/// Two callsigns with the same padded form are the same value.
pub proof fn lemma_call_view_injective(a: Call, b: Call)
    requires
        a@ == b@,
    ensures
        a == b,
{
    assert(a.bytes =~= b.bytes);
}

} // verus!
