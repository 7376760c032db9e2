//! Byte-to-text conversion shared by the codec and reply modules.

use vstd::prelude::*;
use vstd::utf8::{
    encode_utf8, is_leading_byte_width_1, pop_first_scalar, valid_first_scalar, valid_utf8,
};

verus! {

/// A sequence of plain ASCII bytes is a valid UTF-8 encoding.
pub proof fn ascii_seq_is_valid_utf8(s: Seq<u8>)
    requires
        forall|i: int| 0 <= i < s.len() ==> s[i] < 128,
    ensures
        valid_utf8(s),
    decreases s.len(),
{
    if s.len() != 0 {
        let b = s[0];
        assert(is_leading_byte_width_1(b));
        assert((b & 0x7f) < 0xD800 && !(b & 0x7f >= 128)) by (bit_vector);
        assert(valid_first_scalar(s));
        assert(pop_first_scalar(s) =~= s.drop_first());
        ascii_seq_is_valid_utf8(s.drop_first());
    }
}

/// Relies on String::from_utf8: it succeeds exactly on valid UTF-8 input,
/// and the UTF-8 bytes of the resulting string are the input bytes.
#[verifier::external_body]
pub(crate) fn bytes_to_string(v: &[u8]) -> (r: Option<String>)
    ensures
        r is Some <==> valid_utf8(v@),
        r matches Some(s) ==> encode_utf8(s@) == v@,
{
    match String::from_utf8(v.to_vec()) {
        Ok(s) => Some(s),
        Err(_) => None,
    }
}

} // verus!
