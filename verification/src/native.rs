//! The 7-byte shifted AX.25 callsign form used by the kernel-socket
//! path: six characters uppercased and shifted left one bit, padded with
//! shifted spaces, and the SSID packed into the last byte.  Only the
//! encoding lives here; the socket path itself is outside the engine.

use vstd::prelude::*;
use vstd::string::StringSliceAdditionalSpecFns;

use crate::err::AgwError;

verus! {

pub open spec fn is_digit(c: u8) -> bool {
    0x30 <= c <= 0x39
}

pub open spec fn is_alnum(c: u8) -> bool {
    is_digit(c) || (0x41 <= c <= 0x5a) || (0x61 <= c <= 0x7a)
}

/// ASCII uppercase.
pub open spec fn spec_upper(c: u8) -> u8 {
    if 0x61 <= c <= 0x7a {
        (c - 0x20) as u8
    } else {
        c
    }
}

/// Index of the first `-` (0x2d), or the length when none occurs.
pub open spec fn dash_pos(b: Seq<u8>) -> int
    decreases b.len(),
{
    if b.len() == 0 {
        0
    } else if b[0] == 0x2d {
        0
    } else {
        1 + dash_pos(b.drop_first())
    }
}

proof fn lemma_dash_pos_at(b: Seq<u8>, i: int)
    requires
        0 <= i <= b.len(),
        forall|j: int| 0 <= j < i ==> b[j] != 0x2d,
        i < b.len() ==> b[i] == 0x2d,
    ensures
        dash_pos(b) == i,
    decreases b.len(),
{
    if i != 0 {
        lemma_dash_pos_at(b.drop_first(), i - 1);
    }
}

/// The decimal value of a digit string.
pub open spec fn spec_digits_val(d: Seq<u8>) -> int
    decreases d.len(),
{
    if d.len() == 0 {
        0
    } else {
        spec_digits_val(d.drop_last()) * 10 + (d.last() - 0x30)
    }
}

/// A valid textual callsign for the shifted form: 3 to 6 alphanumerics,
/// optionally followed by `-` and a decimal SSID of value 0 to 15.
pub open spec fn bin_call_ok(b: Seq<u8>) -> bool {
    let p = dash_pos(b);
    &&& 3 <= p <= 6
    &&& forall|i: int| 0 <= i < p ==> is_alnum(#[trigger] b[i])
    &&& p < b.len() ==> ({
        let digits = b.skip(p + 1);
        &&& digits.len() >= 1
        &&& forall|i: int| 0 <= i < digits.len() ==> is_digit(#[trigger] digits[i])
        &&& spec_digits_val(digits) <= 15
    })
}

/// The SSID encoded in the text: 0 when no `-` is present.
pub open spec fn spec_ssid_of(b: Seq<u8>) -> int {
    if dash_pos(b) < b.len() {
        spec_digits_val(b.skip(dash_pos(b) + 1))
    } else {
        0
    }
}

/// The 7 bytes of the shifted form.
pub open spec fn spec_bin_call(b: Seq<u8>) -> Seq<u8> {
    let p = dash_pos(b);
    let ssid = spec_ssid_of(b);
    Seq::new(
        7,
        |i: int|
            if i < p {
                (spec_upper(b[i]) * 2) as u8
            } else if i < 6 {
                0x40u8
            } else {
                ((((ssid + 0x30) * 2) as u8) & 0x1e) as u8
            },
    )
}

/// Encode a textual callsign into the 7-byte shifted form.
///
/// This is the same encoding as the C library's address parser, spared
/// as a dependency.  Note: callsigns here are not only real callsigns
/// but also virtual ones like WIDE1-1 and APZ001.
pub fn parse_call(call: &str) -> (r: Result<[u8; 7], AgwError>)
    ensures
        r is Ok <==> bin_call_ok(call.spec_bytes()),
        r matches Ok(bin) ==> bin@ == spec_bin_call(call.spec_bytes()),
        r matches Err(e) ==> e == AgwError::InvalidCallsign,
{
    let b = call.as_bytes();
    let n = b.len();
    let mut dash: usize = 0;
    while dash < n && b[dash] != 0x2d
        invariant
            b@ == call.spec_bytes(),
            0 <= dash <= n == b@.len(),
            forall|j: int| 0 <= j < dash ==> b@[j] != 0x2d,
        decreases n - dash,
    {
        dash += 1;
    }
    proof {
        lemma_dash_pos_at(b@, dash as int);
    }
    if dash < 3 || dash > 6 {
        return Err(AgwError::InvalidCallsign);
    }
    let mut bin: [u8; 7] = [0x40; 7];
    let mut i: usize = 0;
    while i < dash
        invariant
            b@ == call.spec_bytes(),
            0 <= i <= dash <= 6,
            dash <= b@.len(),
            dash_pos(b@) == dash,
            forall|j: int| 0 <= j < i ==> is_alnum(#[trigger] b@[j]),
            forall|j: int| 0 <= j < i ==> bin@[j] == (spec_upper(b@[j]) * 2) as u8,
            forall|j: int| i <= j < 7 ==> bin@[j] == 0x40,
        decreases dash - i,
    {
        let c = b[i];
        let ok = (0x30 <= c && c <= 0x39) || (0x41 <= c && c <= 0x5a) || (0x61 <= c && c <= 0x7a);
        if !ok {
            return Err(AgwError::InvalidCallsign);
        }
        let u = if 0x61 <= c && c <= 0x7a {
            c - 0x20
        } else {
            c
        };
        bin[i] = u * 2;
        i += 1;
    }
    let ssid: u32;
    if dash < n {
        if dash + 1 == n {
            return Err(AgwError::InvalidCallsign);
        }
        let mut v: u32 = 0;
        let mut j: usize = dash + 1;
        while j < n
            invariant
                b@ == call.spec_bytes(),
                dash + 1 <= j <= n == b@.len(),
                dash_pos(b@) == dash,
                dash <= 6,
                forall|k: int| dash + 1 <= k < j ==> is_digit(#[trigger] b@[k]),
                spec_digits_val(b@.subrange(dash + 1, j as int)) <= 15 ==> v == spec_digits_val(
                    b@.subrange(dash + 1, j as int),
                ),
                spec_digits_val(b@.subrange(dash + 1, j as int)) > 15 ==> v > 15,
                v <= 165,
            decreases n - j,
        {
            let d = b[j];
            if !(0x30 <= d && d <= 0x39) {
                proof {
                    assert(call.spec_bytes().skip(dash + 1)[j - dash - 1] == b@[j as int]);
                }
                return Err(AgwError::InvalidCallsign);
            }
            proof {
                assert(b@.subrange(dash + 1, j + 1).drop_last() =~= b@.subrange(
                    dash + 1,
                    j as int,
                ));
                assert(b@.subrange(dash + 1, j + 1).last() == b@[j as int]);
            }
            if v <= 15 {
                v = v * 10 + ((d - 0x30) as u32);
            }
            j += 1;
        }
        proof {
            assert(b@.subrange(dash + 1, n as int) =~= b@.skip(dash + 1));
        }
        if v > 15 {
            return Err(AgwError::InvalidCallsign);
        }
        ssid = v;
    } else {
        ssid = 0;
    }
    let last = (((ssid as u8) + 0x30) * 2) & 0x1e;
    bin[6] = last;
    proof {
        assert(bin@ =~= spec_bin_call(call.spec_bytes()));
    }
    Ok(bin)
}

} // verus!
