//! Callsign validation and the 10-byte padded form.

use agw::Call;

#[test]
fn from_bytes_accepts_valid_calls() {
    let c = Call::from_bytes(b"M0THC-1").unwrap();
    assert_eq!(c.bytes(), &[77, 48, 84, 72, 67, 45, 49, 0, 0, 0]);
    assert_eq!(c.string(), "M0THC-1");
    assert!(!c.is_empty());
}

#[test]
fn from_bytes_accepts_exactly_ten_bytes() {
    let c = Call::from_bytes(b"ABCDE12345").unwrap();
    assert_eq!(c.string(), "ABCDE12345");
}

#[test]
fn from_bytes_rejects_eleven_bytes() {
    assert!(Call::from_bytes(b"ABCDE123456").is_err());
}

#[test]
fn from_bytes_rejects_bad_bytes() {
    // A space, a slash and a control byte are all outside the accepted set.
    assert!(Call::from_bytes(b"M0 THC").is_err());
    assert!(Call::from_bytes(b"M0/THC").is_err());
    assert!(Call::from_bytes(&[77, 1]).is_err());
}

#[test]
fn from_bytes_accepts_interior_zero_and_dash() {
    // Every byte is checked on its own: zeros and dashes may sit anywhere.
    assert!(Call::from_bytes(&[77, 0, 84]).is_ok());
    assert!(Call::from_bytes(b"WIDE1-1").is_ok());
}

#[test]
fn empty_call_is_empty() {
    let c = Call::from_bytes(b"").unwrap();
    assert!(c.is_empty());
    assert_eq!(c.string(), "");
    assert_eq!(c.bytes(), &[0u8; 10]);
}

#[test]
fn string_stops_at_first_zero() {
    let c = Call::from_bytes(&[77, 48, 0, 84]).unwrap();
    assert_eq!(c.string(), "M0");
}
