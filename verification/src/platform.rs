//! The clock and random identifiers, as the rest of the library reads them.
use vstd::prelude::*;

verus! {

/// Nanoseconds in one second.
pub const NANOS_PER_SEC: u64 = 1_000_000_000;

/// Reads `std::time::SystemTime::now()` as nanoseconds since the Unix epoch.
/// Nothing is promised of the value: it is whatever the clock says, 0 for a
/// clock set before the epoch, truncated to 64 bits.
#[verifier::external_body]
pub(crate) fn unix_time_nanos() -> u64 {
    match std::time::SystemTime::now().duration_since(std::time::UNIX_EPOCH) {
        Ok(d) => d.as_nanos() as u64,
        Err(_) => 0,
    }
}

/// Whole seconds since the Unix epoch, read from the clock.
pub fn unix_time_secs() -> (s: u64)
    ensures
        s <= u64::MAX / NANOS_PER_SEC,
{
    unix_time_nanos() / NANOS_PER_SEC
}

/// The operating system's random source.
#[verifier::external_type_specification]
#[verifier::external_body]
pub struct ExSystemRandom(ring::rand::SystemRandom);

/// `ring::rand::SystemRandom::new()`.
#[verifier::external_body]
pub(crate) fn system_random() -> ring::rand::SystemRandom {
    ring::rand::SystemRandom::new()
}

/// 16 bytes from `SecureRandom::fill` on the system source, or `None` when
/// the operating system gives none. The bytes are random, so nothing more is
/// stated of them.
#[verifier::external_body]
fn random_bytes_16(rng: &ring::rand::SystemRandom) -> Option<[u8; 16]> {
    let mut bytes = [0u8; 16];
    match ring::rand::SecureRandom::fill(rng, &mut bytes) {
        Ok(()) => Some(bytes),
        Err(_) => None,
    }
}

/// The lowercase hexadecimal digit for `n` (0 to 15).
pub open spec fn spec_hex_digit(n: int) -> char {
    if n < 10 {
        (n + 48) as char
    } else {
        (n + 87) as char
    }
}

/// The two lowercase hexadecimal digits of each byte of `bs`, in order.
pub open spec fn spec_hex(bs: Seq<u8>) -> Seq<char>
    decreases bs.len(),
{
    if bs.len() == 0 {
        Seq::empty()
    } else {
        seq![spec_hex_digit(bs[0] as int / 16), spec_hex_digit(bs[0] as int % 16)] + spec_hex(bs.skip(1))
    }
}

/// `bytes` with the version (4, random) and variant (RFC 4122) bits set, as
/// `uuid::Builder::from_random_bytes` sets them.
pub open spec fn spec_uuid_v4_bytes(bytes: Seq<u8>) -> Seq<u8> {
    bytes.update(6, ((bytes[6] & 0x0f) | 0x40) as u8).update(8, ((bytes[8] & 0x3f) | 0x80) as u8)
}

/// The hyphenated text of the version-4 UUID made of `bytes`: its 32
/// lowercase hex digits in groups of 8, 4, 4, 4 and 12 joined by `-`.
pub open spec fn spec_uuid_text(bytes: Seq<u8>) -> Seq<char> {
    let h = spec_hex(spec_uuid_v4_bytes(bytes));
    h.subrange(0, 8) + seq!['-'] + h.subrange(8, 12) + seq!['-'] + h.subrange(12, 16) + seq!['-']
        + h.subrange(16, 20) + seq!['-'] + h.subrange(20, 32)
}

/// `uuid::Builder::from_random_bytes(bytes).into_uuid()` in its `Display`
/// text (hyphenated, lowercase), 36 characters long.
#[verifier::external_body]
fn uuid_v4_text(bytes: [u8; 16]) -> (s: String)
    ensures
        s@ == spec_uuid_text(bytes@),
        s@.len() == 36,
{
    uuid::Builder::from_random_bytes(bytes).into_uuid().to_string()
}

/// A fresh random identifier: a version-4 UUID in its hyphenated text form,
/// or `None` when the operating system gives no random bytes.
pub(crate) fn new_uuid_string() -> (r: Option<String>)
    ensures
        r matches Some(s) ==> s@.len() == 36,
        r matches Some(s) ==> exists|bytes: Seq<u8>| bytes.len() == 16 && s@ == #[trigger] spec_uuid_text(bytes),
{
    let rng = system_random();
    match random_bytes_16(&rng) {
        Some(bytes) => Some(uuid_v4_text(bytes)),
        None => None,
    }
}

} // verus!
