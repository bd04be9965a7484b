//! The calls this library makes into outside crates, each with the contract it is trusted to meet.
use vstd::prelude::*;

use crate::text::digit;

verus! {

/// Whether `cidr::IpCidr` accepts the text: an IPv4 or IPv6 network written `address/length`
/// with no host bits set, or a single address (a host network).
pub uninterp spec fn ip_cidr_parses(text: Seq<char>) -> bool;

/// Calls `<cidr::IpCidr as FromStr>::from_str` and tells whether it succeeded; the result is
/// named by `ip_cidr_parses`, which depends on the text alone.
#[verifier::external_body]
pub(crate) fn parses_as_ip_cidr(text: &str) -> (r: bool)
    ensures
        r == ip_cidr_parses(text@),
{
    text.parse::<cidr::IpCidr>().is_ok()
}

/// A reading of the monotonic clock.
#[verifier::external_type_specification]
#[verifier::external_body]
pub struct ExInstant(std::time::Instant);

/// Calls `std::time::Instant::now`: a reading of the monotonic clock. Nothing is promised of it.
#[verifier::external_body]
pub(crate) fn monotonic_now() -> (r: std::time::Instant) {
    std::time::Instant::now()
}

/// Calls `std::time::Instant::elapsed` on `origin`: the milliseconds the monotonic clock has
/// moved on since it, cut to 64 bits. Nothing is promised of the value, which depends on the
/// time of the call.
#[verifier::external_body]
pub(crate) fn millis_since(origin: &std::time::Instant) -> (r: u64) {
    origin.elapsed().as_millis() as u64
}

/// The SHA-256 digest of a byte sequence.
pub uninterp spec fn sha256(data: Seq<u8>) -> Seq<u8>;

/// Calls `sha2::Sha256::digest`: the 32-byte digest of `data`, named by `sha256`.
#[verifier::external_body]
pub(crate) fn sha256_digest(data: &[u8]) -> (r: Vec<u8>)
    ensures
        r@ == sha256(data@),
        r@.len() == 32,
{
    <sha2::Sha256 as sha2::Digest>::digest(data).to_vec()
}

/// The lowest `n` hex digits of `v`, most significant first, zero-padded.
pub open spec fn hex_digits(v: nat, n: nat) -> Seq<char>
    decreases n,
{
    if n == 0 {
        Seq::empty()
    } else {
        hex_digits(v / 16, (n - 1) as nat).push(digit(v % 16))
    }
}

/// The hyphenated lowercase form of a UUID's 128-bit value: 32 hex digits grouped 8-4-4-4-12.
pub open spec fn uuid_hyphenated(v: u128) -> Seq<char> {
    let h = hex_digits(v as nat, 32);
    h.subrange(0, 8) + seq!['-'] + h.subrange(8, 12) + seq!['-'] + h.subrange(12, 16) + seq!['-']
        + h.subrange(16, 20) + seq!['-'] + h.subrange(20, 32)
}

/// Calls `uuid::Uuid::from_u128` and `to_string`: `Display` of a UUID writes its hyphenated
/// lowercase form.
#[verifier::external_body]
pub(crate) fn uuid_text(v: u128) -> (r: String)
    ensures
        r@ == uuid_hyphenated(v),
{
    uuid::Uuid::from_u128(v).to_string()
}

/// Calls `uuid::Uuid::new_v4`: a random UUID, as its 128-bit value. Nothing is promised of the
/// value.
#[verifier::external_body]
pub(crate) fn random_uuid() -> (r: u128) {
    uuid::Uuid::new_v4().as_u128()
}

/// Whether `password_auth` accepts a password against a stored PHC hash string.
pub uninterp spec fn password_hash_accepts(password: Seq<char>, hash: Seq<char>) -> bool;

/// Calls `password_auth::generate_hash`: a PHC hash string of the password with a fresh random
/// salt. What the crate's documentation promises of it is stated: `password_auth::verify_password`
/// accepts the password against it, and, being a PHC string, it starts with `$`. The crate panics
/// when hashing fails: for a password longer than Argon2's limit, which `requires` leaves out, or
/// when the system's random source fails, which no precondition can rule out.
#[verifier::external_body]
pub(crate) fn generate_password_hash(password: &str) -> (r: String)
    requires
        vstd::utf8::encode_utf8(password@).len() <= 0xFFFF_FFFF,
    ensures
        password_hash_accepts(password@, r@),
        r@.len() > 0 && r@[0] == '$',
{
    password_auth::generate_hash(password)
}

/// Calls `password_auth::verify_password` and tells whether it succeeded; named by
/// `password_hash_accepts`.
#[verifier::external_body]
pub(crate) fn password_matches(password: &str, hash: &str) -> (r: bool)
    ensures
        r == password_hash_accepts(password@, hash@),
{
    password_auth::verify_password(password, hash).is_ok()
}

/// The UUID `uuid::Uuid::parse_str` reads from a text, as its 128-bit value.
pub uninterp spec fn uuid_parsed(text: Seq<char>) -> Option<u128>;

/// Calls `uuid::Uuid::parse_str`; the result is named by `uuid_parsed`. The crate documents that
/// it parses the formats it writes, among them the hyphenated one, which is stated.
#[verifier::external_body]
pub(crate) fn parse_uuid(text: &str) -> (r: Option<u128>)
    ensures
        r == uuid_parsed(text@),
        forall|v: u128| #[trigger] uuid_hyphenated(v) == text@ ==> r == Some(v),
{
    match uuid::Uuid::parse_str(text) {
        Ok(u) => Some(u.as_u128()),
        Err(_) => None,
    }
}

/// The instant `chrono` reads from an RFC 3339 text: seconds since the Unix epoch and the
/// nanoseconds past that second.
pub uninterp spec fn rfc3339_instant(text: Seq<char>) -> Option<(i64, u32)>;

/// Calls `chrono::DateTime::parse_from_rfc3339`, then `timestamp` and `timestamp_subsec_nanos`;
/// the result is named by `rfc3339_instant`. The nanoseconds stay below two seconds' worth, as
/// the crate documents (more than one second only within a leap second).
#[verifier::external_body]
pub(crate) fn parse_rfc3339(text: &str) -> (r: Option<(i64, u32)>)
    ensures
        r == rfc3339_instant(text@),
        r matches Some(t) ==> t.1 < 2_000_000_000,
{
    match chrono::DateTime::parse_from_rfc3339(text) {
        Ok(t) => Some((t.timestamp(), t.timestamp_subsec_nanos())),
        Err(_) => None,
    }
}

} // verus!
