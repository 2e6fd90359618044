//! Hashing, hexadecimal and base64 encoding, randomness and clocks, as the
//! outside crates `sha2`, `base64`, `rand`, `uuid` and `chrono` provide them.
//! Each wrapper here is trusted: its contract is what the crate documents;
//! the hexadecimal writing and `sha256_hex_of` are verified.
use vstd::prelude::*;
use crate::text::{digit_char, is_ascii_digit};

verus! {

/// The SHA-256 digest of `data` (FIPS 180-4), as `sha2::Sha256` computes it.
pub uninterp spec fn sha256(data: Seq<u8>) -> Seq<u8>;

/// The URL-safe base64 encoding of `data` without padding (RFC 4648 §5), as
/// `base64::engine::general_purpose::URL_SAFE_NO_PAD` computes it.
pub uninterp spec fn base64_url_no_pad(data: Seq<u8>) -> Seq<char>;

/// A character of the URL-safe base64 alphabet.
pub open spec fn is_base64_url_char(c: char) -> bool {
    ('A' <= c && c <= 'Z') || ('a' <= c && c <= 'z') || ('0' <= c && c <= '9') || c == '-'
        || c == '_'
}

/// The lowercase hexadecimal digit of `d < 16`.
pub open spec fn hex_digit(d: nat) -> char {
    if d < 10 {
        digit_char(d)
    } else if d == 10 {
        'a'
    } else if d == 11 {
        'b'
    } else if d == 12 {
        'c'
    } else if d == 13 {
        'd'
    } else if d == 14 {
        'e'
    } else {
        'f'
    }
}

/// Lowercase hexadecimal, two digits per byte, high nibble first.
pub open spec fn lower_hex(bytes: Seq<u8>) -> Seq<char> {
    Seq::new(
        2 * bytes.len(),
        |i: int|
            if i % 2 == 0 {
                hex_digit((bytes[i / 2] / 16) as nat)
            } else {
                hex_digit((bytes[i / 2] % 16) as nat)
            },
    )
}

/// The lowercase hex of the SHA-256 digest of `data`.
pub open spec fn sha256_hex(data: Seq<u8>) -> Seq<char> {
    lower_hex(sha256(data))
}

/// `sha2::Sha256::digest`: the digest of `data`, which is 32 bytes long.
#[verifier::external_body]
pub(crate) fn sha256_digest(data: &[u8]) -> (digest: Vec<u8>)
    ensures
        digest@ == sha256(data@),
        digest@.len() == 32,
{
    <sha2::Sha256 as sha2::Digest>::digest(data).to_vec()
}

/// The lowercase hexadecimal digit of `d < 16`.
fn hex_char(d: u8) -> (c: char)
    requires
        d < 16,
    ensures
        c == hex_digit(d as nat),
{
    match d {
        0 => '0',
        1 => '1',
        2 => '2',
        3 => '3',
        4 => '4',
        5 => '5',
        6 => '6',
        7 => '7',
        8 => '8',
        9 => '9',
        10 => 'a',
        11 => 'b',
        12 => 'c',
        13 => 'd',
        14 => 'e',
        _ => 'f',
    }
}

/// Each byte as two lowercase hexadecimal digits, as `hex::encode` writes it.
pub fn hex_encode(bytes: &[u8]) -> (text: String)
    ensures
        text@ == lower_hex(bytes@),
{
    let mut text = String::new();
    let mut i: usize = 0;
    while i < bytes.len()
        invariant
            0 <= i <= bytes@.len(),
            text@ =~= lower_hex(bytes@.take(i as int)),
        decreases bytes.len() - i,
    {
        let b = bytes[i];
        let hi = hex_char(b / 16);
        let lo = hex_char(b % 16);
        let ghost prev = text@;
        crate::text::push_char(&mut text, hi);
        crate::text::push_char(&mut text, lo);
        assert(text@ =~= lower_hex(bytes@.take(i + 1))) by {
            let t = bytes@.take(i + 1);
            assert(t.len() == i + 1);
            assert forall|k: int| 0 <= k < 2 * t.len() implies #[trigger] text@[k] == lower_hex(t)[k] by {
                if k < 2 * i {
                    assert(text@[k] == prev[k]);
                    assert(t[k / 2] == bytes@.take(i as int)[k / 2]);
                } else {
                    assert(k / 2 == i as int);
                    assert(t[k / 2] == b);
                }
            }
        }
        i += 1;
    }
    assert(bytes@.take(bytes@.len() as int) =~= bytes@);
    text
}

/// `Engine::encode` of `URL_SAFE_NO_PAD`: the encoding of `data`; without
/// padding it has `ceil(4n / 3)` characters, all from the URL-safe alphabet.
#[verifier::external_body]
pub(crate) fn base64_url_encode(data: &[u8]) -> (text: String)
    ensures
        text@ == base64_url_no_pad(data@),
        text@.len() == (4 * data@.len() + 2) / 3,
        forall|i: int| 0 <= i < text@.len() ==> is_base64_url_char(#[trigger] text@[i]),
{
    <base64::engine::GeneralPurpose as base64::Engine>::encode(
        &base64::engine::general_purpose::URL_SAFE_NO_PAD,
        data,
    )
}

/// `rand::random::<[u8; 32]>()`: 32 bytes from the thread-local generator.
#[verifier::external_body]
pub(crate) fn random_bytes_32() -> [u8; 32] {
    rand::random::<[u8; 32]>()
}

/// `uuid::Uuid::new_v4()` in its hyphenated text form.
#[verifier::external_body]
pub(crate) fn new_uuid_text() -> String {
    uuid::Uuid::new_v4().to_string()
}

/// An RFC 3339 time with offset `+00:00` whose fraction of a second takes
/// `f` characters: none, or a `.` and 3, 6 or 9 digits.
pub open spec fn rfc3339_with_fraction(t: Seq<char>, f: int) -> bool {
    let p = t.len() - 21 - f;
    &&& f == 0 || f == 4 || f == 7 || f == 10
    &&& p >= 4
    &&& forall|k: int| 0 <= k < p ==> is_year_char(#[trigger] t[k])
    &&& t[p] == '-' && digits_at(t, p + 1, 2) && t[p + 3] == '-' && digits_at(t, p + 4, 2)
    &&& t[p + 6] == 'T' && digits_at(t, p + 7, 2) && t[p + 9] == ':' && digits_at(t, p + 10, 2)
    &&& t[p + 12] == ':' && digits_at(t, p + 13, 2)
    &&& (f > 0 ==> t[p + 15] == '.' && digits_at(t, p + 16, f - 1))
    &&& t.subrange(t.len() - 6, t.len() as int) == "+00:00"@
}

/// An RFC 3339 UTC time as `to_rfc3339` writes it: the date and time, the
/// fraction of a second when it is not zero, and the offset `+00:00`.
pub open spec fn is_rfc3339_utc(t: Seq<char>) -> bool {
    exists|f: int| #[trigger] rfc3339_with_fraction(t, f)
}

/// `chrono::Utc::now()` written by `to_rfc3339`: whatever the time, the text
/// has that form.
#[verifier::external_body]
pub(crate) fn now_rfc3339() -> (text: String)
    ensures
        is_rfc3339_utc(text@),
{
    chrono::Utc::now().to_rfc3339()
}

/// A character of a written year: a digit, or the sign chrono writes before
/// a year outside `0..=9999`.
pub open spec fn is_year_char(c: char) -> bool {
    is_ascii_digit(c) || c == '+' || c == '-'
}

/// Whether `t[at..at + n]` are ASCII digits.
pub open spec fn digits_at(t: Seq<char>, at: int, n: int) -> bool {
    forall|k: int| at <= k < at + n ==> is_ascii_digit(#[trigger] t[k])
}

/// An RFC 3339 UTC time with milliseconds, `YYYY-MM-DDTHH:MM:SS.mmmZ`: the
/// year (four digits, or a sign and more digits out of `0..=9999`), then
/// the fixed-width rest.
pub open spec fn is_rfc3339_millis_utc(t: Seq<char>) -> bool {
    let p = t.len() - 20;
    &&& t.len() >= 24
    &&& forall|k: int| 0 <= k < p ==> is_year_char(#[trigger] t[k])
    &&& t[p] == '-' && digits_at(t, p + 1, 2) && t[p + 3] == '-' && digits_at(t, p + 4, 2)
    &&& t[p + 6] == 'T' && digits_at(t, p + 7, 2) && t[p + 9] == ':' && digits_at(t, p + 10, 2)
    &&& t[p + 12] == ':' && digits_at(t, p + 13, 2) && t[p + 15] == '.' && digits_at(t, p + 16, 3)
    &&& t[p + 19] == 'Z'
}

/// A compact UTC time, `YYYYMMDD-HHMMSS`: the year (four digits, or a sign
/// and more digits out of `0..=9999`), then the fixed-width rest.
pub open spec fn is_compact_stamp(t: Seq<char>) -> bool {
    let p = t.len() - 11;
    &&& t.len() >= 15
    &&& forall|k: int| 0 <= k < p ==> is_year_char(#[trigger] t[k])
    &&& digits_at(t, p, 4) && t[p + 4] == '-' && digits_at(t, p + 5, 6)
}

/// `chrono::Utc::now()` written by `to_rfc3339_opts(SecondsFormat::Millis, true)`:
/// whatever the time, the text has the RFC 3339 UTC form with milliseconds.
#[verifier::external_body]
pub(crate) fn now_rfc3339_millis() -> (text: String)
    ensures
        is_rfc3339_millis_utc(text@),
{
    chrono::Utc::now().to_rfc3339_opts(chrono::SecondsFormat::Millis, true)
}

/// `chrono::Utc::now()` written with the pattern `%Y%m%d-%H%M%S`: whatever
/// the time, the text has that compact form.
#[verifier::external_body]
pub(crate) fn now_compact_stamp() -> (text: String)
    ensures
        is_compact_stamp(text@),
{
    chrono::Utc::now().format("%Y%m%d-%H%M%S").to_string()
}

/// The SHA-256 of `data` as lowercase hex (`hex::encode(Sha256::digest(..))`).
pub fn sha256_hex_of(data: &[u8]) -> (text: String)
    ensures
        text@ == sha256_hex(data@),
        text@.len() == 64,
{
    let digest = sha256_digest(data);
    hex_encode(digest.as_slice())
}

} // verus!
