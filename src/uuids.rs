//! What this crate takes from the `uuid` crate: UUIDs read from their usual
//! text forms, from a slice, and freshly generated ones, each as its sixteen
//! bytes.
use uuid::Error as UuidError;
use uuid::Timestamp;
use vstd::prelude::*;
use vstd::string::*;

verus! {

#[verifier::external_type_specification]
#[verifier::external_body]
pub struct ExTimestamp(Timestamp);

/// A hexadecimal digit in ASCII: `0-9`, `A-F` or `a-f`.
pub open spec fn is_hex_digit(b: u8) -> bool {
    (48 <= b <= 57) || (65 <= b <= 70) || (97 <= b <= 102)
}

/// The value of a hexadecimal digit.
pub open spec fn hex_value(b: u8) -> int {
    if b <= 57 {
        b - 48
    } else if b <= 70 {
        b - 55
    } else {
        b - 87
    }
}

/// Every byte of `h` is a hexadecimal digit.
pub open spec fn all_hex(h: Seq<u8>) -> bool {
    forall|i: int| 0 <= i < h.len() ==> is_hex_digit(#[trigger] h[i])
}

/// Thirty-two hexadecimal digits read two by two, the high half first.
pub open spec fn hex_bytes(h: Seq<u8>) -> Seq<u8> {
    Seq::new(16, |j: int| (16 * hex_value(h[2 * j]) + hex_value(h[2 * j + 1])) as u8)
}

/// The digits of the hyphenated form `8-4-4-4-12`.
pub open spec fn hyphenated_digits(s: Seq<u8>) -> Seq<u8> {
    s.subrange(0, 8) + s.subrange(9, 13) + s.subrange(14, 18) + s.subrange(19, 23) + s.subrange(
        24,
        36,
    )
}

/// `s` is in the hyphenated form: groups of 8, 4, 4, 4 and 12 hexadecimal
/// digits joined by `-` (45).
pub open spec fn is_hyphenated(s: Seq<u8>) -> bool {
    &&& s.len() == 36
    &&& s[8] == 45 && s[13] == 45 && s[18] == 45 && s[23] == 45
    &&& all_hex(hyphenated_digits(s))
}

/// An ASCII letter in lower case, any other byte as it is.
pub open spec fn ascii_lower(b: u8) -> u8 {
    if 65 <= b <= 90 {
        (b + 32) as u8
    } else {
        b
    }
}

/// `urn:uuid:` in ASCII.
pub open spec fn urn_prefix() -> Seq<u8> {
    seq![117u8, 114u8, 110u8, 58u8, 117u8, 117u8, 105u8, 100u8, 58u8]
}

/// The UUID that the UTF-8 text `s` writes in one of the usual forms: 32
/// digits, hyphenated, hyphenated in braces (`{`, 123, and `}`, 125), or
/// hyphenated after `urn:uuid:` in either case.
pub open spec fn uuid_of_text(s: Seq<u8>) -> Option<Seq<u8>> {
    if s.len() == 32 && all_hex(s) {
        Some(hex_bytes(s))
    } else if s.len() == 36 && is_hyphenated(s) {
        Some(hex_bytes(hyphenated_digits(s)))
    } else if s.len() == 38 && s[0] == 123 && s[37] == 125 && is_hyphenated(s.subrange(1, 37)) {
        Some(hex_bytes(hyphenated_digits(s.subrange(1, 37))))
    } else if s.len() == 45 && (forall|i: int|
        0 <= i < 9 ==> ascii_lower(#[trigger] s[i]) == urn_prefix()[i]) && is_hyphenated(
        s.subrange(9, 45),
    ) {
        Some(hex_bytes(hyphenated_digits(s.subrange(9, 45))))
    } else {
        None
    }
}

/// The version (high half of byte 6) and variant (two high bits of byte 8,
/// `10`) of a generated UUID of version `version`.
pub open spec fn has_version(u: Seq<u8>, version: int) -> bool {
    &&& u.len() == 16
    &&& u[6] / 16 == version
    &&& u[8] / 64 == 2
}

/// Relies on `uuid::Uuid::parse_str`: it reads the simple, hyphenated, braced
/// and URN forms, with digits in either case, and gives the bytes in the
/// order written.
#[verifier::external_body]
pub(crate) fn uuid_from_text(s: &str) -> (r: Result<[u8; 16], UuidError>)
    ensures
        match uuid_of_text(s.spec_bytes()) {
            Some(u) => r is Ok && r->Ok_0@ == u,
            None => r is Err,
        },
{
    match uuid::Uuid::parse_str(s) {
        Ok(u) => Ok(u.into_bytes()),
        Err(e) => Err(e),
    }
}

/// Relies on `uuid::Uuid::from_slice`: it fails exactly when the slice does
/// not hold sixteen bytes, and otherwise keeps them in order.
#[verifier::external_body]
pub(crate) fn uuid_from_slice(b: &[u8]) -> (r: Result<[u8; 16], UuidError>)
    ensures
        r is Ok <==> b@.len() == 16,
        r is Ok ==> r->Ok_0@ == b@,
{
    match uuid::Uuid::from_slice(b) {
        Ok(u) => Ok(u.into_bytes()),
        Err(e) => Err(e),
    }
}

/// Relies on `uuid::Uuid::new_v4`: random bits under the version 4 and the
/// RFC 4122 variant.
#[verifier::external_body]
pub(crate) fn uuid_new_v4() -> (r: [u8; 16])
    ensures
        has_version(r@, 4),
{
    uuid::Uuid::new_v4().into_bytes()
}

/// Relies on `uuid::Uuid::now_v7`: the current time in milliseconds, then
/// counter and random bits, under the version 7 and the RFC 4122 variant.
#[verifier::external_body]
pub(crate) fn uuid_now_v7() -> (r: [u8; 16])
    ensures
        has_version(r@, 7),
{
    uuid::Uuid::now_v7().into_bytes()
}

/// Relies on `uuid::Uuid::new_v7`: the timestamp in milliseconds, then
/// counter and random bits, under the version 7 and the RFC 4122 variant.
#[verifier::external_body]
pub(crate) fn uuid_new_v7(ts: Timestamp) -> (r: [u8; 16])
    ensures
        has_version(r@, 7),
{
    uuid::Uuid::new_v7(ts).into_bytes()
}

/// Whether two UUIDs have the same bytes.
pub fn same_uuid(a: &[u8; 16], b: &[u8; 16]) -> (r: bool)
    ensures
        r == (a@ == b@),
{
    let mut i: usize = 0;
    while i < 16
        invariant
            a@.len() == 16,
            b@.len() == 16,
            0 <= i <= 16,
            forall|j: int| 0 <= j < i ==> #[trigger] a@[j] == b@[j],
        decreases 16 - i,
    {
        if a[i] != b[i] {
            assert(a@[i as int] != b@[i as int]);
            return false;
        }
        i += 1;
    }
    assert(a@ =~= b@);
    true
}

} // verus!
