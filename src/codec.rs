//! The text of a UUID: the base32hex encoding of RFC 4648 (alphabet `0-9A-V`,
//! most significant bit first) of its sixteen bytes, without padding.
use data_encoding::DecodeError;
use vstd::prelude::*;
use vstd::string::*;
use vstd::utf8::*;

use crate::error::{Error, ErrorKind};
use crate::uuids::uuid_from_slice;

verus! {

/// The symbol of a five-bit group: `0`-`9` for 0 to 9, `A`-`V` for 10 to 31.
pub open spec fn symbol(d: int) -> char {
    if d < 10 {
        ((d + 48) as u8) as char
    } else {
        ((d + 55) as u8) as char
    }
}

/// Bit `k` of `v`, counted from the most significant bit of `v[0]`; bits past
/// the end are zero.
pub open spec fn bit(v: Seq<u8>, k: int) -> u8 {
    if 0 <= k < 8 * v.len() {
        (v[k / 8] >> ((7 - k % 8) as u8)) & 1u8
    } else {
        0u8
    }
}

/// The `i`th group of five bits of `v`.
pub open spec fn group(v: Seq<u8>, i: int) -> int {
    16 * bit(v, 5 * i) + 8 * bit(v, 5 * i + 1) + 4 * bit(v, 5 * i + 2) + 2 * bit(v, 5 * i + 3)
        + bit(v, 5 * i + 4)
}

/// The number of symbols in the text of `n` bytes: one for each five bits,
/// the last one completed with zero bits.
pub open spec fn encoded_len(n: nat) -> nat {
    (8 * n + 4) / 5
}

/// The base32hex text of `v`, without padding.
pub open spec fn base32hex(v: Seq<u8>) -> Seq<char> {
    Seq::new(encoded_len(v.len()), |i: int| symbol(group(v, i)))
}

/// `c` is one of the 32 symbols `0-9A-V`.
pub open spec fn is_symbol(c: char) -> bool {
    ('0' <= c <= '9') || ('A' <= c <= 'V')
}

/// `s` is the base32hex text of some byte sequence.
pub open spec fn is_base32hex(s: Seq<char>) -> bool {
    exists|v: Seq<u8>| base32hex(v) == s
}

/// The longest input, in bytes, that the decoder takes.
pub const MAX_DECODE_LEN: usize = usize::MAX / 8;

/// What the value part `s` of an identifier stands for: the sixteen bytes
/// whose text it is, or the first rule that it breaks. A text longer than the
/// decoder takes is far longer than the 26 symbols of sixteen bytes, and is
/// reported as not holding sixteen bytes.
pub open spec fn value_of(s: Seq<char>) -> Result<Seq<u8>, ErrorKind> {
    if s.len() == 0 {
        Err(ErrorKind::MissingValue)
    } else if encode_utf8(s).len() > MAX_DECODE_LEN {
        Err(ErrorKind::Uuid)
    } else if !is_base32hex(s) {
        Err(ErrorKind::Base32Decode)
    } else if (choose|v: Seq<u8>| base32hex(v) == s).len() != 16 {
        Err(ErrorKind::Uuid)
    } else {
        Ok(choose|v: Seq<u8>| base32hex(v) == s)
    }
}

proof fn lemma_bit_binary(v: Seq<u8>, k: int)
    ensures
        bit(v, k) <= 1,
{
    if 0 <= k < 8 * v.len() {
        let x = v[k / 8];
        let s = (7 - k % 8) as u8;
        assert((x >> s) & 1u8 <= 1u8) by (bit_vector);
    }
}

proof fn lemma_byte_from_bits(x: u8, y: u8)
    requires
        (x >> 7u8) & 1u8 == (y >> 7u8) & 1u8,
        (x >> 6u8) & 1u8 == (y >> 6u8) & 1u8,
        (x >> 5u8) & 1u8 == (y >> 5u8) & 1u8,
        (x >> 4u8) & 1u8 == (y >> 4u8) & 1u8,
        (x >> 3u8) & 1u8 == (y >> 3u8) & 1u8,
        (x >> 2u8) & 1u8 == (y >> 2u8) & 1u8,
        (x >> 1u8) & 1u8 == (y >> 1u8) & 1u8,
        (x >> 0u8) & 1u8 == (y >> 0u8) & 1u8,
    ensures
        x == y,
{
    assert(x == y) by (bit_vector)
        requires
            (x >> 7u8) & 1u8 == (y >> 7u8) & 1u8,
            (x >> 6u8) & 1u8 == (y >> 6u8) & 1u8,
            (x >> 5u8) & 1u8 == (y >> 5u8) & 1u8,
            (x >> 4u8) & 1u8 == (y >> 4u8) & 1u8,
            (x >> 3u8) & 1u8 == (y >> 3u8) & 1u8,
            (x >> 2u8) & 1u8 == (y >> 2u8) & 1u8,
            (x >> 1u8) & 1u8 == (y >> 1u8) & 1u8,
            (x >> 0u8) & 1u8 == (y >> 0u8) & 1u8,
    ;
}

proof fn lemma_symbol_injective(a: int, b: int)
    requires
        0 <= a < 32,
        0 <= b < 32,
        symbol(a) == symbol(b),
    ensures
        a == b,
{
}

proof fn lemma_encoded_len_strict(n: nat, m: nat)
    requires
        n < m,
    ensures
        encoded_len(n) < encoded_len(m),
{
}

/// Equal groups of five bits have equal bits.
proof fn lemma_group_bits(v: Seq<u8>, w: Seq<u8>, i: int, j: int)
    requires
        group(v, i) == group(w, i),
        0 <= j < 5,
    ensures
        bit(v, 5 * i + j) == bit(w, 5 * i + j),
{
    lemma_bit_binary(v, 5 * i);
    lemma_bit_binary(v, 5 * i + 1);
    lemma_bit_binary(v, 5 * i + 2);
    lemma_bit_binary(v, 5 * i + 3);
    lemma_bit_binary(v, 5 * i + 4);
    lemma_bit_binary(w, 5 * i);
    lemma_bit_binary(w, 5 * i + 1);
    lemma_bit_binary(w, 5 * i + 2);
    lemma_bit_binary(w, 5 * i + 3);
    lemma_bit_binary(w, 5 * i + 4);
}

/// Different byte sequences have different texts.
pub proof fn lemma_base32hex_injective(v: Seq<u8>, w: Seq<u8>)
    requires
        base32hex(v) == base32hex(w),
    ensures
        v == w,
{
    assert(base32hex(v).len() == encoded_len(v.len()));
    assert(base32hex(w).len() == encoded_len(w.len()));
    if v.len() < w.len() {
        lemma_encoded_len_strict(v.len(), w.len());
    }
    if w.len() < v.len() {
        lemma_encoded_len_strict(w.len(), v.len());
    }
    assert(v.len() == w.len());
    let n = v.len();
    assert forall|k: int| 0 <= k < 8 * n implies bit(v, k) == bit(w, k) by {
        let i = k / 5;
        assert(0 <= i < encoded_len(n));
        assert(base32hex(v)[i] == symbol(group(v, i)));
        assert(base32hex(w)[i] == symbol(group(w, i)));
        lemma_bit_binary(v, 5 * i);
        lemma_bit_binary(v, 5 * i + 1);
        lemma_bit_binary(v, 5 * i + 2);
        lemma_bit_binary(v, 5 * i + 3);
        lemma_bit_binary(v, 5 * i + 4);
        lemma_bit_binary(w, 5 * i);
        lemma_bit_binary(w, 5 * i + 1);
        lemma_bit_binary(w, 5 * i + 2);
        lemma_bit_binary(w, 5 * i + 3);
        lemma_bit_binary(w, 5 * i + 4);
        lemma_symbol_injective(group(v, i), group(w, i));
        lemma_group_bits(v, w, i, k - 5 * i);
    }
    assert forall|b: int| 0 <= b < n implies v[b] == w[b] by {
        assert(bit(v, 8 * b) == bit(w, 8 * b));
        assert(bit(v, 8 * b + 1) == bit(w, 8 * b + 1));
        assert(bit(v, 8 * b + 2) == bit(w, 8 * b + 2));
        assert(bit(v, 8 * b + 3) == bit(w, 8 * b + 3));
        assert(bit(v, 8 * b + 4) == bit(w, 8 * b + 4));
        assert(bit(v, 8 * b + 5) == bit(w, 8 * b + 5));
        assert(bit(v, 8 * b + 6) == bit(w, 8 * b + 6));
        assert(bit(v, 8 * b + 7) == bit(w, 8 * b + 7));
        lemma_byte_from_bits(v[b], w[b]);
    }
    assert(v =~= w);
}

/// The text of bytes is ASCII: its UTF-8 bytes are as many as its symbols.
proof fn lemma_base32hex_ascii(u: Seq<u8>)
    ensures
        encode_utf8(base32hex(u)).len() == base32hex(u).len(),
{
    let s = base32hex(u);
    assert forall|i: int| 0 <= i < s.len() implies '\0' <= #[trigger] s[i] <= '\u{7f}' by {
        lemma_bit_binary(u, 5 * i);
        lemma_bit_binary(u, 5 * i + 1);
        lemma_bit_binary(u, 5 * i + 2);
        lemma_bit_binary(u, 5 * i + 3);
        lemma_bit_binary(u, 5 * i + 4);
    }
    is_ascii_chars_encode_utf8(s);
}

/// A text with a character outside `0-9A-V` is no base32hex text.
pub proof fn lemma_foreign_symbol(s: Seq<char>, i: int)
    requires
        0 <= i < s.len(),
        !is_symbol(s[i]),
    ensures
        !is_base32hex(s),
{
    if is_base32hex(s) {
        let v = choose|v: Seq<u8>| base32hex(v) == s;
        assert(s[i] == symbol(group(v, i)));
        lemma_bit_binary(v, 5 * i);
        lemma_bit_binary(v, 5 * i + 1);
        lemma_bit_binary(v, 5 * i + 2);
        lemma_bit_binary(v, 5 * i + 3);
        lemma_bit_binary(v, 5 * i + 4);
    }
}

/// Decoding the text of sixteen bytes gives those bytes back; the text always
/// has 26 symbols.
pub proof fn lemma_value_round_trip(u: Seq<u8>)
    requires
        u.len() == 16,
    ensures
        value_of(base32hex(u)) == Ok::<Seq<u8>, ErrorKind>(u),
        base32hex(u).len() == 26,
{
    let s = base32hex(u);
    assert(is_base32hex(s));
    lemma_base32hex_ascii(u);
    let v = choose|v: Seq<u8>| base32hex(v) == s;
    lemma_base32hex_injective(v, u);
}

/// Relies on `data_encoding::BASE32HEX_NOPAD.encode`: the RFC 4648 base32hex
/// text of the bytes, most significant bit first, without padding.
#[verifier::external_body]
pub(crate) fn encode_base32hex(b: &[u8; 16]) -> (r: String)
    ensures
        r@ == base32hex(b@),
{
    data_encoding::BASE32HEX_NOPAD.encode(b)
}

/// Relies on `data_encoding::BASE32HEX_NOPAD.decode`. That encoding checks
/// trailing bits and has no padding, no ignored and no translated symbols, so
/// it is canonical: it accepts exactly the texts that its `encode` gives, and
/// returns the bytes they were made from. It panics on inputs longer than
/// `usize::MAX / 8` bytes.
#[verifier::external_body]
fn decode_base32hex(s: &str) -> (r: Result<Vec<u8>, DecodeError>)
    requires
        s.spec_bytes().len() <= MAX_DECODE_LEN,
    ensures
        r is Ok ==> base32hex(r->Ok_0@) == s@,
        r is Err ==> !is_base32hex(s@),
{
    data_encoding::BASE32HEX_NOPAD.decode(s.as_bytes())
}

/// Decodes the value part of an identifier into the sixteen bytes of a UUID.
pub fn uuid_from_str_b32h(s: &str) -> (r: Result<[u8; 16], Error>)
    ensures
        crate::error::view_result(r) == value_of(s@),
{
    if s.is_empty() {
        return Err(Error::MissingValue);
    }
    let b = s.as_bytes();
    if b.len() > MAX_DECODE_LEN {
        return match uuid_from_slice(b) {
            Ok(u) => Ok(u),
            Err(e) => Err(Error::Uuid(e)),
        };
    }
    match decode_base32hex(s) {
        Err(e) => Err(Error::Base32Decode(e)),
        Ok(v) => {
            proof {
                let w = choose|w: Seq<u8>| base32hex(w) == s@;
                lemma_base32hex_injective(v@, w);
            }
            match uuid_from_slice(v.as_slice()) {
                Ok(u) => Ok(u),
                Err(e) => Err(Error::Uuid(e)),
            }
        },
    }
}

} // verus!
