//! Prefixes: the tag in front of an identifier, made of ASCII letters and
//! digits. Up to eight bytes are held inline, longer ones on the heap.
use core::str::Utf8Error;
use smallvec::SmallVec;
use vstd::prelude::*;
use vstd::string::*;
use vstd::utf8::*;

use crate::error::{view_result, Error, ErrorKind};

verus! {

/// Bytes held in a `SmallVec`: up to eight inline, more on the heap.
#[verifier::external_body]
#[derive(Debug, Hash)]
pub struct SmallBytes {
    v: SmallVec<[u8; 8]>,
}

#[verifier::external_type_specification]
#[verifier::external_body]
pub struct ExUtf8Error(Utf8Error);

/// The bytes that a `SmallBytes` holds, in order.
pub uninterp spec fn small_bytes(v: SmallBytes) -> Seq<u8>;

/// Relies on `SmallVec::from_slice`: a new vector that holds a copy of the
/// slice.
#[verifier::external_body]
fn small_from_slice(b: &[u8]) -> (r: SmallBytes)
    ensures
        small_bytes(r) == b@,
{
    SmallBytes { v: SmallVec::from_slice(b) }
}

/// Relies on `SmallVec::as_slice`: the items that the vector holds, in order.
#[verifier::external_body]
fn small_as_slice(b: &SmallBytes) -> (r: &[u8])
    ensures
        r@ == small_bytes(*b),
{
    b.v.as_slice()
}

/// Relies on `std::str::from_utf8`: valid UTF-8 is accepted, and the text
/// borrows the same bytes.
#[verifier::external_body]
fn str_from_utf8(b: &[u8]) -> (r: Result<&str, Utf8Error>)
    ensures
        valid_utf8(b@) ==> r is Ok,
        r is Ok ==> r->Ok_0.spec_bytes() == b@,
{
    core::str::from_utf8(b)
}

/// The bytes allowed in a prefix: `0-9` (48 to 57), `A-Z` (65 to 90) and
/// `a-z` (97 to 122).
pub open spec fn is_prefix_byte(c: u8) -> bool {
    (48 <= c <= 57) || (65 <= c <= 90) || (97 <= c <= 122)
}

/// Every byte of `b` is allowed in a prefix.
pub open spec fn all_prefix_bytes(b: Seq<u8>) -> bool {
    forall|i: int| 0 <= i < b.len() ==> is_prefix_byte(#[trigger] b[i])
}

/// `i` is the index of the first byte of `b` that is not allowed in a prefix.
pub open spec fn is_first_invalid(b: Seq<u8>, i: int) -> bool {
    &&& 0 <= i < b.len()
    &&& !is_prefix_byte(b[i])
    &&& forall|j: int| 0 <= j < i ==> is_prefix_byte(#[trigger] b[j])
}

/// The index of the first byte of `b` that is not allowed in a prefix.
pub open spec fn first_invalid(b: Seq<u8>) -> int {
    choose|i: int| is_first_invalid(b, i)
}

/// The prefix made of the bytes `b`, or the error that rejects them.
pub open spec fn prefix_of(b: Seq<u8>) -> Result<Seq<u8>, ErrorKind> {
    if all_prefix_bytes(b) {
        Ok(b)
    } else {
        Err(ErrorKind::InvalidPrefix { valid_until: first_invalid(b) as usize })
    }
}

/// The text of prefix bytes: each byte is the ASCII character of that code.
pub open spec fn ascii_text(b: Seq<u8>) -> Seq<char> {
    Seq::new(b.len(), |i: int| b[i] as char)
}

/// There is only one first invalid byte.
pub proof fn lemma_first_invalid(b: Seq<u8>, i: int)
    requires
        is_first_invalid(b, i),
    ensures
        first_invalid(b) == i,
{
    let c = first_invalid(b);
    assert(is_first_invalid(b, c));
    if c < i {
        assert(is_prefix_byte(b[c]));
    }
    if i < c {
        assert(is_prefix_byte(b[i]));
    }
}

/// The UTF-8 bytes of the text of prefix bytes are those bytes.
pub proof fn lemma_ascii_text_utf8(b: Seq<u8>)
    requires
        all_prefix_bytes(b),
    ensures
        encode_utf8(ascii_text(b)) == b,
        is_ascii_chars(ascii_text(b)),
{
    let c = ascii_text(b);
    assert forall|i: int| 0 <= i < c.len() implies '\0' <= #[trigger] c[i] <= '\u{7f}' by {
        assert(is_prefix_byte(b[i]));
    }
    is_ascii_chars_encode_utf8(c);
    assert(encode_utf8(c) =~= b);
}

/// No prefix text holds a `-`.
pub proof fn lemma_prefix_text_dash_free(p: Seq<u8>)
    requires
        all_prefix_bytes(p),
    ensures
        forall|j: int| 0 <= j < p.len() ==> #[trigger] ascii_text(p)[j] != '-',
{
    assert forall|j: int| 0 <= j < p.len() implies #[trigger] ascii_text(p)[j] != '-' by {
        assert(is_prefix_byte(p[j]));
    }
}

/// Whether `c` may stand in a prefix.
pub fn valid_prefix_char(c: u8) -> (r: bool)
    ensures
        r == is_prefix_byte(c),
{
    // between '/' and ':', '`' and '{', '@' and '['
    (c > 0x2f && c < 0x3a) || (c > 0x60 && c < 0x7b) || (c > 0x40 && c < 0x5b)
}

/// An object identifier prefix, a short human readable "subject line".
///
/// A prefix of up to eight bytes is held inline; a longer one is held on the
/// heap.
#[derive(Debug, Hash)]
pub struct Prefix {
    bytes: SmallBytes,
}

impl View for Prefix {
    type V = Seq<u8>;

    closed spec fn view(&self) -> Seq<u8> {
        small_bytes(self.bytes)
    }
}

impl Prefix {
    #[verifier::type_invariant]
    spec fn inv(self) -> bool {
        all_prefix_bytes(small_bytes(self.bytes))
    }

    /// Creates a prefix from bytes of `0-9`, `A-Z` and `a-z`, or reports the
    /// index of the first other byte.
    pub fn from_slice(slice: &[u8]) -> (r: Result<Prefix, Error>)
        ensures
            view_result(r) == prefix_of(slice@),
    {
        let mut i: usize = 0;
        while i < slice.len()
            invariant
                0 <= i <= slice@.len(),
                forall|j: int| 0 <= j < i ==> is_prefix_byte(#[trigger] slice@[j]),
            decreases slice@.len() - i,
        {
            if !valid_prefix_char(slice[i]) {
                proof {
                    lemma_first_invalid(slice@, i as int);
                }
                return Err(Error::InvalidPrefix { valid_until: i });
            }
            i += 1;
        }
        Ok(Self::from_slice_unchecked(slice))
    }

    /// Creates a prefix from bytes that are already known to be allowed.
    pub fn from_slice_unchecked(slice: &[u8]) -> (p: Prefix)
        requires
            all_prefix_bytes(slice@),
        ensures
            p@ == slice@,
    {
        Prefix { bytes: small_from_slice(slice) }
    }

    /// The bytes of the prefix, each of them allowed in one.
    pub fn as_bytes(&self) -> (r: &[u8])
        ensures
            r@ == self@,
            all_prefix_bytes(r@),
    {
        proof {
            use_type_invariant(self);
        }
        small_as_slice(&self.bytes)
    }

    /// The prefix as text: its bytes read as ASCII.
    pub fn to_string(&self) -> (r: String)
        ensures
            r@ == ascii_text(self@),
    {
        let b = small_as_slice(&self.bytes);
        proof {
            use_type_invariant(self);
            lemma_ascii_text_utf8(b@);
            encode_utf8_valid_utf8(ascii_text(b@));
        }
        match str_from_utf8(b) {
            Ok(t) => {
                proof {
                    encode_utf8_decode_utf8(t@);
                    encode_utf8_decode_utf8(ascii_text(b@));
                }
                String::from_str(t)
            },
            // not taken: the bytes of a prefix are ASCII, hence UTF-8
            Err(_) => String::new(),
        }
    }
}

impl Clone for Prefix {
    fn clone(&self) -> (r: Prefix)
        ensures
            r@ == self@,
    {
        proof {
            use_type_invariant(self);
        }
        Prefix { bytes: small_from_slice(small_as_slice(&self.bytes)) }
    }
}

impl PartialEq for Prefix {
    fn eq(&self, other: &Prefix) -> (r: bool) {
        let a = small_as_slice(&self.bytes);
        let b = small_as_slice(&other.bytes);
        if a.len() != b.len() {
            return false;
        }
        let mut i: usize = 0;
        while i < a.len()
            invariant
                a@ == self@,
                b@ == other@,
                a@.len() == b@.len(),
                0 <= i <= a@.len(),
                forall|j: int| 0 <= j < i ==> a@[j] == b@[j],
            decreases a@.len() - i,
        {
            if a[i] != b[i] {
                assert(a@[i as int] != b@[i as int]);
                return false;
            }
            i += 1;
        }
        assert(a@ =~= b@);
        true
    }
}

impl Eq for Prefix {

}

impl vstd::std_specs::cmp::PartialEqSpecImpl for Prefix {
    open spec fn obeys_eq_spec() -> bool {
        true
    }

    open spec fn eq_spec(&self, other: &Prefix) -> bool {
        self@ == other@
    }
}

impl core::str::FromStr for Prefix {
    type Err = Error;

    fn from_str(s: &str) -> Result<Prefix, Error> {
        Prefix::from_slice(s.as_bytes())
    }
}

impl<'a> TryFrom<&'a [u8]> for Prefix {
    type Error = Error;

    fn try_from(slice: &'a [u8]) -> Result<Prefix, Error> {
        Prefix::from_slice(slice)
    }
}

impl<'a> TryFrom<&'a str> for Prefix {
    type Error = Error;

    fn try_from(s: &'a str) -> Result<Prefix, Error> {
        Prefix::from_slice(s.as_bytes())
    }
}

// A prefix has no value in specifications that could be named here:
// `from_slice` states what the conversions give.
impl<'a> vstd::std_specs::convert::TryFromSpecImpl<&'a [u8]> for Prefix {
    open spec fn obeys_try_from_spec() -> bool {
        false
    }

    open spec fn try_from_spec(slice: &'a [u8]) -> Result<Prefix, Error> {
        arbitrary()
    }
}

impl<'a> vstd::std_specs::convert::TryFromSpecImpl<&'a str> for Prefix {
    open spec fn obeys_try_from_spec() -> bool {
        false
    }

    open spec fn try_from_spec(s: &'a str) -> Result<Prefix, Error> {
        arbitrary()
    }
}

} // verus!
