//! Identifiers whose prefix is a value: [`OidStr`].
use uuid::Timestamp;
use vstd::prelude::*;
use vstd::string::*;
use vstd::utf8::*;

use crate::codec::{
    base32hex, encode_base32hex, is_symbol, lemma_foreign_symbol, lemma_value_round_trip,
    uuid_from_str_b32h, value_of, MAX_DECODE_LEN,
};
use crate::error::{view_result, Error, ErrorKind};
use crate::grammar::{
    dash, lemma_split_at_prefix, lemma_split_without_dash, render, split_dash, split_once_dash,
};
use crate::prefix::{
    all_prefix_bytes, ascii_text, lemma_ascii_text_utf8, lemma_prefix_text_dash_free, prefix_of,
    Prefix,
};
use crate::uuids::{
    has_version, same_uuid, uuid_from_text, uuid_new_v4, uuid_new_v7, uuid_now_v7, uuid_of_text,
};

verus! {

/// The identifier made of the prefix bytes `p` and the UUID `u`, or the error
/// that rejects `p`.
pub open spec fn with_prefix(p: Seq<u8>, u: Seq<u8>) -> Result<(Seq<u8>, Seq<u8>), ErrorKind> {
    match prefix_of(p) {
        Ok(b) => Ok((b, u)),
        Err(k) => Err(k),
    }
}

/// What the text `s` parses to: the prefix bytes and the UUID, or the first
/// rule that it breaks, in this order: the separator, an empty prefix, the
/// bytes of the prefix, the value.
pub open spec fn oidstr_of_text(s: Seq<char>) -> Result<(Seq<u8>, Seq<u8>), ErrorKind> {
    match split_dash(s) {
        None => Err(ErrorKind::MissingSeparator),
        Some((p, v)) => if p.len() == 0 {
            Err(ErrorKind::MissingPrefix)
        } else {
            match prefix_of(encode_utf8(p)) {
                Err(k) => Err(k),
                Ok(b) => match value_of(v) {
                    Err(k) => Err(k),
                    Ok(u) => Ok((b, u)),
                },
            }
        },
    }
}

/// An object identifier whose prefix is held as a value.
#[derive(Debug, Hash)]
pub struct OidStr {
    prefix: Prefix,
    uuid: [u8; 16],
}

impl View for OidStr {
    type V = (Seq<u8>, Seq<u8>);

    closed spec fn view(&self) -> (Seq<u8>, Seq<u8>) {
        (self.prefix@, self.uuid@)
    }
}

impl OidStr {
    /// Creates an identifier with the prefix `prefix` and a new random UUID
    /// (version 4).
    pub fn new_v4(prefix: &str) -> (r: Result<OidStr, Error>)
        ensures
            match r {
                Ok(o) => prefix_of(prefix.spec_bytes()) == Ok::<Seq<u8>, ErrorKind>(o@.0)
                    && has_version(o@.1, 4),
                Err(e) => prefix_of(prefix.spec_bytes()) == Err::<Seq<u8>, ErrorKind>(e@),
            },
    {
        match Prefix::from_slice(prefix.as_bytes()) {
            Ok(p) => Ok(OidStr { prefix: p, uuid: uuid_new_v4() }),
            Err(e) => Err(e),
        }
    }

    /// Creates an identifier with the prefix `prefix` and a new UUID of
    /// version 7 for the current time.
    pub fn new_v7_now(prefix: &str) -> (r: Result<OidStr, Error>)
        ensures
            match r {
                Ok(o) => prefix_of(prefix.spec_bytes()) == Ok::<Seq<u8>, ErrorKind>(o@.0)
                    && has_version(o@.1, 7),
                Err(e) => prefix_of(prefix.spec_bytes()) == Err::<Seq<u8>, ErrorKind>(e@),
            },
    {
        match Prefix::from_slice(prefix.as_bytes()) {
            Ok(p) => Ok(OidStr { prefix: p, uuid: uuid_now_v7() }),
            Err(e) => Err(e),
        }
    }

    /// Creates an identifier with the prefix `prefix` and a new UUID of
    /// version 7 for the time `ts`.
    pub fn new_v7(prefix: &str, ts: Timestamp) -> (r: Result<OidStr, Error>)
        ensures
            match r {
                Ok(o) => prefix_of(prefix.spec_bytes()) == Ok::<Seq<u8>, ErrorKind>(o@.0)
                    && has_version(o@.1, 7),
                Err(e) => prefix_of(prefix.spec_bytes()) == Err::<Seq<u8>, ErrorKind>(e@),
            },
    {
        let uuid = uuid_new_v7(ts);
        Self::with_uuid(prefix, uuid)
    }

    /// Creates an identifier with the prefix `prefix` and the UUID `uuid`.
    pub fn with_uuid(prefix: &str, uuid: [u8; 16]) -> (r: Result<OidStr, Error>)
        ensures
            view_result(r) == with_prefix(prefix.spec_bytes(), uuid@),
    {
        match Prefix::from_slice(prefix.as_bytes()) {
            Ok(p) => Ok(OidStr { prefix: p, uuid }),
            Err(e) => Err(e),
        }
    }

    /// Creates an identifier from a prefix already made, for instance from
    /// bytes with [`Prefix::from_slice`], and the UUID `uuid`.
    pub fn from_prefix(prefix: Prefix, uuid: [u8; 16]) -> (r: OidStr)
        ensures
            r@ == (prefix@, uuid@),
    {
        OidStr { prefix, uuid }
    }

    /// Creates an identifier with the prefix `prefix` and the UUID written
    /// in one of its usual text forms; the UUID is read first.
    pub fn try_with_uuid(prefix: &str, uuid: &str) -> (r: Result<OidStr, Error>)
        ensures
            view_result(r) == match uuid_of_text(uuid.spec_bytes()) {
                Some(u) => with_prefix(prefix.spec_bytes(), u),
                None => Err(ErrorKind::Uuid),
            },
    {
        match uuid_from_text(uuid) {
            Ok(u) => Self::with_uuid(prefix, u),
            Err(e) => Err(Error::Uuid(e)),
        }
    }

    /// Creates an identifier with the prefix `prefix` and the UUID whose
    /// base32hex text is `base32_uuid`; the UUID is read first.
    pub fn try_with_uuid_base32(prefix: &str, base32_uuid: &str) -> (r: Result<OidStr, Error>)
        ensures
            view_result(r) == match value_of(base32_uuid@) {
                Ok(u) => with_prefix(prefix.spec_bytes(), u),
                Err(k) => Err(k),
            },
    {
        match uuid_from_str_b32h(base32_uuid) {
            Ok(u) => Self::with_uuid(prefix, u),
            Err(e) => Err(e),
        }
    }

    /// The prefix.
    pub fn prefix(&self) -> (r: &Prefix)
        ensures
            r@ == self@.0,
    {
        &self.prefix
    }

    /// The value: the base32hex text of the UUID, after the `-`.
    pub fn value(&self) -> (r: String)
        ensures
            r@ == base32hex(self@.1),
    {
        encode_base32hex(&self.uuid)
    }

    /// The bytes of the UUID.
    pub fn uuid(&self) -> (r: &[u8; 16])
        ensures
            r@ == self@.1,
    {
        &self.uuid
    }

    /// Parses the text form `PREFIX-VALUE`.
    pub fn parse(s: &str) -> (r: Result<OidStr, Error>)
        ensures
            view_result(r) == oidstr_of_text(s@),
    {
        match split_once_dash(s) {
            None => Err(Error::MissingSeparator),
            Some((pfx, val)) => {
                if pfx.is_empty() {
                    return Err(Error::MissingPrefix);
                }
                match Prefix::from_slice(pfx.as_bytes()) {
                    Err(e) => Err(e),
                    Ok(prefix) => match uuid_from_str_b32h(val) {
                        Err(e) => Err(e),
                        Ok(uuid) => Ok(OidStr { prefix, uuid }),
                    },
                }
            },
        }
    }

    /// The text form `PREFIX-VALUE`.
    pub fn to_string(&self) -> (r: String)
        ensures
            r@ == render(ascii_text(self@.0), self@.1),
    {
        let mut out = self.prefix.to_string();
        let sep = "-";
        proof {
            reveal_strlit("-");
        }
        out.append(sep);
        let value = encode_base32hex(&self.uuid);
        out.append(value.as_str());
        out
    }
}

impl Clone for OidStr {
    fn clone(&self) -> (r: OidStr)
        ensures
            r@ == self@,
    {
        OidStr { prefix: self.prefix.clone(), uuid: self.uuid }
    }
}

impl PartialEq for OidStr {
    fn eq(&self, other: &OidStr) -> (r: bool) {
        self.prefix == other.prefix && same_uuid(&self.uuid, &other.uuid)
    }
}

impl Eq for OidStr {

}

impl vstd::std_specs::cmp::PartialEqSpecImpl for OidStr {
    open spec fn obeys_eq_spec() -> bool {
        true
    }

    open spec fn eq_spec(&self, other: &OidStr) -> bool {
        self@ == other@
    }
}

impl core::str::FromStr for OidStr {
    type Err = Error;

    fn from_str(s: &str) -> Result<OidStr, Error> {
        OidStr::parse(s)
    }
}

/// Parsing the text of an identifier gives that identifier back, for every
/// non-empty prefix.
pub proof fn lemma_oidstr_round_trip(p: Seq<u8>, u: Seq<u8>)
    requires
        all_prefix_bytes(p),
        p.len() > 0,
        u.len() == 16,
    ensures
        oidstr_of_text(render(ascii_text(p), u)) == Ok::<(Seq<u8>, Seq<u8>), ErrorKind>((p, u)),
{
    lemma_ascii_text_utf8(p);
    lemma_prefix_text_dash_free(p);
    lemma_split_at_prefix(ascii_text(p), base32hex(u));
    lemma_value_round_trip(u);
}

/// The rules of the text form are checked in order. A text without `-` lacks
/// the separator; one that starts with `-` lacks the prefix; after a valid
/// prefix and its `-`, an empty value is missing, and a value with a
/// character outside `0-9A-V` does not decode.
pub proof fn lemma_oidstr_error_order(s: Seq<char>, p: Seq<u8>, v: Seq<char>, i: int)
    ensures
        (forall|j: int| 0 <= j < s.len() ==> #[trigger] s[j] != dash()) ==> oidstr_of_text(s)
            == Err::<(Seq<u8>, Seq<u8>), ErrorKind>(ErrorKind::MissingSeparator),
        oidstr_of_text(seq![dash()] + v) == Err::<(Seq<u8>, Seq<u8>), ErrorKind>(
            ErrorKind::MissingPrefix,
        ),
        all_prefix_bytes(p) && p.len() > 0 ==> oidstr_of_text(ascii_text(p) + seq![dash()])
            == Err::<(Seq<u8>, Seq<u8>), ErrorKind>(ErrorKind::MissingValue),
        all_prefix_bytes(p) && p.len() > 0 && 0 <= i < v.len() && !is_symbol(v[i])
            && encode_utf8(v).len() <= MAX_DECODE_LEN ==> oidstr_of_text(
            ascii_text(p) + seq![dash()] + v,
        ) == Err::<(Seq<u8>, Seq<u8>), ErrorKind>(ErrorKind::Base32Decode),
{
    if forall|j: int| 0 <= j < s.len() ==> #[trigger] s[j] != dash() {
        lemma_split_without_dash(s);
    }
    lemma_split_at_prefix(Seq::empty(), v);
    assert(Seq::<char>::empty() + seq![dash()] + v =~= seq![dash()] + v);
    if all_prefix_bytes(p) && p.len() > 0 {
        lemma_ascii_text_utf8(p);
        lemma_prefix_text_dash_free(p);
        lemma_split_at_prefix(ascii_text(p), Seq::empty());
        assert(ascii_text(p) + seq![dash()] + Seq::<char>::empty() =~= ascii_text(p) + seq![
            dash(),
        ]);
        lemma_split_at_prefix(ascii_text(p), v);
        if 0 <= i < v.len() && !is_symbol(v[i]) {
            lemma_foreign_symbol(v, i);
        }
    }
}

} // verus!
