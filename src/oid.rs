//! Identifiers whose prefix is fixed by a marker type: [`Oid`].
use core::marker::PhantomData;
use uuid::Timestamp;
use vstd::prelude::*;
use vstd::string::*;
use vstd::utf8::*;

use crate::codec::{
    base32hex, encode_base32hex, is_symbol, lemma_foreign_symbol, lemma_value_round_trip,
    uuid_from_str_b32h, value_of, MAX_DECODE_LEN,
};
use crate::error::{view_result, Error, ErrorKind};
use crate::grammar::{
    check_prefix, dash, lemma_split_at_prefix, lemma_split_without_dash, prefix_check, render,
    split_dash, split_once_dash,
};
use crate::prefix::{
    all_prefix_bytes, ascii_text, lemma_prefix_text_dash_free, prefix_of, Prefix,
};
use crate::uuids::{
    has_version, same_uuid, uuid_from_text, uuid_new_v4, uuid_new_v7, uuid_now_v7, uuid_of_text,
};
use crate::OidPrefix;

verus! {

/// What the text `s` parses to as an identifier whose marker type expects the
/// prefix `expected` and, through its loose match, accepts the parsed prefix
/// or not (`loose`): the UUID, or the first rule that `s` breaks, in this
/// order: the separator, an empty prefix, the prefix, the value.
pub open spec fn oid_of_text(s: Seq<char>, expected: Seq<char>, loose: bool) -> Result<
    Seq<u8>,
    ErrorKind,
> {
    match split_dash(s) {
        None => Err(ErrorKind::MissingSeparator),
        Some((p, v)) => if p.len() == 0 {
            Err(ErrorKind::MissingPrefix)
        } else {
            match prefix_check(p, expected, loose) {
                Err(k) => Err(k),
                Ok(()) => value_of(v),
            }
        },
    }
}

/// A typed object identifier: a UUID tagged by the marker type `P`, which
/// gives its prefix. Identifiers of two marker types are two types, and
/// cannot be compared:
///
/// ```compile_fail
/// # use typed_oid::{Oid, OidPrefix};
/// struct A;
/// impl OidPrefix for A {
///     fn prefix() -> &'static str { "A" }
/// }
///
/// struct B;
/// impl OidPrefix for B {
///     fn prefix() -> &'static str { "B" }
/// }
///
/// let oid_a: Oid<A> = Oid::try_with_uuid("b3cfdafa-3fec-41e2-82bf-ff881131abf1").unwrap();
/// let oid_b: Oid<B> = Oid::try_with_uuid("b3cfdafa-3fec-41e2-82bf-ff881131abf1").unwrap();
///
/// // `Oid<A>` and `Oid<B>` are different types, with no `==` between them
/// oid_a == oid_b
/// ```
#[derive(Debug)]
pub struct Oid<P> {
    uuid: [u8; 16],
    _prefix: PhantomData<P>,
}

impl<P> View for Oid<P> {
    type V = Seq<u8>;

    closed spec fn view(&self) -> Seq<u8> {
        self.uuid@
    }
}

impl<P: OidPrefix> Oid<P> {
    /// Creates an identifier with a new random UUID (version 4).
    pub fn new_v4() -> (r: Self)
        ensures
            has_version(r@, 4),
    {
        Self::with_uuid(uuid_new_v4())
    }

    /// Creates an identifier with a new UUID of version 7 for the current
    /// time.
    pub fn new_v7_now() -> (r: Self)
        ensures
            has_version(r@, 7),
    {
        Self::with_uuid(uuid_now_v7())
    }

    /// Creates an identifier with a new UUID of version 7 for the time `ts`.
    pub fn new_v7(ts: Timestamp) -> (r: Self)
        ensures
            has_version(r@, 7),
    {
        Self::with_uuid(uuid_new_v7(ts))
    }

    /// Creates an identifier with the UUID `uuid`.
    pub fn with_uuid(uuid: [u8; 16]) -> (r: Self)
        ensures
            r@ == uuid@,
    {
        Oid { uuid, _prefix: PhantomData }
    }

    /// Creates an identifier with the UUID written in one of its usual text
    /// forms.
    pub fn try_with_uuid(uuid: &str) -> (r: Result<Self, Error>)
        ensures
            view_result(r) == match uuid_of_text(uuid.spec_bytes()) {
                Some(u) => Ok(u),
                None => Err(ErrorKind::Uuid),
            },
    {
        match uuid_from_text(uuid) {
            Ok(u) => Ok(Self::with_uuid(u)),
            Err(e) => Err(Error::Uuid(e)),
        }
    }

    /// Creates an identifier with the UUID whose base32hex text is
    /// `base32_uuid`.
    pub fn try_with_uuid_base32(base32_uuid: &str) -> (r: Result<Self, Error>)
        ensures
            view_result(r) == value_of(base32_uuid@),
    {
        match uuid_from_str_b32h(base32_uuid) {
            Ok(u) => Ok(Self::with_uuid(u)),
            Err(e) => Err(e),
        }
    }

    /// The prefix of `P`. Where `P` declares a prefix that no [`Prefix`] may
    /// hold, a programming error, this returns the error that rejects it
    /// rather than panicking.
    pub fn prefix(&self) -> (r: Result<Prefix, Error>)
        ensures
            view_result(r) == prefix_of(encode_utf8(P::spec_prefix())),
    {
        let name = P::prefix();
        Prefix::from_slice(name.as_bytes())
    }

    /// The value: the base32hex text of the UUID, after the `-`.
    pub fn value(&self) -> (r: String)
        ensures
            r@ == base32hex(self@),
    {
        encode_base32hex(&self.uuid)
    }

    /// The bytes of the UUID.
    pub fn uuid(&self) -> (r: &[u8; 16])
        ensures
            r@ == self@,
    {
        &self.uuid
    }

    /// Parses the text form `PREFIX-VALUE`, where `PREFIX` is the prefix of
    /// `P` or one that its loose match accepts.
    pub fn parse(s: &str) -> (r: Result<Self, Error>)
        ensures
            exists|loose: bool| view_result(r) == oid_of_text(s@, P::spec_prefix(), loose),
    {
        match split_once_dash(s) {
            None => Err(Error::MissingSeparator),
            Some((pfx, val)) => {
                if pfx.is_empty() {
                    let r = Err(Error::MissingPrefix);
                    assert(view_result::<Self>(r) == oid_of_text(s@, P::spec_prefix(), false));
                    return r;
                }
                let expected = P::prefix();
                let loose = P::str_partial_eq(pfx);
                match check_prefix(pfx, expected, loose) {
                    Err(e) => {
                        assert(view_result(Err::<Self, Error>(e)) == oid_of_text(
                            s@,
                            expected@,
                            loose,
                        ));
                        Err(e)
                    },
                    Ok(()) => {
                        let r = match uuid_from_str_b32h(val) {
                            Ok(u) => Ok(Self::with_uuid(u)),
                            Err(e) => Err(e),
                        };
                        assert(view_result(r) == oid_of_text(s@, expected@, loose));
                        r
                    },
                }
            },
        }
    }

    /// The text form `PREFIX-VALUE`, with the prefix of `P`.
    pub fn to_string(&self) -> (r: String)
        ensures
            r@ == render(P::spec_prefix(), self@),
    {
        let name = P::prefix();
        let mut out = String::from_str(name);
        let sep = "-";
        proof {
            reveal_strlit("-");
        }
        out.append(sep);
        let value = encode_base32hex(&self.uuid);
        out.append(value.as_str());
        assert(out@ =~= render(name@, self@));
        out
    }
}

impl<P> Clone for Oid<P> {
    fn clone(&self) -> (r: Self)
        ensures
            r@ == self@,
    {
        Oid { uuid: self.uuid, _prefix: PhantomData }
    }
}

impl<P> Copy for Oid<P> {

}

impl<P> PartialEq for Oid<P> {
    fn eq(&self, other: &Self) -> (r: bool) {
        same_uuid(&self.uuid, &other.uuid)
    }
}

impl<P> Eq for Oid<P> {

}

impl<P> vstd::std_specs::cmp::PartialEqSpecImpl for Oid<P> {
    open spec fn obeys_eq_spec() -> bool {
        true
    }

    open spec fn eq_spec(&self, other: &Self) -> bool {
        self@ == other@
    }
}

impl<P: OidPrefix> core::str::FromStr for Oid<P> {
    type Err = Error;

    fn from_str(s: &str) -> Result<Self, Error> {
        Self::parse(s)
    }
}

impl<P: OidPrefix> core::hash::Hash for Oid<P> {
    fn hash<H: core::hash::Hasher>(&self, state: &mut H) {
        hash_text(P::prefix(), state);
        hash_uuid(&self.uuid, state);
    }
}

/// Relies on the `Hash` impl of `str`; nothing is claimed of the hasher.
#[verifier::external_body]
fn hash_text<H: core::hash::Hasher>(s: &str, state: &mut H) {
    core::hash::Hash::hash(s, state)
}

/// Relies on the `Hash` impl of `[u8; 16]`; nothing is claimed of the hasher.
#[verifier::external_body]
fn hash_uuid<H: core::hash::Hasher>(u: &[u8; 16], state: &mut H) {
    core::hash::Hash::hash(u, state)
}

/// Parsing the text of an identifier of `P` gives its UUID back, whatever the
/// loose match says, when the prefix of `P` is made of allowed bytes `p` and
/// is not empty.
pub proof fn lemma_oid_round_trip<P: OidPrefix>(p: Seq<u8>, u: Seq<u8>, loose: bool)
    requires
        P::spec_prefix() == ascii_text(p),
        all_prefix_bytes(p),
        p.len() > 0,
        u.len() == 16,
    ensures
        oid_of_text(render(P::spec_prefix(), u), P::spec_prefix(), loose) == Ok::<
            Seq<u8>,
            ErrorKind,
        >(u),
{
    lemma_prefix_text_dash_free(p);
    lemma_split_at_prefix(ascii_text(p), base32hex(u));
    lemma_value_round_trip(u);
}

/// The rules of the text form are checked in order. A text without `-` lacks
/// the separator; one that starts with `-` lacks the prefix; after the
/// prefix of `P`, made of the allowed bytes `p`, and its `-`, an empty value
/// is missing, and a value with a character outside `0-9A-V` does not decode.
pub proof fn lemma_oid_error_order<P: OidPrefix>(
    s: Seq<char>,
    p: Seq<u8>,
    v: Seq<char>,
    i: int,
    loose: bool,
)
    requires
        P::spec_prefix() == ascii_text(p),
    ensures
        (forall|j: int| 0 <= j < s.len() ==> #[trigger] s[j] != dash()) ==> oid_of_text(
            s,
            P::spec_prefix(),
            loose,
        ) == Err::<Seq<u8>, ErrorKind>(ErrorKind::MissingSeparator),
        oid_of_text(seq![dash()] + v, P::spec_prefix(), loose) == Err::<Seq<u8>, ErrorKind>(
            ErrorKind::MissingPrefix,
        ),
        all_prefix_bytes(p) && p.len() > 0 ==> oid_of_text(
            ascii_text(p) + seq![dash()],
            P::spec_prefix(),
            loose,
        ) == Err::<Seq<u8>, ErrorKind>(ErrorKind::MissingValue),
        all_prefix_bytes(p) && p.len() > 0 && 0 <= i < v.len() && !is_symbol(v[i])
            && encode_utf8(v).len() <= MAX_DECODE_LEN ==> oid_of_text(
            ascii_text(p) + seq![dash()] + v,
            P::spec_prefix(),
            loose,
        ) == Err::<Seq<u8>, ErrorKind>(ErrorKind::Base32Decode),
{
    if forall|j: int| 0 <= j < s.len() ==> #[trigger] s[j] != dash() {
        lemma_split_without_dash(s);
    }
    lemma_split_at_prefix(Seq::empty(), v);
    assert(Seq::<char>::empty() + seq![dash()] + v =~= seq![dash()] + v);
    if all_prefix_bytes(p) && p.len() > 0 {
        lemma_prefix_text_dash_free(p);
        lemma_split_at_prefix(ascii_text(p), Seq::empty());
        assert(ascii_text(p) + seq![dash()] + Seq::<char>::empty() =~= ascii_text(p) + seq![
            dash(),
        ]);
        lemma_split_at_prefix(ascii_text(p), v);
        if 0 <= i < v.len() && !is_symbol(v[i]) {
            lemma_foreign_symbol(v, i);
        }
    }
}

} // verus!
