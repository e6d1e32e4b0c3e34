//! Identifiers from records of the SurrealDB document store, which name a
//! table and an id.
use surrealdb::sql::{Id, Thing};
use vstd::prelude::*;
use vstd::string::*;
use vstd::utf8::*;

use crate::codec::{uuid_from_str_b32h, value_of};
use crate::error::{view_result, Error, ErrorKind};
use crate::grammar::{divergence, divergence_index};
use crate::oid::Oid;
use crate::uuids::{uuid_from_text, uuid_of_text};
use crate::OidPrefix;

verus! {

#[verifier::external_type_specification]
#[verifier::external_body]
pub struct ExId(Id);

// `Thing` is read through its two public fields: `tb`, the table's name, and
// `id`, which stays opaque.
#[verifier::external_type_specification]
pub struct ExThing(Thing);

/// Relies on `surrealdb::sql::Id::to_raw`: the record's id as text.
#[verifier::external_body]
fn id_to_raw(id: &Id) -> String {
    id.to_raw()
}

/// The UUID that a record id `raw` stands for: one written in its usual text
/// forms, else one written in base32hex.
pub open spec fn record_id_uuid(raw: Seq<char>) -> Result<Seq<u8>, ErrorKind> {
    match uuid_of_text(encode_utf8(raw)) {
        Some(u) => Ok(u),
        None => value_of(raw),
    }
}

/// What a record of the table `tb` with the id `raw` stands for as an
/// identifier whose marker type expects the prefix `expected`, where `loose`
/// tells whether the marker type's loose match accepts `tb`.
pub open spec fn oid_of_record(
    tb: Seq<char>,
    expected: Seq<char>,
    loose: bool,
    raw: Seq<char>,
) -> Result<Seq<u8>, ErrorKind> {
    if !loose {
        Err(ErrorKind::InvalidPrefix { valid_until: divergence(tb, expected) as usize })
    } else {
        record_id_uuid(raw)
    }
}

/// Reads the UUID of a record id: in one of its usual text forms first, else
/// in base32hex.
pub fn uuid_from_record_id(raw: &str) -> (r: Result<[u8; 16], Error>)
    ensures
        view_result(r) == record_id_uuid(raw@),
{
    match uuid_from_text(raw) {
        Ok(u) => Ok(u),
        Err(_) => uuid_from_str_b32h(raw),
    }
}

impl<P: OidPrefix> Oid<P> {
    /// Creates an identifier from a record of the table `table` with the id
    /// `raw_id`, where the loose match of `P` accepts the table.
    pub fn try_from_record(table: &str, raw_id: &str) -> (r: Result<Self, Error>)
        ensures
            exists|loose: bool|
                view_result(r) == oid_of_record(table@, P::spec_prefix(), loose, raw_id@),
    {
        if !P::str_partial_eq(table) {
            let expected = P::prefix();
            let r = Err(Error::InvalidPrefix { valid_until: divergence_index(table, expected) });
            assert(view_result::<Self>(r) == oid_of_record(
                table@,
                P::spec_prefix(),
                false,
                raw_id@,
            ));
            return r;
        }
        let r = match uuid_from_record_id(raw_id) {
            Ok(u) => Ok(Self::with_uuid(u)),
            Err(e) => Err(e),
        };
        assert(view_result(r) == oid_of_record(table@, P::spec_prefix(), true, raw_id@));
        r
    }

    /// Creates an identifier from a record whose table the loose match of
    /// `P` accepts: its table's name and its id as text go to
    /// [`Oid::try_from_record`].
    pub fn try_from_thing(thing: Thing) -> (r: Result<Self, Error>)
        ensures
            exists|loose: bool, raw: Seq<char>|
                view_result(r) == oid_of_record(thing.tb@, P::spec_prefix(), loose, raw),
    {
        let raw = id_to_raw(&thing.id);
        Self::try_from_record(thing.tb.as_str(), raw.as_str())
    }
}

impl<P: OidPrefix> TryFrom<Thing> for Oid<P> {
    type Error = Error;

    fn try_from(thing: Thing) -> Result<Self, Error> {
        Self::try_from_thing(thing)
    }
}

// The outcome depends on the record and on the marker type's prefix and loose
// match: `try_from_thing` states what holds of it.
impl<P: OidPrefix> vstd::std_specs::convert::TryFromSpecImpl<Thing> for Oid<P> {
    open spec fn obeys_try_from_spec() -> bool {
        false
    }

    open spec fn try_from_spec(thing: Thing) -> Result<Self, Error> {
        arbitrary()
    }
}

} // verus!
