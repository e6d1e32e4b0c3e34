//! Typed object identifiers: a short ASCII prefix and the base32hex text of a
//! UUID, joined by `-` (`PREFIX-VALUE`).
use vstd::prelude::*;

pub mod codec;
pub mod error;
pub mod grammar;
pub mod oid;
pub mod oidstr;
pub mod prefix;
pub mod record;
pub mod uuids;

pub use crate::error::{Error, ErrorKind, Result};
pub use crate::oid::Oid;
pub use crate::oidstr::OidStr;
pub use crate::prefix::Prefix;

verus! {

/// What a marker type contributes to the identifiers it tags.
///
/// Its prefix should not depend on any value of the type.
pub trait OidPrefix {
    /// The prefix of the identifiers of this type, in specifications. An
    /// impl that Verus checks gives it, since nothing can be proved of
    /// [`OidPrefix::prefix`] against this default.
    open spec fn spec_prefix() -> Seq<char> {
        arbitrary()
    }

    /// The prefix of the identifiers of this type, such as the type's own
    /// name.
    fn prefix() -> (r: &'static str)
        ensures
            r@ == Self::spec_prefix(),
    ;

    /// Whether a parsed prefix `s` stands for this type, where it differs from
    /// [`OidPrefix::prefix`]; by default, whether it equals it.
    fn str_partial_eq(s: &str) -> bool {
        grammar::same_text(Self::prefix(), s)
    }
}

} // verus!
