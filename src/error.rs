//! The errors that construction and parsing report.
use uuid::Error as UuidError;
use vstd::prelude::*;

verus! {

#[verifier::external_type_specification]
#[verifier::external_body]
pub struct ExDecodeError(data_encoding::DecodeError);

#[verifier::external_type_specification]
#[verifier::external_body]
pub struct ExUuidError(UuidError);

/// Relies on the derived `Clone` of `data_encoding::DecodeError`, which copies
/// its two plain fields; nothing is claimed of the copy.
pub assume_specification[ <data_encoding::DecodeError as core::clone::Clone>::clone ](
    e: &data_encoding::DecodeError,
) -> data_encoding::DecodeError;

/// Relies on the derived `Clone` of `uuid::Error`; nothing is claimed of the
/// copy.
pub assume_specification[ <UuidError as core::clone::Clone>::clone ](e: &UuidError) -> UuidError;

/// Errors that can be returned by this crate.
#[derive(Debug, Clone, PartialEq, Eq)]
pub enum Error {
    /// Reserved for prefixes of a fixed byte length.
    PrefixByteLength,
    /// A prefix byte is outside `0-9`, `A-Z`, `a-z`, or (typed identifiers) the
    /// parsed prefix differs from the expected one.
    InvalidPrefix {
        /// The index of the first offending character
        valid_until: usize,
    },
    /// The text before the separator is empty.
    MissingPrefix,
    /// The text holds no `-` separator.
    MissingSeparator,
    /// The text after the separator is empty.
    MissingValue,
    /// The text is not a UUID in one of its standard forms, or the decoded
    /// value does not have sixteen bytes.
    Uuid(UuidError),
    /// The value is not base32hex text without padding.
    Base32Decode(data_encoding::DecodeError),
}

/// What an [`Error`] is, without the causes reported by the outside crates.
#[derive(Debug, Clone, Copy, PartialEq, Eq, Structural)]
pub enum ErrorKind {
    PrefixByteLength,
    InvalidPrefix { valid_until: usize },
    MissingPrefix,
    MissingSeparator,
    MissingValue,
    Uuid,
    Base32Decode,
}

impl View for Error {
    type V = ErrorKind;

    open spec fn view(&self) -> ErrorKind {
        match self {
            Error::PrefixByteLength => ErrorKind::PrefixByteLength,
            Error::InvalidPrefix { valid_until } => ErrorKind::InvalidPrefix {
                valid_until: *valid_until,
            },
            Error::MissingPrefix => ErrorKind::MissingPrefix,
            Error::MissingSeparator => ErrorKind::MissingSeparator,
            Error::MissingValue => ErrorKind::MissingValue,
            Error::Uuid(_) => ErrorKind::Uuid,
            Error::Base32Decode(_) => ErrorKind::Base32Decode,
        }
    }
}

/// A result seen through the views of its value and of its error.
pub open spec fn view_result<T: View>(r: core::result::Result<T, Error>) -> core::result::Result<
    T::V,
    ErrorKind,
> {
    match r {
        Ok(v) => Ok(v@),
        Err(e) => Err(e@),
    }
}

impl Error {
    /// The kind of this error.
    pub fn kind(&self) -> (k: ErrorKind)
        ensures
            k == self@,
    {
        match self {
            Error::PrefixByteLength => ErrorKind::PrefixByteLength,
            Error::InvalidPrefix { valid_until } => ErrorKind::InvalidPrefix {
                valid_until: *valid_until,
            },
            Error::MissingPrefix => ErrorKind::MissingPrefix,
            Error::MissingSeparator => ErrorKind::MissingSeparator,
            Error::MissingValue => ErrorKind::MissingValue,
            Error::Uuid(_) => ErrorKind::Uuid,
            Error::Base32Decode(_) => ErrorKind::Base32Decode,
        }
    }
}

/// A convenience type for results whose error is [`Error`].
pub type Result<T> = core::result::Result<T, Error>;

} // verus!
