//! The failure taxonomy of the registry.

use vstd::prelude::*;

verus! {

/// Every way a registry operation can fail.
///
/// - `InvalidName`: the name fails length or charset validation.
/// - `AlreadyExists`: `create` on a name that is already registered.
/// - `NotFound`: `update` or `delete` on an unregistered name.
/// - `OwnerMismatch`: the caller is authenticated but is not the feed's owner.
/// - `MissingAuthorization`: no authenticated caller identity was presented.
/// - `TransportError`: the RPC transport failed; propagated unchanged.
/// - `EncodingError`: stored bytes do not match the expected record layout.
#[derive(Clone, Copy, Debug, PartialEq, Eq)]
pub enum Error {
    InvalidName,
    AlreadyExists,
    NotFound,
    OwnerMismatch,
    MissingAuthorization,
    TransportError,
    EncodingError,
}

impl Error {
    /// A one-line diagnostic naming the offending condition.
    pub fn message(&self) -> (text: &'static str)
        ensures
            self is InvalidName ==> text@ == "feed name contains invalid characters or length"@,
            self is AlreadyExists ==> text@ == "feed already exists"@,
            self is NotFound ==> text@ == "unknown feed"@,
            self is OwnerMismatch ==> text@ == "missing feed owner signature"@,
            self is MissingAuthorization ==> text@ == "missing authorization"@,
            self is TransportError ==> text@ == "error in the underlying rpc"@,
            self is EncodingError ==> text@ == "stored feed bytes are malformed"@,
    {
        match self {
            Error::InvalidName => "feed name contains invalid characters or length",
            Error::AlreadyExists => "feed already exists",
            Error::NotFound => "unknown feed",
            Error::OwnerMismatch => "missing feed owner signature",
            Error::MissingAuthorization => "missing authorization",
            Error::TransportError => "error in the underlying rpc",
            Error::EncodingError => "stored feed bytes are malformed",
        }
    }
}

} // verus!
