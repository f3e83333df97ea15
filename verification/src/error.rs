//! Error kinds shared by the catalog sources and the resolver.

use vstd::prelude::*;

verus! {

/// The failure cases of refreshing, resolving and acquiring fonts.
///
/// Each variant carries a human-readable message; the variant itself is the
/// part that contracts speak about.
#[derive(Debug, Clone, PartialEq, Eq)]
pub enum Error {
    /// Everything that has no more precise kind.
    Generic(String),
    /// A transport-level failure while talking to a remote catalog.
    ConnectionError(String),
    /// A failure reading or writing cached files.
    IO(String),
    /// A value could not be turned into its stored form.
    Serialisation(String),
    /// A stored or remote value could not be read back.
    Deserialisation(String),
    /// The requested font family is not present in the catalog.
    NoSuchFamily(String),
}

impl Error {
    /// The message carried by the error, whatever its kind.
    pub fn message(&self) -> (r: &String)
        ensures
            r@ == self.spec_message(),
    {
        match self {
            Error::Generic(m) => m,
            Error::ConnectionError(m) => m,
            Error::IO(m) => m,
            Error::Serialisation(m) => m,
            Error::Deserialisation(m) => m,
            Error::NoSuchFamily(m) => m,
        }
    }

    /// The message as a sequence of characters.
    pub open spec fn spec_message(&self) -> Seq<char> {
        match self {
            Error::Generic(m) => m@,
            Error::ConnectionError(m) => m@,
            Error::IO(m) => m@,
            Error::Serialisation(m) => m@,
            Error::Deserialisation(m) => m@,
            Error::NoSuchFamily(m) => m@,
        }
    }
}

/// Sort a failed remote exchange into an error kind: a connect-level failure
/// becomes `ConnectionError`, anything else stays `Generic`.
pub fn classify_transport_error(is_connect: bool, message: String) -> (r: Error)
    ensures
        is_connect ==> r == Error::ConnectionError(message),
        !is_connect ==> r == Error::Generic(message),
{
    if is_connect {
        Error::ConnectionError(message)
    } else {
        Error::Generic(message)
    }
}

} // verus!
