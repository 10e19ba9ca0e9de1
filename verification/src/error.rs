//! What can go wrong outside a lookup.

use vstd::prelude::*;

verus! {

#[derive(Debug, PartialEq, Eq)]
pub enum Error {
    /// The URI names no host, or asks for a transport that is not supported.
    InvalidUri,
    /// No response could be had, or the response holds no address; the
    /// message says which.
    DnsTransportFailure(String),
    /// A record is not of the kind that was asked for.
    ConversionFailure,
}

impl Clone for Error {
    fn clone(&self) -> (r: Self)
        ensures
            r == *self,
    {
        match self {
            Error::InvalidUri => Error::InvalidUri,
            Error::DnsTransportFailure(message) => Error::DnsTransportFailure(message.clone()),
            Error::ConversionFailure => Error::ConversionFailure,
        }
    }
}

} // verus!
