//! What can go wrong with a DNS exchange.

use vstd::prelude::*;

verus! {

/// A failure reported by the resolver, or found while decoding its reply.
#[derive(Clone, Copy, Debug, PartialEq, Eq, Structural)]
pub enum Error {
    /// The resolver could not interpret the query.
    FormatError,
    /// The resolver failed while processing the query.
    ServerFailure,
    /// The queried name does not exist.
    NameError,
    /// The resolver does not support this kind of query.
    NotImplemented,
    /// The resolver refuses to answer.
    Refused,
    /// The resolver answered with a response code that has no meaning yet.
    Unknown,
    /// The buffer ends before a field of fixed size does.
    Length,
    /// A name runs past the end of the buffer, follows more compression
    /// pointers than the message has bytes, or is not UTF-8.
    MalformedName,
    /// A record's data does not have the length that its type demands.
    MalformedMessage,
}

} // verus!
