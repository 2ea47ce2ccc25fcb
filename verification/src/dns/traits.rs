//! What a record payload type offers.

use bytes::BytesMut;
use vstd::prelude::*;

verus! {

/// A record payload that can be written to the wire.
pub trait EncodeRData {
    /// The payload as it stands on the wire.
    fn encode(&self) -> BytesMut;
}

/// A record payload that can be read from the wire.
pub trait DecodeRData {
    /// Reads the payload from `raw`.
    fn decode(&self, raw: &[u8]);
}

} // verus!
