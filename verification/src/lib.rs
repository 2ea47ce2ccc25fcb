//! A DNS wire-protocol engine: header, question and resource-record codecs
//! with label compression, message assembly, and the parts of a one-shot UDP
//! client that need no socket.
//!
//! Beside it stand bit-field helpers, the rules for reading the
//! regulatory-domain data of a wireless device, and the reading of interface
//! addresses.
//!
//! The contracts of the functions are proved by Verus. The few calls that
//! Verus cannot look into, those into `bytes` and `rand` and three of the
//! standard library, stand in small functions of their own, whose contracts
//! say what is taken on trust.

pub mod binary;
pub mod dns;
pub mod ip;
pub mod nl80211;
