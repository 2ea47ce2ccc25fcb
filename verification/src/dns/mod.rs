//! The DNS message codec and the client built on it.

pub mod buffer;
pub mod class;
pub mod error;
pub mod header;
pub mod message;
pub mod name;
pub mod question;
pub mod record;
pub mod sync;
pub mod traits;
pub mod types;
