//! Encoder for the DNS wire format: the fixed message header, domain names
//! and the numeric codes of the enumerated header and record fields.
//!
//! Every function is total on well-formed values and states, over sequences
//! of bytes, exactly which octets it produces.

pub mod wire;
pub mod codes;
pub mod header;
pub mod segments;
pub mod text;
pub mod label;
pub mod name;
pub mod record;
