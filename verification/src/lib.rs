//! Library for reading a national electronic identity smart card.
//!
//! The card speaks an ISO 7816-style command/response protocol with two
//! vendor-specific dialects (the Apollo and the Gemalto chip families).
//! This crate holds the protocol logic itself, verified: card-family
//! detection from the reset signature, the command builders and
//! response validators for both dialects, the block-read loop that
//! reassembles a whole on-card file, the tag-length-value decoder that
//! turns file bytes into named fields, and the assembler that merges
//! decoded fields into a personal-data record.
//!
//! The physical transport (sending a command to the reader and getting
//! the response back) is left to the caller: every function here works
//! on plain byte buffers.

pub mod apdu;
pub mod detect;
pub mod error;
pub mod record;
pub mod session;
pub mod tags;
pub mod tlv;
