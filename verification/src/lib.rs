//! Verified core of a team-paste service.
//!
//! A paste record (title, author, notes, rental code, team text, format tag)
//! is stored as one opaque byte blob; [`codec`] encodes and decodes that blob
//! and guarantees an exact round trip.  The team text itself is free-form user
//! input; [`blocks`] splits it into blank-line-delimited blocks, [`grammar`]
//! recognises the header, move and stat lines of a block, and [`builder`]
//! assembles the ordered sequence of display entities from the parsed blocks
//! and the read-only lookup tables of [`lookup`].

pub mod blocks;
pub mod builder;
pub mod bytes;
pub mod codec;
pub mod grammar;
pub mod lookup;
pub mod scan;
