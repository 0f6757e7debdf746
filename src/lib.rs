//! Decoder half of HPACK, the header compression format of HTTP/2 (RFC 7541).
//!
//! A [`Decoder`] turns one header block at a time into the header fields it
//! encodes, and keeps the dynamic table that the peer's encoder fills.

pub mod decoder;
pub mod entry;
pub mod error;
pub mod primitives;
pub mod static_table;
pub mod table;

pub use decoder::{Decoder, DecoderState, Representation};
pub use entry::{Entry, EntryView};
pub use error::DecoderError;
pub use static_table::get_static;
pub use table::Table;
