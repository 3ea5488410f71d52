//! Decoding and encoding of Mupen64 re-recording movie files (`.m64`).
//!
//! A movie is a fixed 1024-byte header followed by one little-endian 32-bit
//! word per recorded input sample. Decoding first rejects a file whose input
//! region is not a whole number of records, then validates the header field
//! by field and reports the first field that fails; encoding is its exact
//! inverse.
pub mod controller;
pub mod error;
pub mod m64;
pub mod parser;
pub mod text;

pub use controller::Input;
pub use m64::M64;
