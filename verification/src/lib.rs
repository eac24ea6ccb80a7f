//! Resolves a textual number token into an 8-byte little-endian buffer and
//! shows that buffer under every common fixed-width representation.

pub mod buffer;
pub mod classify;
pub mod decimal;
pub mod hex;
pub mod laws;
pub mod pattern;
pub mod record;
pub mod report;
pub mod text;
