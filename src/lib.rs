//! A QR symbol encoder in byte mode: capacity tables, codeword sequencing,
//! Reed-Solomon error correction, fixed-pattern geometry, zig-zag data
//! placement, mask selection by penalty score, and format and version
//! information, each stage stated and proved against its contract.

pub mod bch;
pub mod capacity;
pub mod cell;
pub mod codewords;
pub mod config;
pub mod encoder;
pub mod geometry;
pub mod masking;
pub mod penalty;
pub mod placement;
pub mod qr;
