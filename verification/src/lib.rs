//! Verified core of a token-based HTTP byte-range file server.
//!
//! The library covers the logic of the subsystem: parsing a single-range
//! `Range` header against a known file length, clamping the requested
//! interval, choosing the response status and headers, slicing the body,
//! and the token registry that maps opaque tokens to file paths.
//! File and network I/O live outside the library and hand in plain values.

pub mod laws;
pub mod num;
pub mod prepare;
pub mod range;
pub mod registry;
pub mod response;
