//! A verified codec for the EWKB (extended well-known binary) geometry wire
//! format used by geography database columns: two-dimensional points and
//! line strings, each with an optional spatial reference identifier (SRID).
//!
//! Coordinates travel on the wire as 8-byte IEEE-754 values; this library
//! stores and reasons about them as their 64-bit bit patterns, which the
//! codec preserves exactly. Callers that want floating-point views of the
//! coordinates convert at the boundary with `f64::from_bits`/`f64::to_bits`.

pub mod codec;
pub mod sql_types;
pub mod types;
