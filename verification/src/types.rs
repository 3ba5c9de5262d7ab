//! Geometry value types and the decoding error taxonomy.

use vstd::prelude::*;

verus! {

/// A two-dimensional geographic point.
///
/// `x` (longitude) and `y` (latitude) hold the 64-bit IEEE-754 bit patterns
/// of the coordinates exactly as they appear on the wire; `srid` is the
/// optional spatial reference identifier.
#[derive(Debug, Copy, Clone, PartialEq)]
pub struct GeogPoint {
    /// Bit pattern of the longitude coordinate.
    pub x: u64,
    /// Bit pattern of the latitude coordinate.
    pub y: u64,
    /// Spatial reference identifier, if one is attached.
    pub srid: Option<i32>,
}

impl View for GeogPoint {
    type V = GeogPoint;

    open spec fn view(&self) -> GeogPoint {
        *self
    }
}

/// An ordered sequence of points with one SRID for the whole line.
///
/// The wire format carries a single SRID per geometry, so the `srid` field
/// of each point in `points` is not an independent source of truth: a
/// decoded line mirrors its own `srid` into every point.
#[derive(Debug, Clone, PartialEq)]
pub struct GeogLineString {
    /// The vertices of the line, in order. May be empty.
    pub points: Vec<GeogPoint>,
    /// Spatial reference identifier for the whole line, if one is attached.
    pub srid: Option<i32>,
}

/// The mathematical model of a [`GeogLineString`].
pub ghost struct LineStringModel {
    pub points: Seq<GeogPoint>,
    pub srid: Option<i32>,
}

impl LineStringModel {
    /// Every point carries the same SRID as the line itself. Decoding
    /// always establishes this; encoding only writes the line's own SRID,
    /// so a round trip reproduces the input exactly when it holds.
    pub open spec fn srid_mirrored(self) -> bool {
        forall|i: int| 0 <= i < self.points.len() ==> self.points[i].srid == self.srid
    }
}

impl View for GeogLineString {
    type V = LineStringModel;

    open spec fn view(&self) -> LineStringModel {
        LineStringModel { points: self.points@, srid: self.srid }
    }
}

/// Why a byte buffer failed to decode.
#[derive(Debug, Copy, Clone, PartialEq, Eq)]
pub enum DecodeError {
    /// The buffer ended before a required field could be read.
    Truncated,
    /// The byte-order marker was neither 0 (big-endian) nor 1 (little-endian).
    UnknownByteOrder,
    /// The geometry type code did not match the expected target type.
    UnexpectedType,
    /// The declared point count needs more bytes than the buffer still holds.
    CountTooLarge,
}

} // verus!
