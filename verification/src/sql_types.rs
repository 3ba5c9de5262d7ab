//! The type-mapping adapter: the semantic "Geography" column contract
//! that both geometry values implement, so a query layer can route a
//! column's raw bytes to the decoder of its target type and a value to
//! the matching encoder.

use crate::codec::{
    decode_line_string, decode_point, encode_line_string, encode_point, spec_decode_line_string,
    spec_decode_point, spec_encode_line_string, spec_encode_point,
};
use crate::types::{DecodeError, GeogLineString, GeogPoint, LineStringModel};
use vstd::prelude::*;

verus! {

/// Whether the value produced for the database is SQL NULL. A well-formed
/// geometry always encodes to a real value, so the encoders report `No`.
#[derive(Debug, Copy, Clone, PartialEq, Eq)]
pub enum IsNull {
    No,
    Yes,
}

/// The contract of the "geography" column type. A type implementing it
/// names its wire encoding and its decoding outcome, decodes the bytes
/// stored in such a column, and encodes itself into the bytes the column
/// expects. The codec is selected by the caller's target type, never by
/// introspecting the bytes.
pub trait Geography: Sized + View {
    /// The bytes this value writes to a geography column.
    spec fn spec_to_sql(&self) -> Seq<u8>;

    /// What decoding a column's bytes yields for this target type.
    spec fn spec_from_sql(s: Seq<u8>) -> Result<Self::V, DecodeError>;

    /// When encoding is possible. Only machine limits of the wire format
    /// restrict it; encoding has no domain error path.
    spec fn spec_encodable(&self) -> bool;

    /// Decodes the raw bytes of a geography column into a value of this
    /// type, or reports exactly why the bytes are malformed.
    fn from_sql(bytes: &[u8]) -> (r: Result<Self, DecodeError>)
        ensures
            match r {
                Ok(v) => Self::spec_from_sql(bytes@) == Ok::<Self::V, DecodeError>(v@),
                Err(e) => Self::spec_from_sql(bytes@) == Err::<Self::V, DecodeError>(e),
            },
    ;

    /// Appends this value's column bytes to `out` and reports that the
    /// produced value is not NULL.
    fn to_sql(&self, out: &mut Vec<u8>) -> (r: IsNull)
        requires
            self.spec_encodable(),
        ensures
            final(out)@ == old(out)@ + self.spec_to_sql(),
            r is No,
    ;
}

impl Geography for GeogPoint {
    open spec fn spec_to_sql(&self) -> Seq<u8> {
        spec_encode_point(*self)
    }

    open spec fn spec_from_sql(s: Seq<u8>) -> Result<GeogPoint, DecodeError> {
        spec_decode_point(s)
    }

    open spec fn spec_encodable(&self) -> bool {
        true
    }

    fn from_sql(bytes: &[u8]) -> (r: Result<Self, DecodeError>) {
        decode_point(bytes)
    }

    fn to_sql(&self, out: &mut Vec<u8>) -> (r: IsNull) {
        encode_point(self, out);
        IsNull::No
    }
}

impl Geography for GeogLineString {
    open spec fn spec_to_sql(&self) -> Seq<u8> {
        spec_encode_line_string(self@)
    }

    open spec fn spec_from_sql(s: Seq<u8>) -> Result<LineStringModel, DecodeError> {
        spec_decode_line_string(s)
    }

    open spec fn spec_encodable(&self) -> bool {
        self.points@.len() <= u32::MAX
    }

    fn from_sql(bytes: &[u8]) -> (r: Result<Self, DecodeError>) {
        decode_line_string(bytes)
    }

    fn to_sql(&self, out: &mut Vec<u8>) -> (r: IsNull) {
        encode_line_string(self, out);
        IsNull::No
    }
}

} // verus!
