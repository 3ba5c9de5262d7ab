//! The EWKB wire-format codec: byte-level specification, encoder and
//! decoder for points and line strings.
//!
//! Layout of one encoded geometry:
//! - 1 byte: byte-order marker, 0 = big-endian, 1 = little-endian, governing
//!   every following multi-byte field;
//! - 4 bytes: type word, whose value with the SRID flag bit (0x2000_0000)
//!   cleared is the geometry type code (1 = point, 2 = line string);
//! - 4 bytes, only when the SRID flag is set: the SRID as a signed integer;
//! - for a point: two 8-byte coordinates, x then y;
//! - for a line string: a 4-byte unsigned point count N, then N bare
//!   coordinate pairs with no per-point header.
//!
//! The encoder always writes little-endian; the decoder accepts either
//! marker. Dimension flags (3D or measured geometries) are not supported:
//! a type word carrying any bit besides the SRID flag and the expected code
//! is rejected as a type mismatch.

use crate::types::{DecodeError, GeogLineString, GeogPoint, LineStringModel};
use vstd::bytes::{
    lemma_auto_spec_u32_to_from_le_bytes, lemma_auto_spec_u64_to_from_le_bytes,
    spec_u32_from_le_bytes, spec_u32_to_le_bytes, spec_u64_from_le_bytes, spec_u64_to_le_bytes,
    u32_from_le_bytes, u32_to_le_bytes, u64_from_le_bytes, u64_to_le_bytes,
};
use vstd::prelude::*;
use vstd::slice::{slice_index_get, slice_subrange};

verus! {

/// The type word: the geometry type code, with the SRID flag bit set iff
/// an SRID accompanies the geometry.
pub open spec fn spec_type_word(code: u32, has_srid: bool) -> u32 {
    if has_srid {
        code | 0x2000_0000u32
    } else {
        code
    }
}

/// The shared header: little-endian marker, type word, and the SRID field
/// when one is present.
pub open spec fn spec_header(code: u32, srid: Option<i32>) -> Seq<u8> {
    seq![1u8] + spec_u32_to_le_bytes(spec_type_word(code, srid is Some)) + (match srid {
        Some(s) => spec_u32_to_le_bytes(s as u32),
        None => Seq::<u8>::empty(),
    })
}

/// The bare coordinate pair of one point: x then y, little-endian.
pub open spec fn spec_point_payload(p: GeogPoint) -> Seq<u8> {
    spec_u64_to_le_bytes(p.x) + spec_u64_to_le_bytes(p.y)
}

/// The coordinate pairs of a point sequence, concatenated in order.
pub open spec fn spec_payloads(points: Seq<GeogPoint>) -> Seq<u8>
    decreases points.len(),
{
    if points.len() == 0 {
        Seq::<u8>::empty()
    } else {
        spec_payloads(points.drop_last()) + spec_point_payload(points.last())
    }
}

/// The full encoding of a point.
pub open spec fn spec_encode_point(p: GeogPoint) -> Seq<u8> {
    spec_header(1u32, p.srid) + spec_point_payload(p)
}

/// The full encoding of a line string. The point count is written modulo
/// 2^32; the encoder requires the length to fit, so no truncation occurs.
pub open spec fn spec_encode_line_string(l: LineStringModel) -> Seq<u8> {
    spec_header(2u32, l.srid) + spec_u32_to_le_bytes(l.points.len() as u32)
        + spec_payloads(l.points)
}

/// Appends the little-endian bytes of `x` to `out`.
fn write_u32(x: u32, out: &mut Vec<u8>)
    ensures
        final(out)@ == old(out)@ + spec_u32_to_le_bytes(x),
{
    let mut bytes = u32_to_le_bytes(x);
    out.append(&mut bytes);
}

/// Appends the little-endian bytes of `x` to `out`.
fn write_u64(x: u64, out: &mut Vec<u8>)
    ensures
        final(out)@ == old(out)@ + spec_u64_to_le_bytes(x),
{
    let mut bytes = u64_to_le_bytes(x);
    out.append(&mut bytes);
}

/// Appends the shared header for the given type code and SRID to `out`.
fn write_header(code: u32, srid: Option<i32>, out: &mut Vec<u8>)
    ensures
        final(out)@ == old(out)@ + spec_header(code, srid),
{
    let ghost orig = out@;
    out.push(1u8);
    match srid {
        Some(s) => {
            write_u32(code | 0x2000_0000u32, out);
            write_u32(s as u32, out);
        },
        None => {
            write_u32(code, out);
        },
    }
    proof {
        assert(out@ =~= orig + spec_header(code, srid));
    }
}

/// Encodes `p` and appends the bytes to `out`, leaving what `out` already
/// held in place.
pub fn encode_point(p: &GeogPoint, out: &mut Vec<u8>)
    ensures
        final(out)@ == old(out)@ + spec_encode_point(*p),
{
    let ghost orig = out@;
    write_header(1u32, p.srid, out);
    write_u64(p.x, out);
    write_u64(p.y, out);
    proof {
        assert(out@ =~= orig + spec_encode_point(*p));
    }
}

/// The 32-bit word at offset `off`, read little-endian when `le` holds and
/// big-endian otherwise.
pub open spec fn spec_u32_at(s: Seq<u8>, off: int, le: bool) -> u32 {
    if le {
        spec_u32_from_le_bytes(s.subrange(off, off + 4))
    } else {
        spec_u32_from_le_bytes(seq![s[off + 3], s[off + 2], s[off + 1], s[off]])
    }
}

/// The 64-bit word at offset `off`, read little-endian when `le` holds and
/// big-endian otherwise.
pub open spec fn spec_u64_at(s: Seq<u8>, off: int, le: bool) -> u64 {
    if le {
        spec_u64_from_le_bytes(s.subrange(off, off + 8))
    } else {
        spec_u64_from_le_bytes(
            seq![
                s[off + 7],
                s[off + 6],
                s[off + 5],
                s[off + 4],
                s[off + 3],
                s[off + 2],
                s[off + 1],
                s[off],
            ],
        )
    }
}

/// Reads the shared header of `s`, expecting the geometry type `code`:
/// byte order, type word (whose SRID flag decides whether an SRID field
/// follows), and SRID. On success yields the byte order, the SRID, and the
/// offset at which the geometry's payload begins.
pub open spec fn spec_parse_header(s: Seq<u8>, code: u32) -> Result<
    (bool, Option<i32>, int),
    DecodeError,
> {
    if s.len() < 1 {
        Err(DecodeError::Truncated)
    } else if s[0] != 0u8 && s[0] != 1u8 {
        Err(DecodeError::UnknownByteOrder)
    } else if s.len() < 5 {
        Err(DecodeError::Truncated)
    } else {
        let le = s[0] == 1u8;
        let word = spec_u32_at(s, 1, le);
        if word & 0x2000_0000u32 == 0x2000_0000u32 {
            if s.len() < 9 {
                Err(DecodeError::Truncated)
            } else if word & 0xdfff_ffffu32 != code {
                Err(DecodeError::UnexpectedType)
            } else {
                Ok((le, Some(spec_u32_at(s, 5, le) as i32), 9))
            }
        } else {
            if word != code {
                Err(DecodeError::UnexpectedType)
            } else {
                Ok((le, None, 5))
            }
        }
    }
}

/// What decoding a point from `s` yields: the header with type code 1,
/// then the two coordinates in the declared byte order.
pub open spec fn spec_decode_point(s: Seq<u8>) -> Result<GeogPoint, DecodeError> {
    match spec_parse_header(s, 1u32) {
        Err(e) => Err(e),
        Ok((le, srid, body)) => if s.len() < body + 16 {
            Err(DecodeError::Truncated)
        } else {
            Ok(GeogPoint { x: spec_u64_at(s, body, le), y: spec_u64_at(s, body + 8, le), srid })
        },
    }
}

/// What decoding a line string from `s` yields: the header with type code
/// 2, a point count, and that many bare coordinate pairs. The count is
/// checked against the remaining length before any pair is read, and every
/// decoded point mirrors the line's SRID.
pub open spec fn spec_decode_line_string(s: Seq<u8>) -> Result<LineStringModel, DecodeError> {
    match spec_parse_header(s, 2u32) {
        Err(e) => Err(e),
        Ok((le, srid, body)) => if s.len() < body + 4 {
            Err(DecodeError::Truncated)
        } else {
            let n = spec_u32_at(s, body, le) as int;
            if s.len() - (body + 4) < 16 * n {
                Err(DecodeError::CountTooLarge)
            } else {
                Ok(
                    LineStringModel {
                        points: Seq::new(
                            n as nat,
                            |i: int|
                                GeogPoint {
                                    x: spec_u64_at(s, body + 4 + 16 * i, le),
                                    y: spec_u64_at(s, body + 4 + 16 * i + 8, le),
                                    srid,
                                },
                        ),
                        srid,
                    },
                )
            }
        },
    }
}

/// Reads the 32-bit word at `off` in the byte order named by `le`.
fn read_u32_at(s: &[u8], off: usize, le: bool) -> (x: u32)
    requires
        off + 4 <= s@.len(),
        s@.len() <= usize::MAX,
    ensures
        x == spec_u32_at(s@, off as int, le),
{
    if le {
        u32_from_le_bytes(slice_subrange(s, off, off + 4))
    } else {
        let mut rev: Vec<u8> = Vec::new();
        rev.push(*slice_index_get(s, off + 3));
        rev.push(*slice_index_get(s, off + 2));
        rev.push(*slice_index_get(s, off + 1));
        rev.push(*slice_index_get(s, off));
        proof {
            assert(rev@ =~= seq![
                s@[off as int + 3],
                s@[off as int + 2],
                s@[off as int + 1],
                s@[off as int],
            ]);
        }
        u32_from_le_bytes(rev.as_slice())
    }
}

/// Reads the 64-bit word at `off` in the byte order named by `le`.
fn read_u64_at(s: &[u8], off: usize, le: bool) -> (x: u64)
    requires
        off + 8 <= s@.len(),
        s@.len() <= usize::MAX,
    ensures
        x == spec_u64_at(s@, off as int, le),
{
    if le {
        u64_from_le_bytes(slice_subrange(s, off, off + 8))
    } else {
        let mut rev: Vec<u8> = Vec::new();
        rev.push(*slice_index_get(s, off + 7));
        rev.push(*slice_index_get(s, off + 6));
        rev.push(*slice_index_get(s, off + 5));
        rev.push(*slice_index_get(s, off + 4));
        rev.push(*slice_index_get(s, off + 3));
        rev.push(*slice_index_get(s, off + 2));
        rev.push(*slice_index_get(s, off + 1));
        rev.push(*slice_index_get(s, off));
        proof {
            assert(rev@ =~= seq![
                s@[off as int + 7],
                s@[off as int + 6],
                s@[off as int + 5],
                s@[off as int + 4],
                s@[off as int + 3],
                s@[off as int + 2],
                s@[off as int + 1],
                s@[off as int],
            ]);
        }
        u64_from_le_bytes(rev.as_slice())
    }
}

/// Reads the shared header, expecting the geometry type `code`.
fn parse_header(bytes: &[u8], code: u32) -> (r: Result<(bool, Option<i32>, usize), DecodeError>)
    ensures
        match r {
            Ok((le, srid, body)) => {
                &&& spec_parse_header(bytes@, code) == Ok::<(bool, Option<i32>, int), DecodeError>(
                    (le, srid, body as int),
                )
                &&& (body == 5 || body == 9)
                &&& bytes@.len() >= body
            },
            Err(e) => spec_parse_header(bytes@, code) == Err::<
                (bool, Option<i32>, int),
                DecodeError,
            >(e),
        },
{
    if bytes.len() < 1 {
        return Err(DecodeError::Truncated);
    }
    let marker = *slice_index_get(bytes, 0);
    if marker != 0u8 && marker != 1u8 {
        return Err(DecodeError::UnknownByteOrder);
    }
    if bytes.len() < 5 {
        return Err(DecodeError::Truncated);
    }
    let le = marker == 1u8;
    let word = read_u32_at(bytes, 1, le);
    if word & 0x2000_0000u32 == 0x2000_0000u32 {
        if bytes.len() < 9 {
            return Err(DecodeError::Truncated);
        }
        if word & 0xdfff_ffffu32 != code {
            return Err(DecodeError::UnexpectedType);
        }
        let srid = read_u32_at(bytes, 5, le) as i32;
        Ok((le, Some(srid), 9))
    } else {
        if word != code {
            return Err(DecodeError::UnexpectedType);
        }
        Ok((le, None, 5))
    }
}

/// Decodes one point from `bytes`. Trailing bytes beyond the encoded point
/// are ignored.
pub fn decode_point(bytes: &[u8]) -> (r: Result<GeogPoint, DecodeError>)
    ensures
        r == spec_decode_point(bytes@),
{
    match parse_header(bytes, 1u32) {
        Err(e) => Err(e),
        Ok((le, srid, body)) => {
            if bytes.len() < 16 || body > bytes.len() - 16 {
                return Err(DecodeError::Truncated);
            }
            let x = read_u64_at(bytes, body, le);
            let y = read_u64_at(bytes, body + 8, le);
            Ok(GeogPoint { x, y, srid })
        },
    }
}

/// Decodes one line string from `bytes`. The declared point count is
/// checked against the remaining length before any coordinate pair is
/// read; every decoded point mirrors the line's SRID. Trailing bytes
/// beyond the encoded line are ignored.
pub fn decode_line_string(bytes: &[u8]) -> (r: Result<GeogLineString, DecodeError>)
    ensures
        match r {
            Ok(l) => {
                &&& spec_decode_line_string(bytes@) == Ok::<LineStringModel, DecodeError>(l@)
                &&& l@.srid_mirrored()
            },
            Err(e) => spec_decode_line_string(bytes@) == Err::<LineStringModel, DecodeError>(e),
        },
{
    match parse_header(bytes, 2u32) {
        Err(e) => Err(e),
        Ok((le, srid, body)) => {
            if bytes.len() < 4 || body > bytes.len() - 4 {
                return Err(DecodeError::Truncated);
            }
            let n = read_u32_at(bytes, body, le);
            let start = body + 4;
            let rem = bytes.len() - start;
            if (rem as u64) < 16u64 * (n as u64) {
                return Err(DecodeError::CountTooLarge);
            }
            let ghost model = spec_decode_line_string(bytes@)->Ok_0;
            let mut points: Vec<GeogPoint> = Vec::new();
            let n_us = n as usize;
            let mut i: usize = 0;
            while i < n_us
                invariant
                    i <= n_us,
                    n_us == n,
                    start + 16 * (n as int) <= bytes@.len() <= usize::MAX,
                    start == 5 + 4 || start == 9 + 4,
                    points@.len() == i,
                    model.points.len() == n,
                    forall|j: int|
                        0 <= j < n ==> #[trigger] model.points[j] == (GeogPoint {
                            x: spec_u64_at(bytes@, start + 16 * j, le),
                            y: spec_u64_at(bytes@, start + 16 * j + 8, le),
                            srid,
                        }),
                    forall|j: int| 0 <= j < i ==> points@[j] == model.points[j],
                decreases n_us - i,
            {
                let off = start + 16 * i;
                let x = read_u64_at(bytes, off, le);
                let y = read_u64_at(bytes, off + 8, le);
                points.push(GeogPoint { x, y, srid });
                i = i + 1;
            }
            proof {
                assert(points@ =~= model.points);
            }
            Ok(GeogLineString { points, srid })
        },
    }
}

/// Extending a point sequence by one point appends exactly that point's
/// coordinate pair to the concatenated payloads.
proof fn lemma_payloads_take_step(points: Seq<GeogPoint>, i: int)
    requires
        0 <= i < points.len(),
    ensures
        spec_payloads(points.take(i + 1)) == spec_payloads(points.take(i)) + spec_point_payload(
            points[i],
        ),
{
    let t = points.take(i + 1);
    assert(t.drop_last() =~= points.take(i));
    assert(t.last() == points[i]);
}

/// Encodes `l` and appends the bytes to `out`, leaving what `out` already
/// held in place. The wire format stores the point count in 32 bits, which
/// bounds the lines this codec can carry.
pub fn encode_line_string(l: &GeogLineString, out: &mut Vec<u8>)
    requires
        l.points@.len() <= u32::MAX,
    ensures
        final(out)@ == old(out)@ + spec_encode_line_string(l@),
{
    let ghost orig = out@;
    write_header(2u32, l.srid, out);
    write_u32(l.points.len() as u32, out);
    let ghost base = out@;
    let n = l.points.len();
    let mut i: usize = 0;
    while i < n
        invariant
            i <= n,
            n == l.points@.len(),
            out@ == base + spec_payloads(l.points@.take(i as int)),
        decreases n - i,
    {
        let p = l.points[i];
        write_u64(p.x, out);
        write_u64(p.y, out);
        proof {
            lemma_payloads_take_step(l.points@, i as int);
            assert(out@ =~= base + spec_payloads(l.points@.take(i as int + 1)));
        }
        i = i + 1;
    }
    proof {
        assert(l.points@.take(n as int) =~= l.points@);
        assert(out@ =~= orig + spec_encode_line_string(l@));
    }
}

/// A header encoded by this codec reads back exactly: little-endian, the
/// same SRID, and a payload that begins right after the header, whatever
/// bytes follow it.
proof fn lemma_header_round_trip(code: u32, srid: Option<i32>, rest: Seq<u8>)
    requires
        code == 1u32 || code == 2u32,
    ensures
        spec_header(code, srid).len() == if srid is Some {
            9int
        } else {
            5int
        },
        spec_parse_header(spec_header(code, srid) + rest, code) == Ok::<
            (bool, Option<i32>, int),
            DecodeError,
        >((true, srid, spec_header(code, srid).len() as int)),
{
    lemma_auto_spec_u32_to_from_le_bytes();
    let w = spec_type_word(code, srid is Some);
    let h = spec_header(code, srid);
    let s = h + rest;
    assert(s[0] == 1u8);
    assert(s.subrange(1, 5) =~= spec_u32_to_le_bytes(w));
    assert(spec_u32_at(s, 1, true) == w);
    match srid {
        Some(v) => {
            assert((code | 0x2000_0000u32) & 0x2000_0000u32 == 0x2000_0000u32) by (bit_vector);
            assert((code == 1u32 || code == 2u32) ==> ((code | 0x2000_0000u32) & 0xdfff_ffffu32)
                == code) by (bit_vector);
            assert(s.subrange(5, 9) =~= spec_u32_to_le_bytes(v as u32));
            assert(spec_u32_at(s, 5, true) == v as u32);
            assert(((v as u32) as i32) == v) by (bit_vector);
        },
        None => {
            assert((code == 1u32 || code == 2u32) ==> (code & 0x2000_0000u32) != 0x2000_0000u32)
                by (bit_vector);
        },
    }
}

/// Round trip for points: decoding what the encoder produced gives back
/// the very value, coordinates and SRID alike.
pub proof fn lemma_point_round_trip(p: GeogPoint)
    ensures
        spec_decode_point(spec_encode_point(p)) == Ok::<GeogPoint, DecodeError>(p),
{
    lemma_auto_spec_u64_to_from_le_bytes();
    lemma_header_round_trip(1u32, p.srid, spec_point_payload(p));
    let s = spec_encode_point(p);
    let body = spec_header(1u32, p.srid).len() as int;
    assert(s.len() == body + 16);
    assert(s.subrange(body, body + 8) =~= spec_u64_to_le_bytes(p.x));
    assert(s.subrange(body + 8, body + 16) =~= spec_u64_to_le_bytes(p.y));
    assert(spec_u64_at(s, body, true) == p.x);
    assert(spec_u64_at(s, body + 8, true) == p.y);
}

/// Concatenated payloads take 16 bytes per point, and the pair of point
/// `i` stands at offset `16 * i`.
proof fn lemma_payloads_index(points: Seq<GeogPoint>, i: int)
    requires
        0 <= i < points.len(),
    ensures
        spec_payloads(points).len() == 16 * points.len(),
        spec_payloads(points).subrange(16 * i, 16 * i + 16) == spec_point_payload(points[i]),
    decreases points.len(),
{
    lemma_payloads_len(points);
    lemma_auto_spec_u64_to_from_le_bytes();
    let last = (points.len() - 1) as int;
    if i == last {
        assert(spec_payloads(points).subrange(16 * i, 16 * i + 16) =~= spec_point_payload(
            points[i],
        ));
    } else {
        lemma_payloads_index(points.drop_last(), i);
        assert(points.drop_last()[i] == points[i]);
        assert(spec_payloads(points).subrange(16 * i, 16 * i + 16) =~= spec_payloads(
            points.drop_last(),
        ).subrange(16 * i, 16 * i + 16));
    }
}

/// Concatenated payloads take 16 bytes per point.
proof fn lemma_payloads_len(points: Seq<GeogPoint>)
    ensures
        spec_payloads(points).len() == 16 * points.len(),
    decreases points.len(),
{
    lemma_auto_spec_u64_to_from_le_bytes();
    if points.len() > 0 {
        lemma_payloads_len(points.drop_last());
    }
}

/// Round trip for line strings: decoding what the encoder produced gives
/// back the very value — length, point order, coordinates and SRID. The
/// wire format bounds the point count at 32 bits, and asks that each
/// point's SRID mirror the line's, which is what decoding produces.
pub proof fn lemma_line_string_round_trip(l: LineStringModel)
    requires
        l.points.len() <= u32::MAX,
        l.srid_mirrored(),
    ensures
        spec_decode_line_string(spec_encode_line_string(l)) == Ok::<LineStringModel, DecodeError>(
            l,
        ),
{
    lemma_auto_spec_u32_to_from_le_bytes();
    lemma_auto_spec_u64_to_from_le_bytes();
    let n = l.points.len() as int;
    let count = spec_u32_to_le_bytes(l.points.len() as u32);
    let rest = count + spec_payloads(l.points);
    lemma_header_round_trip(2u32, l.srid, rest);
    lemma_payloads_len(l.points);
    let s = spec_encode_line_string(l);
    let body = spec_header(2u32, l.srid).len() as int;
    assert(s =~= spec_header(2u32, l.srid) + rest);
    assert(s.len() == body + 4 + 16 * n);
    assert(s.subrange(body, body + 4) =~= count);
    assert(spec_u32_at(s, body, true) == l.points.len() as u32);
    let start = body + 4;
    let decoded = spec_decode_line_string(s)->Ok_0;
    assert forall|i: int| 0 <= i < n implies decoded.points[i] == l.points[i] by {
        lemma_payloads_index(l.points, i);
        assert(s.subrange(start + 16 * i, start + 16 * i + 16) =~= spec_payloads(
            l.points,
        ).subrange(16 * i, 16 * i + 16));
        let pay = spec_point_payload(l.points[i]);
        assert(s.subrange(start + 16 * i, start + 16 * i + 8) =~= pay.subrange(0, 8));
        assert(s.subrange(start + 16 * i + 8, start + 16 * i + 16) =~= pay.subrange(8, 16));
        assert(pay.subrange(0, 8) =~= spec_u64_to_le_bytes(l.points[i].x));
        assert(pay.subrange(8, 16) =~= spec_u64_to_le_bytes(l.points[i].y));
        assert(decoded.points[i].x == l.points[i].x);
        assert(decoded.points[i].y == l.points[i].y);
        assert(decoded.points[i].srid == l.points[i].srid);
    }
    assert(decoded.points =~= l.points);
}

/// SRID presence is independent of the geometry type: for either type
/// code, a geometry without an SRID is encoded with no SRID field at all —
/// the header is exactly marker plus type word — and the type word carries
/// the SRID flag bit iff an SRID is present.
pub proof fn lemma_srid_presence(code: u32, srid: Option<i32>)
    requires
        code == 1u32 || code == 2u32,
    ensures
        spec_header(code, srid).len() == if srid is Some {
            9int
        } else {
            5int
        },
        (spec_type_word(code, srid is Some) & 0x2000_0000u32 == 0x2000_0000u32) <==> srid is Some,
{
    lemma_auto_spec_u32_to_from_le_bytes();
    assert((code | 0x2000_0000u32) & 0x2000_0000u32 == 0x2000_0000u32) by (bit_vector);
    assert((code == 1u32 || code == 2u32) ==> (code & 0x2000_0000u32) != 0x2000_0000u32)
        by (bit_vector);
}

/// Truncation safety: every strict prefix of an encoded point is rejected
/// as truncated — decoding fails cleanly rather than reading past the end.
pub proof fn lemma_point_truncation(p: GeogPoint, n: int)
    requires
        0 <= n < spec_encode_point(p).len(),
    ensures
        spec_decode_point(spec_encode_point(p).take(n)) == Err::<GeogPoint, DecodeError>(
            DecodeError::Truncated,
        ),
{
    lemma_auto_spec_u32_to_from_le_bytes();
    lemma_auto_spec_u64_to_from_le_bytes();
    lemma_header_round_trip(1u32, p.srid, spec_point_payload(p));
    let s = spec_encode_point(p);
    let t = s.take(n);
    let body = spec_header(1u32, p.srid).len() as int;
    assert(s.len() == body + 16);
    if n >= 1 {
        assert(t[0] == s[0]);
        assert(s[0] == 1u8);
    }
    if n >= 5 {
        assert(t.subrange(1, 5) =~= s.subrange(1, 5));
        let w = spec_type_word(1u32, p.srid is Some);
        assert(s.subrange(1, 5) =~= spec_u32_to_le_bytes(w));
        assert(spec_u32_at(t, 1, true) == w);
        match p.srid {
            Some(_) => {
                assert((1u32 | 0x2000_0000u32) & 0x2000_0000u32 == 0x2000_0000u32) by (bit_vector);
                assert(((1u32 | 0x2000_0000u32) & 0xdfff_ffffu32) == 1u32) by (bit_vector);
            },
            None => {
                assert(1u32 & 0x2000_0000u32 != 0x2000_0000u32) by (bit_vector);
            },
        }
    }
}

/// Type mismatch: feeding an encoded line string to the point decoder
/// fails with a type error, whether or not the line carries an SRID.
pub proof fn lemma_type_mismatch(l: LineStringModel)
    requires
        l.points.len() <= u32::MAX,
    ensures
        spec_decode_point(spec_encode_line_string(l)) == Err::<GeogPoint, DecodeError>(
            DecodeError::UnexpectedType,
        ),
{
    lemma_auto_spec_u32_to_from_le_bytes();
    lemma_auto_spec_u64_to_from_le_bytes();
    lemma_payloads_len(l.points);
    let s = spec_encode_line_string(l);
    let body = spec_header(2u32, l.srid).len() as int;
    lemma_header_round_trip(
        2u32,
        l.srid,
        spec_u32_to_le_bytes(l.points.len() as u32) + spec_payloads(l.points),
    );
    assert(s.len() == body + 4 + 16 * l.points.len());
    assert(s[0] == 1u8);
    let w = spec_type_word(2u32, l.srid is Some);
    assert(s.subrange(1, 5) =~= spec_u32_to_le_bytes(w));
    assert(spec_u32_at(s, 1, true) == w);
    match l.srid {
        Some(_) => {
            assert((2u32 | 0x2000_0000u32) & 0x2000_0000u32 == 0x2000_0000u32) by (bit_vector);
            assert(((2u32 | 0x2000_0000u32) & 0xdfff_ffffu32) != 1u32) by (bit_vector);
        },
        None => {
            assert(2u32 & 0x2000_0000u32 != 0x2000_0000u32) by (bit_vector);
        },
    }
}

} // verus!
