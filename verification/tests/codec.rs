use diesel_geography::codec::{decode_line_string, decode_point, encode_line_string, encode_point};
use diesel_geography::sql_types::{Geography, IsNull};
use diesel_geography::types::{DecodeError, GeogLineString, GeogPoint};

fn point(x: f64, y: f64, srid: Option<i32>) -> GeogPoint {
    GeogPoint { x: x.to_bits(), y: y.to_bits(), srid }
}

#[test]
fn point_round_trip_with_srid() {
    let p = point(-122.4194, 37.7749, Some(4326));
    let mut buf: Vec<u8> = Vec::new();
    encode_point(&p, &mut buf);
    assert_eq!(decode_point(&buf), Ok(p));
}

#[test]
fn point_round_trip_without_srid() {
    let p = point(2.0, -3.5, None);
    let mut buf: Vec<u8> = Vec::new();
    encode_point(&p, &mut buf);
    assert_eq!(decode_point(&buf), Ok(p));
}

#[test]
fn point_encoding_exact_bytes() {
    let p = point(1.5, -2.5, Some(4326));
    let mut buf: Vec<u8> = Vec::new();
    encode_point(&p, &mut buf);
    // marker 1 (little-endian), type word 1 with the SRID flag, SRID 4326,
    // then the two coordinates.
    let mut expected: Vec<u8> = vec![0x01, 0x01, 0x00, 0x00, 0x20, 0xe6, 0x10, 0x00, 0x00];
    expected.extend_from_slice(&1.5f64.to_le_bytes());
    expected.extend_from_slice(&(-2.5f64).to_le_bytes());
    assert_eq!(buf, expected);
}

#[test]
fn encode_appends_without_clearing() {
    let p = point(0.0, 0.0, None);
    let mut buf: Vec<u8> = vec![0xaa, 0xbb];
    encode_point(&p, &mut buf);
    assert_eq!(&buf[..2], &[0xaa, 0xbb]);
    assert_eq!(buf.len(), 2 + 21);
    assert_eq!(decode_point(&buf[2..]), Ok(p));
}

#[test]
fn srid_none_omits_field_on_point() {
    let p = point(7.25, 8.75, None);
    let mut buf: Vec<u8> = Vec::new();
    encode_point(&p, &mut buf);
    // 1 marker + 4 type word + 16 coordinates, no SRID field.
    assert_eq!(buf.len(), 21);
    // type word 1 with every flag bit unset
    assert_eq!(&buf[1..5], &[0x01, 0x00, 0x00, 0x00]);
    assert_eq!(decode_point(&buf).unwrap().srid, None);
}

#[test]
fn srid_none_omits_field_on_line_string() {
    let l = GeogLineString { points: vec![point(1.0, 2.0, None)], srid: None };
    let mut buf: Vec<u8> = Vec::new();
    encode_line_string(&l, &mut buf);
    // 1 marker + 4 type word + 4 count + 16 coordinates, no SRID field.
    assert_eq!(buf.len(), 25);
    assert_eq!(&buf[1..5], &[0x02, 0x00, 0x00, 0x00]);
    assert_eq!(decode_line_string(&buf).unwrap().srid, None);
}

#[test]
fn empty_line_string_round_trip() {
    let l = GeogLineString { points: vec![], srid: None };
    let mut buf: Vec<u8> = Vec::new();
    encode_line_string(&l, &mut buf);
    assert_eq!(buf.len(), 9);
    // point count field is zero
    assert_eq!(&buf[5..9], &[0x00, 0x00, 0x00, 0x00]);
    assert_eq!(decode_line_string(&buf), Ok(l));
}

#[test]
fn line_string_round_trip_three_points() {
    let p1 = point(-122.4194, 37.7749, Some(4326));
    let p2 = point(0.0, 0.0, Some(4326));
    let p3 = point(12.5, -45.25, Some(4326));
    let l = GeogLineString { points: vec![p1, p2, p3], srid: Some(4326) };
    let mut buf: Vec<u8> = Vec::new();
    encode_line_string(&l, &mut buf);
    let d = decode_line_string(&buf).unwrap();
    assert_eq!(d.points.len(), 3);
    assert_eq!(d.points, vec![p1, p2, p3]);
    assert_eq!(d.srid, Some(4326));
    assert_eq!(d, l);
}

#[test]
fn decoded_line_mirrors_srid_into_points() {
    // The wire carries one SRID for the whole line; the decoder stamps it
    // on every point.
    let mut buf: Vec<u8> = Vec::new();
    let l = GeogLineString {
        points: vec![point(1.0, 2.0, Some(31287)), point(3.0, 4.0, Some(31287))],
        srid: Some(31287),
    };
    encode_line_string(&l, &mut buf);
    let d = decode_line_string(&buf).unwrap();
    for p in &d.points {
        assert_eq!(p.srid, Some(31287));
    }
}

#[test]
fn every_point_prefix_is_truncated() {
    let p = point(-122.4194, 37.7749, Some(4326));
    let mut buf: Vec<u8> = Vec::new();
    encode_point(&p, &mut buf);
    for n in 0..buf.len() {
        assert_eq!(decode_point(&buf[..n]), Err(DecodeError::Truncated));
    }
}

#[test]
fn three_byte_buffer_fails() {
    let buf: Vec<u8> = vec![0x01, 0x01, 0x00];
    assert_eq!(decode_point(&buf), Err(DecodeError::Truncated));
}

#[test]
fn line_string_bytes_fail_point_decode() {
    let l = GeogLineString { points: vec![point(1.0, 2.0, Some(4326))], srid: Some(4326) };
    let mut buf: Vec<u8> = Vec::new();
    encode_line_string(&l, &mut buf);
    assert_eq!(decode_point(&buf), Err(DecodeError::UnexpectedType));
}

#[test]
fn point_bytes_fail_line_string_decode() {
    let p = point(1.0, 2.0, None);
    let mut buf: Vec<u8> = Vec::new();
    encode_point(&p, &mut buf);
    assert_eq!(decode_line_string(&buf), Err(DecodeError::UnexpectedType));
}

#[test]
fn unknown_byte_order_marker_fails() {
    let p = point(1.0, 2.0, None);
    let mut buf: Vec<u8> = Vec::new();
    encode_point(&p, &mut buf);
    buf[0] = 0x02;
    assert_eq!(decode_point(&buf), Err(DecodeError::UnknownByteOrder));
}

#[test]
fn oversized_count_fails_before_reading_points() {
    // A line-string header declaring more points than the buffer holds.
    let buf: Vec<u8> = vec![0x01, 0x02, 0x00, 0x00, 0x00, 0xff, 0xff, 0xff, 0xff];
    assert_eq!(decode_line_string(&buf), Err(DecodeError::CountTooLarge));
}

#[test]
fn big_endian_point_decodes() {
    let mut buf: Vec<u8> = vec![0x00];
    buf.extend_from_slice(&0x2000_0001u32.to_be_bytes());
    buf.extend_from_slice(&4326i32.to_be_bytes());
    buf.extend_from_slice(&(-122.4194f64).to_be_bytes());
    buf.extend_from_slice(&37.7749f64.to_be_bytes());
    assert_eq!(decode_point(&buf), Ok(point(-122.4194, 37.7749, Some(4326))));
}

#[test]
fn big_endian_line_string_decodes() {
    let mut buf: Vec<u8> = vec![0x00];
    buf.extend_from_slice(&2u32.to_be_bytes());
    buf.extend_from_slice(&1u32.to_be_bytes());
    buf.extend_from_slice(&5.0f64.to_be_bytes());
    buf.extend_from_slice(&(-6.0f64).to_be_bytes());
    let d = decode_line_string(&buf).unwrap();
    assert_eq!(d, GeogLineString { points: vec![point(5.0, -6.0, None)], srid: None });
}

#[test]
fn trailing_bytes_are_ignored() {
    let p = point(9.0, -9.0, Some(4326));
    let mut buf: Vec<u8> = Vec::new();
    encode_point(&p, &mut buf);
    buf.push(0xcd);
    assert_eq!(decode_point(&buf), Ok(p));
}

#[test]
fn adapter_round_trips_point() {
    let p = point(-122.4194, 37.7749, Some(4326));
    let mut buf: Vec<u8> = Vec::new();
    let produced = p.to_sql(&mut buf);
    assert!(produced == IsNull::No);
    assert_eq!(GeogPoint::from_sql(&buf), Ok(p));
}

#[test]
fn adapter_round_trips_line_string() {
    let l = GeogLineString {
        points: vec![point(1.0, 2.0, Some(4326)), point(3.0, 4.0, Some(4326))],
        srid: Some(4326),
    };
    let mut buf: Vec<u8> = Vec::new();
    let produced = l.to_sql(&mut buf);
    assert!(produced == IsNull::No);
    assert_eq!(GeogLineString::from_sql(&buf), Ok(l));
}

#[test]
fn adapter_rejects_wrong_target_type() {
    let l = GeogLineString { points: vec![], srid: Some(4326) };
    let mut buf: Vec<u8> = Vec::new();
    l.to_sql(&mut buf);
    assert_eq!(GeogPoint::from_sql(&buf), Err(DecodeError::UnexpectedType));
}
