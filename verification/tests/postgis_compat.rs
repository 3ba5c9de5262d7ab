//! Wire-format fidelity: the verified codec and the postgis crate's EWKB
//! reader/writer agree byte for byte on the geometries both sides support.

use diesel_geography::codec::{decode_line_string, decode_point, encode_line_string, encode_point};
use diesel_geography::types::{GeogLineString, GeogPoint};
use postgis::ewkb::{AsEwkbLineString, AsEwkbPoint, EwkbRead, EwkbWrite};
use std::io::Cursor;

#[test]
fn point_bytes_match_postgis() {
    let p = GeogPoint {
        x: (-122.4194f64).to_bits(),
        y: 37.7749f64.to_bits(),
        srid: Some(4326),
    };
    let mut ours: Vec<u8> = Vec::new();
    encode_point(&p, &mut ours);

    let gp = postgis::ewkb::Point { x: -122.4194, y: 37.7749, srid: Some(4326) };
    let mut theirs: Vec<u8> = Vec::new();
    gp.as_ewkb().write_ewkb(&mut theirs).unwrap();
    assert_eq!(ours, theirs);
}

#[test]
fn postgis_reads_our_point() {
    let p = GeogPoint { x: 11.5f64.to_bits(), y: (-0.25f64).to_bits(), srid: None };
    let mut ours: Vec<u8> = Vec::new();
    encode_point(&p, &mut ours);

    let mut cursor = Cursor::new(&ours[..]);
    let read = postgis::ewkb::Point::read_ewkb(&mut cursor).unwrap();
    assert_eq!(read.x.to_bits(), p.x);
    assert_eq!(read.y.to_bits(), p.y);
    assert_eq!(read.srid, p.srid);
}

#[test]
fn we_read_postgis_line_string() {
    let gl = postgis::ewkb::LineString {
        points: vec![
            postgis::ewkb::Point { x: 1.0, y: 2.0, srid: Some(4326) },
            postgis::ewkb::Point { x: 3.0, y: 4.0, srid: Some(4326) },
        ],
        srid: Some(4326),
    };
    let mut theirs: Vec<u8> = Vec::new();
    gl.as_ewkb().write_ewkb(&mut theirs).unwrap();

    let read = decode_line_string(&theirs).unwrap();
    assert_eq!(read.srid, Some(4326));
    assert_eq!(read.points.len(), 2);
    assert_eq!(read.points[0].x, 1.0f64.to_bits());
    assert_eq!(read.points[0].y, 2.0f64.to_bits());
    assert_eq!(read.points[1].x, 3.0f64.to_bits());
    assert_eq!(read.points[1].y, 4.0f64.to_bits());
}

#[test]
fn line_string_bytes_match_postgis() {
    let l = GeogLineString {
        points: vec![
            GeogPoint { x: 1.0f64.to_bits(), y: 2.0f64.to_bits(), srid: None },
            GeogPoint { x: 3.0f64.to_bits(), y: 4.0f64.to_bits(), srid: None },
        ],
        srid: None,
    };
    let mut ours: Vec<u8> = Vec::new();
    encode_line_string(&l, &mut ours);

    let gl = postgis::ewkb::LineString {
        points: vec![
            postgis::ewkb::Point { x: 1.0, y: 2.0, srid: None },
            postgis::ewkb::Point { x: 3.0, y: 4.0, srid: None },
        ],
        srid: None,
    };
    let mut theirs: Vec<u8> = Vec::new();
    gl.as_ewkb().write_ewkb(&mut theirs).unwrap();
    assert_eq!(ours, theirs);

    let mut cursor = Cursor::new(&theirs[..]);
    let read = postgis::ewkb::LineString::read_ewkb(&mut cursor).unwrap();
    assert_eq!(read, gl);

    assert_eq!(decode_point(&ours).is_err(), true);
}
