use t_rex::geom::{EncodableGeom, LineString, MultiLineString, MultiPoint, Point, Polygon};

#[test]
fn test_geom_encoding() {
    let point = Point { x: 25, y: 17 };
    assert_eq!(point.encode().0, &[9, 50, 34]);

    let multipoint = MultiPoint {
        points: vec![Point { x: 5, y: 7 }, Point { x: 3, y: 2 }],
    };
    assert_eq!(multipoint.encode().0, &[17, 10, 14, 3, 9]);

    let linestring = LineString {
        points: vec![Point { x: 2, y: 2 }, Point { x: 2, y: 10 }, Point { x: 10, y: 10 }],
    };
    assert_eq!(linestring.encode().0, &[9, 4, 4, 18, 0, 16, 16, 0]);

    let multilinestring = MultiLineString {
        lines: vec![
            LineString {
                points: vec![Point { x: 2, y: 2 }, Point { x: 2, y: 10 }, Point {
                    x: 10,
                    y: 10,
                }],
            },
            LineString { points: vec![Point { x: 1, y: 1 }, Point { x: 3, y: 5 }] },
        ],
    };
    assert_eq!(multilinestring.encode().0, &[9, 4, 4, 18, 0, 16, 16, 0, 9, 17, 17, 10, 4, 8]);

    let polygon = Polygon {
        rings: vec![LineString {
            points: vec![
                Point { x: 3, y: 6 },
                Point { x: 8, y: 12 },
                Point { x: 20, y: 34 },
                Point { x: 3, y: 6 },
            ],
        }],
    };
    assert_eq!(polygon.encode().0, &[9, 6, 12, 18, 10, 12, 24, 44, 15]);
}

#[test]
fn test_empty_geometries_encode_to_nothing() {
    let linestring = LineString { points: vec![] };
    assert_eq!(linestring.encode().0, Vec::<u32>::new());

    let multilinestring = MultiLineString { lines: vec![] };
    assert_eq!(multilinestring.encode().0, Vec::<u32>::new());

    let polygon = Polygon { rings: vec![] };
    assert_eq!(polygon.encode().0, Vec::<u32>::new());

    let ring = LineString { points: vec![] };
    assert_eq!(ring.encode_ring_from(&Point { x: 0, y: 0 }).0, Vec::<u32>::new());
}

#[test]
fn test_single_point_linestring_has_no_lineto_run() {
    let linestring = LineString { points: vec![Point { x: 5, y: 7 }] };
    assert_eq!(linestring.encode().0, &[9, 10, 14]);

    let multilinestring = MultiLineString {
        lines: vec![
            LineString { points: vec![Point { x: 5, y: 7 }] },
            LineString { points: vec![Point { x: 3, y: 2 }, Point { x: 4, y: 4 }] },
        ],
    };
    // The one-point part is just its MoveTo; the next part's MoveTo is a
    // delta from (5,7).
    assert_eq!(multilinestring.encode().0, &[9, 10, 14, 9, 3, 9, 10, 2, 4]);
}

#[test]
fn test_empty_parts_are_skipped_and_keep_the_cursor() {
    let multilinestring = MultiLineString {
        lines: vec![
            LineString { points: vec![] },
            LineString { points: vec![Point { x: 1, y: 1 }, Point { x: 3, y: 5 }] },
            LineString { points: vec![] },
        ],
    };
    // The empty parts produce nothing; the non-empty one starts from the
    // origin cursor.
    assert_eq!(multilinestring.encode().0, &[9, 2, 2, 10, 4, 8]);
}

#[test]
fn test_encode_from_starts_at_the_given_cursor() {
    let point = Point { x: 25, y: 17 };
    assert_eq!(point.encode_from(&Point { x: 20, y: 20 }).0, &[9, 10, 5]);

    let linestring = LineString {
        points: vec![Point { x: 2, y: 2 }, Point { x: 2, y: 10 }, Point { x: 10, y: 10 }],
    };
    assert_eq!(linestring.encode_from(&Point { x: 2, y: 2 }).0, &[9, 0, 0, 18, 0, 16, 16, 0]);
}

#[test]
fn test_negative_deltas_encode_with_the_sign_bit() {
    let multipoint = MultiPoint {
        points: vec![Point { x: 5, y: 7 }, Point { x: 3, y: 2 }],
    };
    // The second point lies left of and below the first: deltas -2 and -5.
    assert_eq!(multipoint.encode().0, &[17, 10, 14, 3, 9]);

    let point = Point { x: -5, y: -3 };
    assert_eq!(point.encode().0, &[9, 9, 5]);
}

#[test]
fn test_empty_multipoint_is_a_bare_moveto() {
    let multipoint = MultiPoint { points: vec![] };
    assert_eq!(multipoint.encode().0, &[1]);
}

#[test]
fn test_minimal_ring() {
    // One real vertex plus its closing duplicate: a LineTo run of count 0.
    let ring = LineString { points: vec![Point { x: 4, y: 4 }, Point { x: 4, y: 4 }] };
    assert_eq!(ring.encode_ring_from(&Point { x: 0, y: 0 }).0, &[9, 8, 8, 2, 15]);
}

#[test]
fn test_polygon_with_hole_threads_the_cursor() {
    let polygon = Polygon {
        rings: vec![
            LineString {
                points: vec![
                    Point { x: 0, y: 0 },
                    Point { x: 10, y: 0 },
                    Point { x: 10, y: 10 },
                    Point { x: 0, y: 0 },
                ],
            },
            LineString {
                points: vec![
                    Point { x: 2, y: 2 },
                    Point { x: 4, y: 2 },
                    Point { x: 4, y: 4 },
                    Point { x: 2, y: 2 },
                ],
            },
        ],
    };
    // The second ring's MoveTo is a delta from (0,0), the first ring's
    // last point.
    assert_eq!(
        polygon.encode().0,
        &[9, 0, 0, 18, 20, 0, 0, 20, 15, 9, 4, 4, 18, 4, 0, 0, 4, 15]
    );
}
