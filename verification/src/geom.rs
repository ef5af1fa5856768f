//! Planar geometries in tile-local integer coordinates and their encoding
//! into command/parameter integer streams.
//!
//! Coordinates are always encoded as zigzag deltas from a running absolute
//! cursor position; the cursor persists across the parts of a multi-part
//! geometry.

use vstd::prelude::*;
use crate::codec::{Command, CommandInteger, CommandSequence, ParameterInteger, pack_command,
    zigzag};

verus! {

/// A pair of signed tile-local coordinates.
#[derive(Clone, Copy, PartialEq, Eq, Structural, Debug)]
pub struct Point {
    pub x: i32,
    pub y: i32,
}

impl Point {
    pub fn origin() -> (r: Point)
        ensures
            r == (Point { x: 0, y: 0 }),
    {
        Point { x: 0, y: 0 }
    }
}

/// An ordered sequence of points, encoded as one MoveTo run.
#[derive(Clone, Debug)]
pub struct MultiPoint {
    pub points: Vec<Point>,
}

/// An ordered sequence of points: an open polyline, or a closed ring whose
/// last point duplicates its first when used inside a polygon.
#[derive(Clone, Debug)]
pub struct LineString {
    pub points: Vec<Point>,
}

/// An ordered sequence of independent open paths.
#[derive(Clone, Debug)]
pub struct MultiLineString {
    pub lines: Vec<LineString>,
}

/// An ordered sequence of rings: the first the exterior, the rest holes.
#[derive(Clone, Debug)]
pub struct Polygon {
    pub rings: Vec<LineString>,
}

/// Whether a signed difference is representable as an i32.
pub open spec fn fits_i32(v: int) -> bool {
    i32::MIN <= v <= i32::MAX
}

/// The zigzag-encoded coordinate deltas of `points` walked in order,
/// each delta taken against the previous point, the first against `start`.
pub open spec fn delta_params(points: Seq<Point>, start: Point) -> Seq<u32>
    decreases points.len(),
{
    if points.len() == 0 {
        Seq::empty()
    } else {
        seq![
            zigzag((points[0].x - start.x) as i32),
            zigzag((points[0].y - start.y) as i32),
        ] + delta_params(points.drop_first(), points[0])
    }
}

/// All consecutive deltas of `points` from `start` fit in an i32.
pub open spec fn deltas_fit(points: Seq<Point>, start: Point) -> bool
    decreases points.len(),
{
    points.len() == 0 || (fits_i32(points[0].x - start.x) && fits_i32(points[0].y - start.y)
        && deltas_fit(points.drop_first(), points[0]))
}

/// A single point: one MoveTo with count 1 and the two deltas from `start`.
pub open spec fn point_encoding(p: Point, start: Point) -> Seq<u32> {
    seq![
        pack_command(Command::MoveTo.spec_code(), 1),
        zigzag((p.x - start.x) as i32),
        zigzag((p.y - start.y) as i32),
    ]
}

/// A multipoint: one MoveTo whose count is the number of points, followed
/// by all the deltas.
pub open spec fn multipoint_encoding(points: Seq<Point>, start: Point) -> Seq<u32> {
    seq![pack_command(Command::MoveTo.spec_code(), points.len() as u32)] + delta_params(
        points,
        start,
    )
}

/// An open path: the first point as a MoveTo from `start`, then, when
/// more points follow, one LineTo run covering them. An empty path
/// encodes to nothing; a one-point path is exactly the point's encoding.
pub open spec fn linestring_encoding(points: Seq<Point>, start: Point) -> Seq<u32> {
    if points.len() == 0 {
        Seq::empty()
    } else if points.len() == 1 {
        point_encoding(points[0], start)
    } else {
        point_encoding(points[0], start) + seq![
            pack_command(Command::LineTo.spec_code(), (points.len() - 1) as u32),
        ] + delta_params(points.drop_first(), points[0])
    }
}

/// A ring: the first point as a MoveTo from `start`, one LineTo run over
/// the interior points, and a ClosePath in place of the duplicate closing
/// point, which is never delta-encoded. An empty ring encodes to nothing.
pub open spec fn ring_encoding(points: Seq<Point>, start: Point) -> Seq<u32> {
    if points.len() == 0 {
        Seq::empty()
    } else {
        point_encoding(points[0], start) + seq![
            pack_command(Command::LineTo.spec_code(), (points.len() - 2) as u32),
        ] + delta_params(points.subrange(1, points.len() - 1), points[0]) + seq![
            pack_command(Command::ClosePath.spec_code(), 1),
        ]
    }
}

/// A multi-line: each non-empty part encoded as an open path from the
/// current cursor, the cursor advancing to the part's last point; empty
/// parts are skipped and leave the cursor unchanged.
pub open spec fn mls_encoding(lines: Seq<LineString>, start: Point) -> Seq<u32>
    decreases lines.len(),
{
    if lines.len() == 0 {
        Seq::empty()
    } else if lines[0].points@.len() == 0 {
        mls_encoding(lines.drop_first(), start)
    } else {
        linestring_encoding(lines[0].points@, start) + mls_encoding(
            lines.drop_first(),
            lines[0].points@.last(),
        )
    }
}

/// A polygon: the same cursor threading as a multi-line, but each part is
/// encoded as a ring.
pub open spec fn polygon_encoding(rings: Seq<LineString>, start: Point) -> Seq<u32>
    decreases rings.len(),
{
    if rings.len() == 0 {
        Seq::empty()
    } else if rings[0].points@.len() == 0 {
        polygon_encoding(rings.drop_first(), start)
    } else {
        ring_encoding(rings[0].points@, start) + polygon_encoding(
            rings.drop_first(),
            rings[0].points@.last(),
        )
    }
}

/// A path can be encoded from `start`: its point count is representable in
/// a command integer and every delta fits in an i32.
pub open spec fn linestring_encodable(points: Seq<Point>, start: Point) -> bool {
    points.len() < 0x2000_0000 && deltas_fit(points, start)
}

/// A ring can be encoded from `start`: it is empty or holds at least its
/// first real vertex plus the duplicate closing one, its point count is
/// representable, and every encoded delta fits in an i32 (the closing
/// point is never encoded).
pub open spec fn ring_encodable(points: Seq<Point>, start: Point) -> bool {
    &&& points.len() != 1
    &&& points.len() < 0x2000_0000
    &&& (points.len() >= 2 ==> deltas_fit(points.take(points.len() - 1), start))
}

/// Every part of a multi-line can be encoded from the cursor it will be
/// reached with.
pub open spec fn mls_encodable(lines: Seq<LineString>, start: Point) -> bool
    decreases lines.len(),
{
    if lines.len() == 0 {
        true
    } else if lines[0].points@.len() == 0 {
        mls_encodable(lines.drop_first(), start)
    } else {
        linestring_encodable(lines[0].points@, start) && mls_encodable(
            lines.drop_first(),
            lines[0].points@.last(),
        )
    }
}

/// Every ring of a polygon can be encoded from the cursor it will be
/// reached with.
pub open spec fn polygon_encodable(rings: Seq<LineString>, start: Point) -> bool
    decreases rings.len(),
{
    if rings.len() == 0 {
        true
    } else if rings[0].points@.len() == 0 {
        polygon_encodable(rings.drop_first(), start)
    } else {
        ring_encodable(rings[0].points@, start) && polygon_encodable(
            rings.drop_first(),
            rings[0].points@.last(),
        )
    }
}

/// An empty path, ring, multi-line or polygon encodes to the empty
/// sequence.
pub proof fn lemma_empty_geometry_encoding(
    points: Seq<Point>,
    lines: Seq<LineString>,
    start: Point,
)
    ensures
        points.len() == 0 ==> linestring_encoding(points, start) == Seq::<u32>::empty(),
        points.len() == 0 ==> ring_encoding(points, start) == Seq::<u32>::empty(),
        lines.len() == 0 ==> mls_encoding(lines, start) == Seq::<u32>::empty(),
        lines.len() == 0 ==> polygon_encoding(lines, start) == Seq::<u32>::empty(),
{
}

/// A geometry that can be turned into a command/parameter integer stream
/// from a starting cursor position.
pub trait EncodableGeom {
    /// Whether the geometry can be encoded from `start` without any delta
    /// or count leaving its representable range.
    spec fn encodable_from(&self, start: Point) -> bool;

    /// The command/parameter integer stream of the geometry from `start`.
    spec fn encoding_from(&self, start: Point) -> Seq<u32>;

    fn encode_from(&self, startpos: &Point) -> (r: CommandSequence)
        requires
            self.encodable_from(*startpos),
        ensures
            r@ == self.encoding_from(*startpos),
    ;

    fn encode(&self) -> (r: CommandSequence)
        requires
            self.encodable_from(Point { x: 0, y: 0 }),
        ensures
            r@ == self.encoding_from(Point { x: 0, y: 0 }),
    {
        self.encode_from(&Point::origin())
    }
}

impl EncodableGeom for Point {
    open spec fn encodable_from(&self, start: Point) -> bool {
        fits_i32(self.x - start.x) && fits_i32(self.y - start.y)
    }

    open spec fn encoding_from(&self, start: Point) -> Seq<u32> {
        point_encoding(*self, start)
    }

    fn encode_from(&self, startpos: &Point) -> (r: CommandSequence) {
        let mut seq = CommandSequence::new();
        seq.push(CommandInteger::new(Command::MoveTo, 1).0);
        seq.push(ParameterInteger::new(self.x - startpos.x).0);
        seq.push(ParameterInteger::new(self.y - startpos.y).0);
        proof {
            assert(seq@ =~= point_encoding(*self, *startpos));
        }
        seq
    }
}

impl EncodableGeom for MultiPoint {
    open spec fn encodable_from(&self, start: Point) -> bool {
        self.points@.len() < 0x2000_0000 && deltas_fit(self.points@, start)
    }

    open spec fn encoding_from(&self, start: Point) -> Seq<u32> {
        multipoint_encoding(self.points@, start)
    }

    fn encode_from(&self, startpos: &Point) -> (r: CommandSequence) {
        let mut seq = CommandSequence::new();
        seq.push(CommandInteger::new(Command::MoveTo, self.points.len() as u32).0);
        let mut posx = startpos.x;
        let mut posy = startpos.y;
        let mut i: usize = 0;
        proof {
            assert(self.points@.skip(0) =~= self.points@);
            assert(seq@ + delta_params(self.points@, *startpos) =~= multipoint_encoding(
                self.points@,
                *startpos,
            ));
        }
        while i < self.points.len()
            invariant
                i <= self.points@.len(),
                deltas_fit(
                    self.points@.skip(i as int),
                    Point { x: posx, y: posy },
                ),
                seq@ + delta_params(
                    self.points@.skip(i as int),
                    Point { x: posx, y: posy },
                ) == multipoint_encoding(self.points@, *startpos),
            decreases self.points@.len() - i,
        {
            proof {
                assert(self.points@.skip(i as int).drop_first() =~= self.points@.skip(i + 1));
                assert(self.points@.skip(i as int)[0] == self.points@[i as int]);
            }
            let ghost pre = seq@;
            let ghost cursor = Point { x: posx, y: posy };
            seq.push(ParameterInteger::new(self.points[i].x - posx).0);
            seq.push(ParameterInteger::new(self.points[i].y - posy).0);
            proof {
                assert(seq@ + delta_params(self.points@.skip(i + 1), self.points@[i as int])
                    =~= pre + delta_params(self.points@.skip(i as int), cursor));
            }
            posx = self.points[i].x;
            posy = self.points[i].y;
            i = i + 1;
        }
        proof {
            assert(self.points@.skip(self.points@.len() as int) =~= Seq::<Point>::empty());
            assert(seq@ =~= multipoint_encoding(self.points@, *startpos));
        }
        seq
    }
}

impl EncodableGeom for LineString {
    open spec fn encodable_from(&self, start: Point) -> bool {
        linestring_encodable(self.points@, start)
    }

    open spec fn encoding_from(&self, start: Point) -> Seq<u32> {
        linestring_encoding(self.points@, start)
    }

    fn encode_from(&self, startpos: &Point) -> (r: CommandSequence) {
        let mut seq = CommandSequence::new();
        if self.points.len() > 0 {
            seq = self.points[0].encode_from(startpos);
            if self.points.len() > 1 {
                seq.push(CommandInteger::new(Command::LineTo, (self.points.len() - 1) as u32).0);
                proof {
                    assert(self.points@.skip(1) =~= self.points@.drop_first());
                    assert(seq@ + delta_params(self.points@.skip(1), self.points@[0])
                        =~= linestring_encoding(self.points@, *startpos));
                }
                let mut i: usize = 1;
                while i < self.points.len()
                    invariant
                        1 <= i <= self.points@.len(),
                        deltas_fit(self.points@.skip(i as int), self.points@[i - 1]),
                        seq@ + delta_params(self.points@.skip(i as int), self.points@[i - 1])
                            == linestring_encoding(self.points@, *startpos),
                    decreases self.points@.len() - i,
                {
                    proof {
                        assert(self.points@.skip(i as int).drop_first() =~= self.points@.skip(
                            i + 1,
                        ));
                        assert(self.points@.skip(i as int)[0] == self.points@[i as int]);
                    }
                    let ghost pre = seq@;
                    let pos = self.points[i - 1];
                    let point = self.points[i];
                    seq.push(ParameterInteger::new(point.x - pos.x).0);
                    seq.push(ParameterInteger::new(point.y - pos.y).0);
                    proof {
                        assert(seq@ + delta_params(
                            self.points@.skip(i + 1),
                            self.points@[i as int],
                        ) =~= pre + delta_params(
                            self.points@.skip(i as int),
                            self.points@[i - 1],
                        ));
                    }
                    i = i + 1;
                }
                proof {
                    assert(self.points@.skip(self.points@.len() as int)
                        =~= Seq::<Point>::empty());
                    assert(seq@ =~= linestring_encoding(self.points@, *startpos));
                }
            }
        }
        seq
    }
}

impl LineString {
    /// Encodes the line as a closed ring: almost the open-path encoding,
    /// with a ClosePath in place of the duplicate last point.
    pub fn encode_ring_from(&self, startpos: &Point) -> (r: CommandSequence)
        requires
            ring_encodable(self.points@, *startpos),
        ensures
            r@ == ring_encoding(self.points@, *startpos),
    {
        let mut seq = CommandSequence::new();
        if self.points.len() > 0 {
            proof {
                assert(self.points@.take(self.points@.len() - 1)[0] == self.points@[0]);
            }
            seq = self.points[0].encode_from(startpos);
            seq.push(CommandInteger::new(Command::LineTo, (self.points.len() - 2) as u32).0);
            proof {
                assert(self.points@.take(self.points@.len() - 1).drop_first()
                    =~= self.points@.subrange(1, self.points@.len() - 1));
            }
            let mut i: usize = 1;
            while i < self.points.len() - 1
                invariant
                    1 <= i <= self.points@.len() - 1,
                    deltas_fit(
                        self.points@.subrange(i as int, self.points@.len() - 1),
                        self.points@[i - 1],
                    ),
                    seq@ + delta_params(
                        self.points@.subrange(i as int, self.points@.len() - 1),
                        self.points@[i - 1],
                    ) == point_encoding(self.points@[0], *startpos) + seq![
                        pack_command(
                            Command::LineTo.spec_code(),
                            (self.points@.len() - 2) as u32,
                        ),
                    ] + delta_params(
                        self.points@.subrange(1, self.points@.len() - 1),
                        self.points@[0],
                    ),
                decreases self.points@.len() - i,
            {
                proof {
                    assert(self.points@.subrange(i as int, self.points@.len() - 1).drop_first()
                        =~= self.points@.subrange(i + 1, self.points@.len() - 1));
                    assert(self.points@.subrange(i as int, self.points@.len() - 1)[0]
                        == self.points@[i as int]);
                }
                let ghost pre = seq@;
                let pos = self.points[i - 1];
                let point = self.points[i];
                seq.push(ParameterInteger::new(point.x - pos.x).0);
                seq.push(ParameterInteger::new(point.y - pos.y).0);
                proof {
                    assert(seq@ + delta_params(
                        self.points@.subrange(i + 1, self.points@.len() - 1),
                        self.points@[i as int],
                    ) =~= pre + delta_params(
                        self.points@.subrange(i as int, self.points@.len() - 1),
                        self.points@[i - 1],
                    ));
                }
                i = i + 1;
            }
            proof {
                assert(self.points@.subrange(
                    self.points@.len() - 1,
                    self.points@.len() - 1,
                ) =~= Seq::<Point>::empty());
            }
            seq.push(CommandInteger::new(Command::ClosePath, 1).0);
            proof {
                assert(seq@ =~= ring_encoding(self.points@, *startpos));
            }
        }
        seq
    }
}

impl EncodableGeom for MultiLineString {
    open spec fn encodable_from(&self, start: Point) -> bool {
        mls_encodable(self.lines@, start)
    }

    open spec fn encoding_from(&self, start: Point) -> Seq<u32> {
        mls_encoding(self.lines@, start)
    }

    fn encode_from(&self, startpos: &Point) -> (r: CommandSequence) {
        let mut seq = CommandSequence::new();
        let mut pos = *startpos;
        let mut i: usize = 0;
        proof {
            assert(self.lines@.skip(0) =~= self.lines@);
            assert(seq@ + mls_encoding(self.lines@, *startpos) =~= mls_encoding(
                self.lines@,
                *startpos,
            ));
        }
        while i < self.lines.len()
            invariant
                i <= self.lines@.len(),
                mls_encodable(self.lines@.skip(i as int), pos),
                seq@ + mls_encoding(self.lines@.skip(i as int), pos) == mls_encoding(
                    self.lines@,
                    *startpos,
                ),
            decreases self.lines@.len() - i,
        {
            proof {
                assert(self.lines@.skip(i as int).drop_first() =~= self.lines@.skip(i + 1));
                assert(self.lines@.skip(i as int)[0] == self.lines@[i as int]);
            }
            let ghost pre = seq@;
            let ghost cursor = pos;
            let line = &self.lines[i];
            if line.points.len() > 0 {
                let mut sub = line.encode_from(&pos);
                seq.append(&mut sub);
                pos = line.points[line.points.len() - 1];
                proof {
                    assert(pos == self.lines@[i as int].points@.last());
                    assert(seq@ + mls_encoding(self.lines@.skip(i + 1), pos) =~= pre
                        + mls_encoding(self.lines@.skip(i as int), cursor));
                }
            }
            i = i + 1;
        }
        proof {
            assert(self.lines@.skip(self.lines@.len() as int) =~= Seq::<LineString>::empty());
            assert(seq@ =~= mls_encoding(self.lines@, *startpos));
        }
        seq
    }
}

impl EncodableGeom for Polygon {
    open spec fn encodable_from(&self, start: Point) -> bool {
        polygon_encodable(self.rings@, start)
    }

    open spec fn encoding_from(&self, start: Point) -> Seq<u32> {
        polygon_encoding(self.rings@, start)
    }

    fn encode_from(&self, startpos: &Point) -> (r: CommandSequence) {
        let mut seq = CommandSequence::new();
        let mut pos = *startpos;
        let mut i: usize = 0;
        proof {
            assert(self.rings@.skip(0) =~= self.rings@);
            assert(seq@ + polygon_encoding(self.rings@, *startpos) =~= polygon_encoding(
                self.rings@,
                *startpos,
            ));
        }
        while i < self.rings.len()
            invariant
                i <= self.rings@.len(),
                polygon_encodable(self.rings@.skip(i as int), pos),
                seq@ + polygon_encoding(self.rings@.skip(i as int), pos) == polygon_encoding(
                    self.rings@,
                    *startpos,
                ),
            decreases self.rings@.len() - i,
        {
            proof {
                assert(self.rings@.skip(i as int).drop_first() =~= self.rings@.skip(i + 1));
                assert(self.rings@.skip(i as int)[0] == self.rings@[i as int]);
            }
            let ghost pre = seq@;
            let ghost cursor = pos;
            let ring = &self.rings[i];
            if ring.points.len() > 0 {
                let mut sub = ring.encode_ring_from(&pos);
                seq.append(&mut sub);
                pos = ring.points[ring.points.len() - 1];
                proof {
                    assert(pos == self.rings@[i as int].points@.last());
                    assert(seq@ + polygon_encoding(self.rings@.skip(i + 1), pos) =~= pre
                        + polygon_encoding(self.rings@.skip(i as int), cursor));
                }
            }
            i = i + 1;
        }
        proof {
            assert(self.rings@.skip(self.rings@.len() as int) =~= Seq::<LineString>::empty());
            assert(seq@ =~= polygon_encoding(self.rings@, *startpos));
        }
        seq
    }
}

} // verus!
