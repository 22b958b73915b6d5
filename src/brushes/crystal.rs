//! The crystal brush: strokes of segments that keep growing after release.

use vstd::prelude::*;
use crate::brushes::crystal_props::CrystalProps;
use crate::color::Color;
use crate::painter::Shape;
use crate::geometry::{
    abs, direction, dist_sq, div_trunc, lemma_unit_dir_length, unit_dir, Pos, Vec2, COORD_LIMIT,
    DEGENERATE_SQ, SCALE,
};

verus! {

/// Largest magnitude of the growth speed, in units per tick; a negative
/// speed shrinks the segment.
pub const MAX_GROWTH_SPEED: i64 = 1_000_000_000;

/// A single crystal segment.
#[derive(Clone, Copy, Debug, PartialEq, Eq, Structural)]
pub struct Segment {
    pub start: Pos,
    pub end: Pos,
    /// Direction of growth, of length `SCALE` up to rounding.
    pub dir: Vec2,
    /// When the segment was created, in the host's clock (milliseconds).
    pub born: u64,
    /// Branch depth.
    pub generation: u8,
    pub growing: bool,
}

/// A stroke of one or more connected crystal segments, in drawing order.
#[derive(Clone, Debug)]
pub struct StrokeData {
    pub segments: Vec<Segment>,
    pub color: Color,
    pub thickness: Option<i64>,
}

/// The segment a path step from `a` to `b` becomes.
pub open spec fn path_segment(a: Pos, b: Pos, born: u64) -> Segment {
    Segment {
        start: a,
        end: b,
        dir: Vec2 { x: unit_dir(a, b).0 as i64, y: unit_dir(a, b).1 as i64 },
        born,
        generation: 0,
        growing: true,
    }
}

impl Segment {
    /// The direction is at most `SCALE` in each coordinate.
    pub open spec fn wf(self) -> bool {
        -SCALE <= self.dir.x <= SCALE && -SCALE <= self.dir.y <= SCALE
    }
}

impl StrokeData {
    pub open spec fn wf(self) -> bool {
        forall|j: int| 0 <= j < self.segments@.len() ==> (#[trigger] self.segments@[j]).wf()
    }

    /// An empty stroke of the given color.
    pub fn new(color: Color, _growing: bool) -> (s: StrokeData)
        ensures
            s.segments@.len() == 0,
            s.color == color,
            s.thickness is None,
    {
        StrokeData { segments: Vec::new(), color, thickness: None }
    }

    /// Appends a new growing segment of generation 0.
    pub fn add_segment(&mut self, start: Pos, end: Pos, dir: Vec2, born: u64)
        ensures
            final(self).segments@ == old(self).segments@.push(
                Segment { start, end, dir, born, generation: 0, growing: true },
            ),
            final(self).color == old(self).color,
            final(self).thickness == old(self).thickness,
    {
        self.segments.push(Segment { start, end, dir, born, generation: 0, growing: true });
    }

    /// The stroke that a recorded pointer path becomes on release: one segment
    /// per pair of consecutive points, directed from the first to the second.
    /// A path of fewer than two points makes no stroke.
    pub fn from_path(points: &Vec<Pos>, color: Color, growing: bool, born: u64) -> (r: Option<StrokeData>)
        requires
            forall|i: int| 0 <= i < points@.len() ==> (#[trigger] points@[i]).valid(),
        ensures
            points@.len() < 2 <==> r is None,
            r matches Some(s) ==> {
                &&& s.segments@.len() == points@.len() - 1
                &&& s.color == color
                &&& s.thickness is None
                &&& s.wf()
                &&& forall|i: int|
                    0 <= i < s.segments@.len() ==> #[trigger] s.segments@[i] == path_segment(
                        points@[i],
                        points@[i + 1],
                        born,
                    )
            },
    {
        if points.len() < 2 {
            return None;
        }
        let mut data = StrokeData::new(color, growing);
        let mut i: usize = 1;
        while i < points.len()
            invariant
                1 <= i <= points@.len(),
                data.segments@.len() == i - 1,
                data.color == color,
                data.thickness is None,
                data.wf(),
                forall|k: int| 0 <= k < points@.len() ==> (#[trigger] points@[k]).valid(),
                forall|j: int|
                    0 <= j < data.segments@.len() ==> #[trigger] data.segments@[j] == path_segment(
                        points@[j],
                        points@[j + 1],
                        born,
                    ),
            decreases points@.len() - i,
        {
            let a = points[i - 1];
            let b = points[i];
            let dir = direction(a, b);
            data.add_segment(a, b, dir, born);
            i = i + 1;
        }
        Some(data)
    }
}

/// How far one growth tick at `speed` moves an end point along `dir`:
/// `speed * 0.5` units, split over the direction's coordinates.
pub open spec fn growth_offset(dir: Vec2, speed: int) -> (int, int) {
    (div_trunc(dir.x * speed, 2 * SCALE), div_trunc(dir.y * speed, 2 * SCALE))
}

/// `a` is `b` with its last segment, if any, extended by one growth tick at
/// `speed`, and nothing else changed.
pub open spec fn grown_stroke(b: StrokeData, a: StrokeData, speed: int) -> bool {
    let n = b.segments@.len();
    &&& a.color == b.color
    &&& a.thickness == b.thickness
    &&& a.segments@.len() == n
    &&& forall|j: int| 0 <= j < n - 1 ==> #[trigger] a.segments@[j] == b.segments@[j]
    &&& n > 0 ==> {
        let old_last = b.segments@[n - 1];
        let new_last = a.segments@[n - 1];
        &&& new_last.start == old_last.start
        &&& new_last.dir == old_last.dir
        &&& new_last.born == old_last.born
        &&& new_last.generation == old_last.generation
        &&& new_last.growing == old_last.growing
        &&& new_last.end.x == old_last.end.x + growth_offset(old_last.dir, speed).0
        &&& new_last.end.y == old_last.end.y + growth_offset(old_last.dir, speed).1
    }
}

/// `after` is `before` with every stroke grown by one tick at `speed`.
pub open spec fn grown_once(before: Seq<StrokeData>, after: Seq<StrokeData>, speed: int) -> bool {
    &&& after.len() == before.len()
    &&& forall|i: int| 0 <= i < before.len() ==> grown_stroke(#[trigger] before[i], after[i], speed)
}

/// One more tick keeps every extended end point within `COORD_LIMIT`.
pub open spec fn can_grow_spec(strokes: Seq<StrokeData>, speed: int) -> bool {
    forall|i: int| 0 <= i < strokes.len() && (#[trigger] strokes[i]).segments@.len() > 0 ==> {
        let last = strokes[i].segments@[strokes[i].segments@.len() - 1];
        let off = growth_offset(last.dir, speed);
        &&& -COORD_LIMIT <= last.end.x + off.0 <= COORD_LIMIT
        &&& -COORD_LIMIT <= last.end.y + off.1 <= COORD_LIMIT
    }
}

/// The main crystal brush engine.
pub struct CrystalBrush {
    pub props: CrystalProps,
}

impl CrystalBrush {
    pub fn new() -> (b: CrystalBrush)
        ensures
            b.props == (CrystalProps { branch_angle: 3_500, branch_decay: 7_000, min_segment: 60_000, thickness: 20_000 }),
    {
        CrystalBrush { props: CrystalProps::default() }
    }

    /// The immediate preview of one pointer step: a line from `from` to `to`
    /// at the brush's thickness.
    pub fn stroke(&mut self, from: Pos, to: Pos, color: Color) -> (r: Shape)
        ensures
            r == (Shape::Line { from, to, width: old(self).props.thickness, color }),
            final(self).props == old(self).props,
    {
        Shape::Line { from, to, width: self.props.thickness, color }
    }

    /// One growth tick: extends the last segment of every stroke along its
    /// direction by `speed * 0.5` units. Other segments are left as they are.
    pub fn growth_step(&mut self, strokes: &mut Vec<StrokeData>, speed: i64, _contain: bool)
        requires
            -MAX_GROWTH_SPEED <= speed <= MAX_GROWTH_SPEED,
            can_grow_spec(old(strokes)@, speed as int),
            forall|i: int| 0 <= i < old(strokes)@.len() ==> (#[trigger] old(strokes)@[i]).wf(),
        ensures
            grown_once(old(strokes)@, final(strokes)@, speed as int),
            forall|i: int| 0 <= i < final(strokes)@.len() ==> (#[trigger] final(strokes)@[i]).wf(),
            final(self).props == old(self).props,
    {
        let ghost before = strokes@;
        let mut i: usize = 0;
        while i < strokes.len()
            invariant
                -MAX_GROWTH_SPEED <= speed <= MAX_GROWTH_SPEED,
                0 <= i <= strokes@.len(),
                strokes@.len() == before.len(),
                can_grow_spec(before, speed as int),
                forall|k: int| 0 <= k < before.len() ==> (#[trigger] before[k]).wf(),
                forall|k: int| 0 <= k < i ==> grown_stroke(#[trigger] before[k], strokes@[k], speed as int),
                forall|k: int| i <= k < strokes@.len() ==> #[trigger] strokes@[k] == before[k],
                forall|k: int| 0 <= k < i ==> (#[trigger] strokes@[k]).wf(),
            decreases strokes@.len() - i,
        {
            let n = strokes[i].segments.len();
            if n > 0 {
                let last = strokes[i].segments[n - 1];
                let off = growth_offset_exec(last.dir, speed);
                let mut grown = last;
                assert(before[i as int] == strokes@[i as int]);
                grown.end = Pos { x: last.end.x + off.0, y: last.end.y + off.1 };
                strokes[i].segments.set(n - 1, grown);
            }
            assert(grown_stroke(before[i as int], strokes@[i as int], speed as int));
            i = i + 1;
        }
    }
}

/// Machine form of `growth_offset`.
fn growth_offset_exec(dir: Vec2, speed: i64) -> (r: (i64, i64))
    requires
        -SCALE <= dir.x <= SCALE,
        -SCALE <= dir.y <= SCALE,
        -MAX_GROWTH_SPEED <= speed <= MAX_GROWTH_SPEED,
    ensures
        r.0 == growth_offset(dir, speed as int).0,
        r.1 == growth_offset(dir, speed as int).1,
        -MAX_GROWTH_SPEED <= r.0 <= MAX_GROWTH_SPEED,
        -MAX_GROWTH_SPEED <= r.1 <= MAX_GROWTH_SPEED,
{
    (half_scaled(dir.x, speed), half_scaled(dir.y, speed))
}

/// `d * speed / (2 * SCALE)`, rounded toward zero.
fn half_scaled(d: i64, speed: i64) -> (r: i64)
    requires
        -SCALE <= d <= SCALE,
        -MAX_GROWTH_SPEED <= speed <= MAX_GROWTH_SPEED,
    ensures
        r == div_trunc(d * speed, 2 * SCALE),
        -MAX_GROWTH_SPEED <= r <= MAX_GROWTH_SPEED,
{
    let md: u64 = if d >= 0 { d as u64 } else { (-d) as u64 };
    let ms: u64 = if speed >= 0 { speed as u64 } else { (-speed) as u64 };
    assert(md * ms <= SCALE * MAX_GROWTH_SPEED) by (nonlinear_arith)
        requires md <= SCALE, ms <= MAX_GROWTH_SPEED;
    let q: u64 = md * ms / 20_000;
    assert(q <= MAX_GROWTH_SPEED) by (nonlinear_arith)
        requires q == (md * ms) / 20_000, md * ms <= SCALE * MAX_GROWTH_SPEED, SCALE == 10_000;
    let positive = (d >= 0) == (speed >= 0);
    proof {
        assert(abs((d as int) * speed) == md * ms) by (nonlinear_arith)
            requires md == abs(d as int), ms == abs(speed as int);
        assert(positive ==> (d as int) * speed >= 0) by (nonlinear_arith)
            requires positive == ((d >= 0) == (speed >= 0));
        assert(!positive ==> (d as int) * speed <= 0) by (nonlinear_arith)
            requires positive == ((d >= 0) == (speed >= 0));
    }
    if positive {
        q as i64
    } else {
        -(q as i64)
    }
}

/// Whether one more growth tick at `speed` keeps every end point on the canvas.
pub fn can_grow(strokes: &Vec<StrokeData>, speed: i64) -> (r: bool)
    requires
        -MAX_GROWTH_SPEED <= speed <= MAX_GROWTH_SPEED,
        forall|i: int| 0 <= i < strokes@.len() ==> (#[trigger] strokes@[i]).wf(),
    ensures
        r == can_grow_spec(strokes@, speed as int),
{
    let mut i: usize = 0;
    while i < strokes.len()
        invariant
            0 <= i <= strokes@.len(),
            -MAX_GROWTH_SPEED <= speed <= MAX_GROWTH_SPEED,
            forall|k: int| 0 <= k < strokes@.len() ==> (#[trigger] strokes@[k]).wf(),
            forall|k: int| 0 <= k < i && (#[trigger] strokes@[k]).segments@.len() > 0 ==> {
                let last = strokes@[k].segments@[strokes@[k].segments@.len() - 1];
                let off = growth_offset(last.dir, speed as int);
                &&& -COORD_LIMIT <= last.end.x + off.0 <= COORD_LIMIT
                &&& -COORD_LIMIT <= last.end.y + off.1 <= COORD_LIMIT
            },
        decreases strokes@.len() - i,
    {
        let n = strokes[i].segments.len();
        if n > 0 {
            let last = strokes[i].segments[n - 1];
            assert(strokes@[i as int].wf());
            let off = growth_offset_exec(last.dir, speed);
            let x: i128 = last.end.x as i128 + off.0 as i128;
            let y: i128 = last.end.y as i128 + off.1 as i128;
            if x < -(COORD_LIMIT as i128) || x > COORD_LIMIT as i128 || y < -(COORD_LIMIT as i128)
                || y > COORD_LIMIT as i128 {
                return false;
            }
        }
        i = i + 1;
    }
    true
}

/// `after` is `before` grown by one tick at `speed`, possibly followed by
/// newly appended strokes.
pub open spec fn grown_then_appended(before: Seq<StrokeData>, after: Seq<StrokeData>, speed: int) -> bool {
    &&& after.len() >= before.len()
    &&& forall|i: int| 0 <= i < before.len() ==> grown_stroke(#[trigger] before[i], after[i], speed)
}

/// Linear growth law: over `T` consecutive growth ticks at `speed`, recorded
/// as `history[0]`, ..., `history[T]`, with strokes possibly appended between
/// ticks, the last segment of stroke `i` keeps its start and direction, its
/// end moves by exactly `T` times the per-tick offset, whatever the other
/// strokes hold, and the stroke's other segments stay put.
pub proof fn lemma_linear_growth(history: Seq<Seq<StrokeData>>, speed: int, i: int)
    requires
        history.len() >= 1,
        forall|t: int| 0 <= t < history.len() - 1 ==> grown_then_appended(#[trigger] history[t], history[t + 1], speed),
        0 <= i < history[0].len(),
        history[0][i].segments@.len() > 0,
    ensures
        ({
            let t_count = history.len() - 1;
            let first = history[0][i];
            let now = history[t_count][i];
            let n = first.segments@.len();
            let l0 = first.segments@[n - 1];
            let lt = now.segments@[n - 1];
            let off = growth_offset(l0.dir, speed);
            &&& history[t_count].len() >= history[0].len()
            &&& now.segments@.len() == n
            &&& forall|j: int| 0 <= j < n - 1 ==> #[trigger] now.segments@[j] == first.segments@[j]
            &&& lt.start == l0.start
            &&& lt.dir == l0.dir
            &&& lt.end.x == l0.end.x + t_count * off.0
            &&& lt.end.y == l0.end.y + t_count * off.1
        }),
    decreases history.len(),
{
    if history.len() > 1 {
        let prev = history.drop_last();
        assert forall|t: int| 0 <= t < prev.len() - 1 implies grown_then_appended(#[trigger] prev[t], prev[t + 1], speed) by {
            assert(prev[t] == history[t] && prev[t + 1] == history[t + 1]);
            assert(grown_then_appended(history[t], history[t + 1], speed));
        }
        lemma_linear_growth(prev, speed, i);
        let t_count = history.len() - 1;
        assert(grown_then_appended(history[t_count - 1], history[t_count], speed));
        assert(prev[t_count - 1] == history[t_count - 1]);
        assert(grown_stroke(history[t_count - 1][i], history[t_count][i], speed));
        let off = growth_offset(history[0][i].segments@[history[0][i].segments@.len() - 1].dir, speed);
        assert((t_count - 1) * off.0 + off.0 == t_count * off.0) by (nonlinear_arith);
        assert((t_count - 1) * off.1 + off.1 == t_count * off.1) by (nonlinear_arith);
    }
}

/// A growth tick extends a stroke the same way wherever it stands.
pub proof fn lemma_grown_once_appends(before: Seq<StrokeData>, after: Seq<StrokeData>, speed: int)
    requires
        grown_once(before, after, speed),
    ensures
        grown_then_appended(before, after, speed),
{
}

/// Two strokes that both grow by one tick from the same stroke hold the same
/// segments, color and thickness.
proof fn lemma_grown_stroke_unique(b: StrokeData, x: StrokeData, y: StrokeData, speed: int)
    requires
        grown_stroke(b, x, speed),
        grown_stroke(b, y, speed),
    ensures
        x.segments@ == y.segments@,
        x.color == y.color,
        x.thickness == y.thickness,
{
    let n = b.segments@.len();
    assert forall|j: int| 0 <= j < n implies x.segments@[j] == y.segments@[j] by {
        if j < n - 1 {
            assert(x.segments@[j] == b.segments@[j]);
            assert(y.segments@[j] == b.segments@[j]);
        }
    }
    assert(x.segments@ =~= y.segments@);
}

/// Independence law: growing the concatenation of two stroke lists gives,
/// stroke by stroke, what growing each list on its own gives.
pub proof fn lemma_growth_independent(
    a: Seq<StrokeData>,
    b: Seq<StrokeData>,
    ga: Seq<StrokeData>,
    gb: Seq<StrokeData>,
    g: Seq<StrokeData>,
    speed: int,
)
    requires
        grown_once(a, ga, speed),
        grown_once(b, gb, speed),
        grown_once(a + b, g, speed),
    ensures
        g.len() == ga.len() + gb.len(),
        forall|i: int| 0 <= i < ga.len() ==> {
            &&& (#[trigger] g[i]).segments@ == ga[i].segments@
            &&& g[i].color == ga[i].color
            &&& g[i].thickness == ga[i].thickness
        },
        forall|j: int| 0 <= j < gb.len() ==> {
            &&& (#[trigger] g[ga.len() + j]).segments@ == gb[j].segments@
            &&& g[ga.len() + j].color == gb[j].color
            &&& g[ga.len() + j].thickness == gb[j].thickness
        },
{
    let ab = a + b;
    assert forall|i: int| 0 <= i < ga.len() implies {
        &&& (#[trigger] g[i]).segments@ == ga[i].segments@
        &&& g[i].color == ga[i].color
        &&& g[i].thickness == ga[i].thickness
    } by {
        assert(ab[i] == a[i]);
        assert(grown_stroke(ab[i], g[i], speed));
        assert(grown_stroke(a[i], ga[i], speed));
        lemma_grown_stroke_unique(a[i], g[i], ga[i], speed);
    }
    assert forall|j: int| 0 <= j < gb.len() implies {
        &&& (#[trigger] g[ga.len() + j]).segments@ == gb[j].segments@
        &&& g[ga.len() + j].color == gb[j].color
        &&& g[ga.len() + j].thickness == gb[j].thickness
    } by {
        let k = ga.len() + j;
        assert(ab[k] == b[j]);
        assert(grown_stroke(ab[k], g[k], speed));
        assert(grown_stroke(b[j], gb[j], speed));
        lemma_grown_stroke_unique(b[j], g[k], gb[j], speed);
    }
}

/// Direction law of a committed stroke: each segment's direction is the
/// horizontal fallback where its two points coincide, and otherwise (beyond
/// the degenerate length) has length `SCALE` up to rounding of its last unit.
pub proof fn lemma_segment_direction(a: Pos, b: Pos, born: u64)
    requires
        a.valid(),
        b.valid(),
    ensures
        ({
            let d = path_segment(a, b, born).dir;
            &&& a == b ==> d == Vec2 { x: SCALE, y: 0 }
            &&& dist_sq(a, b) > DEGENERATE_SQ ==> {
                &&& d.x * d.x + d.y * d.y < SCALE * SCALE + SCALE
                &&& (abs(d.x as int) + 1) * (abs(d.x as int) + 1) + (abs(d.y as int) + 1) * (abs(d.y as int) + 1) > SCALE * SCALE
            }
        }),
{
    if dist_sq(a, b) > DEGENERATE_SQ {
        lemma_unit_dir_length(a, b);
        crate::geometry::lemma_unit_dir_range(a, b);
    }
}

} // verus!
