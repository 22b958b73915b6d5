//! Turns the canvas's marks into drawing primitives, in drawing order. Nothing
//! here changes a mark; the host draws the primitives it is handed.

use vstd::prelude::*;
use crate::brushes::blotter::Blot;
use crate::brushes::blotter_props::BlotShape;
use crate::brushes::crystal::{Segment, StrokeData};
use crate::brushes::drip::DripMark;
use crate::color::Color;
use crate::geometry::{Pos, Rect, COORD_LIMIT, SCALE};
use crate::state::{AppState, BASE_STROKE_WIDTH};

verus! {

/// A drawing primitive; lengths in fixed-point units.
#[derive(Clone, Copy, Debug, PartialEq, Eq, Structural)]
pub enum Shape {
    RectFilled { rect: Rect, color: Color },
    Line { from: Pos, to: Pos, width: i64, color: Color },
    CircleFilled { center: Pos, radius: i64, color: Color },
    CircleStroke { center: Pos, radius: i64, width: i64, color: Color },
    RectStroke { rect: Rect, width: i64, color: Color },
}

/// Softness above which a blot gets a feathered halo (0.001).
pub const FEATHER_THRESHOLD: i64 = 10;

/// Width of the live path preview (one point).
pub const PREVIEW_WIDTH: i64 = 10_000;

/// The line a segment of a stroke is drawn as.
pub open spec fn segment_line(seg: Segment, width: i64, color: Color) -> Shape {
    Shape::Line { from: seg.start, to: seg.end, width, color }
}

/// The width a stroke is drawn with: its own thickness, else `base`.
pub open spec fn stroke_width(st: StrokeData, base: i64) -> i64 {
    match st.thickness {
        Some(t) => t,
        None => base,
    }
}

/// The lines of one stroke, one per segment in order.
pub open spec fn stroke_lines(st: StrokeData, base: i64) -> Seq<Shape> {
    st.segments@.map_values(|seg: Segment| segment_line(seg, stroke_width(st, base), st.color))
}

/// The lines of all strokes, stroke after stroke.
pub open spec fn strokes_lines(strokes: Seq<StrokeData>, base: i64) -> Seq<Shape>
    decreases strokes.len(),
{
    if strokes.len() == 0 {
        Seq::empty()
    } else {
        strokes_lines(strokes.drop_last(), base) + stroke_lines(strokes.last(), base)
    }
}

/// Alpha of a blot's fill: its opacity on the 0 to 255 scale, rounded down.
pub open spec fn blot_alpha(b: Blot) -> int {
    b.opacity * 255 / SCALE as int
}

/// The square of half-side `r` around `c`.
pub open spec fn square_around(c: Pos, r: int) -> Rect {
    Rect {
        min: Pos { x: (c.x - r) as i64, y: (c.y - r) as i64 },
        max: Pos { x: (c.x + r) as i64, y: (c.y + r) as i64 },
    }
}

/// The filled primitive of a blot's shape.
pub open spec fn shape_fill(b: Blot, color: Color) -> Shape {
    match b.shape {
        BlotShape::Circle => Shape::CircleFilled { center: b.pos, radius: b.radius, color },
        BlotShape::Square => Shape::RectFilled { rect: square_around(b.pos, b.radius as int), color },
    }
}

/// The outline primitive of a blot's shape, at half-size `r`.
pub open spec fn shape_outline(b: Blot, r: int, width: int, color: Color) -> Shape {
    match b.shape {
        BlotShape::Circle => Shape::CircleStroke { center: b.pos, radius: r as i64, width: width as i64, color },
        BlotShape::Square => Shape::RectStroke { rect: square_around(b.pos, r), width: width as i64, color },
    }
}

/// Half-size of a blot's halo: `radius * (1 + softness * 0.15)`, the
/// increase rounded up so that a soft blot's halo is always larger.
pub open spec fn halo_radius(b: Blot) -> int {
    b.radius + (b.radius * b.softness * 3 + 20 * SCALE - 1) / (20 * SCALE) as int
}

/// Width of a blot's halo: `radius * 0.25 * softness`.
pub open spec fn halo_width(b: Blot) -> int {
    b.radius * b.softness / (4 * SCALE) as int
}

/// Alpha of a blot's halo: half the fill's alpha, scaled by the softness.
pub open spec fn halo_alpha(b: Blot) -> int {
    blot_alpha(b) * b.softness / (2 * SCALE) as int
}

/// The primitives of one blot: its shape filled with the blot's opacity,
/// then, for a soft blot, a fainter and slightly larger outline of the same
/// shape.
pub open spec fn blot_shapes(b: Blot) -> Seq<Shape> {
    let c = b.color;
    let fill = shape_fill(b, Color { r: c.r, g: c.g, b: c.b, a: blot_alpha(b) as u8 });
    if b.softness > FEATHER_THRESHOLD {
        let halo = shape_outline(
            b,
            halo_radius(b),
            halo_width(b),
            Color { r: c.r, g: c.g, b: c.b, a: halo_alpha(b) as u8 },
        );
        seq![fill, halo]
    } else {
        seq![fill]
    }
}

/// Halo law: a soft blot's halo is strictly larger than the blot, and no
/// more opaque than its fill.
pub proof fn lemma_halo_larger_fainter(b: Blot)
    requires
        b.valid(),
        b.softness > FEATHER_THRESHOLD,
    ensures
        halo_radius(b) > b.radius,
        0 <= halo_alpha(b) <= blot_alpha(b) <= 255,
{
    let rs = b.radius * b.softness;
    assert(rs > 0) by (nonlinear_arith)
        requires b.radius > 0, b.softness > 0, rs == b.radius * b.softness;
    assert((rs * 3 + 20 * SCALE - 1) / (20 * SCALE as int) >= 1) by (nonlinear_arith)
        requires rs >= 1, SCALE == 10_000;
    assert(b.radius * b.softness * 3 == rs * 3);
    let a = blot_alpha(b);
    assert(0 <= a <= 255) by (nonlinear_arith)
        requires a == (b.opacity * 255) / (SCALE as int), 0 <= b.opacity <= SCALE, SCALE == 10_000;
    assert(0 <= halo_alpha(b) <= a) by (nonlinear_arith)
        requires
            halo_alpha(b) == (a * b.softness) / (2 * SCALE as int),
            0 <= a,
            0 <= b.softness <= SCALE,
            SCALE == 10_000,
    {
        assert(a * b.softness <= a * (2 * SCALE)) by (nonlinear_arith)
            requires 0 <= a, b.softness <= SCALE, SCALE == 10_000;
        assert(a * b.softness >= 0) by (nonlinear_arith)
            requires 0 <= a, 0 <= b.softness;
    }
}

/// The primitives of all blots, blot after blot.
pub open spec fn blots_shapes(blots: Seq<Blot>) -> Seq<Shape>
    decreases blots.len(),
{
    if blots.len() == 0 {
        Seq::empty()
    } else {
        blots_shapes(blots.drop_last()) + blot_shapes(blots.last())
    }
}

/// The preview line from point `i` to point `i + 1` of a path.
pub open spec fn preview_line(pts: Seq<Pos>, i: int) -> Shape {
    Shape::Line {
        from: pts[i],
        to: pts[i + 1],
        width: PREVIEW_WIDTH,
        color: Color { r: 255, g: 255, b: 255, a: 255 },
    }
}

/// The preview lines of a path, one per pair of consecutive points.
pub open spec fn preview_lines(pts: Seq<Pos>) -> Seq<Shape> {
    if pts.len() < 2 {
        Seq::empty()
    } else {
        Seq::new((pts.len() - 1) as nat, |i: int| preview_line(pts, i))
    }
}

/// The line a drip mark is drawn as.
pub open spec fn drip_line(m: DripMark) -> Shape {
    Shape::Line { from: m.from, to: m.to, width: m.thickness, color: m.color }
}

/// The square of half-side `r` around `c`.
fn square(c: Pos, r: i64) -> (q: Rect)
    requires
        c.valid(),
        0 <= r <= 2 * COORD_LIMIT,
    ensures
        q == square_around(c, r as int),
{
    Rect { min: Pos { x: c.x - r, y: c.y - r }, max: Pos { x: c.x + r, y: c.y + r } }
}

/// The lines of all drip marks, in order.
pub open spec fn drips_lines(marks: Seq<DripMark>) -> Seq<Shape> {
    marks.map_values(|m: DripMark| drip_line(m))
}

/// A whole frame in drawing order: background, committed strokes, blots,
/// drip marks, then the preview of the path in progress (the debug overlay
/// adds nothing).
pub open spec fn frame_shapes(state: AppState, rect: Rect) -> Seq<Shape> {
    seq![Shape::RectFilled { rect, color: state.canvas_bg }]
        + strokes_lines(state.strokes@, BASE_STROKE_WIDTH)
        + blots_shapes(state.blots@)
        + drips_lines(state.drips@)
        + preview_lines(state.current_points@)
}

/// Painter for all canvas elements.
pub struct CanvasPainter;

impl CanvasPainter {
    /// Solid background.
    pub fn paint_background(rect: Rect, canvas_color: Color) -> (r: Vec<Shape>)
        ensures
            r@ == seq![Shape::RectFilled { rect, color: canvas_color }],
    {
        let mut r = Vec::new();
        r.push(Shape::RectFilled { rect, color: canvas_color });
        proof {
            assert(r@ =~= seq![Shape::RectFilled { rect, color: canvas_color }]);
        }
        r
    }

    /// All crystal strokes, one line per segment.
    pub fn paint_strokes(strokes: &Vec<StrokeData>, base_size: i64) -> (r: Vec<Shape>)
        ensures
            r@ == strokes_lines(strokes@, base_size),
    {
        let mut out: Vec<Shape> = Vec::new();
        let mut i: usize = 0;
        while i < strokes.len()
            invariant
                0 <= i <= strokes@.len(),
                out@ == strokes_lines(strokes@.take(i as int), base_size),
            decreases strokes@.len() - i,
        {
            let st = &strokes[i];
            let width = match st.thickness {
                Some(t) => t,
                None => base_size,
            };
            let ghost before = out@;
            let mut j: usize = 0;
            while j < st.segments.len()
                invariant
                    0 <= j <= st.segments@.len(),
                    width == stroke_width(*st, base_size),
                    out@ == before + stroke_lines(*st, base_size).take(j as int),
                decreases st.segments@.len() - j,
            {
                let seg = st.segments[j];
                out.push(Shape::Line { from: seg.start, to: seg.end, width, color: st.color });
                proof {
                    assert(stroke_lines(*st, base_size).take(j + 1) =~= stroke_lines(*st, base_size).take(
                        j as int,
                    ).push(segment_line(seg, width, st.color)));
                }
                j = j + 1;
            }
            proof {
                assert(stroke_lines(*st, base_size).take(j as int) =~= stroke_lines(*st, base_size));
                assert(strokes@.take(i + 1).drop_last() =~= strokes@.take(i as int));
                assert(strokes@.take(i + 1).last() == strokes@[i as int]);
            }
            i = i + 1;
        }
        proof {
            assert(strokes@.take(i as int) =~= strokes@);
        }
        out
    }

    /// All blots: each a filled circle with its opacity, and a feathered ring
    /// where it is soft.
    pub fn paint_blots(blots: &Vec<Blot>) -> (r: Vec<Shape>)
        requires
            forall|k: int| 0 <= k < blots@.len() ==> (#[trigger] blots@[k]).valid(),
        ensures
            r@ == blots_shapes(blots@),
    {
        let mut out: Vec<Shape> = Vec::new();
        let mut i: usize = 0;
        while i < blots.len()
            invariant
                0 <= i <= blots@.len(),
                forall|k: int| 0 <= k < blots@.len() ==> (#[trigger] blots@[k]).valid(),
                out@ == blots_shapes(blots@.take(i as int)),
            decreases blots@.len() - i,
        {
            let b = blots[i];
            assert(blots@[i as int].valid());
            let ghost before = out@;
            assert(b.opacity * 255 <= SCALE * 255) by (nonlinear_arith)
                requires b.opacity <= SCALE;
            let alpha: i64 = b.opacity * 255 / SCALE;
            assert(0 <= alpha <= 255) by (nonlinear_arith)
                requires alpha == (b.opacity * 255) / (SCALE as int), 0 <= b.opacity <= SCALE, SCALE == 10_000;
            let fill_color = Color { r: b.color.r, g: b.color.g, b: b.color.b, a: alpha as u8 };
            match b.shape {
                BlotShape::Circle => {
                    out.push(Shape::CircleFilled { center: b.pos, radius: b.radius, color: fill_color });
                },
                BlotShape::Square => {
                    out.push(Shape::RectFilled { rect: square(b.pos, b.radius), color: fill_color });
                },
            }
            if b.softness > FEATHER_THRESHOLD {
                assert(0 <= b.radius * b.softness <= 0x4000_0000 * SCALE) by (nonlinear_arith)
                    requires 0 < b.radius <= 0x4000_0000, 0 <= b.softness <= SCALE;
                assert(0 <= alpha * b.softness <= 255 * SCALE) by (nonlinear_arith)
                    requires 0 <= alpha <= 255, 0 <= b.softness <= SCALE;
                let rs: i64 = b.radius * b.softness;
                let feather: i64 = alpha * b.softness / (2 * SCALE);
                assert(feather <= 255) by (nonlinear_arith)
                    requires
                        feather == (alpha * b.softness) / (2 * SCALE as int),
                        alpha * b.softness <= 255 * SCALE,
                        SCALE == 10_000,
                        alpha * b.softness >= 0;
                let extra: i64 = (rs * 3 + 20 * SCALE - 1) / (20 * SCALE);
                assert(extra <= b.radius) by (nonlinear_arith)
                    requires
                        extra == (rs * 3 + 20 * SCALE - 1) / (20 * SCALE as int),
                        rs == b.radius * b.softness,
                        0 <= b.softness <= SCALE,
                        0 < b.radius,
                        SCALE == 10_000,
                {
                    assert(rs * 3 <= b.radius * SCALE * 3) by (nonlinear_arith)
                        requires rs == b.radius * b.softness, b.softness <= SCALE, 0 < b.radius;
                }
                let halo_r: i64 = b.radius + extra;
                let halo_color = Color { r: b.color.r, g: b.color.g, b: b.color.b, a: feather as u8 };
                let width: i64 = rs / (4 * SCALE);
                match b.shape {
                    BlotShape::Circle => {
                        out.push(Shape::CircleStroke { center: b.pos, radius: halo_r, width, color: halo_color });
                    },
                    BlotShape::Square => {
                        out.push(Shape::RectStroke { rect: square(b.pos, halo_r), width, color: halo_color });
                    },
                }
            }
            proof {
                assert(out@ =~= before + blot_shapes(b));
                assert(blots@.take(i + 1).drop_last() =~= blots@.take(i as int));
                assert(blots@.take(i + 1).last() == blots@[i as int]);
            }
            i = i + 1;
        }
        proof {
            assert(blots@.take(i as int) =~= blots@);
        }
        out
    }

    /// Live preview of the path being drawn: a thin white line between
    /// consecutive points; nothing for fewer than two points.
    pub fn paint_active_path(pts: &Vec<Pos>) -> (r: Vec<Shape>)
        ensures
            pts@.len() < 2 ==> r@.len() == 0,
            pts@.len() >= 2 ==> r@.len() == pts@.len() - 1,
            forall|i: int| 0 <= i < r@.len() ==> #[trigger] r@[i] == preview_line(pts@, i),
            r@ == preview_lines(pts@),
    {
        let mut out: Vec<Shape> = Vec::new();
        if pts.len() < 2 {
            return out;
        }
        let mut i: usize = 1;
        while i < pts.len()
            invariant
                1 <= i <= pts@.len(),
                out@.len() == i - 1,
                forall|k: int| 0 <= k < out@.len() ==> #[trigger] out@[k] == preview_line(pts@, k),
            decreases pts@.len() - i,
        {
            out.push(Shape::Line {
                from: pts[i - 1],
                to: pts[i],
                width: PREVIEW_WIDTH,
                color: Color::white(),
            });
            i = i + 1;
        }
        assert(out@ =~= preview_lines(pts@));
        out
    }

    /// All drip marks, one line each.
    pub fn paint_drips(marks: &Vec<DripMark>) -> (r: Vec<Shape>)
        ensures
            r@.len() == marks@.len(),
            forall|i: int| 0 <= i < r@.len() ==> #[trigger] r@[i] == drip_line(marks@[i]),
            r@ == drips_lines(marks@),
    {
        let mut out: Vec<Shape> = Vec::new();
        let mut i: usize = 0;
        while i < marks.len()
            invariant
                0 <= i <= marks@.len(),
                out@.len() == i,
                forall|k: int| 0 <= k < out@.len() ==> #[trigger] out@[k] == drip_line(marks@[k]),
            decreases marks@.len() - i,
        {
            let m = marks[i];
            out.push(Shape::Line { from: m.from, to: m.to, width: m.thickness, color: m.color });
            i = i + 1;
        }
        assert(out@ =~= drips_lines(marks@));
        out
    }

    /// A whole frame of the session's canvas within `rect`, in drawing order.
    pub fn paint_frame(state: &AppState, rect: Rect) -> (r: Vec<Shape>)
        requires
            state.wf(),
        ensures
            r@ == frame_shapes(*state, rect),
    {
        let mut out = CanvasPainter::paint_background(rect, state.canvas_bg);
        let mut strokes = CanvasPainter::paint_strokes(&state.strokes, BASE_STROKE_WIDTH);
        out.append(&mut strokes);
        let mut blots = CanvasPainter::paint_blots(&state.blots);
        out.append(&mut blots);
        let mut drips = CanvasPainter::paint_drips(&state.drips);
        out.append(&mut drips);
        let mut preview = CanvasPainter::paint_active_path(&state.current_points);
        out.append(&mut preview);
        let mut overlay = CanvasPainter::paint_overlay(rect, &state.strokes, &state.blots);
        out.append(&mut overlay);
        assert(out@ =~= frame_shapes(*state, rect));
        out
    }

    /// Debug overlay; it draws nothing.
    pub fn paint_overlay(_rect: Rect, _strokes: &Vec<StrokeData>, _blots: &Vec<Blot>) -> (r: Vec<Shape>)
        ensures
            r@.len() == 0,
    {
        Vec::new()
    }
}

} // verus!
