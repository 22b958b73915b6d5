//! The blotter brush: deposits evenly spaced blots along the pointer's path.

use vstd::prelude::*;
use vstd::arithmetic::div_mod::{lemma_fundamental_div_mod, lemma_fundamental_div_mod_converse};
use crate::brushes::blotter_props::{BlotShape, BlotterProps, MAX_SPACING};
use crate::color::Color;
use crate::geometry::{
    abs, distance, distance_spec, floor_sqrt, div_trunc, lemma_lerp_coord_between, lerp, lerp_spec, Pos,
    COORD_LIMIT, SCALE,
};

verus! {

/// A single paint blot placed on the canvas.
#[derive(Clone, Copy, Debug, PartialEq, Eq, Structural)]
pub struct Blot {
    pub pos: Pos,
    pub radius: i64,
    pub color: Color,
    pub softness: i64,
    pub opacity: i64,
    pub shape: BlotShape,
}

impl Blot {
    /// Position on the canvas, positive radius, softness and opacity fractions.
    pub open spec fn valid(self) -> bool {
        &&& self.pos.valid()
        &&& 0 < self.radius <= COORD_LIMIT
        &&& 0 <= self.softness <= SCALE
        &&& 0 <= self.opacity <= SCALE
    }
}

/// Runtime state of the blotter brush during a stroke.
#[derive(Clone, Copy, Debug)]
pub struct Blotter {
    /// Last point where movement was sampled.
    pub last_pos: Option<Pos>,
    /// Distance travelled since the last deposit.
    pub stroke_accum: i64,
}

/// How far along the sample's segment blot `k` lies, as a numerator over the
/// segment's length `dist`: the point where the travelled distance `total`
/// minus `k + 1` spacings was left over.
pub open spec fn deposit_offset(total: int, k: int, spacing: int, dist: int) -> int {
    let rem = total - (k + 1) * spacing;
    if rem < dist {
        dist - rem
    } else {
        0
    }
}

/// Where blot `k` of a sample from `last` to `current` lies.
pub open spec fn deposit_pos(last: Pos, current: Pos, total: int, k: int, spacing: int) -> (int, int) {
    let dist = distance_spec(last, current);
    if dist == 0 {
        (last.x as int, last.y as int)
    } else {
        lerp_spec(last, current, deposit_offset(total, k, spacing, dist), dist)
    }
}

/// Blot `k` of a sample: at `deposit_pos`, with the brush's settings and the color.
pub open spec fn is_deposit(
    b: Blot,
    last: Pos,
    current: Pos,
    total: int,
    k: int,
    props: BlotterProps,
    color: Color,
) -> bool {
    &&& (b.pos.x as int, b.pos.y as int) == deposit_pos(last, current, total, k, props.effective_spacing())
    &&& b.radius == props.radius
    &&& b.shape == props.shape
    &&& b.softness == props.softness
    &&& b.opacity == props.opacity
    &&& b.color == color
}

/// What one sample does: `after` and the new blots `r` are what the sample
/// to `current` makes of `before`, with the given settings and color.
pub open spec fn sampled(
    before: Blotter,
    after: Blotter,
    current: Pos,
    props: BlotterProps,
    color: Color,
    r: Seq<Blot>,
) -> bool {
    &&& after.wf()
    &&& after.last_pos == Some(current)
    &&& forall|k: int| 0 <= k < r.len() ==> (#[trigger] r[k]).valid()
    &&& match before.last_pos {
        None => {
            &&& r.len() == 0
            &&& after.stroke_accum == before.stroke_accum
        },
        Some(last) => {
            let total = before.travel(last, current);
            let s = props.effective_spacing();
            &&& r.len() == total / s
            &&& after.stroke_accum == total % s
            &&& forall|k: int|
                0 <= k < r.len() ==> is_deposit(#[trigger] r[k], last, current, total, k, props, color)
        },
    }
}

impl Blotter {
    /// The last sample lies on the canvas; the accumulator is bounded.
    pub open spec fn wf(self) -> bool {
        &&& 0 <= self.stroke_accum <= MAX_SPACING
        &&& match self.last_pos {
            Some(p) => p.valid(),
            None => true,
        }
    }

    /// Distance travelled in a sample from `last` to `current`, added to what was left over.
    pub open spec fn travel(self, last: Pos, current: Pos) -> int {
        self.stroke_accum + distance_spec(last, current)
    }

    pub fn new() -> (b: Blotter)
        ensures
            b.last_pos is None,
            b.stroke_accum == 0,
            b.wf(),
    {
        Blotter { last_pos: None, stroke_accum: 0 }
    }

    /// Called when the stroke starts.
    pub fn begin_stroke(&mut self, pos: Pos)
        requires
            pos.valid(),
        ensures
            final(self).last_pos == Some(pos),
            final(self).stroke_accum == 0,
            final(self).wf(),
    {
        self.last_pos = Some(pos);
        self.stroke_accum = 0;
    }

    /// Called when the stroke ends.
    pub fn end_stroke(&mut self)
        ensures
            final(self).last_pos is None,
            final(self).stroke_accum == 0,
            final(self).wf(),
    {
        self.last_pos = None;
        self.stroke_accum = 0;
    }

    /// Called for each pointer sample while the brush moves; returns the new blots.
    ///
    /// The first sample of a stroke is only recorded. After that, the distance
    /// from the last sample is added to the accumulator, and one blot is
    /// deposited for each whole spacing in it, at the point of the segment where
    /// that spacing was completed.
    pub fn tick(&mut self, current_pos: Pos, props: &BlotterProps, current_color: Color) -> (r: Vec<Blot>)
        requires
            old(self).wf(),
            current_pos.valid(),
            props.valid(),
        ensures
            sampled(*old(self), *final(self), current_pos, *props, current_color, r@),
    {
        let mut new_blots: Vec<Blot> = Vec::new();
        let last = match self.last_pos {
            Some(p) => p,
            None => {
                self.last_pos = Some(current_pos);
                return new_blots;
            },
        };
        let dist = distance(last, current_pos);
        let total: i64 = self.stroke_accum + dist;
        let spacing = props.effective_spacing_exec();
        let mut accum: i64 = total;
        assert(total - new_blots@.len() * spacing == total) by (nonlinear_arith)
            requires new_blots@.len() == 0;
        while accum >= spacing
            invariant
                0 <= accum <= total,
                accum == total - new_blots@.len() * spacing,
                total == self.travel(last, current_pos),
                dist == distance_spec(last, current_pos),
                0 <= dist,
                spacing == props.effective_spacing(),
                spacing > 0,
                last.valid(),
                current_pos.valid(),
                props.valid(),
                forall|k: int| 0 <= k < new_blots@.len() ==> (#[trigger] new_blots@[k]).valid(),
                forall|k: int|
                    0 <= k < new_blots@.len() ==> is_deposit(
                        #[trigger] new_blots@[k],
                        last,
                        current_pos,
                        total as int,
                        k,
                        *props,
                        current_color,
                    ),
            decreases accum,
        {
            let ghost k = new_blots@.len() as int;
            accum = accum - spacing;
            assert(accum == total - (k + 1) * spacing) by (nonlinear_arith)
                requires accum == total - k * spacing - spacing;
            let pos = if dist == 0 {
                last
            } else {
                let rem = if accum < dist { accum } else { dist };
                lerp(last, current_pos, dist - rem, dist)
            };
            let blot = Blot {
                pos,
                radius: props.radius,
                shape: props.shape,
                color: current_color,
                softness: props.softness,
                opacity: props.opacity,
            };
            new_blots.push(blot);
        }
        proof {
            lemma_fundamental_div_mod_converse(
                total as int,
                spacing as int,
                new_blots@.len() as int,
                accum as int,
            );
        }
        self.stroke_accum = accum;
        self.last_pos = Some(current_pos);
        new_blots
    }
}

/// Spacing law: when the leftover distance is below the spacing `s` in use,
/// a sample that travels `d` deposits exactly
/// `floor((accum + d) / s) - floor(accum / s)` blots, and leaves a leftover
/// that is again below `s`, so the law holds again for the next sample.
pub proof fn lemma_deposit_count(
    before: Blotter,
    after: Blotter,
    current: Pos,
    props: BlotterProps,
    color: Color,
    r: Seq<Blot>,
)
    requires
        before.wf(),
        sampled(before, after, current, props, color, r),
        before.last_pos is Some,
        before.stroke_accum < props.effective_spacing(),
    ensures
        ({
            let a = before.stroke_accum as int;
            let d = distance_spec(before.last_pos->0, current);
            let s = props.effective_spacing();
            &&& r.len() == (a + d) / s - a / s
            &&& 0 <= after.stroke_accum < s
        }),
{
    let a = before.stroke_accum as int;
    let s = props.effective_spacing();
    let last = before.last_pos->0;
    let d = distance_spec(last, current);
    assert(d >= 0);
    assert(a == 0 * s + a);
    lemma_fundamental_div_mod_converse(a, s, 0, a);
    vstd::arithmetic::div_mod::lemma_mod_pos_bound(a + d, s);
}

/// Machine division leaves a remainder of magnitude below the divisor.
proof fn lemma_div_trunc_remainder(v: int, d: int)
    requires
        0 < d,
    ensures
        abs(v - d * div_trunc(v, d)) < d,
{
    if v >= 0 {
        lemma_fundamental_div_mod(v, d);
        vstd::arithmetic::div_mod::lemma_mod_pos_bound(v, d);
    } else {
        lemma_fundamental_div_mod(-v, d);
        vstd::arithmetic::div_mod::lemma_mod_pos_bound(-v, d);
        assert(v - d * div_trunc(v, d) == -((-v) % d)) by (nonlinear_arith)
            requires
                div_trunc(v, d) == -((-v) / d),
                -v == d * ((-v) / d) + (-v) % d;
    }
}

/// Collinearity law: every blot of a sample lies between the sample's two
/// positions, and on the line through them up to rounding: the cross product
/// of the blot's offset from `last` with the segment is smaller in magnitude
/// than `|dx| + |dy|`.
pub proof fn lemma_deposit_on_segment(last: Pos, current: Pos, total: int, k: int, s: int)
    requires
        last.valid(),
        current.valid(),
        0 < s,
        0 <= k < total / s,
    ensures
        ({
            let p = deposit_pos(last, current, total, k, s);
            let dx = current.x - last.x;
            let dy = current.y - last.y;
            &&& (last.x <= current.x ==> last.x <= p.0 <= current.x)
            &&& (current.x <= last.x ==> current.x <= p.0 <= last.x)
            &&& (last.y <= current.y ==> last.y <= p.1 <= current.y)
            &&& (current.y <= last.y ==> current.y <= p.1 <= last.y)
            &&& (dx != 0 || dy != 0 ==> abs((p.0 - last.x) * dy - (p.1 - last.y) * dx) < abs(dx) + abs(dy))
        }),
{
    let p = deposit_pos(last, current, total, k, s);
    let dx: int = current.x - last.x;
    let dy: int = current.y - last.y;
    let dd = distance_spec(last, current);
    let nsq = crate::geometry::dist_sq(last, current);
    assert(nsq == dx * dx + dy * dy);
    assert(nsq >= 0) by (nonlinear_arith)
        requires nsq == dx * dx + dy * dy;
    crate::geometry::lemma_floor_sqrt(nsq as nat);
    if dd == 0 {
        let f = floor_sqrt(nsq as nat);
        assert(dx * dx + dy * dy < 1) by (nonlinear_arith)
            requires f == 0, nsq < (f + 1) * (f + 1), nsq == dx * dx + dy * dy;
        assert(dx == 0 && dy == 0) by (nonlinear_arith)
            requires dx * dx + dy * dy < 1;
    } else {
        let n = deposit_offset(total, k, s, dd);
        lemma_fundamental_div_mod(total, s);
        assert((k + 1) * s <= total) by (nonlinear_arith)
            requires k + 1 <= total / s, total == s * (total / s) + total % s, 0 <= total % s, 0 < s;
        assert(0 <= n <= dd);
        lemma_lerp_coord_between(last.x as int, current.x as int, n, dd);
        lemma_lerp_coord_between(last.y as int, current.y as int, n, dd);
        let qx = div_trunc(dx * n, dd);
        let qy = div_trunc(dy * n, dd);
        lemma_div_trunc_remainder(dx * n, dd);
        lemma_div_trunc_remainder(dy * n, dd);
        let rx = dx * n - dd * qx;
        let ry = dy * n - dd * qy;
        let cross = qx * dy - qy * dx;
        assert(dd * cross == ry * dx - rx * dy) by (nonlinear_arith)
            requires rx == dx * n - dd * qx, ry == dy * n - dd * qy, cross == qx * dy - qy * dx;
        assert(abs(ry * dx - rx * dy) <= abs(ry) * abs(dx) + abs(rx) * abs(dy)) by (nonlinear_arith);
        assert(abs(ry) * abs(dx) + abs(rx) * abs(dy) <= (dd - 1) * (abs(dx) + abs(dy))) by (nonlinear_arith)
            requires abs(ry) <= dd - 1, abs(rx) <= dd - 1;
        if dx != 0 || dy != 0 {
            assert(abs(cross) < abs(dx) + abs(dy)) by (nonlinear_arith)
                requires
                    abs(dd * cross) <= (dd - 1) * (abs(dx) + abs(dy)),
                    abs(dx) + abs(dy) > 0,
                    dd > 0;
        }
        assert(p == (last.x + qx, last.y + qy));
    }
}

} // verus!
