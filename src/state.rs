//! Session state: the active brush, the committed marks, and the stroke
//! state machine that feeds pointer events to the active brush engine.
//!
//! A stroke is Idle or Active. `pointer_down` makes it Active; each
//! `pointer_move` while Active is one sample for the active brush;
//! `pointer_up` commits what the brush finalizes and returns to Idle.
//! Switching brushes while Active first ends the stroke under the outgoing
//! brush's rules.

use vstd::prelude::*;
use crate::brushes::BrushKind;
use crate::brushes::blotter::{sampled, Blot, Blotter};
use crate::brushes::blotter_props::{BlotShape, BlotterProps};
use crate::brushes::crystal::{
    can_grow, can_grow_spec, grown_once, path_segment, CrystalBrush, StrokeData, MAX_GROWTH_SPEED,
};
use crate::brushes::crystal_props::CrystalProps;
use crate::brushes::drip::{next_velocity, DripBrush, DripMark};
use crate::brushes::drip_props::DripProps;
use crate::color::Color;
use crate::geometry::Pos;

verus! {

/// Least time between growth ticks, in milliseconds.
pub const GROWTH_INTERVAL_MS: u64 = 16;

/// Most swatches the palette holds.
pub const MAX_SWATCHES: usize = 32;

/// Growth speed the Grow control sets (0.35 point per tick).
pub const GROW_SPEED: i64 = 3_500;

/// Growth speed the Decay control sets (-0.08 point per tick).
pub const DECAY_SPEED: i64 = -800;

/// Width of crystal strokes that carry no thickness of their own (2 points).
pub const BASE_STROKE_WIDTH: i64 = 20_000;

pub struct AppState {
    pub current_color: Color,
    pub canvas_bg: Color,
    pub swatches: Vec<Color>,
    pub selected_swatch: Option<usize>,
    pub active_brush: BrushKind,
    pub crystal: CrystalBrush,
    pub drip: DripBrush,
    pub blotter: Blotter,
    pub blotter_props: BlotterProps,
    /// Committed crystal strokes, in drawing order.
    pub strokes: Vec<StrokeData>,
    /// Committed blots, in drawing order.
    pub blots: Vec<Blot>,
    /// Committed drip marks, in drawing order.
    pub drips: Vec<DripMark>,
    /// The path of the stroke in progress (crystal and drip brushes).
    pub current_points: Vec<Pos>,
    /// Whether a stroke is in progress.
    pub stroke_active: bool,
    /// Host clock (milliseconds) at the last growth tick.
    pub last_tick: u64,
    pub paused: bool,
    pub contain_growth: bool,
    /// Growth speed, in units per tick.
    pub growth_speed: i64,
    pub auto_grow: bool,
    pub should_destroy: bool,
    pub should_exit: bool,
}

/// The path with `pos` appended, unless it already ends there.
pub open spec fn extend_path(path: Seq<Pos>, pos: Pos) -> Seq<Pos> {
    if path.len() > 0 && path.last() == pos {
        path
    } else {
        path.push(pos)
    }
}

impl AppState {
    /// Every brush's state and settings, and every mark, are well formed.
    pub open spec fn wf(self) -> bool {
        &&& self.blotter.wf()
        &&& self.blotter_props.valid()
        &&& self.drip.wf()
        &&& -MAX_GROWTH_SPEED <= self.growth_speed <= MAX_GROWTH_SPEED
        &&& forall|i: int| 0 <= i < self.current_points@.len() ==> (#[trigger] self.current_points@[i]).valid()
        &&& forall|i: int| 0 <= i < self.strokes@.len() ==> (#[trigger] self.strokes@[i]).wf()
        &&& forall|i: int| 0 <= i < self.blots@.len() ==> (#[trigger] self.blots@[i]).valid()
    }

    /// The marks on the canvas and the stroke state are as in `other`.
    pub open spec fn same_canvas(self, other: AppState) -> bool {
        &&& self.strokes@ == other.strokes@
        &&& self.blots@ == other.blots@
        &&& self.drips@ == other.drips@
        &&& self.current_points@ == other.current_points@
        &&& self.stroke_active == other.stroke_active
    }

    /// The current color and the palette are as in `other`.
    pub open spec fn same_palette(self, other: AppState) -> bool {
        &&& self.current_color == other.current_color
        &&& self.swatches@ == other.swatches@
        &&& self.selected_swatch == other.selected_swatch
    }

    /// The growth simulation's controls and clock are as in `other`.
    pub open spec fn same_growth(self, other: AppState) -> bool {
        &&& self.paused == other.paused
        &&& self.contain_growth == other.contain_growth
        &&& self.growth_speed == other.growth_speed
        &&& self.auto_grow == other.auto_grow
        &&& self.last_tick == other.last_tick
    }

    /// The background and every brush's settings are as in `other`.
    pub open spec fn same_brush_settings(self, other: AppState) -> bool {
        &&& self.canvas_bg == other.canvas_bg
        &&& self.crystal.props == other.crystal.props
        &&& self.drip.props == other.drip.props
        &&& self.blotter_props == other.blotter_props
    }

    /// The pending destroy and exit requests are as in `other`.
    pub open spec fn same_requests(self, other: AppState) -> bool {
        &&& self.should_destroy == other.should_destroy
        &&& self.should_exit == other.should_exit
    }

    /// The brushes' runtime state is as in `other`.
    pub open spec fn same_runtime(self, other: AppState) -> bool {
        &&& self.blotter == other.blotter
        &&& self.drip.velocity == other.drip.velocity
    }

    /// Everything the host sets but the active brush is as in `other`.
    pub open spec fn same_config(self, other: AppState) -> bool {
        &&& self.same_palette(other)
        &&& self.same_growth(other)
        &&& self.same_brush_settings(other)
        &&& self.same_requests(other)
    }

    /// The brushes, their settings and the host's selections are as in `other`.
    pub open spec fn same_settings(self, other: AppState) -> bool {
        &&& self.same_config(other)
        &&& self.active_brush == other.active_brush
    }

    /// The canvas is empty, no stroke is in progress and the brushes are at
    /// rest, as on a new canvas.
    pub open spec fn cleared(self) -> bool {
        &&& self.strokes@.len() == 0
        &&& self.blots@.len() == 0
        &&& self.drips@.len() == 0
        &&& self.current_points@.len() == 0
        &&& !self.stroke_active
        &&& self.blotter.last_pos is None
        &&& self.blotter.stroke_accum == 0
        &&& self.drip.velocity == 0
    }

    /// `after` is `before` once the stroke in progress has ended under the
    /// rules of `before`'s active brush, with segments stamped `now_ms`: a
    /// crystal path of two or more points is committed as a stroke, the drip
    /// and the blotter come to rest, the path is cleared and the stroke is
    /// Idle. The host's settings other than the active brush are kept.
    pub open spec fn released(before: AppState, after: AppState, now_ms: u64) -> bool {
        &&& after.wf()
        &&& !after.stroke_active
        &&& after.current_points@.len() == 0
        &&& after.same_config(before)
        &&& after.blots@ == before.blots@
        &&& after.drips@ == before.drips@
        &&& before.active_brush == BrushKind::Crystal ==> {
            let path = before.current_points@;
            &&& after.same_runtime(before)
            &&& path.len() < 2 ==> after.strokes@ == before.strokes@
            &&& path.len() >= 2 ==> {
                let st = after.strokes@.last();
                &&& after.strokes@.len() == before.strokes@.len() + 1
                &&& after.strokes@.drop_last() == before.strokes@
                &&& st.color == before.current_color
                &&& st.thickness is None
                &&& st.segments@.len() == path.len() - 1
                &&& forall|i: int| 0 <= i < st.segments@.len() ==>
                    #[trigger] st.segments@[i] == path_segment(path[i], path[i + 1], now_ms)
            }
        }
        &&& before.active_brush == BrushKind::Drip ==> {
            &&& after.strokes@ == before.strokes@
            &&& after.blotter == before.blotter
            &&& after.drip.velocity == 0
        }
        &&& before.active_brush == BrushKind::Blotter ==> {
            &&& after.strokes@ == before.strokes@
            &&& after.blotter.last_pos is None
            &&& after.blotter.stroke_accum == 0
            &&& after.drip.velocity == before.drip.velocity
        }
    }

    /// Clears every mark and ends any stroke: the canvas is empty and the
    /// brushes are at rest, as on a new canvas.
    pub fn destroy_canvas(&mut self)
        requires
            old(self).wf(),
        ensures
            final(self).wf(),
            final(self).cleared(),
            final(self).same_settings(*old(self)),
    {
        self.strokes.clear();
        self.blots.clear();
        self.drips.clear();
        self.current_points.clear();
        self.stroke_active = false;
        self.blotter.end_stroke();
        self.drip.finish_stroke();
    }

    /// Asks the host loop to end.
    pub fn exit_request(&mut self)
        ensures
            old(self).wf() ==> final(self).wf(),
            final(self).should_exit,
            final(self).should_destroy == old(self).should_destroy,
            final(self).same_canvas(*old(self)),
            final(self).same_runtime(*old(self)),
            final(self).same_palette(*old(self)),
            final(self).same_growth(*old(self)),
            final(self).same_brush_settings(*old(self)),
            final(self).active_brush == old(self).active_brush,
    {
        self.should_exit = true;
    }

    /// Pointer pressed on the canvas: the stroke becomes Active, and the
    /// blotter, if active, starts from `pos`.
    pub fn pointer_down(&mut self, pos: Pos)
        requires
            old(self).wf(),
            pos.valid(),
        ensures
            final(self).wf(),
            final(self).stroke_active,
            final(self).same_settings(*old(self)),
            final(self).strokes@ == old(self).strokes@,
            final(self).blots@ == old(self).blots@,
            final(self).drips@ == old(self).drips@,
            final(self).current_points@ == old(self).current_points@,
            final(self).drip.velocity == old(self).drip.velocity,
            old(self).active_brush == BrushKind::Blotter ==> {
                &&& final(self).blotter.last_pos == Some(pos)
                &&& final(self).blotter.stroke_accum == 0
            },
            old(self).active_brush != BrushKind::Blotter ==> final(self).blotter == old(self).blotter,
    {
        self.stroke_active = true;
        if self.active_brush == BrushKind::Blotter {
            self.blotter.begin_stroke(pos);
        }
    }

    /// One pointer sample while the pointer is held. Idle, nothing happens.
    /// Active, the crystal brush extends the path; the drip brush extends
    /// the path and, from its second point on, leaves a drip mark (while its
    /// velocity stays within `COORD_LIMIT`); the blotter deposits its new
    /// blots.
    pub fn pointer_move(&mut self, pos: Pos)
        requires
            old(self).wf(),
            pos.valid(),
        ensures
            final(self).wf(),
            final(self).same_settings(*old(self)),
            final(self).stroke_active == old(self).stroke_active,
            final(self).strokes@ == old(self).strokes@,
            !old(self).stroke_active ==> {
                &&& final(self).same_canvas(*old(self))
                &&& final(self).blotter == old(self).blotter
                &&& final(self).drip.velocity == old(self).drip.velocity
            },
            old(self).stroke_active && old(self).active_brush == BrushKind::Crystal ==> {
                &&& final(self).current_points@ == extend_path(old(self).current_points@, pos)
                &&& final(self).blots@ == old(self).blots@
                &&& final(self).drips@ == old(self).drips@
                &&& final(self).blotter == old(self).blotter
                &&& final(self).drip.velocity == old(self).drip.velocity
            },
            old(self).stroke_active && old(self).active_brush == BrushKind::Drip ==> {
                let path = old(self).current_points@;
                let moved = path.len() > 0 && path.last() != pos;
                &&& final(self).current_points@ == extend_path(path, pos)
                &&& final(self).blots@ == old(self).blots@
                &&& final(self).blotter == old(self).blotter
                &&& if moved && old(self).drip.can_advance_spec() {
                    &&& final(self).drip.velocity == next_velocity(old(self).drip.velocity as int, old(self).drip.props)
                    &&& final(self).drips@ == old(self).drips@.push(DripMark {
                        from: path.last(),
                        to: Pos { x: pos.x, y: (pos.y + final(self).drip.velocity) as i64 },
                        thickness: old(self).drip.props.thickness,
                        color: old(self).current_color,
                    })
                } else {
                    &&& final(self).drip.velocity == old(self).drip.velocity
                    &&& final(self).drips@ == old(self).drips@
                }
            },
            old(self).stroke_active && old(self).active_brush == BrushKind::Blotter ==> {
                &&& final(self).current_points@ == old(self).current_points@
                &&& final(self).drips@ == old(self).drips@
                &&& final(self).drip.velocity == old(self).drip.velocity
                &&& final(self).blots@.len() >= old(self).blots@.len()
                &&& final(self).blots@.take(old(self).blots@.len() as int) == old(self).blots@
                &&& sampled(
                    old(self).blotter,
                    final(self).blotter,
                    pos,
                    old(self).blotter_props,
                    old(self).current_color,
                    final(self).blots@.skip(old(self).blots@.len() as int),
                )
            },
    {
        if !self.stroke_active {
            return;
        }
        match self.active_brush {
            BrushKind::Crystal => {
                self.extend_current_path(pos);
            },
            BrushKind::Drip => {
                let n = self.current_points.len();
                let moved = n > 0 && self.current_points[n - 1] != pos;
                if moved && self.drip.can_advance() {
                    let from = self.current_points[n - 1];
                    let mark = self.drip.stroke(from, pos, self.current_color);
                    self.drips.push(mark);
                }
                self.extend_current_path(pos);
            },
            BrushKind::Blotter => {
                let ghost before = self.blots@;
                let mut new_blots = self.blotter.tick(pos, &self.blotter_props, self.current_color);
                let ghost added = new_blots@;
                self.blots.append(&mut new_blots);
                proof {
                    assert(self.blots@.take(before.len() as int) =~= before);
                    assert(self.blots@.skip(before.len() as int) =~= added);
                    assert forall|i: int| 0 <= i < self.blots@.len() implies (#[trigger] self.blots@[i]).valid() by {
                        if i >= before.len() {
                            assert(self.blots@[i] == added[i - before.len()]);
                        }
                    }
                }
            },
        }
    }

    fn extend_current_path(&mut self, pos: Pos)
        requires
            pos.valid(),
            forall|i: int| 0 <= i < old(self).current_points@.len() ==> (#[trigger] old(self).current_points@[i]).valid(),
        ensures
            final(self).current_points@ == extend_path(old(self).current_points@, pos),
            forall|i: int| 0 <= i < final(self).current_points@.len() ==> (#[trigger] final(self).current_points@[i]).valid(),
            final(self).same_settings(*old(self)),
            final(self).strokes@ == old(self).strokes@,
            final(self).blots@ == old(self).blots@,
            final(self).drips@ == old(self).drips@,
            final(self).stroke_active == old(self).stroke_active,
            final(self).blotter == old(self).blotter,
            final(self).drip.velocity == old(self).drip.velocity,
    {
        let n = self.current_points.len();
        if n == 0 || self.current_points[n - 1] != pos {
            self.current_points.push(pos);
        }
    }

    /// Pointer released: the crystal brush commits the path as a stroke
    /// (when it has at least two points), the drip and blotter brushes come
    /// to rest; the path is cleared and the stroke is Idle. Segments are
    /// stamped with `now_ms`.
    pub fn pointer_up(&mut self, now_ms: u64)
        requires
            old(self).wf(),
        ensures
            AppState::released(*old(self), *final(self), now_ms),
            final(self).active_brush == old(self).active_brush,
    {
        match self.active_brush {
            BrushKind::Crystal => {
                let committed = StrokeData::from_path(&self.current_points, self.current_color, self.auto_grow, now_ms);
                match committed {
                    Some(data) => {
                        let ghost before = self.strokes@;
                        self.strokes.push(data);
                        proof {
                            assert(self.strokes@.drop_last() =~= before);
                            assert forall|i: int| 0 <= i < self.strokes@.len() implies (#[trigger] self.strokes@[i]).wf() by {
                                if i < before.len() {
                                    assert(self.strokes@[i] == before[i]);
                                }
                            }
                        }
                    },
                    None => {},
                }
            },
            BrushKind::Drip => {
                self.drip.finish_stroke();
            },
            BrushKind::Blotter => {
                self.blotter.end_stroke();
            },
        }
        self.current_points.clear();
        self.stroke_active = false;
    }

    /// Selects the active brush. A stroke in progress under another brush is
    /// first ended under that brush's rules, as `pointer_up` would.
    pub fn set_brush(&mut self, kind: BrushKind, now_ms: u64)
        requires
            old(self).wf(),
        ensures
            final(self).wf(),
            final(self).active_brush == kind,
            old(self).stroke_active && old(self).active_brush != kind ==> AppState::released(
                *old(self),
                *final(self),
                now_ms,
            ),
            !(old(self).stroke_active && old(self).active_brush != kind) ==> {
                &&& final(self).same_canvas(*old(self))
                &&& final(self).same_runtime(*old(self))
                &&& final(self).same_config(*old(self))
            },
    {
        if self.stroke_active && self.active_brush != kind {
            self.pointer_up(now_ms);
        }
        self.active_brush = kind;
    }

    /// One growth tick of the host loop at time `now_ms`. Unless paused, and
    /// once more than `GROWTH_INTERVAL_MS` has passed since the last tick,
    /// the tick is taken: the last segment of every stroke grows, unless that
    /// would carry an end point off the canvas, in which case nothing grows.
    /// Returns whether the strokes grew.
    pub fn growth_tick(&mut self, now_ms: u64) -> (grew: bool)
        requires
            old(self).wf(),
        ensures
            final(self).wf(),
            ({
                let due = !old(self).paused && now_ms >= old(self).last_tick
                    && now_ms - old(self).last_tick > GROWTH_INTERVAL_MS;
                &&& grew == (due && can_grow_spec(old(self).strokes@, old(self).growth_speed as int))
                &&& final(self).last_tick == if due { now_ms } else { old(self).last_tick }
                &&& grew ==> grown_once(old(self).strokes@, final(self).strokes@, old(self).growth_speed as int)
                &&& !grew ==> final(self).strokes@ == old(self).strokes@
            }),
            final(self).blots@ == old(self).blots@,
            final(self).drips@ == old(self).drips@,
            final(self).current_points@ == old(self).current_points@,
            final(self).stroke_active == old(self).stroke_active,
            final(self).blotter == old(self).blotter,
            final(self).drip.velocity == old(self).drip.velocity,
            final(self).growth_speed == old(self).growth_speed,
            final(self).paused == old(self).paused,
    {
        if self.paused || now_ms < self.last_tick || now_ms - self.last_tick <= GROWTH_INTERVAL_MS {
            return false;
        }
        self.last_tick = now_ms;
        if can_grow(&self.strokes, self.growth_speed) {
            self.crystal.growth_step(&mut self.strokes, self.growth_speed, self.contain_growth);
            true
        } else {
            false
        }
    }

    /// Start of a frame: carries out a pending destroy request. Returns
    /// whether the host should close.
    pub fn handle_requests(&mut self) -> (close: bool)
        requires
            old(self).wf(),
        ensures
            final(self).wf(),
            close == old(self).should_exit,
            !final(self).should_destroy,
            final(self).should_exit == old(self).should_exit,
            final(self).active_brush == old(self).active_brush,
            final(self).same_palette(*old(self)),
            final(self).same_growth(*old(self)),
            final(self).same_brush_settings(*old(self)),
            old(self).should_destroy ==> final(self).cleared(),
            !old(self).should_destroy ==> final(self).same_canvas(*old(self)) && final(self).same_runtime(
                *old(self),
            ),
    {
        if self.should_destroy {
            self.destroy_canvas();
            self.should_destroy = false;
        }
        self.should_exit
    }
}

impl AppState {
    /// Adds the current color to the palette and selects it, unless the
    /// palette already holds it or is full.
    pub fn add_swatch(&mut self)
        ensures
            old(self).wf() ==> final(self).wf(),
            ({
                let added = !old(self).swatches@.contains(old(self).current_color)
                    && old(self).swatches@.len() < MAX_SWATCHES;
                &&& added ==> final(self).swatches@ == old(self).swatches@.push(old(self).current_color)
                    && final(self).selected_swatch == Some(old(self).swatches@.len() as usize)
                &&& !added ==> final(self).swatches@ == old(self).swatches@
                    && final(self).selected_swatch == old(self).selected_swatch
            }),
            final(self).current_color == old(self).current_color,
            final(self).same_canvas(*old(self)),
            final(self).same_growth(*old(self)),
            final(self).same_brush_settings(*old(self)),
            final(self).same_requests(*old(self)),
            final(self).same_runtime(*old(self)),
            final(self).active_brush == old(self).active_brush,
    {
        let mut i: usize = 0;
        let n = self.swatches.len();
        while i < n
            invariant
                0 <= i <= n,
                n == self.swatches@.len(),
                forall|k: int| 0 <= k < i ==> self.swatches@[k] != self.current_color,
            decreases n - i,
        {
            if self.swatches[i] == self.current_color {
                return;
            }
            i = i + 1;
        }
        if n < MAX_SWATCHES {
            self.swatches.push(self.current_color);
            self.selected_swatch = Some(n);
        }
    }

    /// Removes the last swatch; a selection that pointed past the end is cleared.
    pub fn remove_swatch(&mut self)
        ensures
            old(self).wf() ==> final(self).wf(),
            old(self).swatches@.len() == 0 ==> final(self).swatches@ == old(self).swatches@
                && final(self).selected_swatch == old(self).selected_swatch,
            old(self).swatches@.len() > 0 ==> {
                &&& final(self).swatches@ == old(self).swatches@.drop_last()
                &&& final(self).selected_swatch == match old(self).selected_swatch {
                    Some(sel) => if sel >= final(self).swatches@.len() { None } else { Some(sel) },
                    None => None,
                }
            },
            final(self).current_color == old(self).current_color,
            final(self).same_canvas(*old(self)),
            final(self).same_growth(*old(self)),
            final(self).same_brush_settings(*old(self)),
            final(self).same_requests(*old(self)),
            final(self).same_runtime(*old(self)),
            final(self).active_brush == old(self).active_brush,
    {
        if let Some(_) = self.swatches.pop() {
            if let Some(sel) = self.selected_swatch {
                if sel >= self.swatches.len() {
                    self.selected_swatch = None;
                }
            }
        }
    }

    /// Picks swatch `idx` as the current color.
    pub fn select_swatch(&mut self, idx: usize)
        requires
            idx < old(self).swatches@.len(),
        ensures
            old(self).wf() ==> final(self).wf(),
            final(self).current_color == old(self).swatches@[idx as int],
            final(self).selected_swatch == Some(idx),
            final(self).swatches@ == old(self).swatches@,
            final(self).same_canvas(*old(self)),
            final(self).same_growth(*old(self)),
            final(self).same_brush_settings(*old(self)),
            final(self).same_requests(*old(self)),
            final(self).same_runtime(*old(self)),
            final(self).active_brush == old(self).active_brush,
    {
        self.current_color = self.swatches[idx];
        self.selected_swatch = Some(idx);
    }

    /// Overwrites swatch `idx` with the current color.
    pub fn overwrite_swatch(&mut self, idx: usize)
        requires
            idx < old(self).swatches@.len(),
        ensures
            old(self).wf() ==> final(self).wf(),
            final(self).swatches@ == old(self).swatches@.update(idx as int, old(self).current_color),
            final(self).current_color == old(self).current_color,
            final(self).selected_swatch == old(self).selected_swatch,
            final(self).same_canvas(*old(self)),
            final(self).same_growth(*old(self)),
            final(self).same_brush_settings(*old(self)),
            final(self).same_requests(*old(self)),
            final(self).same_runtime(*old(self)),
            final(self).active_brush == old(self).active_brush,
    {
        self.swatches.set(idx, self.current_color);
    }

    /// Pauses a running growth simulation, or resumes a paused one.
    pub fn toggle_pause(&mut self)
        ensures
            old(self).wf() ==> final(self).wf(),
            final(self).paused == !old(self).paused,
            final(self).growth_speed == old(self).growth_speed,
            final(self).same_canvas(*old(self)),
            final(self).same_palette(*old(self)),
            final(self).same_brush_settings(*old(self)),
            final(self).same_requests(*old(self)),
            final(self).same_runtime(*old(self)),
            final(self).contain_growth == old(self).contain_growth,
            final(self).auto_grow == old(self).auto_grow,
            final(self).last_tick == old(self).last_tick,
            final(self).active_brush == old(self).active_brush,
    {
        self.paused = !self.paused;
    }

    /// Starts growth at the Grow speed.
    pub fn start_growth(&mut self)
        ensures
            old(self).wf() ==> final(self).wf(),
            final(self).growth_speed == GROW_SPEED,
            final(self).auto_grow,
            !final(self).paused,
            final(self).same_canvas(*old(self)),
            final(self).same_palette(*old(self)),
            final(self).same_brush_settings(*old(self)),
            final(self).same_requests(*old(self)),
            final(self).same_runtime(*old(self)),
            final(self).contain_growth == old(self).contain_growth,
            final(self).last_tick == old(self).last_tick,
            final(self).active_brush == old(self).active_brush,
    {
        self.growth_speed = GROW_SPEED;
        self.auto_grow = true;
        self.paused = false;
    }

    /// Starts shrinking at the Decay speed.
    pub fn start_decay(&mut self)
        ensures
            old(self).wf() ==> final(self).wf(),
            final(self).growth_speed == DECAY_SPEED,
            final(self).auto_grow,
            !final(self).paused,
            final(self).same_canvas(*old(self)),
            final(self).same_palette(*old(self)),
            final(self).same_brush_settings(*old(self)),
            final(self).same_requests(*old(self)),
            final(self).same_runtime(*old(self)),
            final(self).contain_growth == old(self).contain_growth,
            final(self).last_tick == old(self).last_tick,
            final(self).active_brush == old(self).active_brush,
    {
        self.growth_speed = DECAY_SPEED;
        self.auto_grow = true;
        self.paused = false;
    }

    pub fn toggle_contain(&mut self)
        ensures
            old(self).wf() ==> final(self).wf(),
            final(self).contain_growth == !old(self).contain_growth,
            final(self).same_canvas(*old(self)),
            final(self).same_palette(*old(self)),
            final(self).same_brush_settings(*old(self)),
            final(self).same_requests(*old(self)),
            final(self).same_runtime(*old(self)),
            final(self).paused == old(self).paused,
            final(self).growth_speed == old(self).growth_speed,
            final(self).auto_grow == old(self).auto_grow,
            final(self).last_tick == old(self).last_tick,
            final(self).active_brush == old(self).active_brush,
    {
        self.contain_growth = !self.contain_growth;
    }

    /// Asks for the canvas to be cleared at the start of the next frame.
    pub fn request_destroy(&mut self)
        ensures
            old(self).wf() ==> final(self).wf(),
            final(self).should_destroy,
            final(self).same_canvas(*old(self)),
            final(self).same_palette(*old(self)),
            final(self).same_growth(*old(self)),
            final(self).same_brush_settings(*old(self)),
            final(self).same_runtime(*old(self)),
            final(self).should_exit == old(self).should_exit,
            final(self).active_brush == old(self).active_brush,
    {
        self.should_destroy = true;
    }
}

impl Default for AppState {
    fn default() -> (s: AppState)
        ensures
            s.wf(),
            s.current_color == (Color { r: 255, g: 255, b: 255, a: 255 }),
            s.canvas_bg == (Color { r: 59, g: 47, b: 47, a: 255 }),
            s.swatches@ == seq![Color { r: 120, g: 200, b: 240, a: 255 }, Color { r: 255, g: 160, b: 140, a: 255 }],
            s.selected_swatch is None,
            s.active_brush == BrushKind::Crystal,
            s.blotter.last_pos is None,
            s.blotter.stroke_accum == 0,
            s.blotter_props == (BlotterProps {
                radius: 120_000,
                softness: 1_500,
                opacity: 9_000,
                spacing: 40_000,
                shape: BlotShape::Circle,
            }),
            s.drip.velocity == 0,
            s.drip.props == (DripProps { gravity: 12_000, viscosity: 9_000, thickness: 20_000 }),
            s.crystal.props == (CrystalProps { branch_angle: 3_500, branch_decay: 7_000, min_segment: 60_000, thickness: 20_000 }),
            s.strokes@.len() == 0,
            s.blots@.len() == 0,
            s.drips@.len() == 0,
            s.current_points@.len() == 0,
            !s.stroke_active,
            s.last_tick == 0,
            s.paused,
            !s.contain_growth,
            s.growth_speed == 3_500,
            !s.auto_grow,
            !s.should_destroy,
            !s.should_exit,
    {
        let mut swatches: Vec<Color> = Vec::new();
        swatches.push(Color::from_rgb(120, 200, 240));
        swatches.push(Color::from_rgb(255, 160, 140));
        proof {
            assert(swatches@ =~= seq![Color { r: 120, g: 200, b: 240, a: 255 }, Color { r: 255, g: 160, b: 140, a: 255 }]);
        }
        AppState {
            current_color: Color::from_rgb(255, 255, 255),
            canvas_bg: Color::from_rgb(59, 47, 47),
            swatches,
            selected_swatch: None,
            active_brush: BrushKind::Crystal,
            crystal: CrystalBrush::new(),
            drip: DripBrush::new(),
            blotter: Blotter::new(),
            blotter_props: BlotterProps::default(),
            strokes: Vec::new(),
            blots: Vec::new(),
            drips: Vec::new(),
            current_points: Vec::new(),
            stroke_active: false,
            last_tick: 0,
            paused: true,
            contain_growth: false,
            growth_speed: 3_500,
            auto_grow: false,
            should_destroy: false,
            should_exit: false,
        }
    }
}

} // verus!
