use crystal_painter::brushes::blotter::Blot;
use crystal_painter::brushes::BrushKind;
use crystal_painter::brushes::blotter_props::BlotShape;
use crystal_painter::color::Color;
use crystal_painter::geometry::{Pos, Rect, SCALE};
use crystal_painter::history::History;
use crystal_painter::painter::{CanvasPainter, Shape};
use crystal_painter::state::{AppState, DECAY_SPEED, GROW_SPEED, MAX_SWATCHES};

const PT: i64 = SCALE;

fn blotter_state() -> AppState {
    let mut s = AppState::default();
    s.set_brush(BrushKind::Blotter, 0);
    s
}

#[test]
fn default_session_values() {
    let s = AppState::default();
    assert_eq!(s.current_color, Color::from_rgb(255, 255, 255));
    assert_eq!(s.canvas_bg, Color::from_rgb(59, 47, 47));
    assert_eq!(s.swatches, vec![Color::from_rgb(120, 200, 240), Color::from_rgb(255, 160, 140)]);
    assert_eq!(s.active_brush, BrushKind::Crystal);
    assert!(s.paused);
    assert_eq!(s.growth_speed, 3_500);
    assert!(!s.stroke_active);
}

#[test]
fn destroy_empties_marks_and_next_stroke_works() {
    let mut s = blotter_state();
    s.pointer_down(Pos::new(0, 0));
    s.pointer_move(Pos::new(0, 0));
    s.pointer_move(Pos::new(20 * PT, 0));
    s.pointer_up(1);
    s.set_brush(BrushKind::Crystal, 1);
    s.pointer_down(Pos::new(0, 0));
    s.pointer_move(Pos::new(0, 0));
    s.pointer_move(Pos::new(5 * PT, 0));
    s.pointer_up(2);
    assert_eq!(s.blots.len(), 5);
    assert_eq!(s.strokes.len(), 1);
    s.should_destroy = true;
    assert!(!s.handle_requests());
    assert!(s.blots.is_empty());
    assert!(s.strokes.is_empty());
    assert!(!s.should_destroy);
    s.set_brush(BrushKind::Blotter, 3);
    s.pointer_down(Pos::new(0, 0));
    s.pointer_move(Pos::new(8 * PT, 0));
    assert_eq!(s.blots.len(), 2);
}

#[test]
fn destroy_mid_stroke_leaves_no_runtime_state() {
    let mut s = blotter_state();
    s.pointer_down(Pos::new(0, 0));
    s.pointer_move(Pos::new(3 * PT, 0));
    s.destroy_canvas();
    assert!(!s.stroke_active);
    assert_eq!(s.blotter.last_pos, None);
    assert_eq!(s.blotter.stroke_accum, 0);
    assert!(s.current_points.is_empty());
}

#[test]
fn moves_while_idle_do_nothing() {
    let mut s = AppState::default();
    s.pointer_move(Pos::new(10, 10));
    assert!(s.current_points.is_empty());
}

#[test]
fn crystal_path_skips_repeated_points_and_commits() {
    let mut s = AppState::default();
    s.pointer_down(Pos::new(0, 0));
    s.pointer_move(Pos::new(0, 0));
    s.pointer_move(Pos::new(0, 0));
    s.pointer_move(Pos::new(10 * PT, 0));
    assert_eq!(s.current_points.len(), 2);
    s.pointer_up(42);
    assert!(s.current_points.is_empty());
    assert_eq!(s.strokes.len(), 1);
    assert_eq!(s.strokes[0].segments.len(), 1);
    assert_eq!(s.strokes[0].segments[0].born, 42);
}

#[test]
fn single_point_crystal_stroke_is_discarded() {
    let mut s = AppState::default();
    s.pointer_down(Pos::new(0, 0));
    s.pointer_move(Pos::new(4, 4));
    s.pointer_up(0);
    assert!(s.strokes.is_empty());
}

#[test]
fn drip_session_leaves_marks() {
    let mut s = AppState::default();
    s.set_brush(BrushKind::Drip, 0);
    s.pointer_down(Pos::new(0, 0));
    s.pointer_move(Pos::new(0, 0));
    s.pointer_move(Pos::new(PT, 0));
    s.pointer_move(Pos::new(2 * PT, 0));
    assert_eq!(s.drips.len(), 2);
    assert_eq!(s.drips[0].to, Pos::new(PT, 216));
    assert_eq!(s.drips[1].from, Pos::new(PT, 0));
    s.pointer_up(0);
    assert_eq!(s.drip.velocity, 0);
    assert!(s.strokes.is_empty());
}

#[test]
fn switching_brush_mid_stroke_finishes_stroke() {
    let mut s = AppState::default();
    s.pointer_down(Pos::new(0, 0));
    s.pointer_move(Pos::new(0, 0));
    s.pointer_move(Pos::new(PT, PT));
    s.set_brush(BrushKind::Blotter, 5);
    assert_eq!(s.active_brush, BrushKind::Blotter);
    assert!(!s.stroke_active);
    assert_eq!(s.strokes.len(), 1);
    s.pointer_move(Pos::new(50 * PT, 0));
    assert!(s.blots.is_empty());
}

#[test]
fn growth_tick_waits_for_interval_and_pause() {
    let mut s = AppState::default();
    s.pointer_down(Pos::new(0, 0));
    s.pointer_move(Pos::new(0, 0));
    s.pointer_move(Pos::new(10 * PT, 0));
    s.pointer_up(0);
    assert!(!s.growth_tick(100));
    s.paused = false;
    s.growth_speed = 2 * PT;
    assert!(!s.growth_tick(16));
    assert!(s.growth_tick(17));
    assert_eq!(s.last_tick, 17);
    assert_eq!(s.strokes[0].segments[0].end, Pos::new(11 * PT, 0));
    assert!(!s.growth_tick(30));
    assert!(s.growth_tick(40));
    assert_eq!(s.strokes[0].segments[0].end, Pos::new(12 * PT, 0));
}

#[test]
fn exit_request_asks_to_close() {
    let mut s = AppState::default();
    assert!(!s.handle_requests());
    s.exit_request();
    assert!(s.should_exit);
    assert!(s.handle_requests());
}

#[test]
fn history_operations_change_nothing() {
    let mut h = History::new();
    h.push();
    h.undo();
    assert_eq!(h, History::new());
}

#[test]
fn background_is_one_filled_rect() {
    let rect = Rect { min: Pos::new(0, 0), max: Pos::new(10, 10) };
    let shapes = CanvasPainter::paint_background(rect, Color::from_rgb(1, 2, 3));
    assert_eq!(shapes, vec![Shape::RectFilled { rect, color: Color::from_rgb(1, 2, 3) }]);
}

#[test]
fn blots_paint_fill_and_halo() {
    let mut s = blotter_state();
    s.pointer_down(Pos::new(0, 0));
    s.pointer_move(Pos::new(4 * PT, 0));
    let shapes = CanvasPainter::paint_blots(&s.blots);
    // opacity 0.9 -> alpha 229; softness 0.15 -> halo alpha 17
    assert_eq!(
        shapes,
        vec![
            Shape::CircleFilled {
                center: Pos::new(4 * PT, 0),
                radius: 12 * PT,
                color: Color::from_rgba_unmultiplied(255, 255, 255, 229),
            },
            Shape::CircleStroke {
                center: Pos::new(4 * PT, 0),
                radius: 120_000 + 2_700,
                width: 4_500,
                color: Color::from_rgba_unmultiplied(255, 255, 255, 17),
            },
        ]
    );
}

#[test]
fn hard_blot_has_no_halo() {
    let mut s = blotter_state();
    s.blotter_props.softness = 0;
    s.pointer_down(Pos::new(0, 0));
    s.pointer_move(Pos::new(4 * PT, 0));
    assert_eq!(CanvasPainter::paint_blots(&s.blots).len(), 1);
}

#[test]
fn strokes_paint_one_line_per_segment() {
    let mut s = AppState::default();
    s.pointer_down(Pos::new(0, 0));
    for p in [(0, 0), (PT, 0), (PT, PT)] {
        s.pointer_move(Pos::new(p.0, p.1));
    }
    s.pointer_up(0);
    let shapes = CanvasPainter::paint_strokes(&s.strokes, 2 * PT);
    assert_eq!(shapes.len(), 2);
    assert_eq!(
        shapes[1],
        Shape::Line { from: Pos::new(PT, 0), to: Pos::new(PT, PT), width: 2 * PT, color: Color::white() }
    );
}

#[test]
fn active_path_preview_needs_two_points() {
    assert!(CanvasPainter::paint_active_path(&vec![Pos::new(1, 1)]).is_empty());
    let pts = vec![Pos::new(0, 0), Pos::new(1, 0), Pos::new(1, 1)];
    let shapes = CanvasPainter::paint_active_path(&pts);
    assert_eq!(shapes.len(), 2);
    assert_eq!(
        shapes[0],
        Shape::Line { from: Pos::new(0, 0), to: Pos::new(1, 0), width: PT, color: Color::white() }
    );
}

#[test]
fn drips_and_overlay_paint() {
    let mut s = AppState::default();
    s.set_brush(BrushKind::Drip, 0);
    s.pointer_down(Pos::new(0, 0));
    s.pointer_move(Pos::new(0, 0));
    s.pointer_move(Pos::new(PT, 0));
    let shapes = CanvasPainter::paint_drips(&s.drips);
    assert_eq!(
        shapes,
        vec![Shape::Line { from: Pos::new(0, 0), to: Pos::new(PT, 216), width: 2 * PT, color: Color::white() }]
    );
    let rect = Rect { min: Pos::new(0, 0), max: Pos::new(1, 1) };
    assert!(CanvasPainter::paint_overlay(rect, &s.strokes, &s.blots).is_empty());
}

#[test]
fn square_blots_paint_squares() {
    let mut s = blotter_state();
    s.blotter_props.shape = BlotShape::Square;
    s.pointer_down(Pos::new(0, 0));
    s.pointer_move(Pos::new(4 * PT, 0));
    let shapes = CanvasPainter::paint_blots(&s.blots);
    let r = 12 * PT;
    let h = 12 * PT + 2_700;
    assert_eq!(
        shapes,
        vec![
            Shape::RectFilled {
                rect: Rect { min: Pos::new(4 * PT - r, -r), max: Pos::new(4 * PT + r, r) },
                color: Color::from_rgba_unmultiplied(255, 255, 255, 229),
            },
            Shape::RectStroke {
                rect: Rect { min: Pos::new(4 * PT - h, -h), max: Pos::new(4 * PT + h, h) },
                width: 4_500,
                color: Color::from_rgba_unmultiplied(255, 255, 255, 17),
            },
        ]
    );
}

#[test]
fn palette_adds_removes_and_selects() {
    let mut s = AppState::default();
    // white is not in the palette yet
    s.add_swatch();
    assert_eq!(s.swatches.len(), 3);
    assert_eq!(s.selected_swatch, Some(2));
    // a second add of the same color changes nothing
    s.add_swatch();
    assert_eq!(s.swatches.len(), 3);
    s.select_swatch(0);
    assert_eq!(s.current_color, Color::from_rgb(120, 200, 240));
    assert_eq!(s.selected_swatch, Some(0));
    s.current_color = Color::from_rgb(9, 9, 9);
    s.overwrite_swatch(1);
    assert_eq!(s.swatches[1], Color::from_rgb(9, 9, 9));
    s.selected_swatch = Some(2);
    s.remove_swatch();
    assert_eq!(s.swatches.len(), 2);
    assert_eq!(s.selected_swatch, None);
    s.remove_swatch();
    s.remove_swatch();
    s.remove_swatch();
    assert!(s.swatches.is_empty());
}

#[test]
fn palette_is_capped() {
    let mut s = AppState::default();
    let mut i: u8 = 0;
    while s.swatches.len() < MAX_SWATCHES {
        s.current_color = Color::from_rgb(i, 0, 0);
        s.add_swatch();
        i += 1;
    }
    s.current_color = Color::from_rgb(0, 0, 77);
    s.add_swatch();
    assert_eq!(s.swatches.len(), MAX_SWATCHES);
    assert!(!s.swatches.contains(&Color::from_rgb(0, 0, 77)));
}

#[test]
fn growth_controls_set_speed_and_run() {
    let mut s = AppState::default();
    s.toggle_pause();
    assert!(!s.paused);
    s.toggle_pause();
    s.start_decay();
    assert_eq!(s.growth_speed, DECAY_SPEED);
    assert!(s.auto_grow && !s.paused);
    s.start_growth();
    assert_eq!(s.growth_speed, GROW_SPEED);
    s.toggle_contain();
    assert!(s.contain_growth);
    s.request_destroy();
    assert!(s.should_destroy);
}

#[test]
fn decay_shrinks_last_segment() {
    let mut s = AppState::default();
    s.pointer_down(Pos::new(0, 0));
    s.pointer_move(Pos::new(0, 0));
    s.pointer_move(Pos::new(10 * PT, 0));
    s.pointer_up(0);
    s.start_decay();
    assert!(s.growth_tick(20));
    // -0.08 * 0.5 = -0.04 point
    assert_eq!(s.strokes[0].segments[0].end, Pos::new(10 * PT - 400, 0));
}

#[test]
fn tiny_soft_blot_halo_is_larger() {
    let b = Blot {
        pos: Pos::new(0, 0),
        radius: 1,
        color: Color::white(),
        softness: 11,
        opacity: SCALE,
        shape: BlotShape::Circle,
    };
    let shapes = CanvasPainter::paint_blots(&vec![b]);
    assert_eq!(shapes.len(), 2);
    match shapes[1] {
        Shape::CircleStroke { radius, color, .. } => {
            assert_eq!(radius, 2);
            assert!(color.a <= 255);
        }
        _ => panic!("expected a ring"),
    }
}

#[test]
fn frame_paints_in_drawing_order() {
    let mut s = AppState::default();
    s.pointer_down(Pos::new(0, 0));
    s.pointer_move(Pos::new(0, 0));
    s.pointer_move(Pos::new(PT, 0));
    s.pointer_up(0);
    s.set_brush(BrushKind::Blotter, 0);
    s.pointer_down(Pos::new(0, 0));
    s.pointer_move(Pos::new(4 * PT, 0));
    s.pointer_up(0);
    s.set_brush(BrushKind::Drip, 0);
    s.pointer_down(Pos::new(0, 0));
    s.pointer_move(Pos::new(0, 0));
    s.pointer_move(Pos::new(PT, 0));
    let rect = Rect { min: Pos::new(0, 0), max: Pos::new(100, 100) };
    let shapes = CanvasPainter::paint_frame(&s, rect);
    // background, one stroke line, blot fill and halo, one drip line, one preview line
    assert_eq!(shapes.len(), 6);
    assert_eq!(shapes[0], Shape::RectFilled { rect, color: s.canvas_bg });
    assert!(matches!(shapes[1], Shape::Line { width: 20_000, .. }));
    assert!(matches!(shapes[2], Shape::CircleFilled { .. }));
    assert!(matches!(shapes[3], Shape::CircleStroke { .. }));
    assert_eq!(
        shapes[4],
        Shape::Line { from: Pos::new(0, 0), to: Pos::new(PT, 216), width: 2 * PT, color: Color::white() }
    );
    assert_eq!(
        shapes[5],
        Shape::Line { from: Pos::new(0, 0), to: Pos::new(PT, 0), width: PT, color: Color::white() }
    );
}

#[test]
fn switching_from_blotter_or_drip_mid_stroke_resets_engine() {
    let mut s = blotter_state();
    s.pointer_down(Pos::new(0, 0));
    s.pointer_move(Pos::new(3 * PT, 0));
    s.set_brush(BrushKind::Drip, 0);
    assert_eq!(s.blotter.last_pos, None);
    assert_eq!(s.blotter.stroke_accum, 0);
    s.pointer_down(Pos::new(0, 0));
    s.pointer_move(Pos::new(0, 0));
    s.pointer_move(Pos::new(PT, 0));
    assert_eq!(s.drip.velocity, 216);
    s.set_brush(BrushKind::Crystal, 0);
    assert_eq!(s.drip.velocity, 0);
    assert!(s.strokes.is_empty());
    assert_eq!(s.drips.len(), 1);
}

#[test]
fn pending_destroy_clears_path_in_progress() {
    let mut s = AppState::default();
    s.pointer_down(Pos::new(0, 0));
    s.pointer_move(Pos::new(0, 0));
    s.pointer_move(Pos::new(PT, 0));
    s.request_destroy();
    s.exit_request();
    assert!(s.handle_requests());
    assert!(s.current_points.is_empty());
    assert!(!s.stroke_active);
}
