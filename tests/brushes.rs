use crystal_painter::brushes::blotter::{Blot, Blotter};
use crystal_painter::brushes::blotter_props::{BlotShape, BlotterProps};
use crystal_painter::brushes::crystal::{can_grow, CrystalBrush, StrokeData};
use crystal_painter::brushes::drip::DripBrush;
use crystal_painter::brushes::drip_props::DripProps;
use crystal_painter::color::Color;
use crystal_painter::geometry::{Pos, Vec2, SCALE};

const PT: i64 = SCALE;

fn props_with_spacing(spacing: i64) -> BlotterProps {
    BlotterProps { spacing, ..BlotterProps::default() }
}

fn red() -> Color {
    Color::from_rgb(255, 0, 0)
}

#[test]
fn straight_sample_deposits_evenly_spaced_blots() {
    let mut b = Blotter::new();
    b.begin_stroke(Pos::new(0, 0));
    let blots = b.tick(Pos::new(20 * PT, 0), &props_with_spacing(4 * PT), red());
    let xs: Vec<i64> = blots.iter().map(|bl| bl.pos.x).collect();
    assert_eq!(xs, vec![4 * PT, 8 * PT, 12 * PT, 16 * PT, 20 * PT]);
    assert!(blots.iter().all(|bl| bl.pos.y == 0));
    assert_eq!(b.stroke_accum, 0);
}

#[test]
fn blots_carry_brush_settings_and_color() {
    let props = BlotterProps::default();
    let mut b = Blotter::new();
    b.begin_stroke(Pos::new(0, 0));
    let blots = b.tick(Pos::new(0, 10 * PT), &props, red());
    assert_eq!(blots.len(), 2);
    for bl in &blots {
        assert_eq!(bl.radius, props.radius);
        assert_eq!(bl.softness, props.softness);
        assert_eq!(bl.opacity, props.opacity);
        assert_eq!(bl.color, red());
        assert_eq!(bl.shape, BlotShape::Circle);
    }
    assert_eq!(b.stroke_accum, 2 * PT);
}

#[test]
fn first_sample_without_start_only_records() {
    let mut b = Blotter::new();
    let blots = b.tick(Pos::new(50 * PT, 50 * PT), &BlotterProps::default(), red());
    assert!(blots.is_empty());
    assert_eq!(b.last_pos, Some(Pos::new(50 * PT, 50 * PT)));
    assert_eq!(b.stroke_accum, 0);
}

#[test]
fn deposit_count_follows_accumulated_distance() {
    // spacing 4: samples of 3, 3 and 10 points give 0, 1 and 3 blots
    let props = props_with_spacing(4 * PT);
    let mut b = Blotter::new();
    b.begin_stroke(Pos::new(0, 0));
    assert_eq!(b.tick(Pos::new(3 * PT, 0), &props, red()).len(), 0);
    assert_eq!(b.stroke_accum, 3 * PT);
    let second = b.tick(Pos::new(6 * PT, 0), &props, red());
    assert_eq!(second.len(), 1);
    assert_eq!(second[0].pos, Pos::new(4 * PT, 0));
    assert_eq!(b.stroke_accum, 2 * PT);
    let third = b.tick(Pos::new(16 * PT, 0), &props, red());
    assert_eq!(third.len(), 3);
    let xs: Vec<i64> = third.iter().map(|bl| bl.pos.x).collect();
    assert_eq!(xs, vec![8 * PT, 12 * PT, 16 * PT]);
    assert_eq!(b.stroke_accum, 0);
}

#[test]
fn diagonal_blots_lie_on_the_segment() {
    let mut b = Blotter::new();
    b.begin_stroke(Pos::new(0, 0));
    let blots = b.tick(Pos::new(30 * PT, 40 * PT), &props_with_spacing(10 * PT), red());
    let got: Vec<Pos> = blots.iter().map(|bl| bl.pos).collect();
    let want: Vec<Pos> = (1..=5).map(|k| Pos::new(6 * k * PT, 8 * k * PT)).collect();
    assert_eq!(got, want);
}

#[test]
fn negative_direction_blots_round_toward_start() {
    let mut b = Blotter::new();
    b.begin_stroke(Pos::new(0, 0));
    let blots = b.tick(Pos::new(-10_001, -3), &props_with_spacing(0), red());
    // distance floor(sqrt(10001^2 + 9)) = 10001 units, minimum spacing 1000
    assert_eq!(blots.len(), 10);
    assert_eq!(b.stroke_accum, 1);
    assert_eq!(blots[0].pos, Pos::new(-1_000, 0));
    assert_eq!(blots[9].pos, Pos::new(-10_000, -2));
    for bl in &blots {
        let cross = bl.pos.x * (-3) - bl.pos.y * (-10_001);
        assert!(cross.abs() < 10_004);
        assert!(-10_001 <= bl.pos.x && bl.pos.x <= 0);
        assert!(-3 <= bl.pos.y && bl.pos.y <= 0);
    }
}

#[test]
fn zero_spacing_is_raised_to_minimum() {
    let mut b = Blotter::new();
    b.begin_stroke(Pos::new(0, 0));
    let blots = b.tick(Pos::new(PT, 0), &props_with_spacing(0), red());
    // minimum spacing is 0.1 point
    assert_eq!(blots.len(), 10);
    assert_eq!(blots[0].pos, Pos::new(PT / 10, 0));
    assert_eq!(blots[9].pos, Pos::new(PT, 0));
}

#[test]
fn end_stroke_resets_runtime_state() {
    let mut b = Blotter::new();
    b.begin_stroke(Pos::new(0, 0));
    b.tick(Pos::new(3 * PT, 0), &props_with_spacing(4 * PT), red());
    b.end_stroke();
    assert_eq!(b.last_pos, None);
    assert_eq!(b.stroke_accum, 0);
}

#[test]
fn blotter_props_default_values() {
    let p = BlotterProps::default();
    assert_eq!(p.radius, 12 * PT);
    assert_eq!(p.softness, 1_500);
    assert_eq!(p.opacity, 9_000);
    assert_eq!(p.spacing, 4 * PT);
    assert_eq!(p.shape, BlotShape::Circle);
    assert_eq!(p.effective_spacing_exec(), 4 * PT);
    assert_eq!(props_with_spacing(-5).effective_spacing_exec(), 1_000);
}

fn path(points: &[(i64, i64)]) -> Vec<Pos> {
    points.iter().map(|&(x, y)| Pos::new(x, y)).collect()
}

#[test]
fn crystal_stroke_has_one_segment_per_step() {
    let pts = path(&[(0, 0), (10 * PT, 0), (10 * PT, 0), (10 * PT, 5 * PT), (13 * PT, 9 * PT)]);
    let st = StrokeData::from_path(&pts, red(), true, 77).unwrap();
    assert_eq!(st.segments.len(), 4);
    assert_eq!(st.color, red());
    assert_eq!(st.thickness, None);
    for (i, seg) in st.segments.iter().enumerate() {
        assert_eq!(seg.start, pts[i]);
        assert_eq!(seg.end, pts[i + 1]);
        assert_eq!(seg.born, 77);
        assert_eq!(seg.generation, 0);
        assert!(seg.growing);
    }
    assert_eq!(st.segments[0].dir, Vec2::new(SCALE, 0));
    // coinciding points fall back to the horizontal direction
    assert_eq!(st.segments[1].dir, Vec2::new(SCALE, 0));
    assert_eq!(st.segments[2].dir, Vec2::new(0, SCALE));
    assert_eq!(st.segments[3].dir, Vec2::new(6_000, 8_000));
}

#[test]
fn crystal_directions_are_unit_length() {
    let pts = path(&[(0, 0), (7, 3), (-12_345, 67_890), (1_000_000, -3)]);
    let st = StrokeData::from_path(&pts, red(), false, 0).unwrap();
    for seg in &st.segments {
        let len = ((seg.dir.x as f64).powi(2) + (seg.dir.y as f64).powi(2)).sqrt();
        assert!((len - SCALE as f64).abs() <= 2.0, "length {len}");
    }
}

#[test]
fn short_path_makes_no_stroke() {
    assert!(StrokeData::from_path(&Vec::new(), red(), false, 0).is_none());
    assert!(StrokeData::from_path(&path(&[(1, 1)]), red(), false, 0).is_none());
}

#[test]
fn add_segment_appends_growing_segment() {
    let mut st = StrokeData::new(red(), true);
    assert!(st.segments.is_empty());
    st.add_segment(Pos::new(0, 0), Pos::new(5, 0), Vec2::new(SCALE, 0), 9);
    assert_eq!(st.segments.len(), 1);
    assert_eq!(st.segments[0].end, Pos::new(5, 0));
    assert_eq!(st.segments[0].born, 9);
    assert!(st.segments[0].growing);
}

#[test]
fn one_growth_tick_extends_last_segment() {
    let st = StrokeData::from_path(&path(&[(0, 0), (10 * PT, 0)]), red(), true, 0).unwrap();
    let mut strokes = vec![st];
    let mut brush = CrystalBrush::new();
    assert!(can_grow(&strokes, 2 * PT));
    brush.growth_step(&mut strokes, 2 * PT, false);
    assert_eq!(strokes[0].segments[0].end, Pos::new(11 * PT, 0));
    assert_eq!(strokes[0].segments[0].start, Pos::new(0, 0));
}

#[test]
fn growth_is_linear_and_per_stroke() {
    let a = StrokeData::from_path(&path(&[(0, 0), (3 * PT, 0), (3 * PT, 4 * PT)]), red(), true, 0).unwrap();
    let b = StrokeData::from_path(&path(&[(0, 0), (-3 * PT, -4 * PT)]), red(), true, 0).unwrap();
    let empty = StrokeData::new(red(), true);
    let mut strokes = vec![a, empty, b];
    let mut brush = CrystalBrush::new();
    let speed = PT; // 0.5 point per tick
    for _ in 0..4 {
        brush.growth_step(&mut strokes, speed, false);
    }
    assert_eq!(strokes[0].segments[0].end, Pos::new(3 * PT, 0));
    assert_eq!(strokes[0].segments[1].end, Pos::new(3 * PT, 4 * PT + 2 * PT));
    assert!(strokes[1].segments.is_empty());
    assert_eq!(strokes[2].segments[0].end, Pos::new(-3 * PT - 4 * 3_000, -4 * PT - 4 * 4_000));
}

#[test]
fn growth_bound_detects_edge_of_canvas() {
    let st = StrokeData::from_path(&path(&[(0, 0), (1_073_741_824, 0)]), red(), true, 0).unwrap();
    let strokes = vec![st];
    assert!(can_grow(&strokes, 0));
    assert!(!can_grow(&strokes, 2));
}

#[test]
fn crystal_defaults() {
    let brush = CrystalBrush::new();
    assert_eq!(brush.props.branch_angle, 3_500);
    assert_eq!(brush.props.branch_decay, 7_000);
    assert_eq!(brush.props.min_segment, 6 * PT);
    assert_eq!(brush.props.thickness, 2 * PT);
}

#[test]
fn one_drip_advance_offsets_by_velocity() {
    let mut d = DripBrush::new();
    assert_eq!(d.props, DripProps { gravity: 12_000, viscosity: 9_000, thickness: 20_000 });
    assert!(d.can_advance());
    let m = d.stroke(Pos::new(0, 0), Pos::new(5 * PT, 5 * PT), red());
    // 1.2 * 0.02 * 0.9 = 0.0216 point
    assert_eq!(d.velocity, 216);
    assert_eq!(m.from, Pos::new(0, 0));
    assert_eq!(m.to, Pos::new(5 * PT, 5 * PT + 216));
    assert_eq!(m.thickness, 2 * PT);
    assert_eq!(m.color, red());
}

#[test]
fn drip_velocity_matches_damped_partial_sum() {
    let mut d = DripBrush::new();
    d.props = DripProps { gravity: 20_000, viscosity: 8_000, thickness: PT };
    let g = 2.0_f64;
    let c = 0.8_f64;
    for k in 1..=6 {
        d.stroke(Pos::new(0, 0), Pos::new(0, 0), red());
        let closed: f64 = (1..=k).map(|i| g * 0.02 * c.powi(i)).sum();
        let v = d.velocity as f64 / SCALE as f64;
        assert!(v <= closed + 1e-12, "k={k} v={v} closed={closed}");
        assert!(closed - v < k as f64 / SCALE as f64, "k={k} v={v} closed={closed}");
    }
}

#[test]
fn drip_finish_stroke_resets_velocity() {
    let mut d = DripBrush::new();
    d.stroke(Pos::new(0, 0), Pos::new(1, 1), red());
    d.tick();
    assert_eq!(d.velocity, 216);
    d.finish_stroke();
    assert_eq!(d.velocity, 0);
    let m = d.stroke(Pos::new(0, 0), Pos::new(0, 0), red());
    assert_eq!(m.to, Pos::new(0, 216));
}

#[test]
fn blot_values_compare() {
    let a = Blot { pos: Pos::new(1, 2), radius: 3, color: red(), softness: 0, opacity: 1, shape: BlotShape::Square };
    let b = a;
    assert_eq!(a, b);
}

#[test]
fn crystal_preview_stroke_is_a_line_at_brush_thickness() {
    let mut brush = CrystalBrush::new();
    let shape = brush.stroke(Pos::new(1, 2), Pos::new(3, 4), red());
    assert_eq!(
        shape,
        crystal_painter::painter::Shape::Line {
            from: Pos::new(1, 2),
            to: Pos::new(3, 4),
            width: 2 * PT,
            color: red(),
        }
    );
}
