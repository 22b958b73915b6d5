//! The drip brush: line pieces pulled down by a damped, growing velocity.

use vstd::prelude::*;
use crate::brushes::drip_props::DripProps;
use crate::color::Color;
use crate::geometry::{Pos, COORD_LIMIT, SCALE};

verus! {

/// One line piece a drip stroke leaves, from the previous sample to the
/// current one pulled down by the velocity.
#[derive(Clone, Copy, Debug, PartialEq, Eq, Structural)]
pub struct DripMark {
    pub from: Pos,
    pub to: Pos,
    pub thickness: i64,
    pub color: Color,
}

/// Simple drip brush: a falling, gravity-affected line.
pub struct DripBrush {
    pub props: DripProps,
    /// Current downward velocity, in units per sample.
    pub velocity: i64,
}

/// What gravity adds to the velocity in one sample: `gravity * 0.02`.
pub open spec fn gravity_step(gravity: int) -> int {
    gravity / 50
}

/// The velocity after one sample: gravity added, then damped by the viscosity.
pub open spec fn next_velocity(v: int, props: DripProps) -> int {
    (v + gravity_step(props.gravity as int)) * props.viscosity / SCALE as int
}

impl DripBrush {
    pub open spec fn wf(self) -> bool {
        &&& self.props.valid()
        &&& 0 <= self.velocity <= COORD_LIMIT
    }

    /// One more sample keeps the velocity within `COORD_LIMIT`.
    pub open spec fn can_advance_spec(self) -> bool {
        self.velocity + gravity_step(self.props.gravity as int) <= COORD_LIMIT
    }

    pub fn new() -> (b: DripBrush)
        ensures
            b.props == (DripProps { gravity: 12_000, viscosity: 9_000, thickness: 20_000 }),
            b.velocity == 0,
            b.wf(),
    {
        DripBrush { props: DripProps::default(), velocity: 0 }
    }

    /// Per-frame physics update; the drip has none between samples.
    pub fn tick(&mut self)
        ensures
            final(self).props == old(self).props,
            final(self).velocity == old(self).velocity,
    {
    }

    pub fn can_advance(&self) -> (r: bool)
        requires
            self.wf(),
        ensures
            r == self.can_advance_spec(),
    {
        self.velocity <= COORD_LIMIT - self.props.gravity / 50
    }

    /// One pointer sample from `from` to `to`: gravity increases the downward
    /// velocity, viscosity damps it, and the mark ends at `to` moved down by
    /// the new velocity.
    pub fn stroke(&mut self, from: Pos, to: Pos, color: Color) -> (m: DripMark)
        requires
            old(self).wf(),
            old(self).can_advance_spec(),
            to.valid(),
        ensures
            final(self).wf(),
            final(self).props == old(self).props,
            final(self).velocity == next_velocity(old(self).velocity as int, old(self).props),
            m == (DripMark {
                from,
                to: Pos { x: to.x, y: (to.y + final(self).velocity) as i64 },
                thickness: old(self).props.thickness,
                color,
            }),
    {
        let pulled: i64 = self.velocity + self.props.gravity / 50;
        assert(pulled * self.props.viscosity <= COORD_LIMIT * SCALE) by (nonlinear_arith)
            requires 0 <= pulled <= COORD_LIMIT, 0 <= self.props.viscosity <= SCALE;
        assert(pulled * self.props.viscosity >= 0) by (nonlinear_arith)
            requires 0 <= pulled, 0 <= self.props.viscosity;
        let damped: i64 = pulled * self.props.viscosity / SCALE;
        assert(damped <= pulled) by (nonlinear_arith)
            requires
                damped == (pulled * self.props.viscosity) / SCALE as int,
                0 <= pulled,
                0 <= self.props.viscosity <= SCALE,
                SCALE == 10_000,
        {
            assert(pulled * self.props.viscosity <= pulled * SCALE) by (nonlinear_arith)
                requires 0 <= pulled, self.props.viscosity <= SCALE;
        }
        self.velocity = damped;
        DripMark {
            from,
            to: Pos { x: to.x, y: to.y + self.velocity },
            thickness: self.props.thickness,
            color,
        }
    }

    /// Called when the pointer is released: the next stroke starts at rest.
    pub fn finish_stroke(&mut self)
        requires
            old(self).wf(),
        ensures
            final(self).props == old(self).props,
            final(self).velocity == 0,
            final(self).wf(),
    {
        self.velocity = 0;
    }
}

/// `SCALE` to the power `k`.
pub open spec fn scale_pow(k: nat) -> int
    decreases k,
{
    if k == 0 {
        1
    } else {
        scale_pow((k - 1) as nat) * SCALE
    }
}

/// The geometric damped sum `a*c + a*c^2 + ... + a*c^k` for a step `a` and a
/// damping fraction `c / SCALE`, multiplied by `SCALE^k` to keep it whole:
/// `sum of a * c^i * SCALE^(k-i)` for `i` from 1 to `k`.
pub open spec fn damped_sum(a: int, c: int, k: nat) -> int
    decreases k,
{
    if k == 0 {
        0
    } else {
        (damped_sum(a, c, (k - 1) as nat) + a * scale_pow((k - 1) as nat)) * c
    }
}

/// The brush `after` is `before` after one sample: same settings, next velocity.
pub open spec fn advanced(before: DripBrush, after: DripBrush) -> bool {
    &&& after.props == before.props
    &&& after.velocity == next_velocity(before.velocity as int, before.props)
}

/// Damped-sum law: after a stroke starts at rest and `k` samples follow with
/// constant gravity and viscosity, the velocity is the geometric damped sum
/// `g*0.02*c + ... + g*0.02*c^k`, rounded down by less than one unit per
/// sample: `v * SCALE^k <= damped_sum <= (v + k) * SCALE^k`.
#[verifier::spinoff_prover]
pub proof fn lemma_damped_velocity(history: Seq<DripBrush>)
    requires
        history.len() >= 1,
        history[0].velocity == 0,
        history[0].props.valid(),
        forall|t: int| 0 <= t < history.len() - 1 ==> advanced(#[trigger] history[t], history[t + 1]),
    ensures
        ({
            let k = (history.len() - 1) as nat;
            let v = history[k as int].velocity as int;
            let p = history[0].props;
            let w = damped_sum(gravity_step(p.gravity as int), p.viscosity as int, k);
            &&& history[k as int].props == p
            &&& v == velocity_after(p, k)
            &&& v * scale_pow(k) <= w
            &&& w <= (v + k) * scale_pow(k)
        }),
    decreases history.len(),
{
    let k = (history.len() - 1) as nat;
    let p = history[0].props;
    if k > 0 {
        let prev = history.drop_last();
        assert forall|t: int| 0 <= t < prev.len() - 1 implies advanced(#[trigger] prev[t], prev[t + 1]) by {
            assert(prev[t] == history[t] && prev[t + 1] == history[t + 1]);
            assert(advanced(history[t], history[t + 1]));
        }
        lemma_damped_velocity(prev);
        assert(prev[k - 1] == history[k - 1]);
        assert(advanced(history[k - 1], history[k as int]));
        let a = gravity_step(p.gravity as int);
        let c = p.viscosity as int;
        let v0 = history[k - 1].velocity as int;
        let v1 = history[k as int].velocity as int;
        let pw = scale_pow((k - 1) as nat);
        let w0 = damped_sum(a, c, (k - 1) as nat);
        let w1 = damped_sum(a, c, k);
        assert(w1 == (w0 + a * pw) * c);
        assert(scale_pow(k) == pw * SCALE);
        lemma_scale_pow_pos((k - 1) as nat);
        assert(v1 == ((v0 + a) * c) / (SCALE as int));
        lemma_damped_step(a, c, v0, v1, pw, w0, w1, k as int);
        assert(v1 * scale_pow(k) <= w1);
        assert(w1 <= (v1 + k) * scale_pow(k));
        assert(velocity_after(p, k) == next_velocity(velocity_after(p, (k - 1) as nat), p));
    } else {
        assert(damped_sum(gravity_step(p.gravity as int), p.viscosity as int, 0) == 0);
        assert(scale_pow(0) == 1);
    }
}

/// The velocity after a stroke starts at rest and `k` samples follow with
/// the settings `p`.
pub open spec fn velocity_after(p: DripProps, k: nat) -> int
    decreases k,
{
    if k == 0 {
        0
    } else {
        next_velocity(velocity_after(p, (k - 1) as nat), p)
    }
}

/// Damped-sum law over the sample count alone: for valid settings, the
/// velocity after `k` samples from rest is the geometric damped sum
/// `g*0.02*c + ... + g*0.02*c^k` rounded down by less than one unit per
/// sample.
pub proof fn lemma_velocity_after(p: DripProps, k: nat)
    requires
        p.valid(),
    ensures
        ({
            let v = velocity_after(p, k);
            let w = damped_sum(gravity_step(p.gravity as int), p.viscosity as int, k);
            &&& v * scale_pow(k) <= w
            &&& w <= (v + k) * scale_pow(k)
        }),
    decreases k,
{
    if k > 0 {
        lemma_velocity_after(p, (k - 1) as nat);
        let a = gravity_step(p.gravity as int);
        let c = p.viscosity as int;
        let v0 = velocity_after(p, (k - 1) as nat);
        let v1 = velocity_after(p, k);
        let pw = scale_pow((k - 1) as nat);
        let w0 = damped_sum(a, c, (k - 1) as nat);
        let w1 = damped_sum(a, c, k);
        assert(w1 == (w0 + a * pw) * c);
        assert(scale_pow(k) == pw * SCALE);
        lemma_scale_pow_pos((k - 1) as nat);
        assert(v1 == ((v0 + a) * c) / (SCALE as int));
        lemma_damped_step(a, c, v0, v1, pw, w0, w1, k as int);
    } else {
        assert(damped_sum(gravity_step(p.gravity as int), p.viscosity as int, 0) == 0);
        assert(scale_pow(0) == 1);
    }
}

/// One step of the damped-sum induction, on plain integers.
proof fn lemma_damped_step(a: int, c: int, v0: int, v1: int, pw: int, w0: int, w1: int, k: int)
    requires
        0 <= a,
        0 <= c <= SCALE,
        0 < pw,
        k >= 1,
        v1 == ((v0 + a) * c) / (SCALE as int),
        v0 * pw <= w0,
        w0 <= (v0 + (k - 1)) * pw,
        w1 == (w0 + a * pw) * c,
    ensures
        v1 * (pw * SCALE) <= w1,
        w1 <= (v1 + k) * (pw * SCALE),
{
    let x = (v0 + a) * c;
    vstd::arithmetic::div_mod::lemma_fundamental_div_mod(x, SCALE as int);
    vstd::arithmetic::div_mod::lemma_mod_bound(x, SCALE as int);
    assert(v1 * SCALE <= x < (v1 + 1) * SCALE) by (nonlinear_arith)
        requires x == SCALE * v1 + x % (SCALE as int), 0 <= x % (SCALE as int) < SCALE;
    assert(v1 * (pw * SCALE) <= x * pw) by (nonlinear_arith)
        requires v1 * SCALE <= x, 0 < pw;
    assert(x * pw <= w1) by (nonlinear_arith)
        requires x == (v0 + a) * c, v0 * pw <= w0, w1 == (w0 + a * pw) * c, 0 <= c;
    assert(w1 <= x * pw + (k - 1) * pw * c) by (nonlinear_arith)
        requires x == (v0 + a) * c, w0 <= (v0 + (k - 1)) * pw, w1 == (w0 + a * pw) * c, 0 <= c;
    assert((k - 1) * pw * c <= (k - 1) * pw * SCALE) by (nonlinear_arith)
        requires k >= 1, 0 < pw, c <= SCALE;
    assert(x * pw <= (v1 + 1) * SCALE * pw) by (nonlinear_arith)
        requires x < (v1 + 1) * SCALE, 0 < pw;
    assert((v1 + 1) * SCALE * pw + (k - 1) * pw * SCALE == (v1 + k) * (pw * SCALE)) by (nonlinear_arith);
}

proof fn lemma_scale_pow_pos(k: nat)
    ensures
        scale_pow(k) > 0,
    decreases k,
{
    if k > 0 {
        lemma_scale_pow_pos((k - 1) as nat);
        assert(scale_pow((k - 1) as nat) * SCALE > 0) by (nonlinear_arith)
            requires scale_pow((k - 1) as nat) > 0;
    }
}

} // verus!
