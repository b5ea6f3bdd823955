use vstd::prelude::*;
use crate::color::{ALPHA_ONE, Accum, Color, alpha_ok, black, combine, combine_spec};
use crate::disk::RADIUS_UNIT;
use crate::skybox::{Direction, Skybox, is_sky_color, sky_color};

verus! {

/// Step durations are held in fixed point: `TIME_UNIT` stands for one time unit.
pub const TIME_UNIT: u64 = 1000000;

/// Where a ray stands after a step.
#[derive(Clone, Copy, Debug, PartialEq, Eq, Structural)]
pub enum Phase {
    /// Inside the horizon.
    Absorbed,
    /// Beyond twenty horizon radii: treated as gone to infinity.
    Escaped,
    InFlight,
}

pub open spec fn phase_spec(dist: int) -> Phase {
    if dist < RADIUS_UNIT {
        Phase::Absorbed
    } else if dist > 20 * RADIUS_UNIT {
        Phase::Escaped
    } else {
        Phase::InFlight
    }
}

/// Classifies a ray by its distance `dist` from the center (fixed point).
pub fn classify(dist: u64) -> (r: Phase)
    ensures
        r == phase_spec(dist as int),
{
    if dist < RADIUS_UNIT as u64 {
        Phase::Absorbed
    } else if dist > 20 * RADIUS_UNIT as u64 {
        Phase::Escaped
    } else {
        Phase::InFlight
    }
}

/// Step duration at distance `dist`: a fixed small step within two horizon
/// radii, else `0.999 / 4096 * (dist - 2)^4 + 0.001` capped at one unit,
/// in units of `1 / TIME_UNIT`, rounded down.
pub open spec fn step_spec(dist: int) -> int {
    if dist < 2 * RADIUS_UNIT {
        1000
    } else {
        let e = dist - 2 * RADIUS_UNIT;
        let t = 999000 * (e * e * e * e) / (4096 * RADIUS_UNIT * RADIUS_UNIT * RADIUS_UNIT * RADIUS_UNIT)
            + 1000;
        if t > TIME_UNIT { TIME_UNIT as int } else { t }
    }
}

pub fn step_duration(dist: u64) -> (r: u64)
    ensures
        r == step_spec(dist as int),
        1000 <= r <= TIME_UNIT,
{
    let unit = RADIUS_UNIT as u64;
    if dist < 2 * unit {
        return 1000;
    }
    let e = dist - 2 * unit;
    let u4: u128 = 4096 * (unit as u128) * (unit as u128) * (unit as u128) * (unit as u128);
    if e >= 8 * unit {
        proof {
            let ei = e as int;
            let ui = unit as int;
            assert(ei * ei * ei * ei >= (8 * ui) * (8 * ui) * (8 * ui) * (8 * ui)) by (nonlinear_arith)
                requires ei >= 8 * ui, ui > 0;
            assert(999000 * (ei * ei * ei * ei) >= 999000 * u4) by (nonlinear_arith)
                requires ei * ei * ei * ei >= (8 * ui) * (8 * ui) * (8 * ui) * (8 * ui), u4 == 4096 * ui
                    * ui * ui * ui;
            assert(999000 * (ei * ei * ei * ei) / (u4 as int) >= 999000) by (nonlinear_arith)
                requires 999000 * (ei * ei * ei * ei) >= 999000 * u4, u4 > 0;
        }
        return TIME_UNIT;
    }
    let ew = e as u128;
    assert(ew * ew <= 0x40_0000_0000) by (nonlinear_arith) requires ew < 0x8_0000;
    let e2 = ew * ew;
    assert(e2 * e2 <= 0x1000_0000_0000_0000_0000) by (nonlinear_arith) requires e2 <= 0x40_0000_0000;
    let e4 = e2 * e2;
    assert(e4 == ew * ew * ew * ew) by (nonlinear_arith) requires e2 == ew * ew, e4 == e2 * e2;
    let t: u128 = 999000 * e4 / u4 + 1000;
    if t > TIME_UNIT as u128 {
        TIME_UNIT
    } else {
        t as u64
    }
}

/// Final color of a ray that fell inside the horizon: what it gathered, over black.
pub fn absorb(acc: Accum) -> (r: Color)
    requires
        alpha_ok(acc.alpha),
    ensures
        r == combine_spec(acc, black(), ALPHA_ONE).color,
{
    combine(acc, Color { r: 0, g: 0, b: 0 }, ALPHA_ONE).color
}

/// Final color of a ray that escaped heading in direction `d`: what it
/// gathered, over the skybox seen in that direction.
pub fn escape(acc: Accum, sky: &Skybox, d: Direction) -> (r: Color)
    requires
        alpha_ok(acc.alpha),
        sky.wf(),
        d.wf(),
    ensures
        exists|c: Color| is_sky_color(*sky, d, c) && r == (#[trigger] combine_spec(acc, c, ALPHA_ONE)).color,
{
    let c = sky_color(sky, d);
    let r = combine(acc, c, ALPHA_ONE);
    assert(is_sky_color(*sky, d, c) && r.color == combine_spec(acc, c, ALPHA_ONE).color);
    r.color
}

} // verus!
