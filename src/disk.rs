use vstd::prelude::*;
use crate::color::{ALPHA_ONE, Accum, alpha_ok, combine, combine_spec};
use crate::root::{floor_sqrt_ratio, sqrt_floor};
use crate::texture::{Texture, dimensions, texel_color};

verus! {

/// Lengths are held in fixed point: `RADIUS_UNIT` stands for one horizon radius.
pub const RADIUS_UNIT: i64 = 65536;

/// Disk texture pixels spanned by three horizon radii.
pub const DISK_PIXELS_PER_3_RADII: i64 = 150;

/// Which side of the equatorial plane a point lies on.
#[derive(Clone, Copy, Debug, PartialEq, Eq, Structural)]
pub enum Side {
    Below,
    On,
    Above,
}

/// A step from `before` to `after` meets the plane.
pub open spec fn crosses_spec(before: Side, after: Side) -> bool {
    (before is Below) != (after is Below) || before is On || after is On
}

pub fn crosses_plane(before: Side, after: Side) -> (r: bool)
    ensures
        r == crosses_spec(before, after),
{
    let below_before = match before {
        Side::Below => true,
        _ => false,
    };
    let below_after = match after {
        Side::Below => true,
        _ => false,
    };
    let on = match (before, after) {
        (Side::On, _) => true,
        (_, Side::On) => true,
        _ => false,
    };
    below_before != below_after || on
}

/// Squared planar distance `r2` lies in the band from 3 to 10 horizon radii.
pub open spec fn in_band(r2: int) -> bool {
    9 * RADIUS_UNIT * RADIUS_UNIT <= r2 < 100 * RADIUS_UNIT * RADIUS_UNIT
}

/// Texture pixel for a disk coordinate `q` on a texture `size` pixels wide,
/// the texture's middle being the center of the disk.
pub open spec fn disk_coord(q: int, size: int) -> int {
    (q * DISK_PIXELS_PER_3_RADII + (size / 2) * (3 * RADIUS_UNIT)) / (3 * RADIUS_UNIT as int)
}

/// Opacity of the disk at planar distance `dist` (fixed point):
/// `sqrt(10 - dist) / sqrt(8)` in units of `ALPHA_ONE`, rounded down.
pub open spec fn intensity_spec(dist: int) -> int {
    sqrt_floor(ALPHA_ONE * (10 * RADIUS_UNIT - dist), 8)
}

/// What a crossing of the plane at `(x, z)` adds behind `acc`.
pub open spec fn deposit_spec(acc: Accum, disk: Texture, before: Side, after: Side, x: int, z: int) -> Accum {
    let r2 = x * x + z * z;
    let px = disk_coord(x, dimensions(disk).0 as int);
    let py = disk_coord(z, dimensions(disk).1 as int);
    if crosses_spec(before, after) && in_band(r2) && 0 <= px < dimensions(disk).0
        && 0 <= py < dimensions(disk).1 {
        combine_spec(
            acc,
            texel_color(disk, px as u32, py as u32),
            intensity_spec(sqrt_floor(r2, 1)) as u64,
        )
    } else {
        acc
    }
}

/// Disk opacity at planar distance `dist`; never zero and never fully opaque.
pub fn disk_intensity(dist: u64) -> (r: u64)
    requires
        3 * RADIUS_UNIT <= dist < 10 * RADIUS_UNIT,
    ensures
        r == intensity_spec(dist as int),
        0 < r < ALPHA_ONE,
{
    let n: u128 = (ALPHA_ONE as u128) * (10 * RADIUS_UNIT as u128 - dist as u128);
    let a = floor_sqrt_ratio(n, 8, ALPHA_ONE as u128);
    assert(a > 0) by (nonlinear_arith)
        requires n < (a + 1) * (a + 1) * 8, n >= ALPHA_ONE, a >= 0;
    a as u64
}

/// Texture pixel for the crossing point `(x, z)`, or `None` where it falls
/// outside the texture.
pub fn disk_position(width: u32, height: u32, x: i64, z: i64) -> (r: Option<(u32, u32)>)
    requires
        x * x + z * z < 100 * RADIUS_UNIT * RADIUS_UNIT,
    ensures
        r is Some <==> (0 <= disk_coord(x as int, width as int) < width && 0 <= disk_coord(
            z as int,
            height as int,
        ) < height),
        r is Some ==> r->0 == (disk_coord(x as int, width as int) as u32, disk_coord(
            z as int,
            height as int,
        ) as u32),
{
    assert(-10 * RADIUS_UNIT < x < 10 * RADIUS_UNIT && -10 * RADIUS_UNIT < z < 10 * RADIUS_UNIT)
        by (nonlinear_arith)
        requires x * x + z * z < 100 * RADIUS_UNIT * RADIUS_UNIT;
    assert((width / 2) as i64 * (3 * RADIUS_UNIT) <= 0x8000_0000 * 3 * RADIUS_UNIT) by (nonlinear_arith)
        requires 0 <= (width / 2) as i64 <= 0x8000_0000;
    assert((height / 2) as i64 * (3 * RADIUS_UNIT) <= 0x8000_0000 * 3 * RADIUS_UNIT) by (nonlinear_arith)
        requires 0 <= (height / 2) as i64 <= 0x8000_0000;
    let nx: i64 = x * DISK_PIXELS_PER_3_RADII + (width / 2) as i64 * (3 * RADIUS_UNIT);
    let nz: i64 = z * DISK_PIXELS_PER_3_RADII + (height / 2) as i64 * (3 * RADIUS_UNIT);
    if nx < 0 || nz < 0 {
        return None;
    }
    let px: i64 = nx / (3 * RADIUS_UNIT);
    let pz: i64 = nz / (3 * RADIUS_UNIT);
    if px >= width as i64 || pz >= height as i64 {
        None
    } else {
        Some((px as u32, pz as u32))
    }
}

/// Adds the disk's contribution when a step from a point on side `before`
/// to one on side `after` meets the plane at `(x, z)` within the band from
/// 3 to 10 horizon radii. Elsewhere `acc` is returned unchanged.
pub fn deposit(acc: Accum, disk: &Texture, before: Side, after: Side, x: i64, z: i64) -> (r: Accum)
    requires
        alpha_ok(acc.alpha),
    ensures
        r == deposit_spec(acc, *disk, before, after, x as int, z as int),
        acc.alpha <= r.alpha <= ALPHA_ONE,
        acc.alpha == 0 && r != acc ==> 0 < r.alpha < ALPHA_ONE,
{
    if !crosses_plane(before, after) {
        return acc;
    }
    let xw = x as i128;
    let zw = z as i128;
    assert(xw * xw <= 0x4000_0000_0000_0000_0000_0000_0000_0000) by (nonlinear_arith)
        requires -0x8000_0000_0000_0000 <= xw <= 0x7fff_ffff_ffff_ffff;
    assert(zw * zw <= 0x4000_0000_0000_0000_0000_0000_0000_0000) by (nonlinear_arith)
        requires -0x8000_0000_0000_0000 <= zw <= 0x7fff_ffff_ffff_ffff;
    assert(xw * xw >= 0 && zw * zw >= 0) by (nonlinear_arith);
    let r2: u128 = (xw * xw) as u128 + (zw * zw) as u128;
    let unit = RADIUS_UNIT as u128;
    if r2 < 9 * unit * unit || r2 >= 100 * unit * unit {
        return acc;
    }
    let dist = floor_sqrt_ratio(r2, 1, 10 * unit);
    assert(3 * unit <= dist) by (nonlinear_arith)
        requires 9 * unit * unit <= r2, r2 < (dist + 1) * (dist + 1) * 1, dist >= 0, unit == 65536;
    let a = disk_intensity(dist as u64);
    let w = disk.width();
    let h = disk.height();
    match disk_position(w, h, x, z) {
        Some((px, py)) => {
            let c = disk.texel(px, py);
            assert(((ALPHA_ONE - 0) * a) as int / ALPHA_ONE as int == a) by (nonlinear_arith);
            combine(acc, c, a)
        },
        None => acc,
    }
}

} // verus!
