use vstd::prelude::*;
use crate::color::Color;
use crate::root::{floor_sqrt_ratio, is_floor_sqrt_ratio};
use crate::texture::{Texture, dimensions, nonempty, texel_color};

verus! {

/// Largest magnitude of a direction component: directions are unit vectors
/// scaled to this fixed-point unit.
pub const DIR_UNIT: i64 = 16777216;

/// A direction in fixed point; it need not be normalised.
#[derive(Clone, Copy, Debug, PartialEq, Eq, Structural)]
pub struct Direction {
    pub x: i64,
    pub y: i64,
    pub z: i64,
}

pub open spec fn abs(a: int) -> int {
    if a < 0 { -a } else { a }
}

impl Direction {
    pub open spec fn wf(&self) -> bool {
        &&& abs(self.x as int) <= DIR_UNIT
        &&& abs(self.y as int) <= DIR_UNIT
        &&& abs(self.z as int) <= DIR_UNIT
        &&& !(self.x == 0 && self.y == 0 && self.z == 0)
    }
}

#[derive(Clone, Copy, Debug, PartialEq, Eq, Structural)]
pub enum Face {
    Front,
    Back,
    Left,
    Right,
    Top,
    Bottom,
}

/// The face a direction looks at, and its components along that face's
/// axis (`main`), its horizontal axis and its vertical axis.
pub open spec fn frame_spec(d: Direction) -> (Face, int, int, int) {
    let (x, y, z) = (d.x as int, d.y as int, d.z as int);
    if abs(x) > abs(y) && abs(x) > abs(z) {
        if x > 0 { (Face::Right, x, -z, y) } else { (Face::Left, -x, z, y) }
    } else if abs(y) > abs(z) {
        if y > 0 { (Face::Top, y, x, -z) } else { (Face::Bottom, -y, x, z) }
    } else {
        if z > 0 { (Face::Front, z, x, y) } else { (Face::Back, -z, -x, y) }
    }
}

/// Picks the face whose axis has the largest component, the sign choosing
/// between the two opposite faces.
pub fn face_frame(d: Direction) -> (r: (Face, i64, i64, i64))
    requires
        d.wf(),
    ensures
        (r.0, r.1 as int, r.2 as int, r.3 as int) == frame_spec(d),
        0 < r.1 <= DIR_UNIT,
        abs(r.2 as int) <= r.1,
        abs(r.3 as int) <= r.1,
{
    let ax = if d.x < 0 { -d.x } else { d.x };
    let ay = if d.y < 0 { -d.y } else { d.y };
    let az = if d.z < 0 { -d.z } else { d.z };
    if ax > ay && ax > az {
        if d.x > 0 { (Face::Right, d.x, -d.z, d.y) } else { (Face::Left, -d.x, d.z, d.y) }
    } else if ay > az {
        if d.y > 0 { (Face::Top, d.y, d.x, -d.z) } else { (Face::Bottom, -d.y, d.x, d.z) }
    } else {
        if d.z > 0 { (Face::Front, d.z, d.x, d.y) } else { (Face::Back, -d.z, -d.x, d.y) }
    }
}

/// `a <= sign(h) * sqrt(n / d)`, for `d > 0`.
pub open spec fn at_most_signed_root(a: int, h: int, n: int, d: int) -> bool {
    if h >= 0 {
        a <= 0 || a * a * d <= n
    } else {
        a <= 0 && n <= a * a * d
    }
}

/// With `t = w * sqrt(2) * h / sqrt(h^2 + m^2)`, whether `a <= t`.
pub open spec fn below_offset(a: int, w: int, h: int, m: int) -> bool {
    at_most_signed_root(a, h, 2 * w * w * h * h, h * h + m * m)
}

/// `k` is `(w / 2) * (1 + sqrt(2) * sin_alpha)` rounded to the nearest integer,
/// where `sin_alpha = h / sqrt(h^2 + m^2)`: that is, `k - 1/2 <= (w + t) / 2 < k + 1/2`.
pub open spec fn rounds_to(k: int, w: int, h: int, m: int) -> bool {
    below_offset(2 * k - w - 1, w, h, m) && !below_offset(2 * k - w + 1, w, h, m)
}

/// `r` is that rounded value clamped to `0..=w`.
pub open spec fn face_coord_spec(r: int, w: int, h: int, m: int) -> bool {
    &&& 0 <= r <= w
    &&& (0 < r < w ==> rounds_to(r, w, h, m))
    &&& (r == 0 && w > 0 ==> !below_offset(1 - w, w, h, m))
    &&& (r == w && w > 0 ==> below_offset(w - 1, w, h, m))
}

proof fn lemma_at_most_mono(a1: int, a2: int, h: int, n: int, d: int)
    requires
        a1 <= a2,
        d > 0,
        at_most_signed_root(a2, h, n, d),
    ensures
        at_most_signed_root(a1, h, n, d),
{
    if h >= 0 {
        if a1 > 0 {
            assert(a1 * a1 * d <= a2 * a2 * d) by (nonlinear_arith)
                requires 0 < a1 <= a2, d > 0;
        }
    } else {
        assert(a2 * a2 * d <= a1 * a1 * d) by (nonlinear_arith)
            requires a1 <= a2 <= 0, d > 0;
    }
}

proof fn lemma_round_nonneg(w: int, s: int, n: int, d: int, k: int)
    requires
        d > 0,
        w >= 0,
        is_floor_sqrt_ratio(s, n, d),
        k == (w + 1 + s) / 2,
    ensures
        at_most_signed_root(2 * k - w - 1, 0, n, d),
        !at_most_signed_root(2 * k - w + 1, 0, n, d),
{
    let a = 2 * k - w - 1;
    let b = 2 * k - w + 1;
    assert(a <= s && b >= s + 1);
    if a > 0 {
        assert(a * a * d <= s * s * d) by (nonlinear_arith) requires 0 < a <= s, d > 0;
    }
    assert((s + 1) * (s + 1) * d <= b * b * d) by (nonlinear_arith)
        requires 0 <= s, s + 1 <= b, d > 0;
}

proof fn lemma_round_neg(w: int, c: int, n: int, d: int, k: int, h: int)
    requires
        d > 0,
        h < 0,
        c >= 1,
        (c - 1) * (c - 1) * d < n,
        n <= c * c * d,
        w + 1 - c >= 0,
        k == (w + 1 - c) / 2,
    ensures
        at_most_signed_root(2 * k - w - 1, h, n, d),
        !at_most_signed_root(2 * k - w + 1, h, n, d),
{
    let a = 2 * k - w - 1;
    let b = 2 * k - w + 1;
    assert(a <= -c && b >= 1 - c);
    assert(c * c * d <= a * a * d) by (nonlinear_arith) requires a <= -c, c >= 1, d > 0;
    if b <= 0 {
        assert(b * b * d <= (c - 1) * (c - 1) * d) by (nonlinear_arith)
            requires 1 - c <= b <= 0, d > 0;
    }
}

/// The texture column (or row) that a face direction maps to, on a texture
/// `size` pixels wide: `(size - 1) / 2 * (1 + sqrt(2) * h / sqrt(h^2 + m^2))`,
/// rounded and clamped to the texture.
pub fn face_coord(size: u32, h: i64, m: i64) -> (r: u32)
    requires
        size >= 1,
        0 < m <= DIR_UNIT,
        abs(h as int) <= m,
    ensures
        face_coord_spec(r as int, size - 1, h as int, m as int),
{
    let w: u32 = size - 1;
    if w == 0 {
        return 0;
    }
    let hw = w as u128;
    let ha: u128 = if h < 0 { (-h) as u128 } else { h as u128 };
    let ma = m as u128;
    assert(ha * ha <= 0x1_0000_0000_0000) by (nonlinear_arith) requires ha <= DIR_UNIT;
    assert(ma * ma <= 0x1_0000_0000_0000) by (nonlinear_arith) requires ma <= DIR_UNIT;
    let hh = ha * ha;
    let d = hh + ma * ma;
    assert(hw * hw <= 0x1_0000_0000_0000_0000) by (nonlinear_arith) requires hw <= 0xffff_ffff;
    assert(2 * (hw * hw) * hh <= 0x2_0000_0000_0000_0000_0000_0000_0000) by (nonlinear_arith)
        requires hw * hw <= 0x1_0000_0000_0000_0000, hh <= 0x1_0000_0000_0000;
    let n = 2 * (hw * hw) * hh;
    let bound: u128 = 2 * hw + 2;
    assert(bound * bound <= 0x4_0000_0004_0000_0001) by (nonlinear_arith)
        requires bound == 2 * hw + 2, hw <= 0xffff_ffff;
    assert(bound * bound * d <= 0x8_0000_0008_0000_0002_0000_0000_0000) by (nonlinear_arith)
        requires bound * bound <= 0x4_0000_0004_0000_0001, d <= 0x2_0000_0000_0000;
    assert(ma * ma >= 1) by (nonlinear_arith) requires ma >= 1;
    assert(n < bound * bound * d) by (nonlinear_arith)
        requires n == 2 * (hw * hw) * hh, bound == 2 * hw + 2, d == hh + ma * ma, ma * ma >= 1,
            hh >= 0, hw >= 0;
    let s = floor_sqrt_ratio(n, d, bound);
    assert(n == 2 * (w as int) * (w as int) * (h as int) * (h as int)
        && d == (h as int) * (h as int) + (m as int) * (m as int)) by (nonlinear_arith)
        requires n == 2 * (hw * hw) * hh, hh == ha * ha, d == hh + ma * ma, hw == w, ma == m,
            ha == abs(h as int);
    let k: u128 = if h >= 0 {
        proof {
            lemma_round_nonneg(w as int, s as int, n as int, d as int, (w + 1 + s) / 2);
        }
        (hw + 1 + s) / 2
    } else {
        assert(hh >= 1 && n >= 2) by (nonlinear_arith)
            requires hh == ha * ha, ha >= 1, n == 2 * (hw * hw) * hh, hw >= 1;
        assert(s * s * d <= bound * bound * d && s * s <= s * s * d) by (nonlinear_arith)
            requires s < bound, d >= 1;
        let c: u128 = if s * s * d == n { s } else { s + 1 };
        if s * s * d == n {
            assert(s >= 1) by (nonlinear_arith) requires s * s * d == n, n >= 2;
            assert((s - 1) * (s - 1) * d < s * s * d) by (nonlinear_arith) requires s >= 1, d >= 1;
        }
        if c > hw + 1 {
            proof {
                let a = 1 - w as int;
                assert(a * a * d <= (c - 1) * (c - 1) * d) by (nonlinear_arith)
                    requires a <= 0, -a <= c - 1, d >= 1;
            }
            0
        } else {
            proof {
                lemma_round_neg(w as int, c as int, n as int, d as int, (w + 1 - c) / 2, h as int);
            }
            (hw + 1 - c) / 2
        }
    };
    if k >= hw {
        proof {
            if h >= 0 {
                lemma_at_most_mono(w - 1, 2 * k - w - 1, h as int, n as int, d as int);
            } else if k > 0 {
                lemma_at_most_mono(w - 1, 2 * k - w - 1, h as int, n as int, d as int);
            }
        }
        w
    } else {
        k as u32
    }
}

/// The six faces of the background cube.
pub struct Skybox {
    pub front: Texture,
    pub back: Texture,
    pub left: Texture,
    pub right: Texture,
    pub top: Texture,
    pub bottom: Texture,
}

impl Skybox {
    pub open spec fn wf(&self) -> bool {
        &&& nonempty(self.front)
        &&& nonempty(self.back)
        &&& nonempty(self.left)
        &&& nonempty(self.right)
        &&& nonempty(self.top)
        &&& nonempty(self.bottom)
    }

    pub open spec fn face_spec(&self, f: Face) -> Texture {
        match f {
            Face::Front => self.front,
            Face::Back => self.back,
            Face::Left => self.left,
            Face::Right => self.right,
            Face::Top => self.top,
            Face::Bottom => self.bottom,
        }
    }

    pub fn face(&self, f: Face) -> (r: &Texture)
        ensures
            *r == self.face_spec(f),
    {
        match f {
            Face::Front => &self.front,
            Face::Back => &self.back,
            Face::Left => &self.left,
            Face::Right => &self.right,
            Face::Top => &self.top,
            Face::Bottom => &self.bottom,
        }
    }
}

/// `(x, y)` is where direction `d` meets the face it looks at.
pub open spec fn sky_position(sky: Skybox, d: Direction, x: u32, y: u32) -> bool {
    let (f, m, h, v) = frame_spec(d);
    let t = sky.face_spec(f);
    &&& face_coord_spec(x as int, dimensions(t).0 - 1, h, m)
    &&& face_coord_spec(y as int, dimensions(t).1 - 1, v, m)
}

/// The background color seen in direction `d`.
pub open spec fn is_sky_color(sky: Skybox, d: Direction, c: Color) -> bool {
    exists|x: u32, y: u32|
        sky_position(sky, d, x, y) && c == #[trigger] texel_color(sky.face_spec(frame_spec(d).0), x, y)
}

/// Looks up the skybox texel that direction `d` points at.
pub fn sky_color(sky: &Skybox, d: Direction) -> (r: Color)
    requires
        sky.wf(),
        d.wf(),
    ensures
        is_sky_color(*sky, d, r),
{
    let (f, m, h, v) = face_frame(d);
    let t = sky.face(f);
    let x = face_coord(t.width(), h, m);
    let y = face_coord(t.height(), v, m);
    let c = t.texel(x, y);
    assert(sky_position(*sky, d, x, y));
    assert(c == texel_color(sky.face_spec(frame_spec(d).0), x, y));
    c
}

} // verus!
