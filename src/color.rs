use vstd::prelude::*;

verus! {

/// Opacity is held in fixed point: `ALPHA_ONE` stands for fully opaque.
pub const ALPHA_ONE: u64 = 65536;

/// An 8-bit RGB color.
#[derive(Clone, Copy, Debug, PartialEq, Eq, Structural)]
pub struct Color {
    pub r: u8,
    pub g: u8,
    pub b: u8,
}

/// Color and opacity gathered so far along a ray, front to back.
#[derive(Clone, Copy, Debug, PartialEq, Eq, Structural)]
pub struct Accum {
    pub color: Color,
    pub alpha: u64,
}

/// One translucent contribution: a straight (not premultiplied) color and its opacity.
#[derive(Clone, Copy, Debug, PartialEq, Eq, Structural)]
pub struct Layer {
    pub color: Color,
    pub alpha: u64,
}

pub open spec fn black() -> Color {
    Color { r: 0, g: 0, b: 0 }
}

pub open spec fn min_int(a: int, b: int) -> int {
    if a <= b { a } else { b }
}

/// Share of the new layer that shows through what is already in front of it.
pub open spec fn visible_share(front_alpha: int, alpha: int) -> int {
    (ALPHA_ONE - front_alpha) * alpha / ALPHA_ONE as int
}

/// `front + share * c`, saturating at 255.
pub open spec fn blend_channel(front: u8, share: int, c: u8) -> int {
    min_int(255, front + share * c / ALPHA_ONE as int)
}

pub open spec fn alpha_ok(a: u64) -> bool {
    a <= ALPHA_ONE
}

/// Front-to-back "over" compositing of a straight color `c` with opacity `a`
/// behind the accumulated `acc`.
pub open spec fn combine_spec(acc: Accum, c: Color, a: u64) -> Accum {
    let share = visible_share(acc.alpha as int, a as int);
    Accum {
        color: Color {
            r: blend_channel(acc.color.r, share, c.r) as u8,
            g: blend_channel(acc.color.g, share, c.g) as u8,
            b: blend_channel(acc.color.b, share, c.b) as u8,
        },
        alpha: (acc.alpha + share) as u64,
    }
}

/// Compositing a sequence of layers, nearest first.
pub open spec fn composite_spec(acc: Accum, layers: Seq<Layer>) -> Accum
    decreases layers.len(),
{
    if layers.len() == 0 {
        acc
    } else {
        let prev = composite_spec(acc, layers.drop_last());
        combine_spec(prev, layers.last().color, layers.last().alpha)
    }
}

pub open spec fn layers_ok(layers: Seq<Layer>) -> bool {
    forall|i: int| 0 <= i < layers.len() ==> alpha_ok(#[trigger] layers[i].alpha)
}

impl Accum {
    /// Nothing gathered yet: black and fully transparent.
    pub fn transparent() -> (r: Accum)
        ensures
            r == (Accum { color: black(), alpha: 0 }),
    {
        Accum { color: Color { r: 0, g: 0, b: 0 }, alpha: 0 }
    }
}

proof fn lemma_share_bounds(front_alpha: int, alpha: int)
    requires
        0 <= front_alpha <= ALPHA_ONE,
        0 <= alpha <= ALPHA_ONE,
    ensures
        0 <= visible_share(front_alpha, alpha) <= ALPHA_ONE - front_alpha,
{
    let k = ALPHA_ONE - front_alpha;
    assert(0 <= k * alpha <= k * ALPHA_ONE) by (nonlinear_arith)
        requires 0 <= k, 0 <= alpha <= ALPHA_ONE;
    assert((k * ALPHA_ONE) / ALPHA_ONE as int == k) by (nonlinear_arith);
    assert(0 <= (k * alpha) / ALPHA_ONE as int <= (k * ALPHA_ONE) / ALPHA_ONE as int)
        by (nonlinear_arith)
        requires 0 <= k * alpha <= k * ALPHA_ONE;
}

fn blend(front: u8, share: u64, c: u8) -> (r: u8)
    requires
        share <= ALPHA_ONE,
    ensures
        r == blend_channel(front, share as int, c),
{
    assert(share * (c as u64) <= ALPHA_ONE * 255) by (nonlinear_arith)
        requires share <= ALPHA_ONE, c <= 255;
    let v: u64 = front as u64 + share * (c as u64) / ALPHA_ONE;
    if v > 255 {
        255
    } else {
        v as u8
    }
}

/// Composites the straight color `c` with opacity `a` behind `acc`.
/// Once `acc` is fully opaque the result is `acc` unchanged.
pub fn combine(acc: Accum, c: Color, a: u64) -> (r: Accum)
    requires
        alpha_ok(acc.alpha),
        alpha_ok(a),
    ensures
        r == combine_spec(acc, c, a),
        acc.alpha <= r.alpha <= ALPHA_ONE,
{
    proof {
        lemma_share_bounds(acc.alpha as int, a as int);
    }
    assert((ALPHA_ONE - acc.alpha) * a <= ALPHA_ONE * ALPHA_ONE) by (nonlinear_arith)
        requires acc.alpha <= ALPHA_ONE, a <= ALPHA_ONE;
    let share: u64 = (ALPHA_ONE - acc.alpha) * a / ALPHA_ONE;
    Accum {
        color: Color {
            r: blend(acc.color.r, share, c.r),
            g: blend(acc.color.g, share, c.g),
            b: blend(acc.color.b, share, c.b),
        },
        alpha: acc.alpha + share,
    }
}

/// Composites `layers`, nearest first, behind `acc`.
pub fn composite_layers(acc: Accum, layers: &Vec<Layer>) -> (r: Accum)
    requires
        alpha_ok(acc.alpha),
        layers_ok(layers@),
    ensures
        r == composite_spec(acc, layers@),
        acc.alpha <= r.alpha <= ALPHA_ONE,
{
    let mut cur = acc;
    let mut i: usize = 0;
    while i < layers.len()
        invariant
            i <= layers.len(),
            layers_ok(layers@),
            alpha_ok(acc.alpha),
            cur == composite_spec(acc, layers@.subrange(0, i as int)),
            acc.alpha <= cur.alpha <= ALPHA_ONE,
        decreases layers.len() - i,
    {
        let l = layers[i];
        proof {
            assert(layers@.subrange(0, i + 1).drop_last() =~= layers@.subrange(0, i as int));
        }
        cur = combine(cur, l.color, l.alpha);
        i = i + 1;
    }
    proof {
        assert(layers@.subrange(0, i as int) =~= layers@);
    }
    cur
}

/// Over a transparent front, a layer shows through at its own opacity: the
/// front color gains `a` times the layer color, and the opacity becomes `a`.
/// Over an opaque front, any layer leaves the front unchanged.
pub proof fn lemma_combine_identity(front: Color, c: Color, a: u64)
    requires
        alpha_ok(a),
    ensures
        combine_spec(Accum { color: front, alpha: 0 }, c, a) == (Accum {
            color: Color {
                r: min_int(255, front.r + a * c.r / ALPHA_ONE as int) as u8,
                g: min_int(255, front.g + a * c.g / ALPHA_ONE as int) as u8,
                b: min_int(255, front.b + a * c.b / ALPHA_ONE as int) as u8,
            },
            alpha: a,
        }),
        combine_spec(Accum { color: front, alpha: ALPHA_ONE }, c, a) == (Accum {
            color: front,
            alpha: ALPHA_ONE,
        }),
{
    assert(ALPHA_ONE * a / ALPHA_ONE as int == a) by (nonlinear_arith);
    assert(0int * a / ALPHA_ONE as int == 0) by (nonlinear_arith);
    assert(0int * c.r / ALPHA_ONE as int == 0) by (nonlinear_arith);
    assert(0int * c.g / ALPHA_ONE as int == 0) by (nonlinear_arith);
    assert(0int * c.b / ALPHA_ONE as int == 0) by (nonlinear_arith);
}

/// Compositing is associative along the ray: compositing `first` and then
/// `second` gives what compositing the two runs of layers in one pass gives.
pub proof fn lemma_composite_split(acc: Accum, first: Seq<Layer>, second: Seq<Layer>)
    ensures
        composite_spec(acc, first + second) == composite_spec(
            composite_spec(acc, first),
            second,
        ),
    decreases second.len(),
{
    if second.len() == 0 {
        assert(first + second =~= first);
    } else {
        lemma_composite_split(acc, first, second.drop_last());
        assert((first + second).drop_last() =~= first + second.drop_last());
        assert((first + second).last() == second.last());
    }
}

/// Opacity never decreases as layers are composited, and never exceeds
/// full opacity.
pub proof fn lemma_composite_alpha_monotone(acc: Accum, layers: Seq<Layer>)
    requires
        alpha_ok(acc.alpha),
        layers_ok(layers),
    ensures
        acc.alpha <= composite_spec(acc, layers).alpha <= ALPHA_ONE,
    decreases layers.len(),
{
    if layers.len() > 0 {
        let rest = layers.drop_last();
        assert forall|i: int| 0 <= i < rest.len() implies alpha_ok(#[trigger] rest[i].alpha) by {
            assert(rest[i] == layers[i]);
        }
        lemma_composite_alpha_monotone(acc, rest);
        let prev = composite_spec(acc, rest);
        assert(alpha_ok(layers[layers.len() - 1].alpha));
        lemma_share_bounds(prev.alpha as int, layers.last().alpha as int);
    }
}

} // verus!
