use vstd::prelude::*;
use crate::color::Color;

verus! {

pub open spec fn red_sum(s: Seq<Color>) -> int
    decreases s.len(),
{
    if s.len() == 0 { 0 } else { red_sum(s.drop_last()) + s.last().r }
}

pub open spec fn green_sum(s: Seq<Color>) -> int
    decreases s.len(),
{
    if s.len() == 0 { 0 } else { green_sum(s.drop_last()) + s.last().g }
}

pub open spec fn blue_sum(s: Seq<Color>) -> int
    decreases s.len(),
{
    if s.len() == 0 { 0 } else { blue_sum(s.drop_last()) + s.last().b }
}

/// Per-channel arithmetic mean, truncated.
pub open spec fn mean_color(s: Seq<Color>) -> Color {
    Color {
        r: (red_sum(s) / s.len() as int) as u8,
        g: (green_sum(s) / s.len() as int) as u8,
        b: (blue_sum(s) / s.len() as int) as u8,
    }
}

proof fn lemma_sums_bounded(s: Seq<Color>)
    ensures
        0 <= red_sum(s) <= 255 * s.len(),
        0 <= green_sum(s) <= 255 * s.len(),
        0 <= blue_sum(s) <= 255 * s.len(),
    decreases s.len(),
{
    if s.len() > 0 {
        lemma_sums_bounded(s.drop_last());
    }
}

proof fn lemma_mean_fits(sum: int, n: int)
    requires
        n > 0,
        0 <= sum <= 255 * n,
    ensures
        0 <= sum / n <= 255,
{
    assert(0 <= sum / n <= (255 * n) / n) by (nonlinear_arith)
        requires n > 0, 0 <= sum <= 255 * n;
    assert((255 * n) / n == 255) by (nonlinear_arith) requires n > 0;
}

/// The mean color of the samples of one pixel.
pub fn average_color(colors: &Vec<Color>) -> (r: Color)
    requires
        colors.len() > 0,
    ensures
        r == mean_color(colors@),
{
    let mut r: u128 = 0;
    let mut g: u128 = 0;
    let mut b: u128 = 0;
    let mut i: usize = 0;
    while i < colors.len()
        invariant
            i <= colors.len(),
            r == red_sum(colors@.subrange(0, i as int)),
            g == green_sum(colors@.subrange(0, i as int)),
            b == blue_sum(colors@.subrange(0, i as int)),
        decreases colors.len() - i,
    {
        proof {
            let pre = colors@.subrange(0, i as int);
            assert(colors@.subrange(0, i + 1).drop_last() =~= pre);
            lemma_sums_bounded(pre);
            assert(255 * pre.len() <= 255 * usize::MAX);
            assert(usize::MAX < 0x1_0000_0000_0000_0000);
        }
        let c = colors[i];
        r = r + c.r as u128;
        g = g + c.g as u128;
        b = b + c.b as u128;
        i = i + 1;
    }
    proof {
        assert(colors@.subrange(0, i as int) =~= colors@);
        lemma_sums_bounded(colors@);
        lemma_mean_fits(red_sum(colors@), colors.len() as int);
        lemma_mean_fits(green_sum(colors@), colors.len() as int);
        lemma_mean_fits(blue_sum(colors@), colors.len() as int);
    }
    let n = colors.len() as u128;
    Color { r: (r / n) as u8, g: (g / n) as u8, b: (b / n) as u8 }
}

proof fn lemma_sums_of_copies(s: Seq<Color>, c: Color)
    requires
        forall|i: int| 0 <= i < s.len() ==> #[trigger] s[i] == c,
    ensures
        red_sum(s) == s.len() * c.r,
        green_sum(s) == s.len() * c.g,
        blue_sum(s) == s.len() * c.b,
    decreases s.len(),
{
    if s.len() > 0 {
        let rest = s.drop_last();
        assert forall|i: int| 0 <= i < rest.len() implies #[trigger] rest[i] == c by {
            assert(rest[i] == s[i]);
        }
        lemma_sums_of_copies(rest, c);
        assert(s.last() == s[s.len() - 1]);
        assert(s.len() * c.r == (s.len() - 1) * c.r + c.r) by (nonlinear_arith);
        assert(s.len() * c.g == (s.len() - 1) * c.g + c.g) by (nonlinear_arith);
        assert(s.len() * c.b == (s.len() - 1) * c.b + c.b) by (nonlinear_arith);
    }
}

/// Averaging is idempotent: when every sample of a pixel has the same color,
/// the pixel gets exactly that color.
pub proof fn lemma_average_of_equal(s: Seq<Color>, c: Color)
    requires
        s.len() > 0,
        forall|i: int| 0 <= i < s.len() ==> #[trigger] s[i] == c,
    ensures
        mean_color(s) == c,
{
    lemma_sums_of_copies(s, c);
    let n = s.len() as int;
    assert((n * c.r) / n == c.r) by (nonlinear_arith) requires n > 0;
    assert((n * c.g) / n == c.g) by (nonlinear_arith) requires n > 0;
    assert((n * c.b) / n == c.b) by (nonlinear_arith) requires n > 0;
}

} // verus!
