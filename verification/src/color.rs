//! From an escape-time count to a color: the count picks a hue on the color
//! wheel, at full saturation and half lightness, and the hue is converted to
//! red, green and blue.

use crate::error::RenderError;
use crate::fixed::{floor_div, mul_floor, Fixed, SCALE};
use vstd::prelude::*;

verus! {

/// One sixth, rounded down.
pub const ONE_SIXTH: i64 = 715_827_882;

/// One third, rounded down.
pub const ONE_THIRD: i64 = 1_431_655_765;

/// One half.
pub const HALF: i64 = 0x8000_0000;

/// Two thirds, rounded down.
pub const TWO_THIRDS: i64 = 2_863_311_530;

/// A color of three channels, each from 0 to 255.
#[derive(Clone, Copy, Debug, PartialEq, Eq, Structural)]
pub struct Color {
    pub r: u8,
    pub g: u8,
    pub b: u8,
}

/// Whether the fixed-point number `a` lies between zero and one.
pub open spec fn unit(a: int) -> bool {
    0 <= a <= SCALE
}

/// The position `t` on the color wheel brought back to one turn: one is added
/// where `t` is negative, then one is taken off where the result is above one.
pub open spec fn wrap_turn(t: int) -> int {
    let up = if t < 0 {
        t + SCALE
    } else {
        t
    };
    if up > SCALE {
        up - SCALE
    } else {
        up
    }
}

/// One channel of a color between the levels `p` and `q`, at the position `t`
/// on the color wheel: a ramp from `p` up to `q` over the first sixth of the
/// turn, `q` up to the half, a ramp back to `p` up to two thirds, then `p`.
pub open spec fn hue_channel(p: int, q: int, t: int) -> int {
    let t = wrap_turn(t);
    if t < ONE_SIXTH {
        p + mul_floor((q - p) * 6, t)
    } else if t < HALF {
        q
    } else if t < TWO_THIRDS {
        p + mul_floor(q - p, TWO_THIRDS - t) * 6
    } else {
        p
    }
}

/// The three channels, each between zero and one, of the color with hue `h`
/// in degrees, saturation `s` in percent and lightness `l` in percent.
pub open spec fn hsl_channels(h: int, s: int, l: int) -> (int, int, int) {
    let h = h / 360;
    let s = s / 100;
    let l = l / 100;
    if s == 0 {
        (l, l, l)
    } else {
        let q = if l < HALF {
            mul_floor(l, SCALE + s)
        } else {
            l + s - mul_floor(l, s)
        };
        let p = 2 * l - q;
        (hue_channel(p, q, h + ONE_THIRD), hue_channel(p, q, h), hue_channel(p, q, h - ONE_THIRD))
    }
}

/// Between two levels in order, a channel lies between them.
pub proof fn hue_channel_between(p: int, q: int, t: int)
    requires
        0 <= p <= q <= SCALE,
        -SCALE <= t <= 2 * SCALE,
    ensures
        p <= hue_channel(p, q, t) <= q,
{
    let w: int = wrap_turn(t);
    let d: int = q - p;
    if w < ONE_SIXTH {
        assert(0 <= (d * 6) * w <= d * SCALE) by (nonlinear_arith)
            requires
                0 <= d,
                0 <= w,
                6 * w <= SCALE,
        ;
    } else if HALF <= w < TWO_THIRDS {
        let u: int = TWO_THIRDS - w;
        assert(0 <= d * u && 6 * (d * u) <= d * SCALE) by (nonlinear_arith)
            requires
                0 <= d,
                0 <= u,
                6 * u <= SCALE,
        ;
    }
}

/// One channel of a color between the levels `p` and `q` at the position `t`
/// on the color wheel. The levels lie between zero and one, and `t` within one
/// turn of the wheel on either side of it: between minus one and two.
pub fn hue_to_rgb(p: Fixed, q: Fixed, t: Fixed) -> (out: Fixed)
    requires
        unit(p@),
        unit(q@),
        -SCALE <= t@ <= 2 * SCALE,
    ensures
        out@ == hue_channel(p@, q@, t@),
{
    let mut turn: i64 = t.bits;
    if turn < 0 {
        turn = turn + SCALE;
    }
    if turn > SCALE {
        turn = turn - SCALE;
    }
    let span: i128 = (q.bits - p.bits) as i128;
    if turn < ONE_SIXTH {
        proof {
            assert(-0x6_0000_0000_0000_0000 <= (span * 6) * turn <= 0x6_0000_0000_0000_0000)
                by (nonlinear_arith)
                requires
                    -0x1_0000_0000 <= span <= 0x1_0000_0000,
                    0 <= turn <= 0x1_0000_0000,
            ;
        }
        let ramp: i128 = floor_div((span * 6) * (turn as i128), SCALE as i128);
        return Fixed { bits: p.bits + (ramp as i64) };
    }
    if turn < HALF {
        return q;
    }
    if turn < TWO_THIRDS {
        let rest: i128 = (TWO_THIRDS - turn) as i128;
        proof {
            assert(-0x1_0000_0000_0000_0000 <= span * rest <= 0x1_0000_0000_0000_0000)
                by (nonlinear_arith)
                requires
                    -0x1_0000_0000 <= span <= 0x1_0000_0000,
                    0 <= rest <= 0x1_0000_0000,
            ;
        }
        let ramp: i128 = floor_div(span * rest, SCALE as i128);
        return Fixed { bits: p.bits + (ramp as i64) * 6 };
    }
    p
}

/// The two levels of a color of saturation `s` and lightness `l`, both between
/// zero and one, are in order and between zero and one.
proof fn levels_in_order(s: int, l: int)
    requires
        unit(s),
        unit(l),
    ensures
        ({
            let q = if l < HALF {
                mul_floor(l, SCALE + s)
            } else {
                l + s - mul_floor(l, s)
            };
            let p = 2 * l - q;
            0 <= p <= q <= SCALE
        }),
{
    let one: int = SCALE as int;
    assert(l * (one + s) == l * one + l * s) by (nonlinear_arith);
    assert(0 <= l * s <= l * one && l * s <= s * one) by (nonlinear_arith)
        requires
            0 <= s <= one,
            0 <= l <= one,
    ;
    if l >= HALF {
        assert(l * s >= (l + s - one) * one) by (nonlinear_arith)
            requires
                0 <= s <= one,
                0 <= l <= one,
        ;
        assert(l * s >= (s - l) * one) by (nonlinear_arith)
            requires
                0 <= s <= one,
                2 * l >= one,
        ;
    }
}

/// Converts a color given by hue, saturation and lightness to its red, green
/// and blue channels, each between zero and one. The hue is in degrees, from
/// 0 to 360; saturation and lightness are in percent, from 0 to 100.
pub fn hsl_to_rgb(h: Fixed, s: Fixed, l: Fixed) -> (out: (Fixed, Fixed, Fixed))
    requires
        0 <= h@ <= 360 * SCALE,
        0 <= s@ <= 100 * SCALE,
        0 <= l@ <= 100 * SCALE,
    ensures
        (out.0@, out.1@, out.2@) == hsl_channels(h@, s@, l@),
        unit(out.0@),
        unit(out.1@),
        unit(out.2@),
{
    let h: i64 = h.bits / 360;
    let s: i64 = s.bits / 100;
    let l: i64 = l.bits / 100;
    if s == 0 {
        let grey: Fixed = Fixed { bits: l };
        return (grey, grey, grey);
    }
    proof {
        levels_in_order(s as int, l as int);
        assert(0 <= l * (SCALE + s) <= 0x2_0000_0000_0000_0000 && 0 <= l * s
            <= 0x1_0000_0000_0000_0000) by (nonlinear_arith)
            requires
                0 <= s <= 0x1_0000_0000,
                0 <= l <= 0x1_0000_0000,
        ;
    }
    let q: i64 = if l < HALF {
        floor_div((l as i128) * ((SCALE + s) as i128), SCALE as i128) as i64
    } else {
        l + s - (floor_div((l as i128) * (s as i128), SCALE as i128) as i64)
    };
    let p: i64 = 2 * l - q;
    proof {
        hue_channel_between(p as int, q as int, h + ONE_THIRD);
        hue_channel_between(p as int, q as int, h as int);
        hue_channel_between(p as int, q as int, h - ONE_THIRD);
    }
    let low: Fixed = Fixed { bits: p };
    let high: Fixed = Fixed { bits: q };
    let r: Fixed = hue_to_rgb(low, high, Fixed { bits: h + ONE_THIRD });
    let g: Fixed = hue_to_rgb(low, high, Fixed { bits: h });
    let b: Fixed = hue_to_rgb(low, high, Fixed { bits: h - ONE_THIRD });
    (r, g, b)
}

/// The hue, in degrees, of the count `m` out of `budget`: the fraction
/// `m / budget`, rounded down, of the full turn of 360 degrees.
pub open spec fn hue_of(m: int, budget: int) -> int {
    (m * SCALE) / budget * 360
}

/// A channel between zero and one as a whole number from 0 to 255, rounded to
/// the nearest, a half rounded up.
pub open spec fn to_byte(a: int) -> int {
    (a * 255 + HALF) / (SCALE as int)
}

/// The color of the count `m` out of `budget`: its hue at full saturation and
/// half lightness. Under a budget of zero no count has a hue, and the color is
/// black: every channel stays at its lower level.
pub open spec fn shade(m: int, budget: int) -> Color {
    if budget == 0 {
        Color { r: 0, g: 0, b: 0 }
    } else {
        let (r, g, b) = hsl_channels(hue_of(m, budget), 100 * SCALE, 50 * SCALE);
        Color { r: to_byte(r) as u8, g: to_byte(g) as u8, b: to_byte(b) as u8 }
    }
}

/// Why the count `m` has no color under the budget `max_iter`, if it has
/// none: it is above a budget that is not zero.
pub open spec fn color_refusal(m: u32, max_iter: u32) -> Option<RenderError> {
    if max_iter > 0 && m > max_iter {
        Some(RenderError::CountExceedsBudget)
    } else {
        None
    }
}

/// A count within its budget is a fraction between zero and one.
proof fn count_is_unit(m: int, budget: int)
    requires
        0 <= m <= budget,
        0 < budget,
    ensures
        unit((m * SCALE) / budget),
        m == 0 ==> (m * SCALE) / budget == 0,
        m == budget ==> (m * SCALE) / budget == SCALE,
{
    crate::plane::fraction_is_unit(m, budget);
}

/// A channel as a byte.
fn channel_byte(a: Fixed) -> (byte: u8)
    requires
        unit(a@),
    ensures
        byte == to_byte(a@),
{
    let scaled: i64 = a.bits * 255 + HALF;
    (scaled / SCALE) as u8
}

/// The color of a count within its budget, or of any count under a budget of
/// zero.
pub(crate) fn shade_of(m: u32, max_iter: u32) -> (color: Color)
    requires
        max_iter == 0 || m <= max_iter,
    ensures
        color == shade(m as int, max_iter as int),
{
    if max_iter == 0 {
        return Color { r: 0, g: 0, b: 0 };
    }
    proof {
        count_is_unit(m as int, max_iter as int);
    }
    let fraction: u64 = ((m as u64) * (SCALE as u64)) / (max_iter as u64);
    let hue: Fixed = Fixed { bits: (fraction as i64) * 360 };
    let (r, g, b) = hsl_to_rgb(hue, Fixed { bits: 100 * SCALE }, Fixed { bits: 50 * SCALE });
    Color { r: channel_byte(r), g: channel_byte(g), b: channel_byte(b) }
}

/// The color of the escape-time count `m` under the budget `max_iter`. The
/// count picks the hue `m / max_iter` of the full turn; saturation is full and
/// lightness a half. Under a budget of zero every count is black. A count
/// above a budget that is not zero has no color.
pub fn get_color(m: u32, max_iter: u32) -> (res: Result<Color, RenderError>)
    ensures
        match color_refusal(m, max_iter) {
            Some(e) => res == Err::<Color, RenderError>(e),
            None => res == Ok::<Color, RenderError>(shade(m as int, max_iter as int)),
        },
        max_iter == 0 ==> res == Ok::<Color, RenderError>(Color { r: 0, g: 0, b: 0 }),
{
    if max_iter > 0 && m > max_iter {
        return Err(RenderError::CountExceedsBudget);
    }
    Ok(shade_of(m, max_iter))
}

/// Both ends of the scale are pure red: the count zero has the hue of 0
/// degrees and the count equal to the budget that of 360 degrees, which is the
/// same place on the color wheel.
pub proof fn ends_of_scale_are_red(budget: int)
    requires
        budget >= 1,
    ensures
        shade(0, budget) == (Color { r: 255, g: 0, b: 0 }),
        shade(budget, budget) == (Color { r: 255, g: 0, b: 0 }),
{
    count_is_unit(0, budget);
    count_is_unit(budget, budget);
    assert(mul_floor(HALF as int, SCALE as int) == HALF) by (nonlinear_arith);
    assert(hue_of(0, budget) == 0);
    assert(hue_of(budget, budget) == 360 * SCALE);
    assert(mul_floor((SCALE - 0) * 6, 0) == 0) by (nonlinear_arith);
    assert(hsl_channels(0, 100 * SCALE, 50 * SCALE) == (SCALE as int, 0int, 0int));
    assert(hsl_channels(360 * SCALE, 100 * SCALE, 50 * SCALE) == (SCALE as int, 0int, 0int));
}

/// A third of the way along the scale is pure green: where the budget is
/// three times the count, the hue is 120 degrees.
pub proof fn third_of_scale_is_green(m: int)
    requires
        m >= 1,
    ensures
        shade(m, 3 * m) == (Color { r: 0, g: 255, b: 0 }),
{
    assert(m * SCALE == ONE_THIRD * (3 * m) + m) by (nonlinear_arith);
    vstd::arithmetic::div_mod::lemma_fundamental_div_mod_converse(
        m * SCALE,
        3 * m,
        ONE_THIRD as int,
        m,
    );
    assert(mul_floor(HALF as int, SCALE as int) == HALF) by (nonlinear_arith);
    assert(hue_of(m, 3 * m) == 360 * ONE_THIRD);
    assert(mul_floor((SCALE - 0) * 6, 0) == 0) by (nonlinear_arith);
    assert(hsl_channels(360 * ONE_THIRD, 100 * SCALE, 50 * SCALE) == (0int, SCALE as int, 0int));
}

/// The character of a decimal digit.
pub open spec fn digit_char(d: int) -> char {
    if d == 0 {
        '0'
    } else if d == 1 {
        '1'
    } else if d == 2 {
        '2'
    } else if d == 3 {
        '3'
    } else if d == 4 {
        '4'
    } else if d == 5 {
        '5'
    } else if d == 6 {
        '6'
    } else if d == 7 {
        '7'
    } else if d == 8 {
        '8'
    } else {
        '9'
    }
}

/// The decimal digits of `n`, without leading zeros.
pub open spec fn decimal(n: nat) -> Seq<char>
    decreases n,
{
    if n < 10 {
        seq![digit_char(n as int)]
    } else {
        decimal(n / 10).push(digit_char((n % 10) as int))
    }
}

/// The description of a color that a drawing surface takes as a fill style:
/// `rgb(`, the three channels in decimal, separated by a comma and a space,
/// and `)`.
pub open spec fn css_text(color: Color) -> Seq<char> {
    seq!['r', 'g', 'b', '('] + decimal(color.r as nat) + seq![',', ' '] + decimal(color.g as nat)
        + seq![',', ' '] + decimal(color.b as nat) + seq![')']
}

/// A decimal digit as text.
fn digit_text(d: u8) -> (text: &'static str)
    requires
        d < 10,
    ensures
        text@ == seq![digit_char(d as int)],
{
    proof {
        reveal_strlit("0");
        reveal_strlit("1");
        reveal_strlit("2");
        reveal_strlit("3");
        reveal_strlit("4");
        reveal_strlit("5");
        reveal_strlit("6");
        reveal_strlit("7");
        reveal_strlit("8");
        reveal_strlit("9");
    }
    let text: &'static str = match d {
        0 => "0",
        1 => "1",
        2 => "2",
        3 => "3",
        4 => "4",
        5 => "5",
        6 => "6",
        7 => "7",
        8 => "8",
        _ => "9",
    };
    assert(text@ =~= seq![digit_char(d as int)]);
    text
}

/// Appends the decimal digits of `n` to `text`.
fn push_decimal(text: &mut String, n: u8)
    ensures
        final(text)@ == old(text)@ + decimal(n as nat),
{
    let ghost before: Seq<char> = text@;
    if n >= 100 {
        text.append(digit_text(n / 100));
    }
    if n >= 10 {
        text.append(digit_text((n / 10) % 10));
    }
    text.append(digit_text(n % 10));
    proof {
        let m: nat = n as nat;
        if m >= 100 {
            assert(decimal(m / 100) == seq![digit_char((m / 100) as int)]);
            assert(decimal(m / 10) == decimal(m / 100).push(digit_char(((m / 10) % 10) as int)));
        } else if m >= 10 {
            assert(decimal(m / 10) == seq![digit_char((m / 10) as int)]);
        }
        assert(text@ =~= before + decimal(m));
    }
}

impl Color {
    /// The description of this color as a fill style, such as
    /// `rgb(255, 0, 0)`.
    pub fn to_css(&self) -> (text: String)
        ensures
            text@ == css_text(*self),
    {
        proof {
            reveal_strlit("rgb(");
            reveal_strlit(", ");
            reveal_strlit(")");
        }
        let mut text: String = String::from_str("rgb(");
        push_decimal(&mut text, self.r);
        text.append(", ");
        push_decimal(&mut text, self.g);
        text.append(", ");
        push_decimal(&mut text, self.b);
        text.append(")");
        assert(text@ =~= css_text(*self));
        text
    }
}

} // verus!
