//! Fixed-point HSLA colours and their conversion to and from 8-bit RGBA.
//!
//! Hue, saturation and lightness are 6:10 fixed-point values: `HSLA_ONE_I`
//! (1024) stands for 1.0, so a hue lies in `0..6144` (six sextants) and a
//! saturation or lightness of a colour converted from RGBA lies in `0..=1024`.
use vstd::prelude::*;
use crate::rgba::Rgba;

verus! {

pub const HSLA_ONE_I: i32 = 1024;
pub const HSLA_HALF_I: i32 = 512;
pub const HSLA_TWO_I: i32 = 2048;
pub const HSLA_THREE_I: i32 = 3072;
pub const HSLA_FOUR_I: i32 = 4096;
pub const HSLA_SIX_I: i32 = 6144;
pub const ONE_U32: u32 = 1024;
pub const ONE_U16: u16 = 1024;

/// A colour in HSLA space.
///
/// `h`, `s` and `l` are 6:10 fixed-point values (6 bit integer part, 10 bit
/// fraction); `a` is the alpha value from 0 to 255.
#[derive(Debug, Clone, Copy, PartialEq, Eq, Structural)]
pub struct Hsla {
    pub h: u16,
    pub s: u16,
    pub l: u16,
    pub a: u8,
}

/// Division that rounds toward zero, as Rust's integer `/` does.
pub open spec fn tdiv(n: int, d: int) -> int {
    if n >= 0 {
        n / d
    } else {
        -((-n) / d)
    }
}

/// An 8-bit channel scaled to the fixed-point range `0..=1024`.
pub open spec fn fix_channel(c: u8) -> int {
    (c as int) * 1024 / 255
}

pub open spec fn min3(a: int, b: int, c: int) -> int {
    let m = if a <= b { a } else { b };
    if m <= c { m } else { c }
}

pub open spec fn max3(a: int, b: int, c: int) -> int {
    let m = if a >= b { a } else { b };
    if m >= c { m } else { c }
}

/// Saturation of a colour whose fixed-point channels span `mn..=mx`.
pub open spec fn rgb_saturation(mn: int, mx: int) -> int {
    let l = (mn + mx) / 2;
    if l <= 512 {
        ((mx - mn) * 1024) / (mx + mn)
    } else {
        ((mx - mn) * 1024) / (2048 - mx - mn)
    }
}

/// Hue of a colour with fixed-point channels `r`, `g`, `b` spanning `mn..=mx`.
pub open spec fn rgb_hue(r: int, g: int, b: int, mn: int, mx: int) -> int {
    let ht = if r == mx {
        tdiv((g - b) * 1024, mx - mn)
    } else if g == mx {
        2048 + tdiv((b - r) * 1024, mx - mn)
    } else {
        4096 + tdiv((r - g) * 1024, mx - mn)
    };
    (ht + 6144) % 6144
}

/// The HSLA colour of an RGBA colour.
#[verifier::opaque]
pub open spec fn spec_from_rgba(c: Rgba) -> Hsla {
    let r = fix_channel(c.r);
    let g = fix_channel(c.g);
    let b = fix_channel(c.b);
    let mn = min3(r, g, b);
    let mx = max3(r, g, b);
    let l = (mn + mx) / 2;
    if mn == mx {
        Hsla { h: 0, s: 0, l: l as u16, a: c.a }
    } else {
        Hsla {
            h: rgb_hue(r, g, b, mn, mx) as u16,
            s: rgb_saturation(mn, mx) as u16,
            l: l as u16,
            a: c.a,
        }
    }
}

/// Fixed-point value of one RGB channel, given the two HSL temporaries and
/// the hue offset for that channel.
pub open spec fn hue_to_rgb_fix(t1: int, t2: int, harg: int) -> int {
    let h = harg % 6144;
    if h < 1024 {
        t2 + tdiv((t1 - t2) * h, 1024)
    } else if h < 3072 {
        t1
    } else if h < 4096 {
        t2 + tdiv((t1 - t2) * (4096 - h), 1024)
    } else {
        t2
    }
}

/// The 8-bit value of one RGB channel (before the conversion to `u8`).
pub open spec fn hue_to_rgb_u8(t1: int, t2: int, harg: int) -> int {
    tdiv(hue_to_rgb_fix(t1, t2, harg) * 255, 1024)
}

/// `x` is a value of `i32`.
pub open spec fn fits_i32(x: int) -> bool {
    i32::MIN <= x <= i32::MAX
}

/// One channel can be computed from the temporaries without an `i32`
/// overflow, and its value lies in `0..=255`.
pub open spec fn channel_converts(t1: int, t2: int, harg: int) -> bool {
    let h = harg % 6144;
    let v = hue_to_rgb_fix(t1, t2, harg);
    &&& h < 1024 ==> fits_i32((t1 - t2) * h)
    &&& 3072 <= h < 4096 ==> fits_i32((t1 - t2) * (4096 - h))
    &&& fits_i32(v * 255)
    &&& 0 <= hue_to_rgb_u8(t1, t2, harg) <= 255
}

/// The colours that convert to RGBA: a grey whose value fits in a `u8`, or a
/// colour whose temporaries and channels can be computed in `i32` and whose
/// channels fit in a `u8`. Every colour with saturation and lightness at most
/// 1.0 converts (`lemma_in_gamut_converts`).
pub open spec fn converts_to_rgba(c: Hsla) -> bool {
    if c.s == 0 {
        (c.l as int) * 255 / 1024 <= 255
    } else {
        let h = c.h as int;
        let t1 = hsl_temp1(c.s as int, c.l as int);
        let t2 = 2 * (c.l as int) - t1;
        &&& (c.l > 512 ==> fits_i32((c.l as int) * (c.s as int)))
        &&& channel_converts(t1, t2, h + 2048)
        &&& channel_converts(t1, t2, h)
        &&& channel_converts(t1, t2, h + 4096)
    }
}

pub open spec fn hsl_temp1(s: int, l: int) -> int {
    if l <= 512 {
        (l * (1024 + s)) / 1024
    } else {
        l + s - ((l * s) / 1024)
    }
}

/// The RGBA colour of an HSLA colour (meaningful where `converts_to_rgba` holds).
pub open spec fn spec_to_rgba(c: Hsla) -> Rgba {
    if c.s == 0 {
        let grey = ((c.l as int) * 255 / 1024) as u8;
        Rgba { r: grey, g: grey, b: grey, a: c.a }
    } else {
        let h = c.h as int;
        let t1 = hsl_temp1(c.s as int, c.l as int);
        let t2 = 2 * (c.l as int) - t1;
        Rgba {
            r: hue_to_rgb_u8(t1, t2, h + 2048) as u8,
            g: hue_to_rgb_u8(t1, t2, h) as u8,
            b: hue_to_rgb_u8(t1, t2, h + 4096) as u8,
            a: c.a,
        }
    }
}

impl Hsla {
    /// A colour whose saturation and lightness lie in `0.0..=1.0`.
    pub open spec fn in_gamut(self) -> bool {
        self.s <= 1024 && self.l <= 1024
    }

    /// A colour as the conversion from RGBA produces it: in gamut, with a hue
    /// below one full turn.
    pub open spec fn is_canonical(self) -> bool {
        self.in_gamut() && self.h < 6144
    }
}

/// `x * 1024 / d` stays in `0..=1024` when `0 <= x <= d`.
proof fn lemma_scaled_ratio(x: int, d: int)
    requires
        0 <= x <= d,
        d > 0,
    ensures
        0 <= (x * 1024) / d <= 1024,
{
    vstd::arithmetic::div_mod::lemma_div_is_ordered(x * 1024, d * 1024, d);
    vstd::arithmetic::div_mod::lemma_div_by_multiple(1024, d);
    assert(d * 1024 == 1024 * d) by (nonlinear_arith);
    vstd::arithmetic::div_mod::lemma_div_pos_is_pos(x * 1024, d);
}

/// A scaled channel lies in `0..=1024`.
proof fn lemma_fix_channel_bounds(c: u8)
    ensures
        0 <= fix_channel(c) <= 1024,
{
    lemma_scaled_ratio(c as int, 255);
}

/// The rounded-toward-zero quotient `x * 1024 / d` has magnitude at most 1024
/// when `|x| <= d`.
proof fn lemma_tdiv_scaled(x: int, d: int)
    requires
        -d <= x <= d,
        d > 0,
    ensures
        -1024 <= tdiv(x * 1024, d) <= 1024,
{
    if x >= 0 {
        lemma_scaled_ratio(x, d);
    } else {
        lemma_scaled_ratio(-x, d);
        assert((-x) * 1024 == -(x * 1024)) by (nonlinear_arith);
    }
}

/// Converting from RGBA always gives a canonical colour and keeps the alpha.
pub proof fn lemma_from_rgba_canonical(c: Rgba)
    ensures
        spec_from_rgba(c).is_canonical(),
        spec_from_rgba(c).a == c.a,
{
    reveal(spec_from_rgba);
    let r = fix_channel(c.r);
    let g = fix_channel(c.g);
    let b = fix_channel(c.b);
    lemma_fix_channel_bounds(c.r);
    lemma_fix_channel_bounds(c.g);
    lemma_fix_channel_bounds(c.b);
    let mn = min3(r, g, b);
    let mx = max3(r, g, b);
    if mn != mx {
        let l = (mn + mx) / 2;
        if l <= 512 {
            lemma_scaled_ratio(mx - mn, mx + mn);
        } else {
            lemma_scaled_ratio(mx - mn, 2048 - mx - mn);
        }
        if r == mx {
            lemma_tdiv_scaled(g - b, mx - mn);
        } else if g == mx {
            lemma_tdiv_scaled(b - r, mx - mn);
        } else {
            lemma_tdiv_scaled(r - g, mx - mn);
        }
    }
}

/// Both HSL temporaries lie in `0..=1024`, with the second not above the first.
proof fn lemma_temps(s: int, l: int)
    requires
        0 < s <= 1024,
        0 <= l <= 1024,
    ensures
        0 <= 2 * l - hsl_temp1(s, l) <= hsl_temp1(s, l) <= 1024,
{
    if l <= 512 {
        let p = l * (1024 + s);
        assert(1024 * l <= p <= 2048 * l) by (nonlinear_arith)
            requires
                p == l * (1024 + s),
                0 < s <= 1024,
                0 <= l,
        ;
        vstd::arithmetic::div_mod::lemma_div_is_ordered(1024 * l, p, 1024);
        vstd::arithmetic::div_mod::lemma_div_is_ordered(p, 2048 * l, 1024);
        assert((1024 * l) / 1024 == l);
        assert((2048 * l) / 1024 == 2 * l);
    } else {
        let q = (l * s) / 1024;
        let p = l * s;
        assert(p <= 1024 * s) by (nonlinear_arith)
            requires
                p == l * s,
                0 < s,
                l <= 1024,
        ;
        assert(p >= 1024 * (l + s - 1024)) by (nonlinear_arith)
            requires
                p == l * s,
                s <= 1024,
                l <= 1024,
        ;
        assert(p >= 1024 * (s - l)) by (nonlinear_arith)
            requires
                p == l * s,
                0 < s <= 1024,
                512 < l <= 1024,
        ;
        vstd::arithmetic::div_mod::lemma_div_is_ordered(p, 1024 * s, 1024);
        vstd::arithmetic::div_mod::lemma_div_is_ordered(1024 * (l + s - 1024), p, 1024);
        vstd::arithmetic::div_mod::lemma_div_is_ordered(1024 * (s - l), p, 1024);
        assert((1024 * s) / 1024 == s);
        assert((1024 * (l + s - 1024)) / 1024 == l + s - 1024);
        assert((1024 * (s - l)) / 1024 == s - l);
    }
}

/// `(t1 - t2) * k / 1024` lies in `0..=t1 - t2` when `0 <= k <= 1024`.
proof fn lemma_blend(t1: int, t2: int, k: int)
    requires
        t2 <= t1,
        0 <= k <= 1024,
    ensures
        0 <= (t1 - t2) * k <= (t1 - t2) * 1024,
        0 <= ((t1 - t2) * k) / 1024 <= t1 - t2,
{
    let d = t1 - t2;
    assert(0 <= d * k <= d * 1024) by (nonlinear_arith)
        requires
            d >= 0,
            0 <= k <= 1024,
    ;
    vstd::arithmetic::div_mod::lemma_div_is_ordered(d * k, d * 1024, 1024);
    vstd::arithmetic::div_mod::lemma_div_pos_is_pos(d * k, 1024);
    assert((d * 1024) / 1024 == d);
}

proof fn lemma_hue_to_rgb_bounds(t1: int, t2: int, harg: int)
    requires
        0 <= t2 <= t1 <= 1024,
        harg >= 0,
    ensures
        t2 <= hue_to_rgb_fix(t1, t2, harg) <= t1,
        0 <= hue_to_rgb_u8(t1, t2, harg) <= 255,
{
    let h = harg % 6144;
    if h < 1024 {
        lemma_blend(t1, t2, h);
    } else if h < 3072 {
    } else if h < 4096 {
        lemma_blend(t1, t2, 4096 - h);
    } else {
    }
    let v = hue_to_rgb_fix(t1, t2, harg);
    assert(0 <= v * 255 <= 1024 * 255) by (nonlinear_arith)
        requires
            0 <= v <= 1024,
    ;
    vstd::arithmetic::div_mod::lemma_div_is_ordered(v * 255, 261120int, 1024);
    vstd::arithmetic::div_mod::lemma_div_pos_is_pos(v * 255, 1024);
}

/// Quotient of `n` by a positive `d`, rounded toward zero.
fn trunc_div(n: i32, d: i32) -> (q: i32)
    requires
        d > 0,
        n > i32::MIN,
    ensures
        q == tdiv(n as int, d as int),
{
    if n >= 0 {
        n / d
    } else {
        let m: i32 = -n;
        let q: i32 = m / d;
        assert(0 <= q <= m) by {
            vstd::arithmetic::div_mod::lemma_div_pos_is_pos(m as int, d as int);
            vstd::arithmetic::div_mod::lemma_div_is_ordered_by_denominator(m as int, 1, d as int);
        }
        -q
    }
}

/// Every colour with saturation and lightness at most 1.0 converts to RGBA.
pub proof fn lemma_in_gamut_converts(c: Hsla)
    requires
        c.in_gamut(),
    ensures
        converts_to_rgba(c),
{
    if c.s == 0 {
        vstd::arithmetic::div_mod::lemma_div_is_ordered((c.l as int) * 255, 261120int, 1024);
    } else {
        let h = c.h as int;
        let t1 = hsl_temp1(c.s as int, c.l as int);
        let t2 = 2 * (c.l as int) - t1;
        lemma_temps(c.s as int, c.l as int);
        lemma_channel_converts(t1, t2, h + 2048);
        lemma_channel_converts(t1, t2, h);
        lemma_channel_converts(t1, t2, h + 4096);
        assert((c.l as int) * (c.s as int) <= 1024 * 1024) by (nonlinear_arith)
            requires
                c.l <= 1024,
                c.s <= 1024,
        ;
    }
}

proof fn lemma_channel_converts(t1: int, t2: int, harg: int)
    requires
        0 <= t2 <= t1 <= 1024,
        harg >= 0,
    ensures
        channel_converts(t1, t2, harg),
{
    lemma_hue_to_rgb_bounds(t1, t2, harg);
    let h = harg % 6144;
    if h < 1024 {
        lemma_blend(t1, t2, h);
    } else if 3072 <= h < 4096 {
        lemma_blend(t1, t2, 4096 - h);
    }
}

fn hue_to_rgb_2(t1: i32, t2: i32, harg: i32) -> (v: i32)
    requires
        -0x80_0000 <= t2 <= 0x80_0000,
        -0x80_0000 <= t1 <= 0x80_0000,
        0 <= harg <= 70000,
        channel_converts(t1 as int, t2 as int, harg as int),
    ensures
        v == hue_to_rgb_fix(t1 as int, t2 as int, harg as int),
{
    let h: i32 = harg % HSLA_SIX_I;
    if h < HSLA_ONE_I {
        let q: i32 = (t1 - t2) * h / HSLA_ONE_I;
        assert(-0x20_0000 <= q <= 0x20_0000);
        t2 + q
    } else if h < HSLA_THREE_I {
        t1
    } else if h < HSLA_FOUR_I {
        let q: i32 = (t1 - t2) * (HSLA_FOUR_I - h) / HSLA_ONE_I;
        assert(-0x20_0000 <= q <= 0x20_0000);
        t2 + q
    } else {
        t2
    }
}

fn hue_to_rgb(t1: i32, t2: i32, h: i32) -> (v: u8)
    requires
        -0x80_0000 <= t2 <= 0x80_0000,
        -0x80_0000 <= t1 <= 0x80_0000,
        0 <= h <= 70000,
        channel_converts(t1 as int, t2 as int, h as int),
    ensures
        v == hue_to_rgb_u8(t1 as int, t2 as int, h as int),
{
    let tmp: i32 = hue_to_rgb_2(t1, t2, h) * 255 / HSLA_ONE_I;
    tmp as u8
}

/// Whether one channel can be computed from the temporaries; see
/// `channel_converts`.
fn channel_converts_exec(t1: i64, t2: i64, harg: i64) -> (ok: bool)
    requires
        -0x80_0000 <= t2 <= 0x80_0000,
        -0x80_0000 <= t1 <= 0x80_0000,
        0 <= harg <= 70000,
    ensures
        ok == channel_converts(t1 as int, t2 as int, harg as int),
{
    let h: i64 = harg % 6144;
    let d: i64 = t1 - t2;
    assert(-0x100_0000 * 6144 <= d * h <= 0x100_0000 * 6144 && -0x100_0000 * 6144 <= d * (4096
        - h) <= 0x100_0000 * 6144) by (nonlinear_arith)
        requires
            -0x100_0000 <= d <= 0x100_0000,
            0 <= h < 6144,
    ;
    let v: i64 = if h < 1024 {
        let p: i64 = d * h;
        if p < i32::MIN as i64 || p > i32::MAX as i64 {
            return false;
        }
        t2 + p / 1024
    } else if h < 3072 {
        t1
    } else if h < 4096 {
        let p: i64 = d * (4096 - h);
        if p < i32::MIN as i64 || p > i32::MAX as i64 {
            return false;
        }
        t2 + p / 1024
    } else {
        t2
    };
    let w: i64 = v * 255;
    if w < i32::MIN as i64 || w > i32::MAX as i64 {
        return false;
    }
    let q: i64 = w / 1024;
    0 <= q && q <= 255
}

impl Hsla {
    /// Creates an HSLA colour from fixed-point values.
    pub fn new(h: u16, s: u16, l: u16, a: u8) -> (c: Hsla)
        ensures
            c == (Hsla { h, s, l, a }),
    {
        Hsla { h, s, l, a }
    }

    /// Converts an RGBA colour to HSLA.
    pub fn from_rgba(item: &Rgba) -> (c: Hsla)
        ensures
            c == spec_from_rgba(*item),
            c.is_canonical(),
            c.a == item.a,
    {
        proof {
            reveal(spec_from_rgba);
            lemma_from_rgba_canonical(*item);
            lemma_fix_channel_bounds(item.r);
            lemma_fix_channel_bounds(item.g);
            lemma_fix_channel_bounds(item.b);
        }
        let r: i32 = (item.r as i32) * HSLA_ONE_I / 255;
        let g: i32 = (item.g as i32) * HSLA_ONE_I / 255;
        let b: i32 = (item.b as i32) * HSLA_ONE_I / 255;

        let min_rg: i32 = if r <= g { r } else { g };
        let min: i32 = if min_rg <= b { min_rg } else { b };
        let max_rg: i32 = if r >= g { r } else { g };
        let max: i32 = if max_rg >= b { max_rg } else { b };

        let l: i32 = (min + max) / 2;

        if min == max {
            return Hsla { h: 0, s: 0, l: l as u16, a: item.a };
        }
        proof {
            if l <= 512 {
                lemma_scaled_ratio(max - min, max + min);
            } else {
                lemma_scaled_ratio(max - min, 2048 - max - min);
            }
        }
        let s: i32 = if l <= HSLA_HALF_I {
            ((max - min) * HSLA_ONE_I) / (max + min)
        } else {
            ((max - min) * HSLA_ONE_I) / (HSLA_TWO_I - max - min)
        };

        proof {
            if r == max {
                lemma_tdiv_scaled(g - b, max - min);
            } else if g == max {
                lemma_tdiv_scaled(b - r, max - min);
            } else {
                lemma_tdiv_scaled(r - g, max - min);
            }
        }
        let ht: i32 = if r == max {
            trunc_div((g - b) * HSLA_ONE_I, max - min)
        } else if g == max {
            HSLA_TWO_I + trunc_div((b - r) * HSLA_ONE_I, max - min)
        } else {
            HSLA_FOUR_I + trunc_div((r - g) * HSLA_ONE_I, max - min)
        };

        let h: i32 = (ht + HSLA_SIX_I) % HSLA_SIX_I;

        Hsla::new(h as u16, s as u16, l as u16, item.a)
    }

    /// Whether the colour converts to RGBA (`converts_to_rgba`).
    pub fn is_convertible(&self) -> (ok: bool)
        ensures
            ok == converts_to_rgba(*self),
    {
        if self.s == 0 {
            return (self.l as u32) * 255 / ONE_U32 <= 255;
        }
        let h: i64 = self.h as i64;
        let s: i64 = self.s as i64;
        let l: i64 = self.l as i64;
        assert(0 <= l * s <= 65535 * 65535 && 0 <= l * (1024 + s) <= 65535 * (1024 + 65535))
            by (nonlinear_arith)
            requires
                0 <= l <= 65535,
                0 <= s <= 65535,
        ;
        if l > 512 && l * s > i32::MAX as i64 {
            return false;
        }
        let temp1: i64 = if l <= 512 {
            l * (1024 + s) / 1024
        } else {
            l + s - l * s / 1024
        };
        let temp2: i64 = 2 * l - temp1;
        channel_converts_exec(temp1, temp2, h + 2048) && channel_converts_exec(temp1, temp2, h)
            && channel_converts_exec(temp1, temp2, h + 4096)
    }

    /// Converts an HSLA colour to RGBA. The conversion is defined for the
    /// colours of `converts_to_rgba`, among them every colour whose
    /// saturation and lightness are at most 1.0.
    pub fn to_rgba(&self) -> (c: Rgba)
        requires
            converts_to_rgba(*self),
        ensures
            c == spec_to_rgba(*self),
            c.a == self.a,
    {
        if self.s == 0 {
            let grey_u32: u32 = (self.l as u32) * 255 / ONE_U32;
            let grey_u8: u8 = grey_u32 as u8;
            return Rgba { r: grey_u8, g: grey_u8, b: grey_u8, a: self.a };
        }
        let h: i32 = self.h as i32;
        let s: i32 = self.s as i32;
        let l: i32 = self.l as i32;

        let temp1: i32 = if l <= HSLA_HALF_I {
            assert(0 <= l * (1024 + s) <= 512 * (1024 + 65535)) by (nonlinear_arith)
                requires
                    0 <= l <= 512,
                    0 <= s <= 65535,
            ;
            (l * (HSLA_ONE_I + s)) / HSLA_ONE_I
        } else {
            assert(0 <= l * s) by (nonlinear_arith)
                requires
                    0 <= l,
                    0 <= s,
            ;
            l + s - ((l * s) / HSLA_ONE_I)
        };
        let temp2: i32 = 2 * l - temp1;

        let r = hue_to_rgb(temp1, temp2, h + HSLA_TWO_I);
        let g = hue_to_rgb(temp1, temp2, h);
        let b = hue_to_rgb(temp1, temp2, h + HSLA_FOUR_I);

        Rgba { r, g, b, a: self.a }
    }

    /// What has to be added to an HSLA hue to turn the hue of `source` into
    /// the hue of `target`.
    pub fn calc_hue_shift(source: Rgba, target: Rgba) -> (shift: u16)
        ensures
            shift == ((6144 + spec_from_rgba(target).h - spec_from_rgba(source).h) % 6144) as u16,
            shift < 6144,
    {
        let source_hsla = Hsla::from_rgba(&source);
        let target_hsla = Hsla::from_rgba(&target);
        let shift: u32 = (ONE_U32 * 6 + (target_hsla.h as u32) - (source_hsla.h as u32)) % (ONE_U32
            * 6);
        shift as u16
    }

    /// Rotates a hue by `shift`, wrapping at one full turn.
    pub fn hue_shift(orig: u16, shift: u16) -> (h: u16)
        requires
            orig + shift <= u16::MAX,
        ensures
            h == (orig + shift) % 6144,
    {
        (orig + shift) % (ONE_U16 * 6)
    }
}

/// A transformation of HSLA space: a hue rotation `ht` and fixed-point tables
/// `st` and `lt` that map each saturation and each lightness in `0..=1024`
/// to a new one.
pub struct HslaTransform {
    pub ht: u16,
    pub st: Vec<u16>,
    pub lt: Vec<u16>,
}

impl HslaTransform {
    /// The rotation is below one full turn and both tables have an in-gamut
    /// entry for every value in `0..=1024`; such a transform applies to every
    /// colour (`lemma_wf_applies`).
    pub open spec fn wf(&self) -> bool {
        &&& self.ht < 6144
        &&& self.st@.len() == 1025
        &&& self.lt@.len() == 1025
        &&& forall|i: int| 0 <= i < 1025 ==> #[trigger] self.st@[i] <= 1024
        &&& forall|i: int| 0 <= i < 1025 ==> #[trigger] self.lt@[i] <= 1024
    }

    /// The HSLA colour the transform gives an RGBA colour.
    pub open spec fn spec_apply_hsla(&self, c: Rgba) -> Hsla {
        let i = spec_from_rgba(c);
        Hsla {
            h: ((i.h + self.ht) % 6144) as u16,
            s: self.st@[i.s as int],
            l: self.lt@[i.l as int],
            a: i.a,
        }
    }

    /// The transform applies to `c`: the rotated hue fits in a `u16`, both
    /// tables have an entry for the colour's saturation and lightness, and the
    /// transformed colour converts back to RGBA.
    pub open spec fn applies_to(&self, c: Rgba) -> bool {
        let i = spec_from_rgba(c);
        &&& i.h + self.ht <= u16::MAX
        &&& i.s < self.st@.len()
        &&& i.l < self.lt@.len()
        &&& converts_to_rgba(self.spec_apply_hsla(c))
    }

    pub fn new(ht: u16, st: Vec<u16>, lt: Vec<u16>) -> (t: HslaTransform)
        ensures
            t.ht == ht,
            t.st@ == st@,
            t.lt@ == lt@,
    {
        HslaTransform { ht, st, lt }
    }

    /// Whether the transform applies to `input`.
    pub fn can_apply(&self, input: &Rgba) -> (ok: bool)
        ensures
            ok == self.applies_to(*input),
    {
        let input_hsla = Hsla::from_rgba(input);
        if input_hsla.h as u32 + self.ht as u32 > u16::MAX as u32 {
            return false;
        }
        if input_hsla.s as usize >= self.st.len() || input_hsla.l as usize >= self.lt.len() {
            return false;
        }
        let h = Hsla::hue_shift(input_hsla.h, self.ht);
        let s = self.st[input_hsla.s as usize];
        let l = self.lt[input_hsla.l as usize];
        Hsla::new(h, s, l, input_hsla.a).is_convertible()
    }

    /// Converts `input` to HSLA, rotates its hue, maps its saturation and
    /// lightness through the tables, and converts the result back to RGBA.
    pub fn apply(&self, input: &Rgba) -> (out: Rgba)
        requires
            self.applies_to(*input),
        ensures
            out == spec_to_rgba(self.spec_apply_hsla(*input)),
            out.a == input.a,
    {
        let input_hsla = Hsla::from_rgba(input);
        let h = Hsla::hue_shift(input_hsla.h, self.ht);
        let s = self.st[input_hsla.s as usize];
        let l = self.lt[input_hsla.l as usize];
        let adjusted = Hsla::new(h, s, l, input_hsla.a);
        adjusted.to_rgba()
    }
}

/// A well-formed transform applies to every colour.
pub proof fn lemma_wf_applies(t: HslaTransform, c: Rgba)
    requires
        t.wf(),
    ensures
        t.applies_to(c),
{
    lemma_from_rgba_canonical(c);
    let i = spec_from_rgba(c);
    assert(t.st@[i.s as int] <= 1024);
    assert(t.lt@[i.l as int] <= 1024);
    lemma_in_gamut_converts(t.spec_apply_hsla(c));
}

/// Shifting the hue of `source` by the shift computed from `source` to
/// `target` gives exactly the hue of `target`.
pub proof fn lemma_hue_shift_reaches_target(source: Rgba, target: Rgba)
    ensures
        ({
            let sh = spec_from_rgba(source).h;
            let th = spec_from_rgba(target).h;
            let shift = (6144 + th - sh) % 6144;
            &&& sh + shift <= u16::MAX
            &&& (sh + shift) % 6144 == th
        }),
{
    lemma_from_rgba_canonical(source);
    lemma_from_rgba_canonical(target);
}


/// Distinct 8-bit channels scale to fixed-point values at least 4 apart.
proof fn lemma_fix_channel_spacing(c1: u8, c2: u8)
    requires
        c1 < c2,
    ensures
        fix_channel(c1) + 4 <= fix_channel(c2),
{
    let a = (c1 as int) * 1024;
    let b = (c2 as int) * 1024;
    vstd::arithmetic::div_mod::lemma_fundamental_div_mod(a, 255);
    vstd::arithmetic::div_mod::lemma_fundamental_div_mod(b, 255);
    assert(b - a >= 1024) by (nonlinear_arith)
        requires
            a == (c1 as int) * 1024,
            b == (c2 as int) * 1024,
            c1 < c2,
    ;
}

/// A fixed-point value within `-3..=2` of a scaled channel converts back to
/// within one step of that channel.
proof fn lemma_channel_back(c: u8, v: int)
    requires
        fix_channel(c) - 3 <= v <= fix_channel(c) + 2,
        0 <= v,
    ensures
        c - 1 <= v * 255 / 1024 <= c + 1,
        v <= 1024 ==> v * 255 / 1024 <= 255,
{
    let x = fix_channel(c);
    let a = (c as int) * 1024;
    vstd::arithmetic::div_mod::lemma_fundamental_div_mod(a, 255);
    assert(255 * x <= a < 255 * x + 255);
    vstd::arithmetic::div_mod::lemma_fundamental_div_mod(v * 255, 1024);
    let q = v * 255 / 1024;
    assert(1024 * q <= v * 255 < 1024 * q + 1024);
    assert(255 * (x - 3) <= v * 255 <= 255 * (x + 2)) by (nonlinear_arith)
        requires
            x - 3 <= v <= x + 2,
    ;
}

/// For a colour whose scaled channels span `mn..=mx` (at least 4 apart), the
/// saturation is positive and the two HSL temporaries computed back from
/// saturation and lightness lie within 2 of `mx` and `mn`.
proof fn lemma_temps_close(mn: int, mx: int)
    requires
        0 <= mn,
        mn + 4 <= mx <= 1024,
    ensures
        ({
            let l = (mn + mx) / 2;
            let s = rgb_saturation(mn, mx);
            let t1 = hsl_temp1(s, l);
            &&& 0 < s <= 1024
            &&& 0 <= l <= 1024
            &&& mx - 2 <= t1 <= mx + 2
            &&& mn - 2 <= 2 * l - t1 <= mn + 2
        }),
{
    let p = mn + mx;
    let d = mx - mn;
    let l = p / 2;
    let s = rgb_saturation(mn, mx);
    let t1 = hsl_temp1(s, l);
    assert(2 * l <= p <= 2 * l + 1);
    if l <= 512 {
        lemma_scaled_ratio(d, p);
        assert(s == (d * 1024) / p);
        vstd::arithmetic::div_mod::lemma_fundamental_div_mod(d * 1024, p);
        vstd::arithmetic::div_mod::lemma_mod_bound(d * 1024, p);
        assert(p * s == s * p) by (nonlinear_arith);
        assert(s * p <= d * 1024 < s * p + p);
        assert(s > 0) by (nonlinear_arith)
            requires
                d * 1024 < s * p + p,
                d >= 4,
                0 < p <= 1025,
                s >= 0,
        ;
        let u = l * (1024 + s);
        vstd::arithmetic::div_mod::lemma_fundamental_div_mod(u, 1024);
        assert(1024 * t1 <= u < 1024 * t1 + 1024);
        assert(2 * u <= p * (1024 + s)) by (nonlinear_arith)
            requires
                u == l * (1024 + s),
                2 * l <= p,
                s >= 0,
        ;
        assert(2 * u >= (p - 1) * (1024 + s)) by (nonlinear_arith)
            requires
                u == l * (1024 + s),
                p - 1 <= 2 * l,
                s >= 0,
        ;
        assert((p - 1) * (1024 + s) == 1024 * p + s * p - 1024 - s) by (nonlinear_arith);
        assert(p * (1024 + s) == 1024 * p + s * p) by (nonlinear_arith);
    } else {
        let q = 2048 - p;
        lemma_scaled_ratio(d, q);
        assert(s == (d * 1024) / q);
        vstd::arithmetic::div_mod::lemma_fundamental_div_mod(d * 1024, q);
        vstd::arithmetic::div_mod::lemma_mod_bound(d * 1024, q);
        assert(q * s == s * q) by (nonlinear_arith);
        assert(s * q <= d * 1024 < s * q + q);
        assert(s > 0) by (nonlinear_arith)
            requires
                d * 1024 < s * q + q,
                d >= 4,
                0 < q <= 1022,
                s >= 0,
        ;
        let u = l * s;
        let w = u / 1024;
        vstd::arithmetic::div_mod::lemma_fundamental_div_mod(u, 1024);
        assert(1024 * w <= u < 1024 * w + 1024);
        assert(t1 == l + s - w);
        assert(2 * (1024 * s - u) >= s * q) by (nonlinear_arith)
            requires
                u == l * s,
                2 * l <= p,
                q == 2048 - p,
                s >= 0,
        ;
        assert(2 * (1024 * s - u) <= s * q + s) by (nonlinear_arith)
            requires
                u == l * s,
                p - 1 <= 2 * l,
                q == 2048 - p,
                s >= 0,
        ;
    }
}

/// Position of channel `ch` between `mn` and `mx`, in 1024ths, rounded down.
pub open spec fn hue_frac(ch: int, mn: int, mx: int) -> int {
    (ch - mn) * 1024 / (mx - mn)
}

/// The blended value `t2 + (t1 - t2) * k / 1024`, with `k` the position of
/// `ch` between `mn` and `mx`, lies within `-3..=2` of `ch` when the
/// temporaries lie within 2 of `mx` and `mn`.
proof fn lemma_ramp(t1: int, t2: int, mn: int, mx: int, ch: int)
    requires
        0 <= mn <= ch <= mx <= 1024,
        mn < mx,
        t2 <= t1,
        mn - 2 <= t2 <= mn + 2,
        mx - 2 <= t1 <= mx + 2,
    ensures
        0 <= hue_frac(ch, mn, mx) <= 1024,
        hue_frac(ch, mn, mx) == 1024 <==> ch == mx,
        hue_frac(ch, mn, mx) == 0 ==> ch - mn < 1,
        ch - 3 <= t2 + ((t1 - t2) * hue_frac(ch, mn, mx)) / 1024 <= ch + 2,
{
    let d = mx - mn;
    let k = hue_frac(ch, mn, mx);
    lemma_scaled_ratio(ch - mn, d);
    vstd::arithmetic::div_mod::lemma_fundamental_div_mod((ch - mn) * 1024, d);
    assert(d * k <= (ch - mn) * 1024 < d * k + d);
    if ch == mx {
        assert((ch - mn) * 1024 == d * 1024);
        vstd::arithmetic::div_mod::lemma_div_by_multiple(1024, d);
        assert(d * 1024 == 1024 * d) by (nonlinear_arith);
    }
    if k == 1024 {
        assert(ch - mn >= d) by (nonlinear_arith)
            requires
                d * 1024 <= (ch - mn) * 1024,
        ;
    }
    if k == 0 {
        assert(d * k == 0) by (nonlinear_arith)
            requires
                k == 0,
        ;
        assert(ch - mn < 1) by (nonlinear_arith)
            requires
                (ch - mn) * 1024 < d,
                d <= 1024,
        ;
    }
    let e = (t1 - t2) * k;
    let m = e / 1024;
    vstd::arithmetic::div_mod::lemma_fundamental_div_mod(e, 1024);
    assert(1024 * m <= e < 1024 * m + 1024);
    assert(1024 * t2 + e == (1024 - k) * t2 + k * t1) by (nonlinear_arith)
        requires
            e == (t1 - t2) * k,
    ;
    assert((1024 - k) * (t2 - mn + 2) >= 0 && k * (t1 - mx + 2) >= 0) by (nonlinear_arith)
        requires
            0 <= k <= 1024,
            t2 - mn + 2 >= 0,
            t1 - mx + 2 >= 0,
    ;
    assert((1024 - k) * (mn + 2 - t2) >= 0 && k * (mx + 2 - t1) >= 0) by (nonlinear_arith)
        requires
            0 <= k <= 1024,
            mn + 2 - t2 >= 0,
            mx + 2 - t1 >= 0,
    ;
    assert((1024 - k) * (t2 - mn + 2) + k * (t1 - mx + 2) == (1024 - k) * t2 + k * t1 - 1024 * mn
        + 2048 - k * d) by (nonlinear_arith)
        requires
            d == mx - mn,
    ;
    assert((1024 - k) * (mn + 2 - t2) + k * (mx + 2 - t1) == 1024 * mn + 2048 + k * d - ((1024
        - k) * t2 + k * t1)) by (nonlinear_arith)
        requires
            d == mx - mn,
    ;
    assert(d * k == k * d) by (nonlinear_arith);
}

/// Each channel computed back from the hue and the HSL temporaries lies within
/// `-3..=2` of the scaled channel it came from.
proof fn lemma_channels_close(r: int, g: int, b: int, t1: int, t2: int)
    requires
        0 <= r <= 1024,
        0 <= g <= 1024,
        0 <= b <= 1024,
        min3(r, g, b) < max3(r, g, b),
        t2 <= t1,
        min3(r, g, b) - 2 <= t2 <= min3(r, g, b) + 2,
        max3(r, g, b) - 2 <= t1 <= max3(r, g, b) + 2,
    ensures
        ({
            let h = rgb_hue(r, g, b, min3(r, g, b), max3(r, g, b));
            &&& r - 3 <= hue_to_rgb_fix(t1, t2, h + 2048) <= r + 2
            &&& g - 3 <= hue_to_rgb_fix(t1, t2, h) <= g + 2
            &&& b - 3 <= hue_to_rgb_fix(t1, t2, h + 4096) <= b + 2
        }),
{
    let mn = min3(r, g, b);
    let mx = max3(r, g, b);
    let h = rgb_hue(r, g, b, mn, mx);
    lemma_ramp(t1, t2, mn, mx, r);
    lemma_ramp(t1, t2, mn, mx, g);
    lemma_ramp(t1, t2, mn, mx, b);
    let kr = hue_frac(r, mn, mx);
    let kg = hue_frac(g, mn, mx);
    let kb = hue_frac(b, mn, mx);
    assert((t1 - t2) * 1024 / 1024 == t1 - t2);
    assert((t1 - t2) * 0 / 1024 == 0);
    if r == mx {
        if g >= b {
            assert(b == mn);
            assert(h == kg);
        } else {
            assert(g == mn);
            assert(h == 6144 - kb);
        }
    } else if g == mx {
        if b >= r {
            assert(r == mn);
            assert(h == 2048 + kb);
        } else {
            assert(b == mn);
            assert(h == 2048 - kr);
        }
    } else {
        assert(b == mx);
        if r >= g {
            assert(g == mn);
            assert(h == 4096 + kr);
        } else {
            assert(r == mn);
            assert(h == 4096 - kg);
        }
    }
}

/// Two RGBA colours whose colour channels differ by at most one step and
/// whose alphas are equal.
pub open spec fn rgba_close(x: Rgba, y: Rgba) -> bool {
    &&& -1 <= x.r - y.r <= 1
    &&& -1 <= x.g - y.g <= 1
    &&& -1 <= x.b - y.b <= 1
    &&& x.a == y.a
}

/// Converting an RGBA colour to HSLA and back changes no colour channel by
/// more than one step and keeps the alpha.
pub proof fn lemma_rgba_round_trip(c: Rgba)
    ensures
        spec_from_rgba(c).in_gamut(),
        rgba_close(spec_to_rgba(spec_from_rgba(c)), c),
{
    lemma_from_rgba_canonical(c);
    reveal(spec_from_rgba);
    let r = fix_channel(c.r);
    let g = fix_channel(c.g);
    let b = fix_channel(c.b);
    lemma_fix_channel_bounds(c.r);
    lemma_fix_channel_bounds(c.g);
    lemma_fix_channel_bounds(c.b);
    let mn = min3(r, g, b);
    let mx = max3(r, g, b);
    let l = (mn + mx) / 2;
    let hsla = spec_from_rgba(c);
    if mn == mx {
        assert(hsla.s == 0 && hsla.l == l);
        lemma_channel_back(c.r, l);
        lemma_channel_back(c.g, l);
        lemma_channel_back(c.b, l);
    } else {
        if c.r < c.g {
            lemma_fix_channel_spacing(c.r, c.g);
        } else if c.g < c.r {
            lemma_fix_channel_spacing(c.g, c.r);
        }
        if c.r < c.b {
            lemma_fix_channel_spacing(c.r, c.b);
        } else if c.b < c.r {
            lemma_fix_channel_spacing(c.b, c.r);
        }
        if c.g < c.b {
            lemma_fix_channel_spacing(c.g, c.b);
        } else if c.b < c.g {
            lemma_fix_channel_spacing(c.b, c.g);
        }
        assert(mn + 4 <= mx);
        lemma_temps_close(mn, mx);
        let s = rgb_saturation(mn, mx);
        let h = rgb_hue(r, g, b, mn, mx);
        assert(hsla.s == s && hsla.l == l && hsla.h == h);
        let t1 = hsl_temp1(s, l);
        let t2 = 2 * l - t1;
        lemma_temps(s, l);
        lemma_channels_close(r, g, b, t1, t2);
        lemma_hue_to_rgb_bounds(t1, t2, h + 2048);
        lemma_hue_to_rgb_bounds(t1, t2, h);
        lemma_hue_to_rgb_bounds(t1, t2, h + 4096);
        lemma_channel_back(c.r, hue_to_rgb_fix(t1, t2, h + 2048));
        lemma_channel_back(c.g, hue_to_rgb_fix(t1, t2, h));
        lemma_channel_back(c.b, hue_to_rgb_fix(t1, t2, h + 4096));
    }
}

/// Applying a transform rotates the colour's hue by `ht`, replaces its
/// saturation by the saturation table's entry at that saturation and its
/// lightness by the lightness table's entry at that lightness, and keeps its
/// alpha.
pub proof fn lemma_apply_looks_up_tables(t: HslaTransform, c: Rgba)
    ensures
        t.spec_apply_hsla(c).h == (spec_from_rgba(c).h + t.ht) % 6144,
        t.spec_apply_hsla(c).s == t.st@[spec_from_rgba(c).s as int],
        t.spec_apply_hsla(c).l == t.lt@[spec_from_rgba(c).l as int],
        t.spec_apply_hsla(c).a == c.a,
{
    lemma_from_rgba_canonical(c);
    assert((spec_from_rgba(c).h + t.ht) % 6144 < 6144);
}

/// A transform whose hue rotation is the shift from `source` to `target`,
/// and whose tables map the source's saturation and lightness to the
/// target's, takes `source` to within one step of `target` on every colour
/// channel (with the alpha kept, here equal).
pub proof fn lemma_transform_takes_source_to_target(t: HslaTransform, source: Rgba, target: Rgba)
    requires
        t.ht == (6144 + spec_from_rgba(target).h - spec_from_rgba(source).h) % 6144,
        spec_from_rgba(source).s < t.st@.len(),
        spec_from_rgba(source).l < t.lt@.len(),
        t.st@[spec_from_rgba(source).s as int] == spec_from_rgba(target).s,
        t.lt@[spec_from_rgba(source).l as int] == spec_from_rgba(target).l,
        source.a == target.a,
    ensures
        t.applies_to(source),
        t.spec_apply_hsla(source) == spec_from_rgba(target),
        rgba_close(spec_to_rgba(t.spec_apply_hsla(source)), target),
{
    lemma_hue_shift_reaches_target(source, target);
    lemma_from_rgba_canonical(source);
    lemma_from_rgba_canonical(target);
    lemma_apply_looks_up_tables(t, source);
    assert(t.spec_apply_hsla(source) == spec_from_rgba(target));
    lemma_in_gamut_converts(spec_from_rgba(target));
    lemma_rgba_round_trip(target);
}

} // verus!
