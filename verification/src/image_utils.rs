//! Pixel-level colour transforms and whole-image metrics.
use vstd::prelude::*;
use crate::gamma_tables::{GAMMA_17, GAMMA_22, GAMMA_30, lemma_gamma_tables_bounded};
use crate::hsla::{Hsla, lemma_in_gamut_converts, spec_from_rgba, spec_to_rgba};
use crate::rgba::Rgba;

verus! {

/// The hue adjustment shared by the shirt recolourings: `-324` turns the
/// blue-green shirt image into a primary colour, `6 * 256` keeps the
/// unsigned arithmetic from going negative, `offset` picks the new colour.
pub open spec fn shifted_hue(h: u16, offset: int) -> u16 {
    ((h + 1536 - 324 + offset) % 1536int) as u16
}

pub open spec fn spec_blue_to_red(c: Rgba) -> Rgba {
    let hsla = spec_from_rgba(c);
    spec_to_rgba(Hsla { h: shifted_hue(hsla.h, 1024), s: hsla.s, l: hsla.l, a: hsla.a })
}

pub open spec fn spec_blue_to_dgreen(c: Rgba) -> Rgba {
    let hsla = spec_from_rgba(c);
    spec_to_rgba(
        Hsla { h: shifted_hue(hsla.h, 38), s: hsla.s, l: GAMMA_17@[hsla.l as int], a: hsla.a },
    )
}

pub open spec fn spec_blue_to_ddgreen(c: Rgba) -> Rgba {
    let hsla = spec_from_rgba(c);
    spec_to_rgba(
        Hsla {
            h: shifted_hue(hsla.h, 38),
            s: GAMMA_30@[hsla.s as int],
            l: GAMMA_22@[hsla.l as int],
            a: hsla.a,
        },
    )
}

pub open spec fn spec_blue_to_dblue(c: Rgba) -> Rgba {
    let hsla = spec_from_rgba(c);
    spec_to_rgba(
        Hsla {
            h: shifted_hue(hsla.h, 350),
            s: GAMMA_30@[hsla.s as int],
            l: GAMMA_17@[hsla.l as int],
            a: hsla.a,
        },
    )
}

pub open spec fn spec_blue_to_burg(c: Rgba) -> Rgba {
    let hsla = spec_from_rgba(c);
    spec_to_rgba(
        Hsla { h: shifted_hue(hsla.h, 951), s: hsla.s, l: GAMMA_17@[hsla.l as int], a: hsla.a },
    )
}

/// Recolours a pixel of the blue shirt to red.
pub fn blue_to_red(input: &Rgba) -> (out: Rgba)
    ensures
        out == spec_blue_to_red(*input),
{
    let hsla = Hsla::from_rgba(input);
    let red_adjust = Hsla {
        h: (hsla.h + 6 * 256 - 324 + 1024) % (6 * 256),
        s: hsla.s,
        l: hsla.l,
        a: hsla.a,
    };
    proof {
        lemma_in_gamut_converts(red_adjust);
    }
    red_adjust.to_rgba()
}

/// Recolours a pixel of the blue shirt to dark green. The lightness table is
/// indexed by the lightness itself, so the pixel's lightness must be at most 256.
pub fn blue_to_dgreen(input: &Rgba) -> (out: Rgba)
    requires
        spec_from_rgba(*input).l <= 256,
    ensures
        out == spec_blue_to_dgreen(*input),
{
    proof {
        lemma_gamma_tables_bounded();
    }
    let hsla = Hsla::from_rgba(input);
    let dgreen_adjust = Hsla {
        h: (hsla.h + 6 * 256 - 324 + 38) % (6 * 256),
        s: hsla.s,
        l: GAMMA_17[hsla.l as usize],
        a: hsla.a,
    };
    proof {
        lemma_in_gamut_converts(dgreen_adjust);
    }
    dgreen_adjust.to_rgba()
}

/// Recolours a pixel of the blue shirt to a darker green. Saturation and
/// lightness index their tables, so both must be at most 256.
pub fn blue_to_ddgreen(input: &Rgba) -> (out: Rgba)
    requires
        spec_from_rgba(*input).s <= 256,
        spec_from_rgba(*input).l <= 256,
    ensures
        out == spec_blue_to_ddgreen(*input),
{
    proof {
        lemma_gamma_tables_bounded();
    }
    let hsla = Hsla::from_rgba(input);
    let ddgreen_adjust = Hsla {
        h: (hsla.h + 6 * 256 - 324 + 38) % (6 * 256),
        s: GAMMA_30[hsla.s as usize],
        l: GAMMA_22[hsla.l as usize],
        a: hsla.a,
    };
    proof {
        lemma_in_gamut_converts(ddgreen_adjust);
    }
    ddgreen_adjust.to_rgba()
}

/// Recolours a pixel of the blue shirt to dark blue. Saturation and
/// lightness index their tables, so both must be at most 256.
pub fn blue_to_dblue(input: &Rgba) -> (out: Rgba)
    requires
        spec_from_rgba(*input).s <= 256,
        spec_from_rgba(*input).l <= 256,
    ensures
        out == spec_blue_to_dblue(*input),
{
    proof {
        lemma_gamma_tables_bounded();
    }
    let hsla = Hsla::from_rgba(input);
    let dblue_adjust = Hsla {
        h: (hsla.h + 6 * 256 - 324 + 350) % (6 * 256),
        s: GAMMA_30[hsla.s as usize],
        l: GAMMA_17[hsla.l as usize],
        a: hsla.a,
    };
    proof {
        lemma_in_gamut_converts(dblue_adjust);
    }
    dblue_adjust.to_rgba()
}

/// Recolours a pixel of the blue shirt to burgundy. The lightness table is
/// indexed by the lightness itself, so the pixel's lightness must be at most 256.
pub fn blue_to_burg(input: &Rgba) -> (out: Rgba)
    requires
        spec_from_rgba(*input).l <= 256,
    ensures
        out == spec_blue_to_burg(*input),
{
    proof {
        lemma_gamma_tables_bounded();
    }
    let hsla = Hsla::from_rgba(input);
    let burg_adjust = Hsla {
        h: (hsla.h + 6 * 256 - 324 + 439 + 512) % (6 * 256),
        s: hsla.s,
        l: GAMMA_17[hsla.l as usize],
        a: hsla.a,
    };
    proof {
        lemma_in_gamut_converts(burg_adjust);
    }
    burg_adjust.to_rgba()
}

/// A pixel is partially transparent when its alpha is neither 0 nor 255.
pub open spec fn is_partially_transparent(c: Rgba) -> bool {
    c.a != 0 && c.a != 255
}

pub open spec fn spec_correct_alpha(c: Rgba) -> Rgba {
    Rgba { r: c.r, g: c.g, b: c.b, a: if c.a == 0 { 0 } else { 255 } }
}

pub open spec fn spec_flag_alpha(c: Rgba) -> Rgba {
    if is_partially_transparent(c) {
        Rgba { r: (255 - c.r) as u8, g: (255 - c.g) as u8, b: (255 - c.b) as u8, a: 255 }
    } else {
        c
    }
}

/// Makes a pixel printable: any alpha other than 0 becomes fully opaque.
pub fn correct_alpha_for_tshirt(input: &Rgba) -> (out: Rgba)
    ensures
        out == spec_correct_alpha(*input),
{
    let new_a: u8 = if input.a == 0 { 0 } else { 255 };
    Rgba { r: input.r, g: input.g, b: input.b, a: new_a }
}

/// Highlights a partially transparent pixel by inverting its colour and making
/// it opaque; other pixels are kept.
pub fn flag_alpha_for_shirt(input: &Rgba) -> (out: Rgba)
    ensures
        out == spec_flag_alpha(*input),
{
    let not_binary = input.a != 0 && input.a != 255;
    if not_binary {
        Rgba { r: 255 - input.r, g: 255 - input.g, b: 255 - input.b, a: 255 }
    } else {
        *input
    }
}

/// Number of partially transparent pixels.
pub open spec fn count_partially_transparent(s: Seq<Rgba>) -> nat
    decreases s.len(),
{
    if s.len() == 0 {
        0
    } else {
        count_partially_transparent(s.drop_last()) + if is_partially_transparent(s.last()) {
            1nat
        } else {
            0nat
        }
    }
}

/// Number of pixels that are not fully transparent.
pub open spec fn count_visible(s: Seq<Rgba>) -> nat
    decreases s.len(),
{
    if s.len() == 0 {
        0
    } else {
        count_visible(s.drop_last()) + if s.last().a > 0 {
            1nat
        } else {
            0nat
        }
    }
}

/// `a / b` rounded up.
pub open spec fn ceil_div(a: int, b: int) -> int {
    (a + b - 1) / b
}

proof fn lemma_count_partial_le(s: Seq<Rgba>)
    ensures
        count_partially_transparent(s) <= s.len(),
    decreases s.len(),
{
    if s.len() > 0 {
        lemma_count_partial_le(s.drop_last());
    }
}

proof fn lemma_count_visible_le(s: Seq<Rgba>)
    ensures
        count_visible(s) <= s.len(),
    decreases s.len(),
{
    if s.len() > 0 {
        lemma_count_visible_le(s.drop_last());
    }
}

/// `a / b` rounded up, as `u32::div_ceil` computes it.
fn div_ceil_u32(a: u32, b: u32) -> (q: u32)
    requires
        b > 0,
    ensures
        q == ceil_div(a as int, b as int),
{
    let d = a / b;
    let r = a % b;
    proof {
        vstd::arithmetic::div_mod::lemma_fundamental_div_mod(a as int, b as int);
        let ai = a as int;
        let bi = b as int;
        if r == 0 {
            vstd::arithmetic::div_mod::lemma_div_multiples_vanish_fancy(d as int, bi - 1, bi);
            assert(ai + bi - 1 == bi * d + (bi - 1));
        } else {
            vstd::arithmetic::div_mod::lemma_div_multiples_vanish_fancy(
                d as int + 1,
                r as int - 1,
                bi,
            );
            assert(ai + bi - 1 == bi * (d + 1) + (r - 1)) by (nonlinear_arith)
                requires
                    ai == bi * d + r,
            ;
            assert(d + 1 <= u32::MAX) by (nonlinear_arith)
                requires
                    ai == bi * d + r,
                    0 < r < bi,
                    d >= 0,
                    ai <= u32::MAX,
            ;
        }
    }
    if r > 0 {
        d + 1
    } else {
        d
    }
}

/// Number of partially transparent pixels.
pub fn count_partially_transparent_pixels(img: &[Rgba]) -> (n: usize)
    ensures
        n == count_partially_transparent(img@),
{
    let mut n: usize = 0;
    let mut i: usize = 0;
    while i < img.len()
        invariant
            0 <= i <= img@.len(),
            n == count_partially_transparent(img@.take(i as int)),
        decreases img@.len() - i,
    {
        proof {
            assert(img@.take(i + 1).drop_last() =~= img@.take(i as int));
            lemma_count_partial_le(img@.take(i as int));
        }
        if img[i].a != 0 && img[i].a != 255 {
            n = n + 1;
        }
        i = i + 1;
    }
    assert(img@.take(img@.len() as int) =~= img@);
    n
}

/// Number of pixels that are not fully transparent.
pub fn count_visible_pixels(img: &[Rgba]) -> (n: usize)
    ensures
        n == count_visible(img@),
{
    let mut n: usize = 0;
    let mut i: usize = 0;
    while i < img.len()
        invariant
            0 <= i <= img@.len(),
            n == count_visible(img@.take(i as int)),
        decreases img@.len() - i,
    {
        proof {
            assert(img@.take(i + 1).drop_last() =~= img@.take(i as int));
            lemma_count_visible_le(img@.take(i as int));
        }
        if img[i].a > 0 {
            n = n + 1;
        }
        i = i + 1;
    }
    assert(img@.take(img@.len() as int) =~= img@);
    n
}

/// Percentage of pixels that are partially transparent, rounded up.
///
/// The image must hold at least one pixel and at most `u32::MAX`, and
/// `100 * count` must fit in a `u32`.
pub fn compute_bad_tpixels(img: &[Rgba]) -> (percent: u32)
    requires
        0 < img@.len() <= u32::MAX,
        100 * count_partially_transparent(img@) <= u32::MAX,
    ensures
        percent == ceil_div((100 * count_partially_transparent(img@)) as int, img@.len() as int),
{
    let num_pixels: u32 = img.len() as u32;
    let num_bad_pixels: u32 = count_partially_transparent_pixels(img) as u32;
    div_ceil_u32(100 * num_bad_pixels, num_pixels)
}

/// Percentage of pixels that are not fully transparent, rounded up.
///
/// The image must hold at least one pixel and at most `u32::MAX`, and
/// `100 * count` must fit in a `u32`.
pub fn compute_percent_opaque(img: &[Rgba]) -> (percent: u32)
    requires
        0 < img@.len() <= u32::MAX,
        100 * count_visible(img@) <= u32::MAX,
    ensures
        percent == ceil_div((100 * count_visible(img@)) as int, img@.len() as int),
{
    let num_pixels: u32 = img.len() as u32;
    let num_opaque_pixels: u32 = count_visible_pixels(img) as u32;
    div_ceil_u32(100 * num_opaque_pixels, num_pixels)
}

} // verus!

verus! {

/// A cell of a heat map chosen as a spot worth a close look: its strength
/// (the cell's red level) and its column and row in the heat map.
#[derive(Debug, Clone, Copy, PartialEq, Eq, Structural)]
pub struct HotSpot {
    pub strength: u8,
    pub x: usize,
    pub y: usize,
}

/// The cells of a heat map `w` cells wide, in row-major order.
pub open spec fn heat_cells(px: Seq<Rgba>, w: int) -> Seq<HotSpot> {
    Seq::new(
        px.len(),
        |i: int| HotSpot { strength: px[i].r, x: (i % w) as usize, y: (i / w) as usize },
    )
}

/// The cells of strength `v`, in their original order.
pub open spec fn cells_with_strength(s: Seq<HotSpot>, v: int) -> Seq<HotSpot>
    decreases s.len(),
{
    if s.len() == 0 {
        Seq::empty()
    } else {
        cells_with_strength(s.drop_last(), v) + if s.last().strength == v {
            seq![s.last()]
        } else {
            Seq::empty()
        }
    }
}

/// The cells of strength at least `v`, strongest first; cells of equal
/// strength keep their original order.
pub open spec fn strongest_first_from(s: Seq<HotSpot>, v: int) -> Seq<HotSpot>
    decreases 256 - v,
{
    if v >= 256 {
        Seq::empty()
    } else {
        strongest_first_from(s, v + 1) + cells_with_strength(s, v)
    }
}

/// All cells, strongest first, in a stable order.
pub open spec fn strongest_first(s: Seq<HotSpot>) -> Seq<HotSpot> {
    strongest_first_from(s, 0)
}

/// Two cells of a `w` by `h` grid lie more than a fifth of the image apart,
/// measuring each axis as a fraction of the image's side.
///
/// The distance is compared exactly, in integers: cells exactly a fifth apart
/// (such as neighbouring cells of a grid five cells wide) are not far apart.
/// Measured in `f32`, as cell centres `(x + 0.5) / w`, such a distance can
/// round to just above 0.2 (0.20000002 on a grid five wide), which would
/// count as far apart; this boundary is decided exactly instead.
pub open spec fn far_apart(a: HotSpot, b: HotSpot, w: int, h: int) -> bool {
    let dx = a.x - b.x;
    let dy = a.y - b.y;
    25 * (dx * dx * h * h + dy * dy * w * w) > w * w * h * h
}

pub open spec fn far_from_all(chosen: Seq<HotSpot>, c: HotSpot, w: int, h: int) -> bool {
    forall|j: int| 0 <= j < chosen.len() ==> far_apart(#[trigger] chosen[j], c, w, h)
}

/// Greedy choice over the first `k` candidates: a candidate is taken when
/// fewer than four have been taken and it is far from all taken so far.
pub open spec fn pick_hot_spots(cands: Seq<HotSpot>, w: int, h: int, k: nat) -> Seq<HotSpot>
    decreases k,
{
    if k == 0 {
        Seq::empty()
    } else {
        let prev = pick_hot_spots(cands, w, h, (k - 1) as nat);
        if prev.len() < 4 && far_from_all(prev, cands[k - 1], w, h) {
            prev.push(cands[k - 1])
        } else {
            prev
        }
    }
}

/// The hot spots of a heat map: up to four of its strongest cells, each far
/// from the stronger ones chosen before it.
pub open spec fn spec_hot_spots(px: Seq<Rgba>, w: int, h: int) -> Seq<HotSpot> {
    let cands = strongest_first(heat_cells(px, w));
    pick_hot_spots(cands, w, h, cands.len())
}

proof fn lemma_pick_at_most_four(cands: Seq<HotSpot>, w: int, h: int, k: nat)
    ensures
        pick_hot_spots(cands, w, h, k).len() <= 4,
    decreases k,
{
    if k > 0 {
        lemma_pick_at_most_four(cands, w, h, (k - 1) as nat);
    }
}

/// Once four spots are chosen, later candidates change nothing.
proof fn lemma_pick_saturated(cands: Seq<HotSpot>, w: int, h: int, k: nat, m: nat)
    requires
        k <= m,
        pick_hot_spots(cands, w, h, k).len() >= 4,
    ensures
        pick_hot_spots(cands, w, h, m) == pick_hot_spots(cands, w, h, k),
    decreases m - k,
{
    if m > k {
        lemma_pick_saturated(cands, w, h, k, (m - 1) as nat);
    }
}

/// Whether `c` is far from every spot in `chosen`.
fn is_far_from_all(chosen: &Vec<HotSpot>, c: &HotSpot, w: usize, h: usize) -> (far: bool)
    requires
        w <= u16::MAX,
        h <= u16::MAX,
        forall|j: int| 0 <= j < chosen@.len() ==> chosen@[j].x < w && chosen@[j].y < h,
        c.x < w,
        c.y < h,
    ensures
        far == far_from_all(chosen@, *c, w as int, h as int),
{
    proof {
        assert((w as u128) * (w as u128) <= 0xffff_ffff && (h as u128) * (h as u128) <= 0xffff_ffff)
            by (nonlinear_arith)
            requires
                w <= u16::MAX,
                h <= u16::MAX,
        ;
    }
    let ww: u128 = (w as u128) * (w as u128);
    let hh: u128 = (h as u128) * (h as u128);
    proof {
        assert(ww <= 0xffff_ffff && hh <= 0xffff_ffff) by (nonlinear_arith)
            requires
                ww == w * w,
                hh == h * h,
                w <= u16::MAX,
                h <= u16::MAX,
        ;
        assert(ww * hh <= 0xffff_ffff_ffff_ffff) by (nonlinear_arith)
            requires
                ww <= 0xffff_ffff,
                hh <= 0xffff_ffff,
        ;
    }
    let limit: u128 = ww * hh;
    let mut j: usize = 0;
    while j < chosen.len()
        invariant
            0 <= j <= chosen@.len(),
            w <= u16::MAX,
            h <= u16::MAX,
            forall|k: int| 0 <= k < chosen@.len() ==> chosen@[k].x < w && chosen@[k].y < h,
            c.x < w,
            c.y < h,
            ww == w * w,
            hh == h * h,
            ww <= 0xffff_ffff,
            hh <= 0xffff_ffff,
            limit == ww * hh,
            forall|k: int| 0 <= k < j ==> far_apart(#[trigger] chosen@[k], *c, w as int, h as int),
        decreases chosen@.len() - j,
    {
        let o = chosen[j];
        let dx: u128 = if o.x >= c.x {
            (o.x - c.x) as u128
        } else {
            (c.x - o.x) as u128
        };
        let dy: u128 = if o.y >= c.y {
            (o.y - c.y) as u128
        } else {
            (c.y - o.y) as u128
        };
        proof {
            assert(dx * dx <= 0xffff_ffff && dy * dy <= 0xffff_ffff) by (nonlinear_arith)
                requires
                    dx <= u16::MAX,
                    dy <= u16::MAX,
            ;
            assert(dx * dx * hh <= 0xffff_ffff_ffff_ffff && dy * dy * ww <= 0xffff_ffff_ffff_ffff)
                by (nonlinear_arith)
                requires
                    dx * dx <= 0xffff_ffff,
                    dy * dy <= 0xffff_ffff,
                    hh <= 0xffff_ffff,
                    ww <= 0xffff_ffff,
            ;
        }
        let spread: u128 = dx * dx * hh + dy * dy * ww;
        proof {
            let dxi = o.x - c.x;
            let dyi = o.y - c.y;
            assert(dxi * dxi == dx * dx) by (nonlinear_arith)
                requires
                    dx == dxi || dx == -dxi,
            ;
            assert(dyi * dyi == dy * dy) by (nonlinear_arith)
                requires
                    dy == dyi || dy == -dyi,
            ;
            assert(dxi * dxi * h * h == dx * dx * hh) by (nonlinear_arith)
                requires
                    dxi * dxi == dx * dx,
                    hh == h * h,
            ;
            assert(dyi * dyi * w * w == dy * dy * ww) by (nonlinear_arith)
                requires
                    dyi * dyi == dy * dy,
                    ww == w * w,
            ;
            assert(w * w * h * h == ww * hh) by (nonlinear_arith)
                requires
                    ww == w * w,
                    hh == h * h,
            ;
        }
        if !(25 * spread > limit) {
            proof {
                assert(!far_apart(chosen@[j as int], *c, w as int, h as int));
            }
            return false;
        }
        j = j + 1;
    }
    true
}

/// The cells of `s` with strength `v`, in order.
fn collect_strength(s: &Vec<HotSpot>, v: u8, out: &mut Vec<HotSpot>)
    ensures
        final(out)@ == old(out)@ + cells_with_strength(s@, v as int),
{
    let ghost start = out@;
    let mut i: usize = 0;
    while i < s.len()
        invariant
            0 <= i <= s@.len(),
            out@ == start + cells_with_strength(s@.take(i as int), v as int),
        decreases s@.len() - i,
    {
        proof {
            assert(s@.take(i + 1).drop_last() =~= s@.take(i as int));
            assert(s@.take(i + 1).last() == s@[i as int]);
        }
        if s[i].strength == v {
            out.push(s[i]);
        }
        i = i + 1;
        proof {
            let t = s@.take(i as int);
            let tp = s@.take(i - 1);
            if t.last().strength == v {
                assert(out@ =~= start + (cells_with_strength(tp, v as int) + seq![t.last()]));
            } else {
                assert(out@ =~= start + (cells_with_strength(tp, v as int) + Seq::empty()));
            }
        }
    }
    proof {
        assert(s@.take(s@.len() as int) =~= s@);
    }
}

/// Elements of `cells_with_strength` come from the sequence.
proof fn lemma_cells_with_strength_from(s: Seq<HotSpot>, v: int)
    ensures
        forall|j: int|
            0 <= j < cells_with_strength(s, v).len() ==> s.contains(
                #[trigger] cells_with_strength(s, v)[j],
            ),
    decreases s.len(),
{
    if s.len() > 0 {
        lemma_cells_with_strength_from(s.drop_last(), v);
        let prev = cells_with_strength(s.drop_last(), v);
        let cur = cells_with_strength(s, v);
        assert forall|j: int| 0 <= j < cur.len() implies s.contains(#[trigger] cur[j]) by {
            if j < prev.len() {
                assert(cur[j] == prev[j]);
                let k = choose|k: int| 0 <= k < s.drop_last().len() && s.drop_last()[k] == prev[j];
                assert(s[k] == cur[j]);
            } else {
                assert(cur[j] == s.last());
                assert(s[s.len() - 1] == cur[j]);
            }
        }
    }
}

/// Elements of `strongest_first_from` come from the sequence.
proof fn lemma_strongest_first_from(s: Seq<HotSpot>, v: int)
    ensures
        forall|j: int|
            0 <= j < strongest_first_from(s, v).len() ==> s.contains(
                #[trigger] strongest_first_from(s, v)[j],
            ),
    decreases 256 - v,
{
    if v < 256 {
        lemma_strongest_first_from(s, v + 1);
        lemma_cells_with_strength_from(s, v);
        let a = strongest_first_from(s, v + 1);
        let b = cells_with_strength(s, v);
        assert forall|j: int| 0 <= j < (a + b).len() implies s.contains(#[trigger] (a + b)[j]) by {
            if j < a.len() {
                assert((a + b)[j] == a[j]);
            } else {
                assert((a + b)[j] == b[j - a.len()]);
            }
        }
    }
}

/// The cells of a heat map, strongest first.
fn sort_strongest_first(all: &Vec<HotSpot>) -> (sorted: Vec<HotSpot>)
    ensures
        sorted@ == strongest_first(all@),
{
    let mut sorted: Vec<HotSpot> = Vec::new();
    let mut level: u16 = 256;
    while level > 0
        invariant
            0 <= level <= 256,
            sorted@ == strongest_first_from(all@, level as int),
        decreases level,
    {
        level = level - 1;
        collect_strength(all, level as u8, &mut sorted);
    }
    sorted
}

/// Chooses up to four hot spots from a heat map: the strongest cells, each
/// more than a fifth of the image away from the stronger spots chosen before it.
///
/// Cells of equal strength are taken in row-major order. The map's sides must
/// fit in a `u16`, as the positions are counted in one.
pub fn hot_spots_from_heat_map(heat_map: &crate::loaded_image::PixelImage) -> (spots: Vec<HotSpot>)
    requires
        heat_map.is_well_formed(),
        heat_map.width() <= u16::MAX,
        heat_map.height() <= u16::MAX,
    ensures
        spots@ == spec_hot_spots(heat_map.pixels@, heat_map.width(), heat_map.height()),
{
    let xsize: usize = heat_map.size[0];
    let ysize: usize = heat_map.size[1];
    let pixels = &heat_map.pixels;
    let ghost px = pixels@;
    let ghost w = xsize as int;
    let ghost cells = heat_cells(px, w);
    assert(px.len() == w * (ysize as int));

    let mut all_hotspots: Vec<HotSpot> = Vec::new();
    let mut x: usize = 0;
    let mut y: usize = 0;
    let mut i: usize = 0;
    while i < pixels.len()
        invariant
            pixels@ == px,
            cells == heat_cells(px, w),
            px.len() == w * (ysize as int),
            xsize == w,
            w <= u16::MAX,
            ysize <= u16::MAX,
            0 <= i <= px.len(),
            i < px.len() ==> (x < w && i == y * w + x),
            all_hotspots@ == cells.take(i as int),
            forall|k: int| 0 <= k < i ==> all_hotspots@[k].x < w && all_hotspots@[k].y < ysize,
        decreases px.len() - i,
    {
        proof {
            vstd::arithmetic::div_mod::lemma_fundamental_div_mod_converse(
                i as int,
                w,
                y as int,
                x as int,
            );
            assert(y < ysize) by (nonlinear_arith)
                requires
                    i == y * w + x,
                    0 <= x < w,
                    i < w * ysize,
                    y >= 0,
            ;
        }
        let cell = HotSpot { strength: pixels[i].r, x, y };
        assert(cell == cells[i as int]);
        all_hotspots.push(cell);
        x = x + 1;
        if x == xsize {
            y = y + 1;
            x = 0;
            proof {
                assert((y as int) * w == (y - 1) * w + w) by (nonlinear_arith);
            }
        }
        i = i + 1;
        proof {
            assert(all_hotspots@ =~= cells.take(i as int));
        }
    }
    proof {
        assert(cells.take(px.len() as int) =~= cells);
    }

    let sorted = sort_strongest_first(&all_hotspots);
    let ghost cands = sorted@;
    proof {
        lemma_strongest_first_from(cells, 0);
        assert forall|j: int| 0 <= j < cands.len() implies cands[j].x < w && cands[j].y < ysize by {
            let k = choose|k: int| 0 <= k < cells.len() && cells[k] == cands[j];
            assert(all_hotspots@[k] == cells[k]);
        }
    }

    let mut chosen_hotspots: Vec<HotSpot> = Vec::new();
    let mut k: usize = 0;
    while k < sorted.len() && chosen_hotspots.len() < 4
        invariant
            sorted@ == cands,
            0 <= k <= cands.len(),
            xsize == w,
            w <= u16::MAX,
            ysize <= u16::MAX,
            forall|j: int| 0 <= j < cands.len() ==> cands[j].x < w && cands[j].y < ysize,
            chosen_hotspots@ == pick_hot_spots(cands, w, ysize as int, k as nat),
            forall|j: int|
                0 <= j < chosen_hotspots@.len() ==> chosen_hotspots@[j].x < w
                    && chosen_hotspots@[j].y < ysize,
        decreases cands.len() - k,
    {
        let hotspot = sorted[k];
        let far = is_far_from_all(&chosen_hotspots, &hotspot, xsize, ysize);
        if far {
            chosen_hotspots.push(hotspot);
        }
        k = k + 1;
    }
    proof {
        lemma_pick_at_most_four(cands, w, ysize as int, k as nat);
        if k < cands.len() {
            lemma_pick_saturated(cands, w, ysize as int, k as nat, cands.len());
        }
    }
    chosen_hotspots
}

} // verus!

verus! {

/// No pixel is partially transparent once every alpha has been corrected:
/// after the fix, the partial transparency report counts nothing.
pub proof fn lemma_corrected_image_has_no_partial_transparency(s: Seq<Rgba>)
    ensures
        count_partially_transparent(s.map_values(|c: Rgba| spec_correct_alpha(c))) == 0,
        s.len() > 0 ==> ceil_div(0, s.len() as int) == 0,
    decreases s.len(),
{
    let m = s.map_values(|c: Rgba| spec_correct_alpha(c));
    if s.len() > 0 {
        lemma_corrected_image_has_no_partial_transparency(s.drop_last());
        assert(m.drop_last() =~= s.drop_last().map_values(|c: Rgba| spec_correct_alpha(c)));
        assert(ceil_div(0, s.len() as int) == 0) by {
            vstd::arithmetic::div_mod::lemma_basic_div(s.len() - 1, s.len() as int);
        }
    }
}

/// Correcting the alpha keeps the colour, keeps fully transparent pixels
/// transparent, and changing it again changes nothing.
pub proof fn lemma_correct_alpha_properties(c: Rgba)
    ensures
        spec_correct_alpha(c).r == c.r && spec_correct_alpha(c).g == c.g && spec_correct_alpha(c).b
            == c.b,
        (c.a == 0) == (spec_correct_alpha(c).a == 0),
        !is_partially_transparent(spec_correct_alpha(c)),
        spec_correct_alpha(spec_correct_alpha(c)) == spec_correct_alpha(c),
{
}

/// Flagging leaves no pixel partially transparent, and changes exactly the
/// partially transparent ones.
pub proof fn lemma_flag_alpha_properties(c: Rgba)
    ensures
        !is_partially_transparent(spec_flag_alpha(c)),
        (spec_flag_alpha(c) == c) == !is_partially_transparent(c),
{
}

/// Recolouring a shirt pixel keeps its alpha.
pub proof fn lemma_recolouring_keeps_alpha(c: Rgba)
    ensures
        spec_blue_to_red(c).a == c.a,
        spec_blue_to_dgreen(c).a == c.a,
        spec_blue_to_ddgreen(c).a == c.a,
        spec_blue_to_dblue(c).a == c.a,
        spec_blue_to_burg(c).a == c.a,
{
    crate::hsla::lemma_from_rgba_canonical(c);
}

/// The hot spots are at most four, pairwise far apart, and each comes from
/// the heat map.
pub proof fn lemma_hot_spots_spread(px: Seq<Rgba>, w: int, h: int)
    ensures
        spec_hot_spots(px, w, h).len() <= 4,
        forall|i: int, j: int|
            0 <= i < j < spec_hot_spots(px, w, h).len() ==> far_apart(
                spec_hot_spots(px, w, h)[i],
                spec_hot_spots(px, w, h)[j],
                w,
                h,
            ),
        forall|i: int|
            0 <= i < spec_hot_spots(px, w, h).len() ==> heat_cells(px, w).contains(
                #[trigger] spec_hot_spots(px, w, h)[i],
            ),
{
    let cands = strongest_first(heat_cells(px, w));
    lemma_pick_at_most_four(cands, w, h, cands.len());
    lemma_pick_spread(cands, w, h, cands.len());
    lemma_strongest_first_from(heat_cells(px, w), 0);
}

proof fn lemma_pick_spread(cands: Seq<HotSpot>, w: int, h: int, k: nat)
    requires
        k <= cands.len(),
    ensures
        forall|i: int, j: int|
            0 <= i < j < pick_hot_spots(cands, w, h, k).len() ==> far_apart(
                pick_hot_spots(cands, w, h, k)[i],
                pick_hot_spots(cands, w, h, k)[j],
                w,
                h,
            ),
        forall|i: int|
            0 <= i < pick_hot_spots(cands, w, h, k).len() ==> exists|j: int|
                0 <= j < k && cands[j] == #[trigger] pick_hot_spots(cands, w, h, k)[i],
    decreases k,
{
    if k > 0 {
        let km = (k - 1) as nat;
        lemma_pick_spread(cands, w, h, km);
        let prev = pick_hot_spots(cands, w, h, km);
        let cur = pick_hot_spots(cands, w, h, k);
        if prev.len() < 4 && far_from_all(prev, cands[k - 1], w, h) {
            assert forall|i: int, j: int| 0 <= i < j < cur.len() implies far_apart(
                cur[i],
                cur[j],
                w,
                h,
            ) by {
                if j == cur.len() - 1 {
                    assert(cur[i] == prev[i]);
                    assert(far_apart(prev[i], cands[k - 1], w, h));
                } else {
                    assert(cur[i] == prev[i] && cur[j] == prev[j]);
                }
            }
            assert forall|i: int| 0 <= i < cur.len() implies exists|j: int|
                0 <= j < k && cands[j] == #[trigger] cur[i] by {
                if i == cur.len() - 1 {
                    assert(cands[k - 1] == cur[i]);
                } else {
                    assert(cur[i] == prev[i]);
                    let j = choose|j: int| 0 <= j < km && cands[j] == prev[i];
                    assert(cands[j] == cur[i]);
                }
            }
        }
    }
}

} // verus!

verus! {

proof fn lemma_cells_with_strength_value(s: Seq<HotSpot>, v: int)
    ensures
        forall|j: int|
            0 <= j < cells_with_strength(s, v).len() ==> (#[trigger] cells_with_strength(s, v)[j]).strength
                == v,
    decreases s.len(),
{
    if s.len() > 0 {
        lemma_cells_with_strength_value(s.drop_last(), v);
        let prev = cells_with_strength(s.drop_last(), v);
        let cur = cells_with_strength(s, v);
        assert forall|j: int| 0 <= j < cur.len() implies (#[trigger] cur[j]).strength == v by {
            if j < prev.len() {
                assert(cur[j] == prev[j]);
            }
        }
    }
}

/// `strongest_first_from(s, v)` holds strengths of at least `v`, in
/// non-increasing order.
proof fn lemma_strongest_first_sorted(s: Seq<HotSpot>, v: int)
    requires
        0 <= v,
    ensures
        forall|j: int|
            0 <= j < strongest_first_from(s, v).len() ==> (#[trigger] strongest_first_from(s, v)[j]).strength
                >= v,
        forall|i: int, j: int|
            0 <= i < j < strongest_first_from(s, v).len() ==> strongest_first_from(s, v)[i].strength
                >= strongest_first_from(s, v)[j].strength,
    decreases 256 - v,
{
    if v < 256 {
        lemma_strongest_first_sorted(s, v + 1);
        lemma_cells_with_strength_value(s, v);
        let a = strongest_first_from(s, v + 1);
        let b = cells_with_strength(s, v);
        let c = strongest_first_from(s, v);
        assert(c == a + b);
        assert forall|j: int| 0 <= j < c.len() implies (#[trigger] c[j]).strength >= v by {
            if j < a.len() {
                assert(c[j] == a[j]);
            } else {
                assert(c[j] == b[j - a.len()]);
            }
        }
        assert forall|i: int, j: int| 0 <= i < j < c.len() implies c[i].strength
            >= c[j].strength by {
            if j < a.len() {
                assert(c[i] == a[i] && c[j] == a[j]);
            } else if i < a.len() {
                assert(c[i] == a[i] && c[j] == b[j - a.len()]);
            } else {
                assert(c[i] == b[i - a.len()] && c[j] == b[j - a.len()]);
            }
        }
    }
}

proof fn lemma_pick_ordered(cands: Seq<HotSpot>, w: int, h: int, k: nat)
    requires
        k <= cands.len(),
        forall|i: int, j: int| 0 <= i < j < cands.len() ==> cands[i].strength >= cands[j].strength,
    ensures
        forall|i: int, j: int|
            0 <= i < j < pick_hot_spots(cands, w, h, k).len() ==> pick_hot_spots(cands, w, h, k)[i].strength
                >= pick_hot_spots(cands, w, h, k)[j].strength,
    decreases k,
{
    if k > 0 {
        let km = (k - 1) as nat;
        lemma_pick_ordered(cands, w, h, km);
        lemma_pick_spread(cands, w, h, km);
        let prev = pick_hot_spots(cands, w, h, km);
        let cur = pick_hot_spots(cands, w, h, k);
        if prev.len() < 4 && far_from_all(prev, cands[k - 1], w, h) {
            assert forall|i: int, j: int| 0 <= i < j < cur.len() implies cur[i].strength
                >= cur[j].strength by {
                if j == cur.len() - 1 {
                    assert(cur[i] == prev[i]);
                    let m = choose|m: int| 0 <= m < km && cands[m] == #[trigger] prev[i];
                    assert(cands[m].strength >= cands[k - 1].strength);
                } else {
                    assert(cur[i] == prev[i] && cur[j] == prev[j]);
                }
            }
        }
    }
}

/// The hot spots come strongest first.
pub proof fn lemma_hot_spots_strongest_first(px: Seq<Rgba>, w: int, h: int)
    ensures
        forall|i: int, j: int|
            0 <= i < j < spec_hot_spots(px, w, h).len() ==> spec_hot_spots(px, w, h)[i].strength
                >= spec_hot_spots(px, w, h)[j].strength,
{
    let cands = strongest_first(heat_cells(px, w));
    lemma_strongest_first_sorted(heat_cells(px, w), 0);
    lemma_pick_ordered(cands, w, h, cands.len());
}

/// Flagging a partially transparent pixel inverts each colour channel and
/// makes it fully opaque; a fully transparent or fully opaque pixel is kept.
pub proof fn lemma_flag_inverts_and_shows(c: Rgba)
    ensures
        c.a != 0 && c.a != 255 ==> spec_flag_alpha(c).r == 255 - c.r && spec_flag_alpha(c).g == 255
            - c.g && spec_flag_alpha(c).b == 255 - c.b && spec_flag_alpha(c).a == 255,
        c.a == 0 || c.a == 255 ==> spec_flag_alpha(c) == c,
{
}

/// Correcting the alpha makes every pixel that is not fully transparent fully
/// opaque and keeps its colour; a fully transparent pixel is kept.
pub proof fn lemma_correct_alpha_opaque_or_clear(c: Rgba)
    ensures
        c.a != 0 ==> spec_correct_alpha(c) == (Rgba { r: c.r, g: c.g, b: c.b, a: 255 }),
        c.a == 0 ==> spec_correct_alpha(c) == c,
{
}

/// The visible pixels are exactly those whose alpha is not 0: their count is
/// the length of the pixels filtered by a non-zero alpha.
pub proof fn lemma_count_visible_is_nonzero_alpha(s: Seq<Rgba>)
    ensures
        count_visible(s) == s.filter(|c: Rgba| c.a != 0).len(),
    decreases s.len(),
{
    reveal(Seq::filter);
    if s.len() > 0 {
        lemma_count_visible_is_nonzero_alpha(s.drop_last());
    }
}

/// The partially transparent pixels are exactly those whose alpha is neither
/// 0 nor 255.
pub proof fn lemma_count_partial_is_middle_alpha(s: Seq<Rgba>)
    ensures
        count_partially_transparent(s) == s.filter(|c: Rgba| c.a != 0 && c.a != 255).len(),
    decreases s.len(),
{
    reveal(Seq::filter);
    if s.len() > 0 {
        lemma_count_partial_is_middle_alpha(s.drop_last());
    }
}

/// Counting visible pixels adds up over concatenation, and a single pixel
/// counts exactly when its alpha is not 0.
pub proof fn lemma_count_visible_adds_up(s1: Seq<Rgba>, s2: Seq<Rgba>, c: Rgba)
    ensures
        count_visible(s1 + s2) == count_visible(s1) + count_visible(s2),
        count_visible(seq![c]) == (if c.a != 0 {
            1int
        } else {
            0int
        }),
    decreases s2.len(),
{
    assert(seq![c].drop_last() =~= Seq::<Rgba>::empty());
    assert(seq![c].last() == c);
    assert(count_visible(Seq::<Rgba>::empty()) == 0);
    assert(count_visible(seq![c]) == count_visible(seq![c].drop_last()) + (if c.a > 0 {
        1nat
    } else {
        0nat
    }));
    if s2.len() > 0 {
        lemma_count_visible_adds_up(s1, s2.drop_last(), c);
        assert((s1 + s2).drop_last() =~= s1 + s2.drop_last());
    } else {
        assert(s1 + s2 =~= s1);
    }
}

/// Cells are compared by their Euclidean distance as fractions of the map's
/// sides: cells at least a seventh of each side apart on both axes (distance
/// at least 0.202) are far apart, even though neither axis alone is more than
/// a fifth.
pub proof fn lemma_far_apart_diagonal(a: HotSpot, b: HotSpot, w: int, h: int)
    requires
        w > 0,
        h > 0,
        7 * (a.x - b.x) >= w || 7 * (b.x - a.x) >= w,
        7 * (a.y - b.y) >= h || 7 * (b.y - a.y) >= h,
    ensures
        far_apart(a, b, w, h),
{
    let dx = a.x - b.x;
    let dy = a.y - b.y;
    assert(49 * (dx * dx) >= w * w) by (nonlinear_arith)
        requires
            7 * dx >= w || 7 * (-dx) >= w,
            w > 0,
    ;
    assert(49 * (dy * dy) >= h * h) by (nonlinear_arith)
        requires
            7 * dy >= h || 7 * (-dy) >= h,
            h > 0,
    ;
    assert(25 * (dx * dx * h * h + dy * dy * w * w) > w * w * h * h) by (nonlinear_arith)
        requires
            49 * (dx * dx) >= w * w,
            49 * (dy * dy) >= h * h,
            w > 0,
            h > 0,
    ;
}

/// Cells within an eighth of each side of each other (distance at most
/// 0.177) are not far apart.
pub proof fn lemma_far_apart_near(a: HotSpot, b: HotSpot, w: int, h: int)
    requires
        w > 0,
        h > 0,
        8 * (a.x - b.x) <= w && 8 * (b.x - a.x) <= w,
        8 * (a.y - b.y) <= h && 8 * (b.y - a.y) <= h,
    ensures
        !far_apart(a, b, w, h),
{
    let dx = a.x - b.x;
    let dy = a.y - b.y;
    assert(64 * (dx * dx) <= w * w) by (nonlinear_arith)
        requires
            8 * dx <= w,
            8 * (-dx) <= w,
            w > 0,
    ;
    assert(64 * (dy * dy) <= h * h) by (nonlinear_arith)
        requires
            8 * dy <= h,
            8 * (-dy) <= h,
            h > 0,
    ;
    assert(25 * (dx * dx * h * h + dy * dy * w * w) <= w * w * h * h) by (nonlinear_arith)
        requires
            64 * (dx * dx) <= w * w,
            64 * (dy * dy) <= h * h,
            w > 0,
            h > 0,
    ;
}

/// Cells in the same row are far apart exactly when they are more than a
/// fifth of the width apart, and cells in the same column exactly when they
/// are more than a fifth of the height apart.
pub proof fn lemma_far_apart_along_an_axis(a: HotSpot, b: HotSpot, w: int, h: int)
    requires
        w > 0,
        h > 0,
    ensures
        a.y == b.y ==> (far_apart(a, b, w, h) <==> 5 * (a.x - b.x) > w || 5 * (b.x - a.x) > w),
        a.x == b.x ==> (far_apart(a, b, w, h) <==> 5 * (a.y - b.y) > h || 5 * (b.y - a.y) > h),
{
    let dx = a.x - b.x;
    let dy = a.y - b.y;
    if a.y == b.y {
        assert(25 * (dx * dx * h * h + dy * dy * w * w) > w * w * h * h <==> 25 * (dx * dx) > w
            * w) by (nonlinear_arith)
            requires
                dy == 0,
                h > 0,
        ;
        assert(25 * (dx * dx) > w * w <==> 5 * dx > w || 5 * (-dx) > w) by (nonlinear_arith)
            requires
                w > 0,
        ;
    }
    if a.x == b.x {
        assert(25 * (dx * dx * h * h + dy * dy * w * w) > w * w * h * h <==> 25 * (dy * dy) > h
            * h) by (nonlinear_arith)
            requires
                dx == 0,
                w > 0,
        ;
        assert(25 * (dy * dy) > h * h <==> 5 * dy > h || 5 * (-dy) > h) by (nonlinear_arith)
            requires
                h > 0,
        ;
    }
}

/// A cell of strength `v` is among the cells of strength `v`.
proof fn lemma_cells_with_strength_covers(s: Seq<HotSpot>, i: int)
    requires
        0 <= i < s.len(),
    ensures
        cells_with_strength(s, s[i].strength as int).contains(s[i]),
    decreases s.len(),
{
    let v = s[i].strength as int;
    let prev = cells_with_strength(s.drop_last(), v);
    if i == s.len() - 1 {
        let cur = cells_with_strength(s, v);
        assert(cur == prev + seq![s.last()]);
        assert(cur[prev.len() as int] == s[i]);
    } else {
        lemma_cells_with_strength_covers(s.drop_last(), i);
        assert(s.drop_last()[i] == s[i]);
        let j = choose|j: int| 0 <= j < prev.len() && prev[j] == s[i];
        let cur = cells_with_strength(s, v);
        assert(cur[j] == s[i]);
    }
}

/// Every cell of strength at least `u` is among the strongest-first cells
/// from `u`.
proof fn lemma_strongest_first_from_covers(s: Seq<HotSpot>, i: int, u: int)
    requires
        0 <= i < s.len(),
        u <= s[i].strength,
    ensures
        strongest_first_from(s, u).contains(s[i]),
    decreases 256 - u,
{
    let v = s[i].strength as int;
    let a = strongest_first_from(s, u + 1);
    let b = cells_with_strength(s, u);
    assert(strongest_first_from(s, u) == a + b);
    if u == v {
        lemma_cells_with_strength_covers(s, i);
        let j = choose|j: int| 0 <= j < b.len() && b[j] == s[i];
        assert((a + b)[a.len() + j] == s[i]);
    } else {
        lemma_strongest_first_from_covers(s, i, u + 1);
        let j = choose|j: int| 0 <= j < a.len() && a[j] == s[i];
        assert((a + b)[j] == s[i]);
    }
}

/// Earlier choices are kept: the spots chosen from the first `k1`
/// candidates begin the spots chosen from the first `k2`.
proof fn lemma_pick_prefix(cands: Seq<HotSpot>, w: int, h: int, k1: nat, k2: nat)
    requires
        k1 <= k2,
    ensures
        pick_hot_spots(cands, w, h, k1).len() <= pick_hot_spots(cands, w, h, k2).len(),
        forall|j: int|
            0 <= j < pick_hot_spots(cands, w, h, k1).len() ==> pick_hot_spots(cands, w, h, k2)[j]
                == pick_hot_spots(cands, w, h, k1)[j],
    decreases k2,
{
    if k1 < k2 {
        lemma_pick_prefix(cands, w, h, k1, (k2 - 1) as nat);
    }
}

/// While fewer than four spots are chosen, a candidate that was not chosen
/// lies within a fifth of a chosen spot.
proof fn lemma_pick_skips_only_near(cands: Seq<HotSpot>, w: int, h: int, i: int, k: nat)
    requires
        0 <= i < k <= cands.len(),
        pick_hot_spots(cands, w, h, k).len() < 4,
    ensures
        pick_hot_spots(cands, w, h, k).contains(cands[i]) || exists|j: int|
            0 <= j < pick_hot_spots(cands, w, h, k).len() && !far_apart(
                #[trigger] pick_hot_spots(cands, w, h, k)[j],
                cands[i],
                w,
                h,
            ),
{
    let prev = pick_hot_spots(cands, w, h, i as nat);
    let step = pick_hot_spots(cands, w, h, (i + 1) as nat);
    let fin = pick_hot_spots(cands, w, h, k);
    lemma_pick_prefix(cands, w, h, i as nat, (i + 1) as nat);
    lemma_pick_prefix(cands, w, h, (i + 1) as nat, k);
    if prev.len() < 4 && far_from_all(prev, cands[i], w, h) {
        assert(step[prev.len() as int] == cands[i]);
        assert(fin[prev.len() as int] == cands[i]);
    } else {
        assert(prev.len() < 4);
        let j = choose|j: int| 0 <= j < prev.len() && !far_apart(#[trigger] prev[j], cands[i], w, h);
        assert(step[j] == prev[j]);
        assert(fin[j] == prev[j]);
    }
}

/// The choice of hot spots skips a cell only for a reason: when fewer than
/// four spots are chosen, every cell of the map is either chosen or lies
/// within a fifth of the image (not `far_apart`) of a chosen spot.
pub proof fn lemma_hot_spots_skip_only_near_cells(px: Seq<Rgba>, w: int, h: int, i: int)
    requires
        0 <= i < px.len(),
        spec_hot_spots(px, w, h).len() < 4,
    ensures
        spec_hot_spots(px, w, h).contains(heat_cells(px, w)[i]) || exists|j: int|
            0 <= j < spec_hot_spots(px, w, h).len() && !far_apart(
                #[trigger] spec_hot_spots(px, w, h)[j],
                heat_cells(px, w)[i],
                w,
                h,
            ),
{
    let cells = heat_cells(px, w);
    let cands = strongest_first(cells);
    lemma_strongest_first_from_covers(cells, i, 0);
    let k = choose|k: int| 0 <= k < cands.len() && cands[k] == cells[i];
    lemma_pick_skips_only_near(cands, w, h, k, cands.len());
}

} // verus!
