//! Images held in memory as plain pixels, and the computations that derive
//! new images from them (pixel-wise transforms and the edge heat map).
use vstd::prelude::*;
use crate::error::{Error, ErrorTypes};
use crate::rgba::Rgba;

verus! {

/// An image stored row by row: `size` is `[width, height]` and `pixels`
/// holds `width * height` colours, top row first.
#[derive(Debug, Clone)]
pub struct PixelImage {
    pub size: [usize; 2],
    pub pixels: Vec<Rgba>,
}

impl PixelImage {
    pub open spec fn width(&self) -> int {
        self.size@[0] as int
    }

    pub open spec fn height(&self) -> int {
        self.size@[1] as int
    }

    /// The pixel buffer holds exactly one colour per position.
    pub open spec fn is_well_formed(&self) -> bool {
        self.pixels@.len() == self.width() * self.height()
    }

    /// Creates an image from its size and row-major pixels.
    pub fn new(size: [usize; 2], pixels: Vec<Rgba>) -> (img: PixelImage)
        ensures
            img.size == size,
            img.pixels@ == pixels@,
    {
        PixelImage { size, pixels }
    }

    /// A new image of the same size whose every pixel is `mutator` applied to
    /// the pixel at the same position.
    pub fn map_pixels<F: Fn(&Rgba) -> Rgba>(&self, mutator: F) -> (out: PixelImage)
        requires
            forall|i: int| 0 <= i < self.pixels@.len() ==> call_requires(mutator, (&self.pixels@[i],)),
        ensures
            out.size == self.size,
            out.pixels@.len() == self.pixels@.len(),
            forall|i: int|
                0 <= i < self.pixels@.len() ==> call_ensures(
                    mutator,
                    (&self.pixels@[i],),
                    #[trigger] out.pixels@[i],
                ),
    {
        let mut pixels: Vec<Rgba> = Vec::new();
        let mut i: usize = 0;
        while i < self.pixels.len()
            invariant
                0 <= i <= self.pixels@.len(),
                pixels@.len() == i,
                forall|j: int| 0 <= j < self.pixels@.len() ==> call_requires(mutator, (&self.pixels@[j],)),
                forall|j: int|
                    0 <= j < i ==> call_ensures(mutator, (&self.pixels@[j],), #[trigger] pixels@[j]),
            decreases self.pixels@.len() - i,
        {
            let p = mutator(&self.pixels[i]);
            pixels.push(p);
            i = i + 1;
        }
        PixelImage { size: self.size, pixels }
    }
}

/// Decodes an encoded image (PNG, JPEG, ...) with
/// `egui_extras::image::load_image_bytes`.
///
/// Trusted: a decoded image has one pixel per position, as the decoder's
/// `ColorImage::from_rgba_unmultiplied` asserts. Which bytes decode, and to
/// which pixels, is not stated: the decoder's rounding (premultiplying alpha
/// in floating point, SIMD or scalar JPEG transforms) depends on the machine.
#[verifier::external_body]
pub fn decode_image(bytes: &[u8]) -> (r: Result<PixelImage, String>)
    ensures
        r matches Ok(img) ==> img.is_well_formed(),
{
    match egui_extras::image::load_image_bytes(bytes) {
        Ok(img) => Ok(PixelImage {
            size: img.size,
            pixels: img.pixels.iter().map(|c| Rgba { r: c.r(), g: c.g(), b: c.b(), a: c.a() }).collect(),
        }),
        Err(e) => Err(e),
    }
}

/// The import's answer to a decoder result: a decoded image is kept, and a
/// decoder failure becomes an `ImageLoadError` carrying the decoder's message.
pub fn import_result(decoded: Result<PixelImage, String>) -> (r: Result<PixelImage, Error>)
    ensures
        match decoded {
            Ok(img) => r matches Ok(out) && out == img,
            Err(m) => r matches Err(e) && e.spec_id() == ErrorTypes::ImageLoadError && e.spec_msg()
                == m@,
        },
{
    match decoded {
        Ok(img) => Ok(img),
        Err(msg) => Err(Error::new(ErrorTypes::ImageLoadError, msg.as_str())),
    }
}

/// Decodes an imported image file; a file the decoder cannot read becomes an
/// `ImageLoadError` carrying the decoder's message.
pub fn import_image(bytes: &[u8]) -> (r: Result<PixelImage, Error>)
    ensures
        r matches Ok(img) ==> img.is_well_formed(),
        r matches Err(e) ==> e.spec_id() == ErrorTypes::ImageLoadError,
{
    import_result(decode_image(bytes))
}

pub open spec fn abs_diff(a: u8, b: u8) -> int {
    if a >= b {
        a - b
    } else {
        b - a
    }
}

/// Sum of the absolute channel differences of two colours (alpha included).
pub open spec fn pixel_distance(p: Rgba, q: Rgba) -> int {
    abs_diff(p.r, q.r) + abs_diff(p.g, q.g) + abs_diff(p.b, q.b) + abs_diff(p.a, q.a)
}

/// The distance between two pixels is zero exactly when they are equal, does
/// not depend on their order, and for pixels that differ only in alpha is the
/// difference of their alphas.
pub proof fn lemma_pixel_distance_counts_every_channel(p: Rgba, q: Rgba)
    ensures
        pixel_distance(p, q) == 0 <==> p == q,
        pixel_distance(p, q) == pixel_distance(q, p),
        pixel_distance(p, q) >= (p.r - q.r) && pixel_distance(p, q) >= (q.r - p.r),
        pixel_distance(p, q) >= (p.g - q.g) && pixel_distance(p, q) >= (q.g - p.g),
        pixel_distance(p, q) >= (p.b - q.b) && pixel_distance(p, q) >= (q.b - p.b),
        pixel_distance(p, q) >= (p.a - q.a) && pixel_distance(p, q) >= (q.a - p.a),
        p.r == q.r && p.g == q.g && p.b == q.b ==> pixel_distance(p, q) == (if p.a >= q.a {
            p.a - q.a
        } else {
            q.a - p.a
        }),
{
}

/// Edge strength at pixel `i` of an image `xs` pixels wide: its distance to
/// the pixel before it in row-major order plus its distance to the pixel above
/// it. The first pixel is compared with itself on the left, and the pixels of
/// the top row with themselves above.
pub open spec fn heat_delta(px: Seq<Rgba>, xs: int, i: int) -> int {
    let left = if i == 0 {
        px[0]
    } else {
        px[i - 1]
    };
    let top = if i < xs {
        px[i]
    } else {
        px[i - xs]
    };
    pixel_distance(left, px[i]) + pixel_distance(top, px[i])
}

/// The heat-map cell that pixel `i` adds its edge strength to: the 64x64
/// block, in a grid `hx` cells wide, of the position that follows pixel `i`.
pub open spec fn heat_bin(xs: int, hx: int, i: int) -> int {
    ((i + 1) % xs) / 64 + (((i + 1) / xs) / 64) * hx
}

/// The cell sums after the first `k` pixels have been added.
pub open spec fn heat_sums(px: Seq<Rgba>, xs: int, hx: int, total: nat, k: nat) -> Seq<int>
    decreases k,
{
    if k == 0 {
        Seq::new(total, |b: int| 0int)
    } else {
        let prev = heat_sums(px, xs, hx, total, (k - 1) as nat);
        let b = heat_bin(xs, hx, k - 1);
        prev.update(b, prev[b] + heat_delta(px, xs, k - 1))
    }
}

/// Largest element of a sequence, or 0 when none is positive.
pub open spec fn seq_max(s: Seq<int>) -> int
    decreases s.len(),
{
    if s.len() == 0 {
        0
    } else {
        let m = seq_max(s.drop_last());
        if s.last() > m {
            s.last()
        } else {
            m
        }
    }
}

/// Width of the heat-map grid for an image `xs` pixels wide.
pub open spec fn heat_width(xs: int) -> int {
    xs / 64 + 1
}

/// Height of the heat-map grid for an image `ys` pixels high.
pub open spec fn heat_height(ys: int) -> int {
    ys / 64 + 1
}

/// The cell sums of a whole image.
pub open spec fn image_heat_sums(img: PixelImage) -> Seq<int> {
    heat_sums(
        img.pixels@,
        img.width(),
        heat_width(img.width()),
        (heat_width(img.width()) * heat_height(img.height())) as nat,
        img.pixels@.len(),
    )
}

/// The image has some edge: at least one pixel has a positive edge strength.
pub open spec fn has_detail(img: PixelImage) -> bool {
    exists|i: int| 0 <= i < img.pixels@.len() && heat_delta(img.pixels@, img.width(), i) > 0
}

/// Grey level of cell `b`: its sum scaled so that the largest sum is 255.
pub open spec fn heat_level(sums: Seq<int>, b: int) -> u8 {
    (255 * sums[b] / seq_max(sums)) as u8
}

pub open spec fn grey(v: u8) -> Rgba {
    Rgba { r: v, g: v, b: v, a: 255 }
}

proof fn lemma_pixel_distance_bounds(p: Rgba, q: Rgba)
    ensures
        0 <= pixel_distance(p, q) <= 1020,
{
}

#[verifier::spinoff_prover]
proof fn lemma_delta_bounds(px: Seq<Rgba>, xs: int, i: int)
    ensures
        0 <= heat_delta(px, xs, i) <= 2040,
{
    let left = if i == 0 {
        px[0]
    } else {
        px[i - 1]
    };
    let top = if i < xs {
        px[i]
    } else {
        px[i - xs]
    };
    lemma_pixel_distance_bounds(left, px[i]);
    lemma_pixel_distance_bounds(top, px[i]);
}

/// Every pixel of a well-formed image adds to a cell inside the grid.
proof fn lemma_bin_in_range(xs: int, ys: int, i: int)
    requires
        xs >= 1,
        ys >= 1,
        0 <= i < xs * ys,
    ensures
        0 <= heat_bin(xs, heat_width(xs), i) < heat_width(xs) * heat_height(ys),
{
    let hx = heat_width(xs);
    let hy = heat_height(ys);
    let xr = (i + 1) % xs;
    let yr = (i + 1) / xs;
    vstd::arithmetic::div_mod::lemma_mod_bound(i + 1, xs);
    vstd::arithmetic::div_mod::lemma_div_pos_is_pos(i + 1, xs);
    vstd::arithmetic::div_mod::lemma_div_is_ordered(i + 1, xs * ys, xs);
    vstd::arithmetic::div_mod::lemma_div_by_multiple(ys, xs);
    assert(ys * xs == xs * ys) by (nonlinear_arith);
    vstd::arithmetic::div_mod::lemma_div_is_ordered(xr, xs, 64);
    vstd::arithmetic::div_mod::lemma_div_is_ordered(yr, ys, 64);
    vstd::arithmetic::div_mod::lemma_div_pos_is_pos(xr, 64);
    vstd::arithmetic::div_mod::lemma_div_pos_is_pos(yr, 64);
    let a = xr / 64;
    let b = yr / 64;
    assert(0 <= a + b * hx <= hx * hy - 1) by (nonlinear_arith)
        requires
            0 <= a <= hx - 1,
            0 <= b <= hy - 1,
            hx >= 1,
    ;
}

/// Facts about the cell sums: their length, that they are non-negative and
/// bounded, that each cell holds at least the strength of every pixel added to
/// it, and that they are all zero when no pixel has an edge.
proof fn lemma_heat_sums(px: Seq<Rgba>, xs: int, hx: int, total: nat, k: nat)
    requires
        forall|i: int| 0 <= i < k ==> 0 <= #[trigger] heat_bin(xs, hx, i) < total,
    ensures
        heat_sums(px, xs, hx, total, k).len() == total,
        forall|b: int|
            0 <= b < total ==> 0 <= #[trigger] heat_sums(px, xs, hx, total, k)[b] <= 2040 * k,
        forall|i: int|
            0 <= i < k ==> heat_sums(px, xs, hx, total, k)[heat_bin(xs, hx, i)] >= heat_delta(
                px,
                xs,
                i,
            ),
        (forall|i: int| 0 <= i < k ==> heat_delta(px, xs, i) == 0) ==> (forall|b: int|
            0 <= b < total ==> #[trigger] heat_sums(px, xs, hx, total, k)[b] == 0),
    decreases k,
{
    if k > 0 {
        let km = (k - 1) as nat;
        lemma_heat_sums(px, xs, hx, total, km);
        lemma_delta_bounds(px, xs, k - 1);
        let prev = heat_sums(px, xs, hx, total, km);
        let cur = heat_sums(px, xs, hx, total, k);
        let bk = heat_bin(xs, hx, k - 1);
        assert(0 <= bk < total);
        assert forall|b: int| 0 <= b < total implies 0 <= #[trigger] cur[b] <= 2040 * k by {
            if b == bk {
                assert(cur[b] == prev[b] + heat_delta(px, xs, k - 1));
            } else {
                assert(cur[b] == prev[b]);
            }
        }
        assert forall|i: int| 0 <= i < k implies cur[heat_bin(xs, hx, i)] >= heat_delta(
            px,
            xs,
            i,
        ) by {
            let bi = heat_bin(xs, hx, i);
            assert(0 <= bi < total);
            if i < k - 1 {
                assert(prev[bi] >= heat_delta(px, xs, i));
                if bi == bk {
                    assert(cur[bi] == prev[bi] + heat_delta(px, xs, k - 1));
                } else {
                    assert(cur[bi] == prev[bi]);
                }
            } else {
                assert(cur[bi] == prev[bi] + heat_delta(px, xs, k - 1));
            }
        }
        if forall|i: int| 0 <= i < k ==> heat_delta(px, xs, i) == 0 {
            assert(forall|i: int| 0 <= i < km ==> heat_delta(px, xs, i) == 0);
            assert(heat_delta(px, xs, k - 1) == 0);
            assert forall|b: int| 0 <= b < total implies #[trigger] cur[b] == 0 by {
                if b == bk {
                    assert(cur[b] == prev[b] + heat_delta(px, xs, k - 1));
                } else {
                    assert(cur[b] == prev[b]);
                }
            }
        }
    }
}

/// The maximum is at least every element, is non-negative, and is one of the
/// elements when it is positive.
proof fn lemma_seq_max(s: Seq<int>)
    ensures
        seq_max(s) >= 0,
        forall|j: int| 0 <= j < s.len() ==> s[j] <= seq_max(s),
        seq_max(s) == 0 || exists|j: int| 0 <= j < s.len() && s[j] == seq_max(s),
    decreases s.len(),
{
    if s.len() > 0 {
        lemma_seq_max(s.drop_last());
        let m = seq_max(s.drop_last());
        assert forall|j: int| 0 <= j < s.len() implies s[j] <= seq_max(s) by {
            if j < s.len() - 1 {
                assert(s[j] == s.drop_last()[j]);
            }
        }
        if seq_max(s) != 0 {
            if s.last() > m {
                assert(s[s.len() - 1] == seq_max(s));
            } else {
                let j = choose|j: int| 0 <= j < s.drop_last().len() && s.drop_last()[j] == m;
                assert(s[j] == seq_max(s));
            }
        }
    }
}

fn abs_diff_exec(a: u8, b: u8) -> (d: u32)
    ensures
        d == abs_diff(a, b),
{
    if a >= b {
        (a - b) as u32
    } else {
        (b - a) as u32
    }
}

fn pixel_distance_exec(p: &Rgba, q: &Rgba) -> (d: u32)
    ensures
        d == pixel_distance(*p, *q),
{
    abs_diff_exec(p.r, q.r) + abs_diff_exec(p.g, q.g) + abs_diff_exec(p.b, q.b) + abs_diff_exec(
        p.a,
        q.a,
    )
}

/// Index of the pixel that the saved row holds at column `c`, after the first
/// `i` pixels have been visited and the next pixel is at column `x`.
spec fn saved_row_source(xs: int, i: int, x: int, c: int) -> int {
    if c < x {
        i - x + c
    } else if i - x >= xs {
        i - x - xs + c
    } else {
        c
    }
}

/// The cell sums of a well-formed, non-empty image.
fn accumulate_heat(existing: &PixelImage) -> (sums: Vec<u128>)
    requires
        existing.is_well_formed(),
        existing.pixels@.len() > 0,
    ensures
        sums@.len() == image_heat_sums(*existing).len(),
        forall|b: int|
            0 <= b < sums@.len() ==> sums@[b] as int == #[trigger] image_heat_sums(*existing)[b],
{
    let in_pixels = &existing.pixels;
    let xsize: usize = existing.size[0];
    let ysize: usize = existing.size[1];
    let ghost px = in_pixels@;
    let ghost n = px.len();
    let ghost xs = xsize as int;
    let n_exec: usize = in_pixels.len();
    proof {
        assert(xs == existing.width());
        assert(ysize == existing.height());
        assert(n == xs * (ysize as int));
        assert(xsize >= 1 && ysize >= 1) by (nonlinear_arith)
            requires
                xs == xsize,
                n == xs * (ysize as int),
                n > 0,
                xs >= 0,
                ysize >= 0,
        ;
        assert(xs <= n) by (nonlinear_arith)
            requires
                n == xs * (ysize as int),
                ysize >= 1,
                xs >= 0,
        ;
    }
    let mut left: Rgba = in_pixels[0];
    let mut last_row: Vec<Rgba> = Vec::new();
    let mut c: usize = 0;
    while c < xsize
        invariant
            0 <= c <= xsize,
            xsize <= px.len(),
            in_pixels@ == px,
            last_row@.len() == c,
            forall|k: int| 0 <= k < c ==> last_row@[k] == px[k],
        decreases xsize - c,
    {
        last_row.push(in_pixels[c]);
        c = c + 1;
    }

    let heat_x: usize = xsize / 64 + 1;
    let heat_y: usize = ysize / 64 + 1;
    proof {
        assert(heat_x <= xsize && heat_y <= ysize);
        vstd::arithmetic::mul::lemma_mul_upper_bound(
            heat_x as int,
            xsize as int,
            heat_y as int,
            ysize as int,
        );
    }
    let total: usize = heat_x * heat_y;
    let ghost hx = heat_x as int;
    let ghost tot = total as nat;
    let mut out: Vec<u128> = Vec::new();
    let mut b: usize = 0;
    while b < total
        invariant
            0 <= b <= total,
            out@.len() == b,
            forall|k: int| 0 <= k < b ==> out@[k] == 0,
        decreases total - b,
    {
        out.push(0);
        b = b + 1;
    }
    proof {
        assert forall|i: int| 0 <= i < n implies 0 <= #[trigger] heat_bin(xs, hx, i) < tot by {
            lemma_bin_in_range(xs, ysize as int, i);
        }
        assert(heat_sums(px, xs, hx, tot, 0) =~= Seq::new(tot, |k: int| 0int));
    }

    let mut x: usize = 0;
    let mut y: usize = 0;
    let mut i: usize = 0;
    while i < in_pixels.len()
        invariant
            in_pixels@ == px,
            n == px.len(),
            n == xs * (ysize as int),
            xsize == xs,
            xs >= 1,
            heat_x == hx,
            hx == heat_width(xs),
            total == tot,
            tot == heat_width(xs) * heat_height(ysize as int),
            forall|k: int| 0 <= k < n ==> 0 <= #[trigger] heat_bin(xs, hx, k) < tot,
            0 <= i <= n,
            i == y * xs + x,
            y <= i,
            n <= usize::MAX,
            x < xs,
            i - x == 0 || i - x >= xs,
            last_row@.len() == xs,
            forall|k: int| 0 <= k < xs ==> last_row@[k] == px[saved_row_source(xs, i as int, x as int, k)],
            left == (if i == 0 {
                px[0]
            } else {
                px[i - 1]
            }),
            out@.len() == tot,
            forall|k: int| 0 <= k < tot ==> out@[k] as int == #[trigger] heat_sums(px, xs, hx, tot, i as nat)[k],
        decreases n - i,
    {
        proof {
            lemma_heat_sums(px, xs, hx, tot, i as nat);
            lemma_delta_bounds(px, xs, i as int);
            if i - x >= xs {
                assert(y >= 1) by (nonlinear_arith)
                    requires
                        i == y * xs + x,
                        i - x >= xs,
                        xs >= 1,
                        y >= 0,
                ;
            }
        }
        let pixel: Rgba = in_pixels[i];
        let top: Rgba = last_row[x];
        assert(top == (if (i as int) < xs {
            px[i as int]
        } else {
            px[i - xs]
        }));
        let ld: u32 = pixel_distance_exec(&left, &pixel);
        let td: u32 = pixel_distance_exec(&top, &pixel);
        let d: u32 = ld + td;
        assert(d == heat_delta(px, xs, i as int));

        last_row.set(x, pixel);
        left = pixel;
        let ghost old_x = x;
        let ghost old_y = y;
        x = x + 1;
        if x == xsize {
            proof {
                assert((old_y + 1) * xs == old_y * xs + xs) by (nonlinear_arith);
                assert(old_y <= old_y * xs) by (nonlinear_arith)
                    requires
                        xs >= 1,
                        old_y >= 0,
                ;
            }
            y = y + 1;
            x = 0;
        }
        proof {
            vstd::arithmetic::div_mod::lemma_fundamental_div_mod_converse(
                i + 1,
                xs,
                y as int,
                x as int,
            );
            assert(heat_bin(xs, hx, i as int) == (x as int) / 64 + ((y as int) / 64) * hx);
            assert(0 <= heat_bin(xs, hx, i as int) < tot);
        }
        let hx_cell: usize = x / 64;
        let hy_cell: usize = y / 64;
        proof {
            vstd::arithmetic::div_mod::lemma_div_pos_is_pos(y as int, 64);
            assert((hy_cell as int) * hx <= hx_cell + (hy_cell as int) * hx);
        }
        let idx: usize = hx_cell + hy_cell * heat_x;
        let cur: u128 = out[idx];
        proof {
            assert(out@[idx as int] as int == heat_sums(px, xs, hx, tot, i as nat)[idx as int]);
            assert(cur as int <= 2040 * (i as int));
            assert(2040 * (i as int) + 2040 < u128::MAX);
        }
        out.set(idx, cur + (d as u128));
        i = i + 1;
        proof {
            let sums = heat_sums(px, xs, hx, tot, i as nat);
            let prev = heat_sums(px, xs, hx, tot, (i - 1) as nat);
            assert(sums == prev.update(idx as int, prev[idx as int] + heat_delta(px, xs, i - 1)));
            assert forall|k: int| 0 <= k < xs implies last_row@[k] == px[saved_row_source(
                xs,
                i as int,
                x as int,
                k,
            )] by {
                if k == old_x {
                } else {
                }
            }
        }
    }
    proof {
        assert(i == n);
        lemma_heat_sums(px, xs, hx, tot, n);
        assert(image_heat_sums(*existing) == heat_sums(px, xs, hx, tot, n));
    }
    out
}

/// Whether the image has an edge anywhere, which `heat_map_from_image` needs
/// to scale its output.
pub fn heat_map_has_detail(existing: &PixelImage) -> (detail: bool)
    requires
        existing.is_well_formed(),
        existing.pixels@.len() > 0,
    ensures
        detail == has_detail(*existing),
{
    let sums = accumulate_heat(existing);
    let mut j: usize = 0;
    let mut found: bool = false;
    while j < sums.len()
        invariant
            0 <= j <= sums@.len(),
            found == exists|k: int| 0 <= k < j && sums@[k] > 0,
        decreases sums@.len() - j,
    {
        if sums[j] > 0 {
            found = true;
        }
        j = j + 1;
    }
    proof {
        lemma_heat_sums_detail(*existing);
        if found {
            let k = choose|k: int| 0 <= k < j && sums@[k] > 0;
            assert(image_heat_sums(*existing)[k] > 0);
        } else {
            assert forall|k: int| 0 <= k < sums@.len() implies image_heat_sums(*existing)[k]
                == 0 by {
                assert(!(sums@[k] > 0));
            }
        }
    }
    found
}

/// The image has an edge exactly when some cell sum is positive.
proof fn lemma_heat_sums_detail(img: PixelImage)
    requires
        img.is_well_formed(),
        img.pixels@.len() > 0,
    ensures
        has_detail(img) <==> exists|b: int|
            0 <= b < image_heat_sums(img).len() && image_heat_sums(img)[b] > 0,
        has_detail(img) ==> seq_max(image_heat_sums(img)) > 0,
        image_heat_sums(img).len() == heat_width(img.width()) * heat_height(img.height()),
        forall|b: int|
            0 <= b < image_heat_sums(img).len() ==> 0 <= #[trigger] image_heat_sums(img)[b]
                <= 2040 * img.pixels@.len(),
        0 <= seq_max(image_heat_sums(img)) <= 2040 * img.pixels@.len(),
{
    let px = img.pixels@;
    let xs = img.width();
    let ys = img.height();
    let hx = heat_width(xs);
    let tot = (heat_width(xs) * heat_height(ys)) as nat;
    assert(xs >= 1 && ys >= 1) by (nonlinear_arith)
        requires
            px.len() == xs * ys,
            px.len() > 0,
            xs >= 0,
            ys >= 0,
    ;
    assert(heat_width(xs) * heat_height(ys) >= 1) by (nonlinear_arith)
        requires
            heat_width(xs) >= 1,
            heat_height(ys) >= 1,
    ;
    assert forall|i: int| 0 <= i < px.len() implies 0 <= #[trigger] heat_bin(xs, hx, i) < tot by {
        lemma_bin_in_range(xs, ys, i);
    }
    lemma_heat_sums(px, xs, hx, tot, px.len());
    let sums = image_heat_sums(img);
    lemma_seq_max(sums);
    if seq_max(sums) != 0 {
        let j = choose|j: int| 0 <= j < sums.len() && sums[j] == seq_max(sums);
        assert(sums[j] <= 2040 * px.len());
    }
    if has_detail(img) {
        let i = choose|i: int| 0 <= i < px.len() && heat_delta(px, xs, i) > 0;
        assert(sums[heat_bin(xs, hx, i)] > 0);
    }
    if !has_detail(img) {
        assert forall|i: int| 0 <= i < px.len() implies heat_delta(px, xs, i) == 0 by {
            lemma_delta_bounds(px, xs, i);
        }
    }
}

/// Builds a grey heat map of the edges of an image.
///
/// Each 64x64 block of the image becomes one cell whose level is the sum of
/// the edge strengths added to it, scaled so that the strongest cell is 255.
/// The image must have at least one edge, or the scaling would divide by zero.
pub fn heat_map_from_image(existing: &PixelImage) -> (heat: PixelImage)
    requires
        existing.is_well_formed(),
        existing.pixels@.len() > 0,
        has_detail(*existing),
    ensures
        heat.size@[0] == heat_width(existing.width()),
        heat.size@[1] == heat_height(existing.height()),
        heat.is_well_formed(),
        forall|b: int|
            0 <= b < heat.pixels@.len() ==> #[trigger] heat.pixels@[b] == grey(
                heat_level(image_heat_sums(*existing), b),
            ),
{
    let ghost sums_spec = image_heat_sums(*existing);
    let sums = accumulate_heat(existing);
    let n_exec: usize = existing.pixels.len();
    proof {
        lemma_heat_sums_detail(*existing);
        lemma_seq_max(sums_spec);
    }
    let mut max_out_pixel: u128 = 0;
    let mut j: usize = 0;
    while j < sums.len()
        invariant
            0 <= j <= sums@.len(),
            sums@.len() == sums_spec.len(),
            forall|b: int| 0 <= b < sums@.len() ==> sums@[b] as int == #[trigger] sums_spec[b],
            max_out_pixel as int == seq_max(sums_spec.take(j as int)),
        decreases sums@.len() - j,
    {
        proof {
            assert(sums_spec.take(j + 1).drop_last() =~= sums_spec.take(j as int));
        }
        if sums[j] > max_out_pixel {
            max_out_pixel = sums[j];
        }
        j = j + 1;
    }
    proof {
        assert(sums_spec.take(sums@.len() as int) =~= sums_spec);
    }
    let mut out_pixels: Vec<Rgba> = Vec::new();
    let mut k: usize = 0;
    while k < sums.len()
        invariant
            0 <= k <= sums@.len(),
            sums@.len() == sums_spec.len(),
            forall|b: int| 0 <= b < sums@.len() ==> sums@[b] as int == #[trigger] sums_spec[b],
            max_out_pixel as int == seq_max(sums_spec),
            max_out_pixel > 0,
            seq_max(sums_spec) <= 2040 * (n_exec as int),
            forall|b: int| 0 <= b < sums_spec.len() ==> 0 <= #[trigger] sums_spec[b] <= seq_max(sums_spec),
            out_pixels@.len() == k,
            forall|b: int|
                0 <= b < k ==> #[trigger] out_pixels@[b] == grey(heat_level(sums_spec, b)),
        decreases sums@.len() - k,
    {
        let g: u128 = sums[k];
        proof {
            assert(sums@[k as int] as int == sums_spec[k as int]);
            assert(g <= max_out_pixel);
            assert(255 * (g as int) <= 255 * (max_out_pixel as int));
            vstd::arithmetic::div_mod::lemma_div_is_ordered(
                255 * (g as int),
                255 * (max_out_pixel as int),
                max_out_pixel as int,
            );
            vstd::arithmetic::div_mod::lemma_div_by_multiple(255, max_out_pixel as int);
            vstd::arithmetic::div_mod::lemma_div_pos_is_pos(255 * (g as int), max_out_pixel as int);
            assert(255 * (max_out_pixel as int) < u128::MAX);
        }
        let d: u128 = 255 * g / max_out_pixel;
        let du8: u8 = d as u8;
        out_pixels.push(Rgba { r: du8, g: du8, b: du8, a: 255 });
        k = k + 1;
    }
    let heat_x: usize = existing.size[0] / 64 + 1;
    let heat_y: usize = existing.size[1] / 64 + 1;
    PixelImage { size: [heat_x, heat_y], pixels: out_pixels }
}

} // verus!

verus! {

/// In the heat map of an image with an edge, the strongest cell is white:
/// some cell has level 255, and no level is above it.
pub proof fn lemma_heat_map_strongest_cell_is_white(img: PixelImage)
    requires
        img.is_well_formed(),
        img.pixels@.len() > 0,
        has_detail(img),
    ensures
        exists|b: int|
            0 <= b < image_heat_sums(img).len() && heat_level(image_heat_sums(img), b) == 255,
{
    lemma_heat_sums_detail(img);
    let sums = image_heat_sums(img);
    lemma_seq_max(sums);
    let b = choose|b: int| 0 <= b < sums.len() && sums[b] == seq_max(sums);
    vstd::arithmetic::div_mod::lemma_div_by_multiple(255, seq_max(sums));
    assert(255 * sums[b] == 255 * seq_max(sums));
    assert(heat_level(sums, b) == 255);
}

} // verus!
