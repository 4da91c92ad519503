//! Resizing of images for mipmaps, with the filters that whole numbers
//! compute exactly: the box filter and the nearest pixel.
//!
//! The box filter gives a pixel of the result the average of the pixels of
//! the source that it covers, each with the share of it that is covered.
//! With straight alpha a color counts by its alpha, so that what is
//! transparent does not bleed into what is not.

use vstd::prelude::*;

use crate::encoder::ResizeFilter;
use crate::grid::{PixelGrid, Rgba8};

verus! {

/// The first pixel of a source of `s` pixels that pixel `x` of a result of
/// `d` pixels covers.
pub open spec fn cover_start(x: nat, s: nat, d: nat) -> nat {
    x * s / d
}

/// The pixel after the last pixel of a source of `s` pixels that pixel `x`
/// of a result of `d` pixels covers.
pub open spec fn cover_end(x: nat, s: nat, d: nat) -> nat {
    (((x + 1) * s + d - 1) / (d as int)) as nat
}

/// How much of pixel `i` of a source of `s` pixels pixel `x` of a result
/// of `d` pixels covers, in parts of which the pixel has `d`: the overlap
/// of the spans from `i * d` to `(i + 1) * d` and from `x * s` to
/// `(x + 1) * s`.
pub open spec fn cover(i: nat, x: nat, s: nat, d: nat) -> nat {
    let low = if i * d > x * s {
        i * d
    } else {
        x * s
    };
    let high = if (i + 1) * d < (x + 1) * s {
        (i + 1) * d
    } else {
        (x + 1) * s
    };
    if high > low {
        (high - low) as nat
    } else {
        0
    }
}

/// What is added up over the pixels of the source: a channel, or a color
/// channel times alpha.
#[derive(Debug, Clone, Copy, PartialEq, Eq, Structural)]
pub enum Part {
    R,
    G,
    B,
    A,
    RA,
    GA,
    BA,
    One,
}

/// The part of a pixel that is added up.
pub open spec fn part_value(p: Rgba8, part: Part) -> nat {
    match part {
        Part::R => p.r as nat,
        Part::G => p.g as nat,
        Part::B => p.b as nat,
        Part::A => p.a as nat,
        Part::RA => (p.r * p.a) as nat,
        Part::GA => (p.g * p.a) as nat,
        Part::BA => (p.b * p.a) as nat,
        Part::One => 1,
    }
}

/// The parts of the pixels of row `j` of the source that pixel `x` of the
/// result covers, from the first up to pixel `end`, each taken as often as
/// it is covered.
pub open spec fn row_sum(
    src: Seq<Rgba8>,
    sw: nat,
    dw: nat,
    x: nat,
    j: nat,
    part: Part,
    end: nat,
) -> nat
    decreases end,
{
    if end <= cover_start(x, sw, dw) {
        0
    } else {
        let i = (end - 1) as nat;
        row_sum(src, sw, dw, x, j, part, i) + cover(i, x, sw, dw) * part_value(
            src[(j * sw + i) as int],
            part,
        )
    }
}

/// The parts of the pixels of the source that the pixel in column `x` and
/// row `y` of the result covers, from the first row up to row `end`, each
/// taken as often as it is covered.
pub open spec fn area_sum(
    src: Seq<Rgba8>,
    sw: nat,
    sh: nat,
    dw: nat,
    dh: nat,
    x: nat,
    y: nat,
    part: Part,
    end: nat,
) -> nat
    decreases end,
{
    if end <= cover_start(y, sh, dh) {
        0
    } else {
        let j = (end - 1) as nat;
        area_sum(src, sw, sh, dw, dh, x, y, part, j) + cover(j, y, sh, dh) * row_sum(
            src,
            sw,
            dw,
            x,
            j,
            part,
            cover_end(x, sw, dw),
        )
    }
}

/// A sum divided by what it was taken of, rounded to the nearest.
pub open spec fn rounded(sum: nat, of: nat) -> nat {
    (2 * sum + of) / (2 * of)
}

/// The pixel in column `x` and row `y` of the result of the box filter.
/// Alpha is the average of the alpha that the pixel covers. A color is the
/// average of the colors that it covers; with straight alpha each color
/// counts by its alpha, where any of the alpha is above 0.
pub open spec fn box_pixel(
    src: Seq<Rgba8>,
    sw: nat,
    sh: nat,
    dw: nat,
    dh: nat,
    x: nat,
    y: nat,
    straight_alpha: bool,
) -> Rgba8 {
    let end = cover_end(y, sh, dh);
    let all = sw * sh;
    let alpha = area_sum(src, sw, sh, dw, dh, x, y, Part::A, end);
    if straight_alpha && alpha > 0 {
        Rgba8 {
            r: rounded(area_sum(src, sw, sh, dw, dh, x, y, Part::RA, end), alpha) as u8,
            g: rounded(area_sum(src, sw, sh, dw, dh, x, y, Part::GA, end), alpha) as u8,
            b: rounded(area_sum(src, sw, sh, dw, dh, x, y, Part::BA, end), alpha) as u8,
            a: rounded(alpha, all) as u8,
        }
    } else {
        Rgba8 {
            r: rounded(area_sum(src, sw, sh, dw, dh, x, y, Part::R, end), all) as u8,
            g: rounded(area_sum(src, sw, sh, dw, dh, x, y, Part::G, end), all) as u8,
            b: rounded(area_sum(src, sw, sh, dw, dh, x, y, Part::B, end), all) as u8,
            a: rounded(alpha, all) as u8,
        }
    }
}

/// The pixel of a source of `s` pixels that lies under the middle of pixel
/// `x` of a result of `d` pixels.
pub open spec fn nearest(x: nat, s: nat, d: nat) -> nat {
    (2 * x + 1) * s / (2 * d)
}

/// The pixel in column `x` and row `y` of the result of a filter that
/// whole numbers compute: the box filter, or the nearest pixel.
pub open spec fn resized_pixel(
    src: Seq<Rgba8>,
    sw: nat,
    sh: nat,
    dw: nat,
    dh: nat,
    x: nat,
    y: nat,
    straight_alpha: bool,
    filter: ResizeFilter,
) -> Rgba8 {
    if filter == ResizeFilter::Nearest {
        src[(nearest(y, sh, dh) * sw + nearest(x, sw, dw)) as int]
    } else {
        box_pixel(src, sw, sh, dw, dh, x, y, straight_alpha)
    }
}

/// The pixels of the source that a pixel of the result covers: at least
/// one, all within the source, the first reached by the start of the pixel
/// and the last by its end.
pub proof fn lemma_cover_range(x: nat, s: nat, d: nat)
    requires
        s >= 1,
        d >= 1,
        x < d,
    ensures
        cover_start(x, s, d) < cover_end(x, s, d) <= s,
        cover_start(x, s, d) * d <= x * s < (cover_start(x, s, d) + 1) * d,
        (cover_end(x, s, d) - 1) * d < (x + 1) * s <= cover_end(x, s, d) * d,
{
    let a = (x * s) as int;
    let b = ((x + 1) * s) as int;
    let di = d as int;
    let lo = a / di;
    let hi = (b + di - 1) / di;
    assert(b == a + s) by (nonlinear_arith)
        requires
            a == x * s,
            b == (x + 1) * s,
    ;
    assert(b <= d * s) by (nonlinear_arith)
        requires
            b == (x + 1) * s,
            x + 1 <= d,
            s >= 0,
    ;
    vstd::arithmetic::div_mod::lemma_fundamental_div_mod(a, di);
    vstd::arithmetic::div_mod::lemma_mod_bound(a, di);
    vstd::arithmetic::div_mod::lemma_fundamental_div_mod(b + di - 1, di);
    vstd::arithmetic::div_mod::lemma_mod_bound(b + di - 1, di);
    assert(lo * di <= a < (lo + 1) * di) by (nonlinear_arith)
        requires
            a == di * lo + a % di,
            0 <= a % di < di,
    ;
    assert((hi - 1) * di < b <= hi * di) by (nonlinear_arith)
        requires
            b + di - 1 == di * hi + (b + di - 1) % di,
            0 <= (b + di - 1) % di < di,
    ;
    assert(lo < hi) by (nonlinear_arith)
        requires
            lo * di <= a,
            a < b,
            b <= hi * di,
            di >= 1,
    ;
    assert(hi <= s) by (nonlinear_arith)
        requires
            (hi - 1) * di < b,
            b <= di * s,
            di >= 1,
    ;
}

/// The shares of the pixels that a pixel of the result covers, from the
/// first up to pixel `end`, add up to what of the source lies between the
/// start of the pixel of the result and pixel `end`; over all of them, to
/// the pixels of the source.
pub proof fn lemma_cover_sum(src: Seq<Rgba8>, s: nat, d: nat, x: nat, j: nat, end: nat)
    requires
        s >= 1,
        d >= 1,
        x < d,
        cover_start(x, s, d) <= end <= cover_end(x, s, d),
    ensures
        end > cover_start(x, s, d) ==> row_sum(src, s, d, x, j, Part::One, end) + x * s == (if end
            * d < (x + 1) * s {
            end * d
        } else {
            (x + 1) * s
        }),
        end == cover_end(x, s, d) ==> row_sum(src, s, d, x, j, Part::One, end) == s,
    decreases end,
{
    lemma_cover_range(x, s, d);
    let lo = cover_start(x, s, d);
    let hi = cover_end(x, s, d);
    if end > lo {
        let i = (end - 1) as nat;
        lemma_cover_sum(src, s, d, x, j, i);
        let from = x * s;
        let to = (x + 1) * s;
        let low = i * d;
        let high = end * d;
        assert(to == from + s) by (nonlinear_arith)
            requires
                from == x * s,
                to == (x + 1) * s,
        ;
        assert(high == low + d && high == (i + 1) * d) by (nonlinear_arith)
            requires
                high == end * d,
                low == i * d,
                end == i + 1,
        ;
        assert(low < to) by (nonlinear_arith)
            requires
                low == i * d,
                i <= hi - 1,
                (hi - 1) * d < to,
                d >= 1,
        ;
        if i > lo {
            assert(low > from) by (nonlinear_arith)
                requires
                    low == i * d,
                    i >= lo + 1,
                    from < (lo + 1) * d,
                    d >= 1,
            ;
            assert(row_sum(src, s, d, x, j, Part::One, i) + from == low);
        } else {
            assert(row_sum(src, s, d, x, j, Part::One, i) == 0);
            assert(low <= from);
        }
        let c = cover(i, x, s, d);
        assert(c == (if high < to {
            high
        } else {
            to
        }) - (if low > from {
            low
        } else {
            from
        }));
        let one = part_value(src[(j * s + i) as int], Part::One);
        assert(c * one == c) by (nonlinear_arith)
            requires
                one == 1,
        ;
        assert(row_sum(src, s, d, x, j, Part::One, end) == row_sum(src, s, d, x, j, Part::One, i)
            + c * one);
        if end == hi {
            assert(high >= to) by (nonlinear_arith)
                requires
                    high == end * d,
                    end == hi,
                    to <= hi * d,
            ;
        }
    }
}


/// No pixel has more of the part `p` than 255 times what it has of `q`:
/// a channel is at most 255, and a color times alpha at most 255 times
/// alpha.
pub open spec fn dominated(p: Part, q: Part) -> bool {
    ||| q == Part::One && (p == Part::R || p == Part::G || p == Part::B || p == Part::A)
    ||| q == Part::A && (p == Part::RA || p == Part::GA || p == Part::BA)
}

/// A pixel has at most 255 times as much of a part as of a part that
/// dominates it.
proof fn lemma_pixel_dominated(c: Rgba8, p: Part, q: Part)
    requires
        dominated(p, q),
    ensures
        part_value(c, p) <= 255 * part_value(c, q),
{
    assert(c.r * c.a <= 255 * c.a && c.g * c.a <= 255 * c.a && c.b * c.a <= 255 * c.a)
        by (nonlinear_arith)
        requires
            c.r <= 255,
            c.g <= 255,
            c.b <= 255,
            c.a >= 0,
    ;
}

/// A sum over a row is at most 255 times the sum of a part that dominates
/// its part.
pub proof fn lemma_row_dominated(
    src: Seq<Rgba8>,
    sw: nat,
    dw: nat,
    x: nat,
    j: nat,
    p: Part,
    q: Part,
    end: nat,
)
    requires
        dominated(p, q),
    ensures
        row_sum(src, sw, dw, x, j, p, end) <= 255 * row_sum(src, sw, dw, x, j, q, end),
    decreases end,
{
    if end > cover_start(x, sw, dw) {
        let i = (end - 1) as nat;
        lemma_row_dominated(src, sw, dw, x, j, p, q, i);
        let c = cover(i, x, sw, dw);
        let pixel = src[(j * sw + i) as int];
        lemma_pixel_dominated(pixel, p, q);
        assert(c * part_value(pixel, p) <= 255 * (c * part_value(pixel, q))) by (nonlinear_arith)
            requires
                part_value(pixel, p) <= 255 * part_value(pixel, q),
                c >= 0,
        ;
    }
}

/// A sum over the pixels that a pixel of the result covers is at most 255
/// times the sum of a part that dominates its part.
pub proof fn lemma_area_dominated(
    src: Seq<Rgba8>,
    sw: nat,
    sh: nat,
    dw: nat,
    dh: nat,
    x: nat,
    y: nat,
    p: Part,
    q: Part,
    end: nat,
)
    requires
        dominated(p, q),
    ensures
        area_sum(src, sw, sh, dw, dh, x, y, p, end) <= 255 * area_sum(
            src,
            sw,
            sh,
            dw,
            dh,
            x,
            y,
            q,
            end,
        ),
    decreases end,
{
    if end > cover_start(y, sh, dh) {
        let j = (end - 1) as nat;
        lemma_area_dominated(src, sw, sh, dw, dh, x, y, p, q, j);
        let c = cover(j, y, sh, dh);
        let rp = row_sum(src, sw, dw, x, j, p, cover_end(x, sw, dw));
        let rq = row_sum(src, sw, dw, x, j, q, cover_end(x, sw, dw));
        lemma_row_dominated(src, sw, dw, x, j, p, q, cover_end(x, sw, dw));
        assert(c * rp <= 255 * (c * rq)) by (nonlinear_arith)
            requires
                rp <= 255 * rq,
                c >= 0,
        ;
    }
}

/// The shares of the pixels that a pixel of the result covers add up to
/// the number of pixels of the source; up to any row, to no more.
pub proof fn lemma_area_one(
    src: Seq<Rgba8>,
    sw: nat,
    sh: nat,
    dw: nat,
    dh: nat,
    x: nat,
    y: nat,
    end: nat,
)
    requires
        sw >= 1,
        sh >= 1,
        dw >= 1,
        dh >= 1,
        x < dw,
        y < dh,
        cover_start(y, sh, dh) <= end <= cover_end(y, sh, dh),
    ensures
        area_sum(src, sw, sh, dw, dh, x, y, Part::One, end) == sw * row_sum(
            src,
            sh,
            dh,
            y,
            0,
            Part::One,
            end,
        ),
        area_sum(src, sw, sh, dw, dh, x, y, Part::One, end) <= sw * sh,
        end == cover_end(y, sh, dh) ==> area_sum(src, sw, sh, dw, dh, x, y, Part::One, end) == sw
            * sh,
    decreases end,
{
    lemma_cover_range(y, sh, dh);
    lemma_cover_sum(src, sh, dh, y, 0, end);
    let ones = row_sum(src, sh, dh, y, 0, Part::One, end);
    if end > cover_start(y, sh, dh) {
        let j = (end - 1) as nat;
        lemma_area_one(src, sw, sh, dw, dh, x, y, j);
        lemma_cover_range(x, sw, dw);
        lemma_cover_sum(src, sw, dw, x, j, cover_end(x, sw, dw));
        let c = cover(j, y, sh, dh);
        let before = row_sum(src, sh, dh, y, 0, Part::One, j);
        let one = part_value(src[(0 * sh + j) as int], Part::One);
        assert(ones == before + c * one);
        assert(c * one == c) by (nonlinear_arith)
            requires
                one == 1,
        ;
        assert(sw * before + c * sw == sw * (before + c)) by (nonlinear_arith);
        assert((y + 1) * sh == y * sh + sh) by (nonlinear_arith);
        assert(ones <= sh);
    } else {
        assert(sw * 0 == 0) by (nonlinear_arith);
    }
    assert(sw * ones <= sw * sh) by (nonlinear_arith)
        requires
            ones <= sh,
            sw >= 0,
    ;
}


/// The parts that the box filter adds up, in the order of its sums.
pub open spec fn part_at(k: nat) -> Part {
    if k == 0 {
        Part::R
    } else if k == 1 {
        Part::G
    } else if k == 2 {
        Part::B
    } else if k == 3 {
        Part::A
    } else if k == 4 {
        Part::RA
    } else if k == 5 {
        Part::GA
    } else {
        Part::BA
    }
}

/// An image and a size can be held against each other in 32 bits: the
/// image has pixels, the result is to have some, and no extent is above
/// what 32 bits count.
pub open spec fn fits(sw: nat, sh: nat, dw: nat, dh: nat) -> bool {
    &&& 1 <= sw <= u32::MAX
    &&& 1 <= sh <= u32::MAX
    &&& 1 <= dw <= u32::MAX
    &&& 1 <= dh <= u32::MAX
}

/// How much of pixel `i` of the source pixel `x` of the result covers.
fn cover_of(i: u64, x: u64, s: u64, d: u64) -> (c: u128)
    requires
        i < s <= u32::MAX,
        x < d <= u32::MAX,
    ensures
        c == cover(i as nat, x as nat, s as nat, d as nat),
        c <= d,
{
    assert(i * d <= 0xFFFF_FFFF * 0xFFFF_FFFF && (i + 1) * d <= 0xFFFF_FFFF * 0xFFFF_FFFF && x * s
        <= 0xFFFF_FFFF * 0xFFFF_FFFF && (x + 1) * s <= 0xFFFF_FFFF * 0xFFFF_FFFF)
        by (nonlinear_arith)
        requires
            i + 1 <= 0xFFFF_FFFF,
            x + 1 <= 0xFFFF_FFFF,
            s <= 0xFFFF_FFFF,
            d <= 0xFFFF_FFFF,
    ;
    assert((i + 1) * d == i * d + d) by (nonlinear_arith);
    let start: u128 = i as u128 * d as u128;
    let end: u128 = (i as u128 + 1) * d as u128;
    let from: u128 = x as u128 * s as u128;
    let to: u128 = (x as u128 + 1) * s as u128;
    let low: u128 = if start > from {
        start
    } else {
        from
    };
    let high: u128 = if end < to {
        end
    } else {
        to
    };
    if high > low {
        high - low
    } else {
        0
    }
}

/// The parts of a pixel that the box filter adds up.
fn parts_of(p: Rgba8) -> (v: [u128; 7])
    ensures
        forall|k: int| 0 <= k < 7 ==> #[trigger] v@[k] == part_value(p, part_at(k as nat)),
        forall|k: int| 0 <= k < 7 ==> #[trigger] v@[k] <= 65025,
{
    let a: u128 = p.a as u128;
    assert(p.r * a <= 65025 && p.g * a <= 65025 && p.b * a <= 65025) by (nonlinear_arith)
        requires
            p.r <= 255,
            p.g <= 255,
            p.b <= 255,
            a <= 255,
    ;
    [
        p.r as u128,
        p.g as u128,
        p.b as u128,
        a,
        p.r as u128 * a,
        p.g as u128 * a,
        p.b as u128 * a,
    ]
}

/// The first and the pixel after the last pixel of the source that a
/// pixel of the result covers.
fn cover_range(x: u64, s: u64, d: u64) -> (r: (u64, u64))
    requires
        1 <= s <= u32::MAX,
        x < d <= u32::MAX,
    ensures
        r.0 == cover_start(x as nat, s as nat, d as nat),
        r.1 == cover_end(x as nat, s as nat, d as nat),
        r.0 < r.1 <= s,
{
    proof {
        lemma_cover_range(x as nat, s as nat, d as nat);
    }
    assert((x + 1) * s <= 0xFFFF_FFFF * 0xFFFF_FFFF && x * s <= 0xFFFF_FFFF * 0xFFFF_FFFF)
        by (nonlinear_arith)
        requires
            x + 1 <= 0xFFFF_FFFF,
            s <= 0xFFFF_FFFF,
    ;
    (x * s / d, ((x + 1) * s + d - 1) / d)
}

/// The sums of the box filter over the pixels of row `j` of the source
/// that pixel `x` of the result covers.
fn row_sums<'a>(src: &PixelGrid<'a, Rgba8>, dw: u64, x: u64, j: u64) -> (sums: [u128; 7])
    requires
        1 <= src.spec_width() <= u32::MAX,
        x < dw <= u32::MAX,
        j < src.spec_height(),
    ensures
        forall|k: int|
            0 <= k < 7 ==> #[trigger] sums@[k] == row_sum(
                src.pixels(),
                src.spec_width(),
                dw as nat,
                x as nat,
                j as nat,
                part_at(k as nat),
                cover_end(x as nat, src.spec_width(), dw as nat),
            ),
        forall|k: int| 0 <= k < 7 ==> #[trigger] sums@[k] <= 65025 * src.spec_width(),
{
    let sw: u64 = src.width() as u64;
    let ghost pixels = src.pixels();
    let (from, to) = cover_range(x, sw, dw);
    proof {
        use_type_invariant(src);
        src.lemma_valid();
    }
    let mut sums: [u128; 7] = [0u128;7];
    let mut i: u64 = from;
    while i < to
        invariant
            from <= i <= to <= sw,
            sw == src.spec_width(),
            pixels == src.pixels(),
            pixels.len() == src.spec_width() * src.spec_height(),
            pixels.len() <= usize::MAX,
            j < src.spec_height(),
            x < dw <= u32::MAX,
            1 <= sw <= u32::MAX,
            from == cover_start(x as nat, sw as nat, dw as nat),
            to == cover_end(x as nat, sw as nat, dw as nat),
            forall|k: int|
                0 <= k < 7 ==> #[trigger] sums@[k] == row_sum(
                    pixels,
                    sw as nat,
                    dw as nat,
                    x as nat,
                    j as nat,
                    part_at(k as nat),
                    i as nat,
                ),
            forall|k: int| 0 <= k < 7 ==> #[trigger] sums@[k] <= (i - from) * 0x1_0000_0000_0000,
        decreases to - i,
    {
        assert(0 <= j * sw <= j * sw + i < src.spec_width() * src.spec_height())
            by (nonlinear_arith)
            requires
                0 <= i < sw,
                0 <= j < src.spec_height(),
                sw == src.spec_width(),
        ;
        let p = src.pixel((j * sw + i) as usize);
        let c = cover_of(i, x, sw, dw);
        let v = parts_of(p);
        let ghost before = sums@;
        let mut k: usize = 0;
        while k < 7
            invariant
                k <= 7,
                c <= 0xFFFF_FFFF,
                from <= i <= 0xFFFF_FFFF,
                before.len() == 7,
                forall|m: int| 0 <= m < 7 ==> #[trigger] v@[m] <= 65025,
                forall|m: int| 0 <= m < 7 ==> #[trigger] before[m] <= (i - from) * 0x1_0000_0000_0000,
                forall|m: int| 0 <= m < k ==> #[trigger] sums@[m] == before[m] + c * v@[m],
                forall|m: int| k <= m < 7 ==> #[trigger] sums@[m] == before[m],
            decreases 7 - k,
        {
            assert(c * v@[k as int] <= 0xFFFF_FFFF * 65025) by (nonlinear_arith)
                requires
                    c <= 0xFFFF_FFFF,
                    v@[k as int] <= 65025,
            ;
            sums[k] = sums[k] + c * v[k];
            k = k + 1;
        }
        assert forall|m: int| 0 <= m < 7 implies #[trigger] sums@[m] <= (i + 1 - from)
            * 0x1_0000_0000_0000 by {
            assert(c * v@[m] <= 0xFFFF_FFFF * 65025) by (nonlinear_arith)
                requires
                    c <= 0xFFFF_FFFF,
                    v@[m] <= 65025,
            ;
        }
        assert forall|m: int| 0 <= m < 7 implies #[trigger] sums@[m] == row_sum(
            pixels,
            sw as nat,
            dw as nat,
            x as nat,
            j as nat,
            part_at(m as nat),
            (i + 1) as nat,
        ) by {
            assert(sums@[m] == before[m] + c * v@[m]);
            assert(p == pixels[(j * sw + i) as int]);
        }
        i = i + 1;
    }
    proof {
        lemma_cover_range(x as nat, sw as nat, dw as nat);
        lemma_cover_sum(pixels, sw as nat, dw as nat, x as nat, j as nat, to as nat);
        assert forall|k: int| 0 <= k < 7 implies #[trigger] sums@[k] <= 65025 * sw by {
            let one = row_sum(pixels, sw as nat, dw as nat, x as nat, j as nat, Part::One, to as nat);
            let alpha = row_sum(pixels, sw as nat, dw as nat, x as nat, j as nat, Part::A, to as nat);
            lemma_row_dominated(pixels, sw as nat, dw as nat, x as nat, j as nat, Part::A, Part::One, to as nat);
            if k < 4 {
                lemma_row_dominated(
                    pixels,
                    sw as nat,
                    dw as nat,
                    x as nat,
                    j as nat,
                    part_at(k as nat),
                    Part::One,
                    to as nat,
                );
            } else {
                lemma_row_dominated(
                    pixels,
                    sw as nat,
                    dw as nat,
                    x as nat,
                    j as nat,
                    part_at(k as nat),
                    Part::A,
                    to as nat,
                );
            }
        }
    }
    sums
}

/// The sums of the box filter over the pixels of the source that the
/// pixel in column `x` and row `y` of the result covers.
fn area_sums<'a>(src: &PixelGrid<'a, Rgba8>, dw: u64, dh: u64, x: u64, y: u64) -> (sums: [u128; 7])
    requires
        fits(src.spec_width(), src.spec_height(), dw as nat, dh as nat),
        x < dw,
        y < dh,
    ensures
        forall|k: int|
            0 <= k < 7 ==> #[trigger] sums@[k] == area_sum(
                src.pixels(),
                src.spec_width(),
                src.spec_height(),
                dw as nat,
                dh as nat,
                x as nat,
                y as nat,
                part_at(k as nat),
                cover_end(y as nat, src.spec_height(), dh as nat),
            ),
{
    let sh: u64 = src.height() as u64;
    let ghost sw = src.spec_width();
    let ghost pixels = src.pixels();
    let (from, to) = cover_range(y, sh, dh);
    let mut sums: [u128; 7] = [0u128;7];
    let mut j: u64 = from;
    while j < to
        invariant
            from <= j <= to <= sh,
            sh == src.spec_height(),
            sw == src.spec_width(),
            pixels == src.pixels(),
            fits(sw, sh as nat, dw as nat, dh as nat),
            x < dw,
            y < dh,
            from == cover_start(y as nat, sh as nat, dh as nat),
            to == cover_end(y as nat, sh as nat, dh as nat),
            forall|k: int|
                0 <= k < 7 ==> #[trigger] sums@[k] == area_sum(
                    pixels,
                    sw,
                    sh as nat,
                    dw as nat,
                    dh as nat,
                    x as nat,
                    y as nat,
                    part_at(k as nat),
                    j as nat,
                ),
            forall|k: int|
                0 <= k < 7 ==> #[trigger] sums@[k] <= (j - from) * 0x1_0000_0000_0000_0000_0000,
        decreases to - j,
    {
        let row = row_sums(src, dw, x, j);
        let c = cover_of(j, y, sh, dh);
        let ghost before = sums@;
        assert forall|m: int| 0 <= m < 7 implies c * #[trigger] row@[m] <= 0x1_0000_0000_0000_0000_0000 by {
            assert(c * row@[m] <= 0xFFFF_FFFF * (65025 * 0xFFFF_FFFF)) by (nonlinear_arith)
                requires
                    c <= 0xFFFF_FFFF,
                    row@[m] <= 65025 * sw,
                    sw <= 0xFFFF_FFFF,
            ;
        }
        let mut k: usize = 0;
        while k < 7
            invariant
                k <= 7,
                from <= j <= 0xFFFF_FFFF,
                before.len() == 7,
                forall|m: int| 0 <= m < 7 ==> c * #[trigger] row@[m] <= 0x1_0000_0000_0000_0000_0000,
                forall|m: int|
                    0 <= m < 7 ==> #[trigger] before[m] <= (j - from) * 0x1_0000_0000_0000_0000_0000,
                forall|m: int| 0 <= m < k ==> #[trigger] sums@[m] == before[m] + c * row@[m],
                forall|m: int| k <= m < 7 ==> #[trigger] sums@[m] == before[m],
            decreases 7 - k,
        {
            assert(c * row@[k as int] <= 0x1_0000_0000_0000_0000_0000);
            sums[k] = sums[k] + c * row[k];
            k = k + 1;
        }
        assert forall|m: int| 0 <= m < 7 implies #[trigger] sums@[m] <= (j + 1 - from)
            * 0x1_0000_0000_0000_0000_0000 by {
            assert(c * row@[m] <= 0x1_0000_0000_0000_0000_0000);
        }
        assert forall|m: int| 0 <= m < 7 implies #[trigger] sums@[m] == area_sum(
            pixels,
            sw,
            sh as nat,
            dw as nat,
            dh as nat,
            x as nat,
            y as nat,
            part_at(m as nat),
            (j + 1) as nat,
        ) by {
            assert(sums@[m] == before[m] + c * row@[m]);
        }
        j = j + 1;
    }
    sums
}

/// A sum divided by what it was taken of, rounded to the nearest.
fn round_to_byte(sum: u128, of: u128) -> (v: u8)
    requires
        1 <= of <= 0x1_0000_0000_0000_0000_0000,
        sum <= 255 * of,
    ensures
        v == rounded(sum as nat, of as nat),
{
    assert((2 * sum + of) / (2 * of as int) <= 255) by (nonlinear_arith)
        requires
            0 <= sum <= 255 * of,
            of >= 1,
    ;
    ((2 * sum + of) / (2 * of)) as u8
}

/// The pixel in column `x` and row `y` of the result of the box filter.
fn box_pixel_of<'a>(
    src: &PixelGrid<'a, Rgba8>,
    dw: u64,
    dh: u64,
    x: u64,
    y: u64,
    straight_alpha: bool,
) -> (p: Rgba8)
    requires
        fits(src.spec_width(), src.spec_height(), dw as nat, dh as nat),
        x < dw,
        y < dh,
    ensures
        p == box_pixel(
            src.pixels(),
            src.spec_width(),
            src.spec_height(),
            dw as nat,
            dh as nat,
            x as nat,
            y as nat,
            straight_alpha,
        ),
{
    let sums = area_sums(src, dw, dh, x, y);
    let sw: u64 = src.width() as u64;
    let sh: u64 = src.height() as u64;
    assert(1 <= sw * sh <= 0xFFFF_FFFF * 0xFFFF_FFFF) by (nonlinear_arith)
        requires
            1 <= sw <= 0xFFFF_FFFF,
            1 <= sh <= 0xFFFF_FFFF,
    ;
    let all: u128 = sw as u128 * sh as u128;
    let ghost pixels = src.pixels();
    let ghost end = cover_end(y as nat, sh as nat, dh as nat);
    proof {
        lemma_cover_range(y as nat, sh as nat, dh as nat);
        lemma_area_one(pixels, sw as nat, sh as nat, dw as nat, dh as nat, x as nat, y as nat, end);
        lemma_area_dominated(pixels, sw as nat, sh as nat, dw as nat, dh as nat, x as nat, y as nat, Part::R, Part::One, end);
        lemma_area_dominated(pixels, sw as nat, sh as nat, dw as nat, dh as nat, x as nat, y as nat, Part::G, Part::One, end);
        lemma_area_dominated(pixels, sw as nat, sh as nat, dw as nat, dh as nat, x as nat, y as nat, Part::B, Part::One, end);
        lemma_area_dominated(pixels, sw as nat, sh as nat, dw as nat, dh as nat, x as nat, y as nat, Part::A, Part::One, end);
        lemma_area_dominated(pixels, sw as nat, sh as nat, dw as nat, dh as nat, x as nat, y as nat, Part::RA, Part::A, end);
        lemma_area_dominated(pixels, sw as nat, sh as nat, dw as nat, dh as nat, x as nat, y as nat, Part::GA, Part::A, end);
        lemma_area_dominated(pixels, sw as nat, sh as nat, dw as nat, dh as nat, x as nat, y as nat, Part::BA, Part::A, end);
        assert(sums@[0] == area_sum(pixels, sw as nat, sh as nat, dw as nat, dh as nat, x as nat, y as nat, part_at(0), end));
        assert(sums@[1] == area_sum(pixels, sw as nat, sh as nat, dw as nat, dh as nat, x as nat, y as nat, part_at(1), end));
        assert(sums@[2] == area_sum(pixels, sw as nat, sh as nat, dw as nat, dh as nat, x as nat, y as nat, part_at(2), end));
        assert(sums@[3] == area_sum(pixels, sw as nat, sh as nat, dw as nat, dh as nat, x as nat, y as nat, part_at(3), end));
        assert(sums@[4] == area_sum(pixels, sw as nat, sh as nat, dw as nat, dh as nat, x as nat, y as nat, part_at(4), end));
        assert(sums@[5] == area_sum(pixels, sw as nat, sh as nat, dw as nat, dh as nat, x as nat, y as nat, part_at(5), end));
        assert(sums@[6] == area_sum(pixels, sw as nat, sh as nat, dw as nat, dh as nat, x as nat, y as nat, part_at(6), end));
    }
    let alpha: u128 = sums[3];
    let a = round_to_byte(alpha, all);
    if straight_alpha && alpha > 0 {
        Rgba8 {
            r: round_to_byte(sums[4], alpha),
            g: round_to_byte(sums[5], alpha),
            b: round_to_byte(sums[6], alpha),
            a,
        }
    } else {
        Rgba8 {
            r: round_to_byte(sums[0], all),
            g: round_to_byte(sums[1], all),
            b: round_to_byte(sums[2], all),
            a,
        }
    }
}


/// An image of `sw` by `sh` pixels can be resized to `dw` by `dh` pixels
/// with the filter: the filter is one that whole numbers compute, the
/// extents can be held against each other, and the pixels of the result
/// can be counted.
pub open spec fn can_resize(sw: nat, sh: nat, dw: nat, dh: nat, filter: ResizeFilter) -> bool {
    &&& filter == ResizeFilter::Nearest || filter == ResizeFilter::Box
    &&& fits(sw, sh, dw, dh)
    &&& dw * dh <= usize::MAX
}

/// The pixel of the source under the middle of a pixel of the result.
fn nearest_of(x: u64, s: u64, d: u64) -> (i: u64)
    requires
        1 <= s <= u32::MAX,
        x < d <= u32::MAX,
    ensures
        i == nearest(x as nat, s as nat, d as nat),
        i < s,
{
    let n: u128 = 2 * (x as u128) + 1;
    let m: u128 = 2 * (d as u128);
    assert(n * s <= 0x1_FFFF_FFFF * 0xFFFF_FFFF) by (nonlinear_arith)
        requires
            n <= 0x1_FFFF_FFFF,
            s <= 0xFFFF_FFFF,
    ;
    proof {
        let q = (n * s) as int / m as int;
        vstd::arithmetic::div_mod::lemma_fundamental_div_mod((n * s) as int, m as int);
        vstd::arithmetic::div_mod::lemma_mod_bound((n * s) as int, m as int);
        assert(q < s) by (nonlinear_arith)
            requires
                n * s == m * q + (n * s) % (m as int),
                0 <= (n * s) % (m as int),
                n < m,
                s >= 1,
                m >= 1,
        ;
    }
    (n * s as u128 / m) as u64
}

/// Resizes an image to `width` by `height` pixels with the box filter or
/// to the nearest pixel: the pixels of the result, row by row.
///
/// `None` for another filter, for an image or a result without pixels, and
/// for extents above what 32 bits count.
pub fn resize<'a>(
    src: &PixelGrid<'a, Rgba8>,
    width: usize,
    height: usize,
    straight_alpha: bool,
    filter: ResizeFilter,
) -> (r: Option<Vec<Rgba8>>)
    ensures
        match r {
            Some(pixels) => {
                &&& can_resize(src.spec_width(), src.spec_height(), width as nat, height as nat, filter)
                &&& pixels@.len() == width * height
                &&& forall|j: int|
                    0 <= j < pixels@.len() ==> #[trigger] pixels@[j] == resized_pixel(
                        src.pixels(),
                        src.spec_width(),
                        src.spec_height(),
                        width as nat,
                        height as nat,
                        (j % (width as int)) as nat,
                        (j / (width as int)) as nat,
                        straight_alpha,
                        filter,
                    )
            },
            None => !can_resize(
                src.spec_width(),
                src.spec_height(),
                width as nat,
                height as nat,
                filter,
            ),
        },
{
    let box_filter = match filter {
        ResizeFilter::Nearest => false,
        ResizeFilter::Box => true,
        _ => {
            return None;
        },
    };
    let sw = src.width();
    let sh = src.height();
    if sw == 0 || sh == 0 || width == 0 || height == 0 {
        return None;
    }
    if sw as u128 > 0xFFFF_FFFF || sh as u128 > 0xFFFF_FFFF || width as u128 > 0xFFFF_FFFF
        || height as u128 > 0xFFFF_FFFF {
        return None;
    }
    assert(width * height <= 0xFFFF_FFFF * 0xFFFF_FFFF) by (nonlinear_arith)
        requires
            width <= 0xFFFF_FFFF,
            height <= 0xFFFF_FFFF,
    ;
    if width as u64 * height as u64 > usize::MAX as u64 {
        return None;
    }
    proof {
        use_type_invariant(src);
        src.lemma_valid();
    }
    let dw: u64 = width as u64;
    let dh: u64 = height as u64;
    let ghost w = width as int;
    let mut pixels: Vec<Rgba8> = Vec::new();
    let mut y: u64 = 0;
    while y < dh
        invariant
            y <= dh,
            dw == width,
            dh == height,
            w == width,
            sw == src.spec_width(),
            sh == src.spec_height(),
            box_filter == (filter == ResizeFilter::Box),
            filter == ResizeFilter::Box || filter == ResizeFilter::Nearest,
            fits(sw as nat, sh as nat, dw as nat, dh as nat),
            src.pixels().len() == sw * sh,
            src.pixels().len() <= usize::MAX,
            pixels@.len() == y * w,
            forall|j: int|
                0 <= j < pixels@.len() ==> #[trigger] pixels@[j] == resized_pixel(
                    src.pixels(),
                    sw as nat,
                    sh as nat,
                    dw as nat,
                    dh as nat,
                    (j % w) as nat,
                    (j / w) as nat,
                    straight_alpha,
                    filter,
                ),
        decreases dh - y,
    {
        let mut x: u64 = 0;
        assert(y * w + 0 == y * w);
        while x < dw
            invariant
                x <= dw,
                y < dh,
                dw == width,
                dh == height,
                w == width,
                sw == src.spec_width(),
                sh == src.spec_height(),
                box_filter == (filter == ResizeFilter::Box),
                filter == ResizeFilter::Box || filter == ResizeFilter::Nearest,
                fits(sw as nat, sh as nat, dw as nat, dh as nat),
                src.pixels().len() == sw * sh,
                src.pixels().len() <= usize::MAX,
                pixels@.len() == y * w + x,
                forall|j: int|
                    0 <= j < pixels@.len() ==> #[trigger] pixels@[j] == resized_pixel(
                        src.pixels(),
                        sw as nat,
                        sh as nat,
                        dw as nat,
                        dh as nat,
                        (j % w) as nat,
                        (j / w) as nat,
                        straight_alpha,
                        filter,
                    ),
            decreases dw - x,
        {
            let p = if box_filter {
                box_pixel_of(src, dw, dh, x, y, straight_alpha)
            } else {
                let i = nearest_of(x, sw as u64, dw);
                let j = nearest_of(y, sh as u64, dh);
                assert(0 <= j * sw <= j * sw + i < sw * sh) by (nonlinear_arith)
                    requires
                        0 <= i < sw,
                        0 <= j < sh,
                ;
                src.pixel((j * sw as u64 + i) as usize)
            };
            proof {
                vstd::arithmetic::div_mod::lemma_fundamental_div_mod_converse(
                    y * w + x,
                    w,
                    y as int,
                    x as int,
                );
            }
            pixels.push(p);
            x = x + 1;
        }
        assert((y + 1) * w == y * w + w) by (nonlinear_arith);
        y = y + 1;
    }
    assert(dh * w == width * height) by (nonlinear_arith)
        requires
            dh == height,
            w == width,
    ;
    Some(pixels)
}

/// Resizing an image to its own size gives the image: with the box filter
/// and with the nearest pixel, with straight alpha and without, every
/// pixel of the result is the pixel of the source at its place.
pub proof fn lemma_resize_identity(
    src: Seq<Rgba8>,
    w: nat,
    h: nat,
    x: nat,
    y: nat,
    straight_alpha: bool,
    filter: ResizeFilter,
)
    requires
        w >= 1,
        h >= 1,
        x < w,
        y < h,
        filter == ResizeFilter::Box || filter == ResizeFilter::Nearest,
    ensures
        resized_pixel(src, w, h, w, h, x, y, straight_alpha, filter) == src[(y * w + x) as int],
{
    let p = src[(y * w + x) as int];
    if filter == ResizeFilter::Nearest {
        lemma_nearest_identity(x, w);
        lemma_nearest_identity(y, h);
    } else {
        lemma_cover_identity(x, w);
        lemma_cover_identity(y, h);
        let all = w * h;
        assert(all >= 1) by (nonlinear_arith)
            requires
                all == w * h,
                w >= 1,
                h >= 1,
        ;
        assert forall|part: Part| #[trigger]
            area_sum(src, w, h, w, h, x, y, part, y + 1) == all * part_value(p, part) by {
            let v = part_value(p, part);
            assert(row_sum(src, w, w, x, y, part, x) == 0);
            assert(row_sum(src, w, w, x, y, part, x + 1) == w * v);
            assert(area_sum(src, w, h, w, h, x, y, part, y) == 0);
            assert(h * (w * v) == (w * h) * v) by (nonlinear_arith);
        }
        let alpha = area_sum(src, w, h, w, h, x, y, Part::A, y + 1);
        assert(alpha == all * p.a);
        lemma_rounded_exact(p.a as nat, all);
        lemma_rounded_exact(p.r as nat, all);
        lemma_rounded_exact(p.g as nat, all);
        lemma_rounded_exact(p.b as nat, all);
        if straight_alpha && alpha > 0 {
            assert(alpha >= 1);
            assert(all * (p.r * p.a) == (all * p.a) * p.r && all * (p.g * p.a) == (all * p.a)
                * p.g && all * (p.b * p.a) == (all * p.a) * p.b) by (nonlinear_arith);
            assert(area_sum(src, w, h, w, h, x, y, Part::RA, y + 1) == alpha * p.r);
            assert(area_sum(src, w, h, w, h, x, y, Part::GA, y + 1) == alpha * p.g);
            assert(area_sum(src, w, h, w, h, x, y, Part::BA, y + 1) == alpha * p.b);
            lemma_rounded_exact(p.r as nat, alpha);
            lemma_rounded_exact(p.g as nat, alpha);
            lemma_rounded_exact(p.b as nat, alpha);
        }
    }
}

/// A pixel of a result as wide as the source has the pixel of the source
/// at its place under its middle.
proof fn lemma_nearest_identity(x: nat, s: nat)
    requires
        s >= 1,
    ensures
        nearest(x, s, s) == x,
{
    assert((2 * x + 1) * s == x * (2 * s) + s) by (nonlinear_arith);
    vstd::arithmetic::div_mod::lemma_fundamental_div_mod_converse(
        ((2 * x + 1) * s) as int,
        (2 * s) as int,
        x as int,
        s as int,
    );
}

/// A pixel of a result as wide as the source covers the pixel of the
/// source at its place, all of it, and no other.
proof fn lemma_cover_identity(x: nat, s: nat)
    requires
        s >= 1,
    ensures
        cover_start(x, s, s) == x,
        cover_end(x, s, s) == x + 1,
        cover(x, x, s, s) == s,
{
    assert((x + 1) * s == x * s + s) by (nonlinear_arith);
    vstd::arithmetic::div_mod::lemma_fundamental_div_mod_converse(
        (x * s) as int,
        s as int,
        x as int,
        0,
    );
    vstd::arithmetic::div_mod::lemma_fundamental_div_mod_converse(
        ((x + 1) * s + s - 1) as int,
        s as int,
        (x + 1) as int,
        (s - 1) as int,
    );
}

/// A value taken `of` times, divided by `of`, is the value.
proof fn lemma_rounded_exact(v: nat, of: nat)
    requires
        of >= 1,
    ensures
        rounded(of * v, of) == v,
{
    assert(2 * (of * v) + of == v * (2 * of) + of) by (nonlinear_arith);
    vstd::arithmetic::div_mod::lemma_fundamental_div_mod_converse(
        (2 * (of * v) + of) as int,
        (2 * of) as int,
        v as int,
        of as int,
    );
}

} // verus!
