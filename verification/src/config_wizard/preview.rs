//! Small previews of captured pictures.
use crate::analyzer_consumer::PixelFormat;
use crate::debug_recorder::pixel_size;
use crate::number::{
    lemma_significant, lemma_significant_at_least, lemma_significant_exact,
    lemma_significant_not_less, significant, to_significant,
};
use crate::target_discovery::PreviewFrame;
use vstd::arithmetic::div_mod::lemma_fundamental_div_mod_converse;
use vstd::arithmetic::power2::{lemma2_to64, lemma2_to64_rest, lemma_pow2_adds, pow2};
use vstd::prelude::*;

verus! {

/// Two to the power of 85: shares are counted in parts of it, which are finer than what double
/// precision can tell apart.
pub const WHOLE: u128 = 0x20_0000_0000_0000_0000_0000;

pub open spec fn at_least_one(n: int) -> int {
    if n < 1 {
        1
    } else {
        n
    }
}

/// The share of `src` that fits into `cap`, in double precision, but not more than the whole.
pub open spec fn share_of(cap: int, src: int) -> int {
    let share = significant((cap * WHOLE) as nat, src as nat, 53) as int;
    if src == 0 || share > WHOLE {
        WHOLE as int
    } else {
        share
    }
}

/// That share of `src`: the product in double precision, to the nearest whole number, but at least
/// one.
pub open spec fn shrunk(src: int, share: int) -> int {
    at_least_one((significant((src * share) as nat, 1, 53) + WHOLE / 2) / WHOLE as int)
}

/// The largest size with the proportions of the source that fits into the cap, but not more than
/// the source.
pub open spec fn fitted_size(src_w: int, src_h: int, cap_w: int, cap_h: int) -> (int, int) {
    let across = share_of(cap_w, src_w);
    let down = share_of(cap_h, src_h);
    let share = if down < across {
        down
    } else {
        across
    };
    (shrunk(src_w, share), shrunk(src_h, share))
}

fn find_share(cap: u32, src: u32) -> (share: u128)
    ensures
        share == share_of(cap as int, src as int),
        share <= WHOLE,
{
    if src == 0 {
        return WHOLE;
    }
    let share: u128 = to_significant(cap as u128 * WHOLE, src as u128, 53);
    if share > WHOLE {
        WHOLE
    } else {
        share
    }
}

fn shrink(src: u32, share: u128) -> (n: u32)
    requires
        share <= WHOLE,
    ensures
        n == shrunk(src as int, share as int),
{
    proof {
        assert(0 <= src * share && src * share <= src * WHOLE && src * WHOLE <= 0xffff_ffff * WHOLE)
            by (nonlinear_arith)
            requires
                0 <= src <= 0xffff_ffff,
                0 <= share <= WHOLE,
        ;
    }
    let product: u128 = to_significant(src as u128 * share, 1, 53);
    proof {
        lemma_shrunk_below(src as int, share as int, src as int);
        lemma_product_small(src as int, share as int, src as int);
    }
    let n: u128 = (product + WHOLE / 2) / WHOLE;
    if n < 1 {
        1
    } else {
        n as u32
    }
}

/// A product that exceeds `limit` by no more than double precision can tell is rounded to no more
/// than that.
proof fn lemma_product_small(src: int, share: int, limit: int)
    requires
        0 <= src <= 0xffff_ffff,
        0 <= share,
        0 <= limit <= 0xffff_ffff,
        src * share * 0x20_0000_0000_0000 <= limit * WHOLE * 0x20_0000_0000_0001,
    ensures
        0 <= src * share,
        2 * significant((src * share) as nat, 1, 53) < 2 * (limit * WHOLE) + WHOLE,
{
    let t: int = 0x20_0000_0000_0000;
    let p = src * share;
    let c = limit * WHOLE;
    assert(0 <= p) by (nonlinear_arith)
        requires
            0 <= src,
            0 <= share,
            p == src * share,
    ;
    lemma2_to64_rest();
    lemma_significant(p as nat, 1, 53);
    let r = significant(p as nat, 1, 53) as int;
    assert(r * t <= p * t + p);
    assert(p * t <= c * t + c) by (nonlinear_arith)
        requires
            src * share * 0x20_0000_0000_0000 <= limit * WHOLE * 0x20_0000_0000_0001,
            p == src * share,
            c == limit * WHOLE,
            t == 0x20_0000_0000_0000,
    ;
    // All in parts of the whole, so that only whole numbers are compared.
    assert(r * t <= c * t + c + p);
    assert(0 <= c <= 0xffff_ffff * WHOLE) by (nonlinear_arith)
        requires
            0 <= limit <= 0xffff_ffff,
            c == limit * WHOLE,
    ;
    assert(p <= 2 * c) by (nonlinear_arith)
        requires
            p * t <= c * t + c,
            0 <= c,
            t == 0x20_0000_0000_0000,
    ;
    assert(r * t <= c * t + 3 * c);
    assert(6 * c < WHOLE * t) by (nonlinear_arith)
        requires
            0 <= c <= 0xffff_ffff * WHOLE,
            t == 0x20_0000_0000_0000,
            WHOLE == 0x20_0000_0000_0000_0000_0000,
    ;
    assert(2 * r < 2 * c + WHOLE) by (nonlinear_arith)
        requires
            r * t <= c * t + 3 * c,
            6 * c < WHOLE * t,
            t > 0,
    ;
}

proof fn lemma_shrunk_below(src: int, share: int, limit: int)
    requires
        0 <= src <= 0xffff_ffff,
        0 <= share,
        0 <= limit <= 0xffff_ffff,
        share <= WHOLE && src == limit || src * share * 0x20_0000_0000_0000 <= limit * WHOLE
            * 0x20_0000_0000_0001,
    ensures
        1 <= shrunk(src, share) <= at_least_one(limit),
        src * share * 0x20_0000_0000_0000 <= limit * WHOLE * 0x20_0000_0000_0001,
{
    if share <= WHOLE && src == limit {
        assert(src * share * 0x20_0000_0000_0000 <= limit * WHOLE * 0x20_0000_0000_0001)
            by (nonlinear_arith)
            requires
                0 <= share <= WHOLE,
                0 <= src,
                src == limit,
        ;
    }
    lemma_product_small(src, share, limit);
    let r = significant((src * share) as nat, 1, 53) as int;
    assert((r + WHOLE / 2) / WHOLE as int <= limit) by (nonlinear_arith)
        requires
            0 <= r,
            2 * r < 2 * (limit * WHOLE) + WHOLE,
            WHOLE == 0x20_0000_0000_0000_0000_0000,
    ;
}

/// The share of a length that fits into the cap exceeds the cap by no more than double precision
/// can tell.
proof fn lemma_share(cap: int, src: int)
    requires
        1 <= cap <= 0xffff_ffff,
        1 <= src <= 0xffff_ffff,
    ensures
        0 <= share_of(cap, src) <= WHOLE,
        src * share_of(cap, src) * 0x20_0000_0000_0000 <= cap * WHOLE * 0x20_0000_0000_0001,
        src <= cap ==> share_of(cap, src) == WHOLE,
        src > cap ==> share_of(cap, src) < WHOLE,
        share_of(cap, src) < WHOLE ==> cap * WHOLE * 0x1f_ffff_ffff_ffff <= src * share_of(cap, src)
            * 0x20_0000_0000_0000,
{
    let n = (cap * WHOLE) as nat;
    let d = src as nat;
    lemma2_to64();
    lemma2_to64_rest();
    assert(WHOLE <= n && n <= 0xffff_ffff * WHOLE) by (nonlinear_arith)
        requires
            n == cap * WHOLE,
            1 <= cap <= 0xffff_ffff,
    ;
    assert(n / d >= 0x10_0000_0000_0000) by (nonlinear_arith)
        requires
            n >= WHOLE,
            WHOLE == 0x20_0000_0000_0000_0000_0000,
            1 <= d <= 0xffff_ffff,
    ;
    lemma_significant(n, d, 53);
    let exact = significant(n, d, 53) as int;
    assert(exact * src * 0x20_0000_0000_0000 <= cap * WHOLE * 0x20_0000_0000_0001)
        by (nonlinear_arith)
        requires
            exact * src * 0x20_0000_0000_0000 <= n * 0x20_0000_0000_0000 + n,
            n == cap * WHOLE,
    ;
    let share = share_of(cap, src);
    lemma_significant_not_less(n, d, 53);
    if share < WHOLE {
        assert(cap * WHOLE * 0x1f_ffff_ffff_ffff <= src * share * 0x20_0000_0000_0000)
            by (nonlinear_arith)
            requires
                n * 0x20_0000_0000_0000 <= exact * src * 0x20_0000_0000_0000 + n,
                n == cap * WHOLE,
                share == exact,
        ;
    }
    assert(src * share * 0x20_0000_0000_0000 <= exact * src * 0x20_0000_0000_0000)
        by (nonlinear_arith)
        requires
            0 <= share <= exact,
            1 <= src,
    ;
    if src > cap && share == WHOLE {
        assert(false) by (nonlinear_arith)
            requires
                src * WHOLE * 0x20_0000_0000_0000 <= cap * WHOLE * 0x20_0000_0000_0001,
                src >= cap + 1,
                1 <= cap <= 0xffff_ffff,
                WHOLE == 0x20_0000_0000_0000_0000_0000,
        ;
    }
    if src <= cap {
        lemma_pow2_adds(64, 21);
        assert(pow2(85) == WHOLE) by (nonlinear_arith)
            requires
                pow2(85) == pow2(64) * pow2(21),
                pow2(64) == 0x1_0000_0000_0000_0000,
                pow2(21) == 0x20_0000,
                WHOLE == 0x20_0000_0000_0000_0000_0000,
        ;
        assert(d * pow2(85) <= n) by (nonlinear_arith)
            requires
                pow2(85) == WHOLE,
                n == cap * WHOLE,
                d <= cap,
        ;
        lemma_pow2_adds(85, 53);
        assert(n / d < pow2(138)) by (nonlinear_arith)
            requires
                pow2(138) == pow2(85) * pow2(53),
                pow2(85) == WHOLE,
                pow2(53) == 0x20_0000_0000_0000,
                n <= 0xffff_ffff * WHOLE,
                1 <= d,
                WHOLE == 0x20_0000_0000_0000_0000_0000,
        ;
        lemma_significant_at_least(n, d, 85, 53);
    }
}

/// The size of a preview: at most the cap, in the proportions of the source, and never larger than
/// the source.
pub fn preview_target_size(src_w: u32, src_h: u32, cap_w: u32, cap_h: u32) -> (size: (u32, u32))
    ensures
        (size.0 as int, size.1 as int) == fitted_size(
            src_w as int,
            src_h as int,
            at_least_one(cap_w as int),
            at_least_one(cap_h as int),
        ),
{
    let cap_w: u32 = if cap_w < 1 {
        1
    } else {
        cap_w
    };
    let cap_h: u32 = if cap_h < 1 {
        1
    } else {
        cap_h
    };
    let across: u128 = find_share(cap_w, src_w);
    let down: u128 = find_share(cap_h, src_h);
    let share: u128 = if down < across {
        down
    } else {
        across
    };
    (shrink(src_w, share), shrink(src_h, share))
}

/// A length of which the share falls short of `limit` by no more than double precision can tell
/// becomes no less than that.
proof fn lemma_shrunk_not_below(src: int, share: int, limit: int)
    requires
        0 <= src <= 0xffff_ffff,
        0 <= share,
        1 <= limit <= 0xffff_ffff,
        limit * WHOLE * 0x1f_ffff_ffff_ffff <= src * share * 0x20_0000_0000_0000,
    ensures
        limit <= shrunk(src, share),
{
    let t: int = 0x20_0000_0000_0000;
    let p = src * share;
    let c = limit * WHOLE;
    assert(0 <= p) by (nonlinear_arith)
        requires
            0 <= src,
            0 <= share,
            p == src * share,
    ;
    lemma2_to64_rest();
    lemma_significant_not_less(p as nat, 1, 53);
    let r = significant(p as nat, 1, 53) as int;
    assert(p * t <= r * t + p);
    assert(c * t <= p * t + c) by (nonlinear_arith)
        requires
            limit * WHOLE * 0x1f_ffff_ffff_ffff <= src * share * 0x20_0000_0000_0000,
            p == src * share,
            c == limit * WHOLE,
            t == 0x20_0000_0000_0000,
    ;
    assert(0 < c <= 0xffff_ffff * WHOLE) by (nonlinear_arith)
        requires
            1 <= limit <= 0xffff_ffff,
            c == limit * WHOLE,
            WHOLE == 0x20_0000_0000_0000_0000_0000,
    ;
    assert(c * t <= r * t + p + c);
    assert(2 * c < 2 * r + WHOLE) by {
        if r < c {
            assert(p <= 2 * c) by (nonlinear_arith)
                requires
                    p * t <= r * t + p,
                    r < c,
                    0 < c,
                    t == 0x20_0000_0000_0000,
            ;
            assert(6 * c < WHOLE * t) by (nonlinear_arith)
                requires
                    0 < c <= 0xffff_ffff * WHOLE,
                    t == 0x20_0000_0000_0000,
                    WHOLE == 0x20_0000_0000_0000_0000_0000,
            ;
            assert(2 * c < 2 * r + WHOLE) by (nonlinear_arith)
                requires
                    c * t <= r * t + 3 * c,
                    6 * c < WHOLE * t,
                    t > 0,
            ;
        }
    }
    assert(limit <= (r + WHOLE / 2) / WHOLE as int) by (nonlinear_arith)
        requires
            2 * (limit * WHOLE) < 2 * r + WHOLE,
            WHOLE == 0x20_0000_0000_0000_0000_0000,
    ;
}

/// A preview that is smaller than the picture meets the cap on one side.
pub proof fn law_shrunk_previews_meet_the_cap(src_w: int, src_h: int, cap_w: int, cap_h: int)
    requires
        1 <= src_w <= u32::MAX,
        1 <= src_h <= u32::MAX,
        1 <= cap_w <= u32::MAX,
        1 <= cap_h <= u32::MAX,
        src_w > cap_w || src_h > cap_h,
    ensures
        ({
            let (w, h) = fitted_size(src_w, src_h, cap_w, cap_h);
            w == cap_w || h == cap_h
        }),
{
    let across = share_of(cap_w, src_w);
    let down = share_of(cap_h, src_h);
    lemma_share(cap_w, src_w);
    lemma_share(cap_h, src_h);
    law_previews_fit_and_never_grow(src_w, src_h, cap_w, cap_h);
    if down < across {
        lemma_shrunk_not_below(src_h, down, cap_h);
    } else {
        lemma_shrunk_not_below(src_w, across, cap_w);
    }
}

/// A preview fits into the cap and is never larger than the picture; one that fits has the size of
/// the picture.
pub proof fn law_previews_fit_and_never_grow(src_w: int, src_h: int, cap_w: int, cap_h: int)
    requires
        1 <= src_w <= u32::MAX,
        1 <= src_h <= u32::MAX,
        1 <= cap_w <= u32::MAX,
        1 <= cap_h <= u32::MAX,
    ensures
        ({
            let (w, h) = fitted_size(src_w, src_h, cap_w, cap_h);
            &&& 1 <= w <= cap_w && 1 <= h <= cap_h && w <= src_w && h <= src_h
            &&& src_w <= cap_w && src_h <= cap_h ==> w == src_w && h == src_h
        }),
{
    let across = share_of(cap_w, src_w);
    let down = share_of(cap_h, src_h);
    let share = if down < across {
        down
    } else {
        across
    };
    lemma_share(cap_w, src_w);
    lemma_share(cap_h, src_h);
    assert(src_w * share * 0x20_0000_0000_0000 <= src_w * across * 0x20_0000_0000_0000)
        by (nonlinear_arith)
        requires
            share <= across,
            1 <= src_w,
    ;
    assert(src_h * share * 0x20_0000_0000_0000 <= src_h * down * 0x20_0000_0000_0000)
        by (nonlinear_arith)
        requires
            share <= down,
            1 <= src_h,
    ;
    lemma_shrunk_below(src_w, share, cap_w);
    lemma_shrunk_below(src_h, share, cap_h);
    lemma_shrunk_below(src_w, share, src_w);
    lemma_shrunk_below(src_h, share, src_h);
    if src_w <= cap_w && src_h <= cap_h {
        lemma_whole_share(src_w);
        lemma_whole_share(src_h);
    }
}

proof fn lemma_whole_share(src: int)
    requires
        1 <= src <= u32::MAX,
    ensures
        shrunk(src, WHOLE as int) == src,
{
    lemma2_to64();
    lemma2_to64_rest();
    lemma_pow2_adds(64, 21);
    assert(pow2(85) == WHOLE) by (nonlinear_arith)
        requires
            pow2(85) == pow2(64) * pow2(21),
            pow2(64) == 0x1_0000_0000_0000_0000,
            pow2(21) == 0x20_0000,
            WHOLE == 0x20_0000_0000_0000_0000_0000,
    ;
    lemma_significant_exact(src as nat, 85, 53);
    assert((src * WHOLE + WHOLE / 2) / WHOLE as int == src) by (nonlinear_arith)
        requires
            WHOLE == 0x20_0000_0000_0000_0000_0000,
            0 <= src,
    ;
}

/// Where red, green and blue (0, 1 and 2) lie within a pixel.
pub open spec fn channel_offset(format: PixelFormat, channel: int) -> int {
    match format {
        PixelFormat::Rgba => channel,
        PixelFormat::Bgr => 2 - channel,
        PixelFormat::Bgra => 2 - channel,
    }
}

/// The bytes of a row.
pub open spec fn stride(frame: PreviewFrame) -> int {
    frame.width * pixel_size(frame.format)
}

/// A colour of the pixel in column `x` of row `y`, counted from the top. The rows are stored from
/// the bottom.
pub open spec fn shown(frame: PreviewFrame, x: int, y: int, channel: int) -> int {
    frame.data@[(frame.height - 1 - y) * stride(frame) + x * pixel_size(frame.format)
        + channel_offset(frame.format, channel)] as int
}

/// The sum of a colour over a part of a row.
pub open spec fn row_sum(frame: PreviewFrame, y: int, x0: int, x1: int, channel: int) -> int
    decreases x1 - x0,
{
    if x1 <= x0 {
        0
    } else {
        row_sum(frame, y, x0, x1 - 1, channel) + shown(frame, x1 - 1, y, channel)
    }
}

/// The sum of a colour over a block.
pub open spec fn block_sum(
    frame: PreviewFrame,
    y0: int,
    y1: int,
    x0: int,
    x1: int,
    channel: int,
) -> int
    decreases y1 - y0,
{
    if y1 <= y0 {
        0
    } else {
        block_sum(frame, y0, y1 - 1, x0, x1, channel) + row_sum(frame, y1 - 1, x0, x1, channel)
    }
}

/// The first source line that belongs to line `t` of the preview.
pub open spec fn first_line(t: int, src: int, target: int) -> int {
    t * src / target
}

/// The line behind the last that belongs to line `t` of the preview: there is always one line.
pub open spec fn line_behind(t: int, src: int, target: int) -> int {
    let behind = (t + 1) * src / target;
    let first = first_line(t, src, target);
    let end = if behind < first + 1 {
        first + 1
    } else {
        behind
    };
    if end > src {
        src
    } else {
        end
    }
}

/// A colour of a pixel of the preview: the average over the block that belongs to it.
pub open spec fn average(
    frame: PreviewFrame,
    tx: int,
    ty: int,
    target_w: int,
    target_h: int,
    channel: int,
) -> int {
    let y0 = first_line(ty, frame.height as int, target_h);
    let y1 = line_behind(ty, frame.height as int, target_h);
    let x0 = first_line(tx, frame.width as int, target_w);
    let x1 = line_behind(tx, frame.width as int, target_w);
    block_sum(frame, y0, y1, x0, x1, channel) / ((y1 - y0) * (x1 - x0))
}

/// A byte of the preview: red, green, blue, and that the pixel is opaque.
pub open spec fn preview_byte(frame: PreviewFrame, target_w: int, target_h: int, i: int) -> u8 {
    if i % 4 == 3 {
        255
    } else {
        average(frame, (i / 4) % target_w, (i / 4) / target_w, target_w, target_h, i % 4) as u8
    }
}

/// The preview, from the top.
pub open spec fn preview_bytes(frame: PreviewFrame, target_w: int, target_h: int) -> Seq<u8> {
    Seq::new((target_w * target_h * 4) as nat, |i: int| preview_byte(frame, target_w, target_h, i))
}

/// A preview of this size can be made: there are pixels on both sides, and the data is complete.
pub open spec fn can_scale(frame: PreviewFrame, target_w: int, target_h: int) -> bool {
    frame.width > 0 && frame.height > 0 && target_w > 0 && target_h > 0 && stride(frame)
        * frame.height <= frame.data@.len()
}

proof fn lemma_lines(t: int, src: int, target: int)
    requires
        0 <= t < target,
        1 <= src,
    ensures
        0 <= first_line(t, src, target) < src,
        first_line(t, src, target) < line_behind(t, src, target) <= src,
        0 <= (t + 1) * src <= target * src,
        0 <= t * src,
        0 <= (t + 1) * src / target <= src,
{
    assert(0 <= t * src / target && t * src / target < src) by (nonlinear_arith)
        requires
            0 <= t < target,
            1 <= src,
    ;
    assert(0 <= (t + 1) * src && (t + 1) * src <= target * src && 0 <= t * src) by (nonlinear_arith)
        requires
            0 <= t < target,
            1 <= src,
    ;
    assert(0 <= (t + 1) * src / target && (t + 1) * src / target <= src) by (nonlinear_arith)
        requires
            0 <= t < target,
            1 <= src,
    ;
}

/// The place of a pixel's bytes lies within the data.
proof fn lemma_place(x: int, y: int, width: int, height: int, size: int)
    requires
        0 <= x < width,
        0 <= y < height,
        1 <= size,
    ensures
        0 <= (height - 1 - y) * (width * size),
        0 <= x * size,
        (height - 1 - y) * (width * size) + x * size + size <= (width * size) * height,
{
    assert(0 <= x * size && x * size + size <= width * size) by (nonlinear_arith)
        requires
            0 <= x < width,
            1 <= size,
    ;
    let row = width * size;
    assert(0 <= (height - 1 - y) * row && (height - 1 - y) * row + row <= row * height)
        by (nonlinear_arith)
        requires
            0 <= y < height,
            0 <= row,
    ;
}

proof fn lemma_row_bound(frame: PreviewFrame, y: int, x0: int, x1: int, channel: int)
    requires
        x0 <= x1,
    ensures
        0 <= row_sum(frame, y, x0, x1, channel) <= 255 * (x1 - x0),
    decreases x1 - x0,
{
    if x0 < x1 {
        lemma_row_bound(frame, y, x0, x1 - 1, channel);
    }
}

proof fn lemma_block_bound(frame: PreviewFrame, y0: int, y1: int, x0: int, x1: int, channel: int)
    requires
        x0 <= x1,
        y0 <= y1,
    ensures
        0 <= block_sum(frame, y0, y1, x0, x1, channel) <= 255 * ((y1 - y0) * (x1 - x0)),
    decreases y1 - y0,
{
    if y0 < y1 {
        lemma_block_bound(frame, y0, y1 - 1, x0, x1, channel);
        lemma_row_bound(frame, y1 - 1, x0, x1, channel);
        assert((y1 - y0) * (x1 - x0) == (y1 - 1 - y0) * (x1 - x0) + (x1 - x0)) by (nonlinear_arith);
    } else {
        assert((y1 - y0) * (x1 - x0) == 0) by (nonlinear_arith)
            requires
                y1 == y0,
        ;
    }
}

/// The averages of the three colours over a block.
fn average_block(frame: &PreviewFrame, y0: usize, y1: usize, x0: usize, x1: usize) -> (rgb: (
    u8,
    u8,
    u8,
))
    requires
        y0 < y1 <= frame.height,
        x0 < x1 <= frame.width,
        stride(*frame) * frame.height <= frame.data@.len(),
    ensures
        rgb.0 as int == block_sum(*frame, y0 as int, y1 as int, x0 as int, x1 as int, 0) / ((y1
            - y0) * (x1 - x0)),
        rgb.1 as int == block_sum(*frame, y0 as int, y1 as int, x0 as int, x1 as int, 1) / ((y1
            - y0) * (x1 - x0)),
        rgb.2 as int == block_sum(*frame, y0 as int, y1 as int, x0 as int, x1 as int, 2) / ((y1
            - y0) * (x1 - x0)),
{
    let size: usize = match frame.format {
        PixelFormat::Rgba => 4,
        PixelFormat::Bgr => 3,
        PixelFormat::Bgra => 4,
    };
    let width: usize = frame.width as usize;
    let height: usize = frame.height as usize;
    let total: usize = frame.data.len();
    proof {
        lemma_place(0, 0, width as int, height as int, size as int);
        assert(width * size <= (width * size) * height) by (nonlinear_arith)
            requires
                height >= 1,
                width >= 0,
                size >= 0,
        ;
    }
    let row: usize = width * size;
    let mut red: u128 = 0;
    let mut green: u128 = 0;
    let mut blue: u128 = 0;
    let mut y: usize = y0;
    while y < y1
        invariant
            y0 <= y <= y1 <= height,
            x0 < x1 <= width,
            width == frame.width,
            height == frame.height,
            size == pixel_size(frame.format),
            3 <= size <= 4,
            row == width * size,
            row == stride(*frame),
            stride(*frame) * frame.height <= frame.data@.len() == total,
            red == block_sum(*frame, y0 as int, y as int, x0 as int, x1 as int, 0),
            green == block_sum(*frame, y0 as int, y as int, x0 as int, x1 as int, 1),
            blue == block_sum(*frame, y0 as int, y as int, x0 as int, x1 as int, 2),
            red <= 255 * ((y - y0) * (x1 - x0)),
            green <= 255 * ((y - y0) * (x1 - x0)),
            blue <= 255 * ((y - y0) * (x1 - x0)),
        decreases y1 - y,
    {
        proof {
            lemma_place(0, y as int, width as int, height as int, size as int);
            assert((y - y0) * (x1 - x0) <= 0xffff_ffff * 0xffff_ffff) by (nonlinear_arith)
                requires
                    0 <= y - y0 <= 0xffff_ffff,
                    0 <= x1 - x0 <= 0xffff_ffff,
            ;
        }
        let start: usize = (height - 1 - y) * row;
        let ghost red_before = red;
        let ghost green_before = green;
        let ghost blue_before = blue;
        let mut x: usize = x0;
        while x < x1
            invariant
                x0 <= x <= x1 <= width,
                y < y1 <= height,
                width == frame.width,
                height == frame.height,
                size == pixel_size(frame.format),
                3 <= size <= 4,
                row == width * size,
                row == stride(*frame),
                start == (height - 1 - y) * row,
                stride(*frame) * frame.height <= frame.data@.len() == total,
                red_before <= 255 * (0xffff_ffff * 0xffff_ffff),
                green_before <= 255 * (0xffff_ffff * 0xffff_ffff),
                blue_before <= 255 * (0xffff_ffff * 0xffff_ffff),
                red == red_before + row_sum(*frame, y as int, x0 as int, x as int, 0),
                green == green_before + row_sum(*frame, y as int, x0 as int, x as int, 1),
                blue == blue_before + row_sum(*frame, y as int, x0 as int, x as int, 2),
            decreases x1 - x,
        {
            proof {
                lemma_place(x as int, y as int, width as int, height as int, size as int);
                lemma_row_bound(*frame, y as int, x0 as int, x as int, 0);
                lemma_row_bound(*frame, y as int, x0 as int, x as int, 1);
                lemma_row_bound(*frame, y as int, x0 as int, x as int, 2);
            }
            let place: usize = start + x * size;
            let first: u128 = frame.data[place] as u128;
            let second: u128 = frame.data[place + 1] as u128;
            let third: u128 = frame.data[place + 2] as u128;
            match frame.format {
                PixelFormat::Rgba => {
                    red = red + first;
                    green = green + second;
                    blue = blue + third;
                },
                _ => {
                    blue = blue + first;
                    green = green + second;
                    red = red + third;
                },
            }
            x += 1;
        }
        proof {
            lemma_row_bound(*frame, y as int, x0 as int, x1 as int, 0);
            lemma_row_bound(*frame, y as int, x0 as int, x1 as int, 1);
            lemma_row_bound(*frame, y as int, x0 as int, x1 as int, 2);
            lemma_block_bound(*frame, y0 as int, y as int + 1, x0 as int, x1 as int, 0);
            lemma_block_bound(*frame, y0 as int, y as int + 1, x0 as int, x1 as int, 1);
            lemma_block_bound(*frame, y0 as int, y as int + 1, x0 as int, x1 as int, 2);
        }
        y += 1;
    }
    let ghost lines = (y1 - y0) as int;
    let ghost columns = (x1 - x0) as int;
    proof {
        assert(1 <= lines * columns <= 0xffff_ffff * 0xffff_ffff) by (nonlinear_arith)
            requires
                1 <= lines <= 0xffff_ffff,
                1 <= columns <= 0xffff_ffff,
        ;
        lemma_average_fits(red as int, lines * columns);
        lemma_average_fits(green as int, lines * columns);
        lemma_average_fits(blue as int, lines * columns);
    }
    let count: u128 = (y1 - y0) as u128 * (x1 - x0) as u128;
    ((red / count) as u8, (green / count) as u8, (blue / count) as u8)
}

proof fn lemma_average_fits(sum: int, count: int)
    requires
        1 <= count,
        0 <= sum <= 255 * count,
    ensures
        0 <= sum / count <= 255,
{
    assert(0 <= sum / count && sum / count <= 255) by (nonlinear_arith)
        requires
            1 <= count,
            0 <= sum <= 255 * count,
    ;
}

fn line_start(t: usize, src: u32, target: u32) -> (line: usize)
    requires
        t < target,
        1 <= src,
    ensures
        line == first_line(t as int, src as int, target as int),
{
    proof {
        lemma_lines(t as int, src as int, target as int);
        assert(t * src <= 0xffff_ffff * 0xffff_ffff) by (nonlinear_arith)
            requires
                0 <= t <= 0xffff_ffff,
                0 <= src <= 0xffff_ffff,
        ;
    }
    (t as u64 * src as u64 / target as u64) as usize
}

fn line_end(t: usize, src: u32, target: u32) -> (line: usize)
    requires
        t < target,
        1 <= src,
    ensures
        line == line_behind(t as int, src as int, target as int),
{
    let first: usize = line_start(t, src, target);
    proof {
        lemma_lines(t as int, src as int, target as int);
        assert((t + 1) * src <= 0xffff_ffff * 0xffff_ffff) by (nonlinear_arith)
            requires
                0 <= t + 1 <= 0xffff_ffff,
                0 <= src <= 0xffff_ffff,
        ;
    }
    let behind: usize = ((t as u64 + 1) * src as u64 / target as u64) as usize;
    let end: usize = if behind < first + 1 {
        first + 1
    } else {
        behind
    };
    if end > src as usize {
        src as usize
    } else {
        end
    }
}

/// A preview of the given size, from the top: each pixel is the average of the block that belongs
/// to it.
pub fn preview_rgba_scaled(frame: &PreviewFrame, target_w: u32, target_h: u32) -> (bytes: Option<
    Vec<u8>,
>)
    ensures
        match bytes {
            Some(bytes) => can_scale(*frame, target_w as int, target_h as int) && bytes@
                == preview_bytes(*frame, target_w as int, target_h as int),
            None => !can_scale(*frame, target_w as int, target_h as int),
        },
{
    if frame.width == 0 || frame.height == 0 || target_w == 0 || target_h == 0 {
        return None;
    }
    let size: u128 = match frame.format {
        PixelFormat::Rgba => 4,
        PixelFormat::Bgr => 3,
        PixelFormat::Bgra => 4,
    };
    proof {
        assert(0 <= frame.width * size <= 0xffff_ffff * 4) by (nonlinear_arith)
            requires
                0 <= frame.width <= 0xffff_ffff,
                0 <= size <= 4,
        ;
        assert(0 <= (frame.width * size) * frame.height <= (0xffff_ffff * 4) * 0xffff_ffff)
            by (nonlinear_arith)
            requires
                0 <= frame.width * size <= 0xffff_ffff * 4,
                0 <= frame.height <= 0xffff_ffff,
        ;
    }
    if (frame.data.len() as u128) < frame.width as u128 * size * frame.height as u128 {
        return None;
    }
    let ghost w = target_w as int;
    let ghost h = target_h as int;
    let ghost want = preview_bytes(*frame, w, h);
    let columns: usize = target_w as usize;
    let rows: usize = target_h as usize;
    let mut output: Vec<u8> = Vec::new();
    let mut ty: usize = 0;
    proof {
        assert(0 <= w * h) by (nonlinear_arith)
            requires
                0 <= w,
                0 <= h,
        ;
        assert(0 * w == 0);
        assert(want.take(0) =~= Seq::<u8>::empty());
    }
    while ty < rows
        invariant
            ty <= rows,
            rows == target_h == h,
            columns == target_w == w,
            w > 0,
            can_scale(*frame, w, h),
            want == preview_bytes(*frame, w, h),
            want.len() == w * h * 4,
            0 <= ty * w <= w * h,
            output@ == want.take(ty * w * 4),
        decreases rows - ty,
    {
        proof {
            lemma_lines(ty as int, frame.height as int, h);
            assert((ty + 1) * w == ty * w + w) by (nonlinear_arith);
            assert((ty + 1) * w <= w * h) by (nonlinear_arith)
                requires
                    ty + 1 <= h,
                    0 <= w,
            ;
        }
        let y0: usize = line_start(ty, frame.height, target_h);
        let y1: usize = line_end(ty, frame.height, target_h);
        let mut tx: usize = 0;
        while tx < columns
            invariant
                tx <= columns,
                ty < rows,
                rows == target_h == h,
                columns == target_w == w,
                w > 0,
                can_scale(*frame, w, h),
                want == preview_bytes(*frame, w, h),
                want.len() == w * h * 4,
                0 <= ty * w,
                ty * w + w <= w * h,
                y0 == first_line(ty as int, frame.height as int, h),
                y1 == line_behind(ty as int, frame.height as int, h),
                y0 < y1 <= frame.height,
                output@ == want.take((ty * w + tx) * 4),
            decreases columns - tx,
        {
            proof {
                lemma_lines(tx as int, frame.width as int, w);
            }
            let x0: usize = line_start(tx, frame.width, target_w);
            let x1: usize = line_end(tx, frame.width, target_w);
            let (red, green, blue) = average_block(frame, y0, y1, x0, x1);
            let ghost place = (ty * w + tx) * 4;
            proof {
                lemma_fundamental_div_mod_converse(ty * w + tx, w, ty as int, tx as int);
                lemma_fundamental_div_mod_converse(place, 4, ty * w + tx, 0);
                lemma_fundamental_div_mod_converse(place + 1, 4, ty * w + tx, 1);
                lemma_fundamental_div_mod_converse(place + 2, 4, ty * w + tx, 2);
                lemma_fundamental_div_mod_converse(place + 3, 4, ty * w + tx, 3);
                assert(want[place] == red);
                assert(want[place + 1] == green);
                assert(want[place + 2] == blue);
                assert(want[place + 3] == 255);
            }
            output.push(red);
            output.push(green);
            output.push(blue);
            output.push(255);
            assert(output@ =~= want.take(place + 4));
            tx += 1;
        }
        ty += 1;
    }
    proof {
        assert(h * w == w * h) by (nonlinear_arith);
        assert(want.take(w * h * 4) =~= want);
    }
    Some(output)
}

/// The preview of a frame under a cap, with its size, where there is one.
pub open spec fn is_preview(
    frame: PreviewFrame,
    cap: (u32, u32),
    image: Option<(u32, u32, Vec<u8>)>,
) -> bool {
    let (w, h) = fitted_size(
        frame.width as int,
        frame.height as int,
        at_least_one(cap.0 as int),
        at_least_one(cap.1 as int),
    );
    match image {
        Some((width, height, bytes)) => width == w && height == h && can_scale(frame, w, h)
            && bytes@ == preview_bytes(frame, w, h),
        None => frame.width == 0 || frame.height == 0 || !can_scale(frame, w, h),
    }
}

/// A preview with its size, as large as the cap allows.
pub fn preview_image(frame: &PreviewFrame, cap_w: u32, cap_h: u32) -> (image: Option<
    (u32, u32, Vec<u8>),
>)
    ensures
        is_preview(*frame, (cap_w, cap_h), image),
{
    if frame.width == 0 || frame.height == 0 {
        return None;
    }
    let (width, height) = preview_target_size(frame.width, frame.height, cap_w, cap_h);
    match preview_rgba_scaled(frame, width, height) {
        Some(bytes) => Some((width, height, bytes)),
        None => None,
    }
}

/// A preview of the size of the picture shows each pixel as it is.
pub proof fn law_full_size_preview_copies_pixels(frame: PreviewFrame, x: int, y: int, channel: int)
    requires
        0 <= x < frame.width,
        0 <= y < frame.height,
        0 <= channel < 3,
    ensures
        average(frame, x, y, frame.width as int, frame.height as int, channel) == shown(
            frame,
            x,
            y,
            channel,
        ),
{
    lemma_own_line(x, frame.width as int);
    lemma_own_line(y, frame.height as int);
    assert(row_sum(frame, y, x, x, channel) == 0);
    assert(row_sum(frame, y, x, x + 1, channel) == shown(frame, x, y, channel));
    assert(block_sum(frame, y, y, x, x + 1, channel) == 0);
    assert(block_sum(frame, y, y + 1, x, x + 1, channel) == shown(frame, x, y, channel));
    assert((y + 1 - y) * (x + 1 - x) == 1) by (nonlinear_arith);
}

proof fn lemma_own_line(t: int, n: int)
    requires
        0 <= t < n,
    ensures
        first_line(t, n, n) == t,
        line_behind(t, n, n) == t + 1,
{
    lemma_fundamental_div_mod_converse(t * n, n, t, 0);
    lemma_fundamental_div_mod_converse((t + 1) * n, n, t + 1, 0);
}

/// The averages of a preview stay within the range of a byte.
pub proof fn law_preview_colours_are_bytes(
    frame: PreviewFrame,
    tx: int,
    ty: int,
    target_w: int,
    target_h: int,
    channel: int,
)
    requires
        0 <= tx < target_w,
        0 <= ty < target_h,
        frame.width > 0,
        frame.height > 0,
    ensures
        0 <= average(frame, tx, ty, target_w, target_h, channel) <= 255,
{
    lemma_lines(tx, frame.width as int, target_w);
    lemma_lines(ty, frame.height as int, target_h);
    let y0 = first_line(ty, frame.height as int, target_h);
    let y1 = line_behind(ty, frame.height as int, target_h);
    let x0 = first_line(tx, frame.width as int, target_w);
    let x1 = line_behind(tx, frame.width as int, target_w);
    lemma_block_bound(frame, y0, y1, x0, x1, channel);
    assert(1 <= (y1 - y0) * (x1 - x0)) by (nonlinear_arith)
        requires
            y0 < y1,
            x0 < x1,
    ;
    lemma_average_fits(
        block_sum(frame, y0, y1, x0, x1, channel),
        (y1 - y0) * (x1 - x0),
    );
}

/// A pixel of the preview is opaque, and has the averages of its own block for red, green and blue,
/// in that order.
pub proof fn law_preview_pixels_are_their_averages(
    frame: PreviewFrame,
    target_w: int,
    target_h: int,
    x: int,
    y: int,
    channel: int,
)
    requires
        0 <= x < target_w,
        0 <= y < target_h,
        0 <= channel < 3,
    ensures
        ({
            let bytes = preview_bytes(frame, target_w, target_h);
            let at = (y * target_w + x) * 4;
            &&& bytes.len() == target_w * target_h * 4
            &&& bytes[at + channel] == average(frame, x, y, target_w, target_h, channel) as u8
            &&& bytes[at + 3] == 255
        }),
{
    let pixel = y * target_w + x;
    assert(0 <= pixel && pixel < target_w * target_h) by (nonlinear_arith)
        requires
            0 <= x < target_w,
            0 <= y < target_h,
            pixel == y * target_w + x,
    ;
    lemma_fundamental_div_mod_converse(pixel, target_w, y, x);
    assert((pixel * 4 + channel) / 4 == pixel && (pixel * 4 + channel) % 4 == channel);
}

/// Where red, green and blue lie depends on the format alone, and the picture is seen as it is when
/// it is turned upside down.
pub proof fn law_pictures_are_seen_the_right_way_up(
    frame: PreviewFrame,
    x: int,
    y: int,
    channel: int,
)
    requires
        can_scale(frame, 1, 1),
        0 <= x < frame.width,
        0 <= y < frame.height,
        0 <= channel < 3,
    ensures
        shown(frame, x, y, channel) == crate::debug_recorder::flipped(
            frame.data@,
            stride(frame),
            frame.height as int,
        )[y * stride(frame) + x * pixel_size(frame.format) + channel_offset(frame.format, channel)],
        frame.format == PixelFormat::Rgba ==> channel_offset(frame.format, channel) == channel,
        frame.format != PixelFormat::Rgba ==> channel_offset(frame.format, 0) == 2
            && channel_offset(frame.format, 1) == 1 && channel_offset(frame.format, 2) == 0,
{
    let row = stride(frame);
    let size = pixel_size(frame.format);
    let height = frame.height as int;
    let c = x * size + channel_offset(frame.format, channel);
    assert(0 <= c && c < row) by (nonlinear_arith)
        requires
            0 <= x < frame.width,
            c == x * size + channel_offset(frame.format, channel),
            0 <= channel_offset(frame.format, channel) < size,
            row == frame.width * size,
    ;
    assert(height * row == row * height) by (nonlinear_arith);
    crate::debug_recorder::law_flipping_mirrors_the_rows(frame.data@, row, height, y, c);
    assert(y * row + x * size + channel_offset(frame.format, channel) == y * row + c);
    assert((height - 1 - y) * row + x * size + channel_offset(frame.format, channel) == (height - 1
        - y) * row + c);
}

proof fn lemma_row_between(
    frame: PreviewFrame,
    y: int,
    x0: int,
    x1: int,
    channel: int,
    low: int,
    high: int,
)
    requires
        x0 <= x1,
        forall|x: int|
            x0 <= x < x1 ==> low <= #[trigger] shown(frame, x, y, channel) && shown(
                frame,
                x,
                y,
                channel,
            ) <= high,
    ensures
        low * (x1 - x0) <= row_sum(frame, y, x0, x1, channel),
        row_sum(frame, y, x0, x1, channel) <= high * (x1 - x0),
    decreases x1 - x0,
{
    if x0 < x1 {
        lemma_row_between(frame, y, x0, x1 - 1, channel, low, high);
        let last = shown(frame, x1 - 1, y, channel);
        assert(low * (x1 - x0) == low * (x1 - 1 - x0) + low) by (nonlinear_arith);
        assert(high * (x1 - x0) == high * (x1 - 1 - x0) + high) by (nonlinear_arith);
    } else {
        assert(low * (x1 - x0) == 0 && high * (x1 - x0) == 0) by (nonlinear_arith)
            requires
                x0 == x1,
        ;
    }
}

proof fn lemma_block_between(
    frame: PreviewFrame,
    y0: int,
    y1: int,
    x0: int,
    x1: int,
    channel: int,
    low: int,
    high: int,
)
    requires
        y0 <= y1,
        x0 <= x1,
        forall|x: int, y: int|
            x0 <= x < x1 && y0 <= y < y1 ==> low <= #[trigger] shown(frame, x, y, channel) && shown(
                frame,
                x,
                y,
                channel,
            ) <= high,
    ensures
        low * ((y1 - y0) * (x1 - x0)) <= block_sum(frame, y0, y1, x0, x1, channel),
        block_sum(frame, y0, y1, x0, x1, channel) <= high * ((y1 - y0) * (x1 - x0)),
    decreases y1 - y0,
{
    if y0 < y1 {
        lemma_block_between(frame, y0, y1 - 1, x0, x1, channel, low, high);
        lemma_row_between(frame, y1 - 1, x0, x1, channel, low, high);
        assert(low * ((y1 - y0) * (x1 - x0)) == low * ((y1 - 1 - y0) * (x1 - x0)) + low * (x1 - x0))
            by (nonlinear_arith);
        assert(high * ((y1 - y0) * (x1 - x0)) == high * ((y1 - 1 - y0) * (x1 - x0)) + high * (x1
            - x0)) by (nonlinear_arith);
    } else {
        assert(low * ((y1 - y0) * (x1 - x0)) == 0 && high * ((y1 - y0) * (x1 - x0)) == 0)
            by (nonlinear_arith)
            requires
                y0 == y1,
        ;
    }
}

/// A colour of the preview lies between the least and the greatest of the pixels that belong to it;
/// so a picture of a single colour has a preview of that colour.
pub proof fn law_preview_lies_between_its_pixels(
    frame: PreviewFrame,
    tx: int,
    ty: int,
    target_w: int,
    target_h: int,
    channel: int,
    low: int,
    high: int,
)
    requires
        0 <= tx < target_w,
        0 <= ty < target_h,
        frame.width > 0,
        frame.height > 0,
        forall|x: int, y: int|
            first_line(tx, frame.width as int, target_w) <= x < line_behind(
                tx,
                frame.width as int,
                target_w,
            ) && first_line(ty, frame.height as int, target_h) <= y < line_behind(
                ty,
                frame.height as int,
                target_h,
            ) ==> low <= #[trigger] shown(frame, x, y, channel) && shown(frame, x, y, channel)
                <= high,
    ensures
        low <= average(frame, tx, ty, target_w, target_h, channel) <= high,
{
    lemma_lines(tx, frame.width as int, target_w);
    lemma_lines(ty, frame.height as int, target_h);
    let y0 = first_line(ty, frame.height as int, target_h);
    let y1 = line_behind(ty, frame.height as int, target_h);
    let x0 = first_line(tx, frame.width as int, target_w);
    let x1 = line_behind(tx, frame.width as int, target_w);
    lemma_block_between(frame, y0, y1, x0, x1, channel, low, high);
    let sum = block_sum(frame, y0, y1, x0, x1, channel);
    let count = (y1 - y0) * (x1 - x0);
    assert(1 <= count) by (nonlinear_arith)
        requires
            y0 < y1,
            x0 < x1,
            count == (y1 - y0) * (x1 - x0),
    ;
    assert(low <= sum / count && sum / count <= high) by (nonlinear_arith)
        requires
            1 <= count,
            low * count <= sum,
            sum <= high * count,
    ;
}

/// When a picture is shrunk, each of its lines belongs to exactly one line of the preview: these
/// begin with the first, each goes on where the one before it ended, and they end with the last.
pub proof fn law_every_line_is_used_once(t: int, src: int, target: int)
    requires
        0 <= t < target <= src,
    ensures
        first_line(0, src, target) == 0,
        t + 1 < target ==> first_line(t + 1, src, target) == line_behind(t, src, target),
        line_behind(target - 1, src, target) == src,
{
    lemma_lines(t, src, target);
    assert(0 * src / target == 0) by (nonlinear_arith)
        requires
            target > 0,
    ;
    assert(t * src / target + 1 <= (t + 1) * src / target) by (nonlinear_arith)
        requires
            0 <= t < target <= src,
    ;
    lemma_lines(target - 1, src, target);
    assert((target - 1 + 1) * src / target == src) by (nonlinear_arith)
        requires
            0 < target,
    ;
}

/// A preview is made of a picture with pixels only, has the size that fits under the cap, and the
/// bytes of that size.
pub proof fn law_previews_are_of_their_size(
    frame: PreviewFrame,
    cap: (u32, u32),
    image: Option<(u32, u32, Vec<u8>)>,
)
    requires
        is_preview(frame, cap, image),
    ensures
        image is Some ==> frame.width > 0 && frame.height > 0,
        image matches Some((width, height, bytes)) ==> bytes@.len() == width * height * 4
            && bytes@ == preview_bytes(frame, width as int, height as int),
        image matches Some((width, height, bytes)) ==> (width as int, height as int) == fitted_size(
            frame.width as int,
            frame.height as int,
            if cap.0 == 0 {
                1
            } else {
                cap.0 as int
            },
            if cap.1 == 0 {
                1
            } else {
                cap.1 as int
            },
        ),
{
    if let Some((width, height, bytes)) = image {
        assert(width * height * 4 >= 0) by (nonlinear_arith)
            requires
                width >= 0,
                height >= 0,
        ;
    }
}

} // verus!
