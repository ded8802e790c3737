//! Where the overlay stands, which part of it takes the mouse, and how a reset is shown.
use crate::number::{bit_len, lemma_bit_len, lemma_significant, significant, to_significant};
use vstd::arithmetic::power2::{lemma2_to64, lemma_pow2_strictly_increases, pow2};
use vstd::prelude::*;

verus! {

/// The size of the overlay in units of the design. Below the panel there is room for the toolbar.
pub const LOGICAL_W: u32 = 210;

pub const LOGICAL_PANEL_H: u32 = 56;

pub const LOGICAL_H: u32 = 82;

pub const LOGICAL_TOOLBAR_W: u32 = 134;

pub const LOGICAL_TOOLBAR_H: u32 = 24;

pub const LOGICAL_TOOLBAR_RIGHT_PAD: u32 = 4;

pub const LOGICAL_TOOLBAR_TOP_GAP: u32 = 2;

/// How long the cover takes to grow, stays, and takes to shrink, in milliseconds.
pub const RESET_EXPAND_MS: u128 = 180;

pub const RESET_HOLD_MS: u128 = 260;

pub const RESET_CONTRACT_MS: u128 = 240;

/// How a reset is shown at some point in time. Lengths are shares of `whole`.
#[derive(Clone, Copy, Debug, PartialEq, Eq, Structural)]
pub struct ResetPhase {
    /// How much of the panel is covered.
    pub cover: u64,
    /// Where the cover starts.
    pub top: u64,
    pub text_opacity: u64,
    pub whole: u64,
    pub done: bool,
}

/// `part` moved into the range from zero to `whole`.
pub open spec fn within(part: int, whole: int) -> int {
    if part < 0 {
        0
    } else if part > whole {
        whole
    } else {
        part
    }
}

/// The smooth step from zero to one, at `part / whole`, in shares of the cube of `whole`: it
/// starts and ends slowly.
pub open spec fn smooth(part: int, whole: int) -> int {
    let t = within(part, whole);
    t * t * (3 * whole - 2 * t)
}

pub open spec fn cube(n: int) -> int {
    n * n * n
}

proof fn lemma_smooth(part: int, whole: int)
    requires
        0 < whole,
    ensures
        0 <= smooth(part, whole) <= cube(whole),
        part <= 0 ==> smooth(part, whole) == 0,
        part >= whole ==> smooth(part, whole) == cube(whole),
{
    let t = within(part, whole);
    assert(0 <= t * t * (3 * whole - 2 * t) && t * t * (3 * whole - 2 * t) <= whole * whole * whole)
        by (nonlinear_arith)
        requires
            0 <= t <= whole,
            0 < whole,
    ;
    if t == 0 {
        assert(t * t * (3 * whole - 2 * t) == 0) by (nonlinear_arith)
            requires
                t == 0,
        ;
    }
    if t == whole {
        assert(whole * whole * (3 * whole - 2 * whole) == whole * whole * whole) by (nonlinear_arith);
    }
}

/// The smooth step never goes back.
pub proof fn law_smooth_step_rises(a: int, b: int, whole: int)
    requires
        0 < whole,
        a <= b,
    ensures
        0 <= smooth(a, whole) <= smooth(b, whole) <= cube(whole),
{
    lemma_smooth(a, whole);
    lemma_smooth(b, whole);
    let s = within(a, whole);
    let t = within(b, whole);
    assert(s * s * (3 * whole - 2 * s) <= t * t * (3 * whole - 2 * t)) by (nonlinear_arith)
        requires
            0 <= s <= t <= whole,
    ;
}

/// The smooth step at `part / whole`, in shares of the cube of `whole`.
pub fn smoothstep(part: i64, whole: u32) -> (share: u128)
    requires
        0 < whole,
    ensures
        share == smooth(part as int, whole as int),
        share <= cube(whole as int),
{
    let t: u128 = if part < 0 {
        0
    } else if part > whole as i64 {
        whole as u128
    } else {
        part as u128
    };
    let w: u128 = whole as u128;
    proof {
        lemma_smooth(part as int, whole as int);
        assert(t * t <= 0xffff_ffff * 0xffff_ffff) by (nonlinear_arith)
            requires
                0 <= t <= 0xffff_ffff,
        ;
        assert(cube(whole as int) <= 0xffff_ffff_ffff_ffff_ffff_ffff) by (nonlinear_arith)
            requires
                0 < whole <= 0xffff_ffff,
                cube(whole as int) == whole * whole * whole,
        ;
    }
    t * t * (3 * w - 2 * t)
}

/// How a reset is shown `elapsed_ms` after it: the cover grows from the top, stays, and shrinks to
/// the bottom.
pub open spec fn phase_at(elapsed_ms: int) -> ResetPhase {
    if elapsed_ms < 180 {
        let share = smooth(elapsed_ms, 180) as u64;
        ResetPhase { cover: share, top: 0, text_opacity: share, whole: 5_832_000, done: false }
    } else if elapsed_ms < 440 {
        ResetPhase { cover: 1, top: 0, text_opacity: 1, whole: 1, done: false }
    } else if elapsed_ms < 680 {
        let share = smooth(elapsed_ms - 440, 240) as u64;
        let cover = (13_824_000 - share) as u64;
        ResetPhase { cover, top: share, text_opacity: cover, whole: 13_824_000, done: false }
    } else {
        ResetPhase { cover: 0, top: 0, text_opacity: 0, whole: 1, done: true }
    }
}

pub fn compute_reset_phase(elapsed_ms: u128) -> (phase: ResetPhase)
    ensures
        phase == phase_at(elapsed_ms as int),
{
    if elapsed_ms >= RESET_EXPAND_MS + RESET_HOLD_MS + RESET_CONTRACT_MS {
        ResetPhase { cover: 0, top: 0, text_opacity: 0, whole: 1, done: true }
    } else if elapsed_ms < RESET_EXPAND_MS {
        assert(cube(180) == 5_832_000) by (nonlinear_arith);
        let share: u64 = smoothstep(elapsed_ms as i64, 180) as u64;
        ResetPhase { cover: share, top: 0, text_opacity: share, whole: 5_832_000, done: false }
    } else if elapsed_ms < RESET_EXPAND_MS + RESET_HOLD_MS {
        ResetPhase { cover: 1, top: 0, text_opacity: 1, whole: 1, done: false }
    } else {
        assert(cube(240) == 13_824_000) by (nonlinear_arith);
        let share: u64 = smoothstep(
            (elapsed_ms - RESET_EXPAND_MS - RESET_HOLD_MS) as i64,
            240,
        ) as u64;
        let cover: u64 = 13_824_000 - share;
        ResetPhase { cover, top: share, text_opacity: cover, whole: 13_824_000, done: false }
    }
}

/// The cover never reaches beyond the panel, and while it shrinks its bottom edge stays where it
/// is.
pub proof fn law_cover_stays_on_the_panel(elapsed_ms: int)
    requires
        0 <= elapsed_ms,
    ensures
        ({
            let phase = phase_at(elapsed_ms);
            &&& phase.whole > 0
            &&& phase.top + phase.cover <= phase.whole
            &&& phase.text_opacity == phase.cover
            &&& 440 <= elapsed_ms < 680 ==> phase.top + phase.cover == phase.whole
            &&& phase.done <==> elapsed_ms >= 680
        }),
{
    assert(cube(180) == 5_832_000) by (nonlinear_arith);
    assert(cube(240) == 13_824_000) by (nonlinear_arith);
    lemma_smooth(elapsed_ms, 180);
    lemma_smooth(elapsed_ms - 440, 240);
}

/// How many pixels there are to a unit of the design: `num / den`.
#[derive(Clone, Copy, Debug, PartialEq, Eq, Structural)]
pub struct Scale {
    pub num: u32,
    pub den: u32,
}

impl Scale {
    /// A number that single precision holds: a fraction by a power of two, with few enough digits.
    pub open spec fn is_single(self) -> bool {
        &&& self.num > 0
        &&& self.den > 0
        &&& self.den == pow2((bit_len(self.den as nat) - 1) as nat)
        &&& in_single(self.num as int) == self.num
    }
}

/// A whole number in single precision.
pub open spec fn in_single(n: int) -> int {
    significant(n as nat, 1, 24) as int
}

/// Two to the power of 60: quotients are counted in parts of it, which are finer than what single
/// precision can tell apart.
pub const FINE: u128 = 0x1000_0000_0000_0000;

/// The number of units of the design to a number of pixels, both in single precision.
pub open spec fn design_units(pixels: int, scale: Scale) -> int {
    significant((in_single(pixels) * scale.den * FINE) as nat, scale.num as nat, 24) as int
}

/// The pixel lies over the toolbar, or over the gap between the panel and it.
pub open spec fn over_toolbar(x: int, y: int, scale: Scale) -> bool {
    &&& 0 <= x
    &&& 0 <= y
    &&& 72 * FINE <= design_units(x, scale) < 206 * FINE
    &&& 56 * FINE <= design_units(y, scale) < 82 * FINE
}

/// The first pixel below the panel: its height in single precision, to the nearest pixel.
pub open spec fn panel_end(scale: Scale) -> int {
    let end = (2 * in_single(56 * scale.num) + scale.den) / (2 * scale.den);
    if end > i32::MAX {
        i32::MAX as int
    } else {
        end
    }
}

/// The pixel belongs to no part of the overlay: it lies below the panel and not over the toolbar,
/// which is there only while the timer runs.
pub open spec fn passes_through(x: int, y: int, scale: Scale, running: bool) -> bool {
    y >= panel_end(scale) && !(running && over_toolbar(x, y, scale))
}

/// What is rounded to single precision grows by no more than the number itself.
proof fn lemma_in_single(n: int)
    requires
        0 <= n,
    ensures
        0 <= in_single(n) <= 2 * n,
{
    lemma2_to64();
    lemma_significant(n as nat, 1, 24);
}

fn find_panel_end(scale: &Scale) -> (end: i64)
    requires
        scale.is_single(),
    ensures
        end == panel_end(*scale),
{
    let height: u128 = to_significant(56 * scale.num as u128, 1, 24);
    proof {
        lemma_in_single(56 * scale.num);
    }
    let end: u128 = (2 * height + scale.den as u128) / (2 * scale.den as u128);
    if end > 0x7fff_ffff {
        0x7fff_ffff
    } else {
        end as i64
    }
}

fn to_design_units(pixels: u32, scale: &Scale) -> (units: u128)
    requires
        scale.is_single(),
        pixels <= i32::MAX,
    ensures
        units == design_units(pixels as int, *scale),
{
    let single: u128 = to_significant(pixels as u128, 1, 24);
    proof {
        lemma_in_single(pixels as int);
        lemma_bit_len(scale.den as nat);
        lemma2_to64();
        let high = (bit_len(scale.den as nat) - 1) as nat;
        if high > 31 {
            lemma_pow2_strictly_increases(31, high);
            if high > 32 {
                lemma_pow2_strictly_increases(32, high);
            }
        }
        assert(scale.den <= 0x8000_0000);
        assert(0 <= single * scale.den && single * scale.den <= 0x1_0000_0000 * 0x8000_0000)
            by (nonlinear_arith)
            requires
                0 <= single <= 0x1_0000_0000,
                0 <= scale.den <= 0x8000_0000,
        ;
    }
    to_significant(single * scale.den as u128 * FINE, scale.num as u128, 24)
}

/// Whether the mouse goes through the overlay at this pixel.
pub fn outer_area_should_pass_through_at(x: i32, y: i32, scale: &Scale, running: bool) -> (b: bool)
    requires
        scale.is_single(),
    ensures
        b == passes_through(x as int, y as int, *scale, running),
{
    if (y as i64) < find_panel_end(scale) {
        return false;
    }
    if !running || x < 0 || y < 0 {
        return true;
    }
    let across: u128 = to_design_units(x as u32, scale);
    let down: u128 = to_design_units(y as u32, scale);
    !(72 * FINE <= across && across < 206 * FINE && 56 * FINE <= down && down < 82 * FINE)
}

/// The height that the panel has by the length of the cost bar on the screen.
pub open spec fn panel_height(x1: int, x2: int) -> int {
    let length = if x2 - x1 < 0 {
        x1 - x2
    } else {
        x2 - x1
    };
    let bar = if length < 180 {
        180
    } else {
        length
    };
    (bar * 5 / 6) * 27 / 50
}

/// The height of the panel in pixels, by the columns between which the cost bar lies.
pub fn legacy_height(x1: i32, x2: i32) -> (height: i64)
    ensures
        height == panel_height(x1 as int, x2 as int),
{
    let length: i64 = if x2 < x1 {
        x1 as i64 - x2 as i64
    } else {
        x2 as i64 - x1 as i64
    };
    let bar: i64 = if length < 180 {
        180
    } else {
        length
    };
    (bar * 5 / 6) * 27 / 50
}

/// `value`, moved into the range from zero to what is left of the screen.
pub open spec fn on_screen(value: int, screen: int, length: int) -> int {
    let room = if screen - length < 0 {
        0
    } else {
        screen - length
    };
    if value < 0 {
        0
    } else if value > room {
        room
    } else {
        value
    }
}

/// The distance of the overlay from the right and the bottom edge where it was not moved.
pub open spec fn from_edge(screen: int, length: int, distance: int) -> int {
    if screen - length - distance < 0 {
        0
    } else {
        screen - length - distance
    }
}

pub fn keep_on_screen(value: i32, screen: i32, length: i32) -> (r: i32)
    requires
        0 <= screen,
        0 <= length,
    ensures
        r == on_screen(value as int, screen as int, length as int),
{
    let room: i32 = if screen < length {
        0
    } else {
        screen - length
    };
    if value < 0 {
        0
    } else if value > room {
        room
    } else {
        value
    }
}

fn away_from_edge(screen: i32, length: i32, distance: i32) -> (r: i32)
    requires
        0 <= screen,
        0 <= length,
        0 <= distance,
    ensures
        r == from_edge(screen as int, length as int, distance as int),
{
    let room: i64 = screen as i64 - length as i64 - distance as i64;
    if room < 0 {
        0
    } else {
        room as i32
    }
}

/// Where an overlay of this size is put: where the user left it, as far as that is on the screen,
/// or near the bottom right.
pub fn initial_position(
    pos: Option<(i32, i32)>,
    screen_w: i32,
    screen_h: i32,
    width: i32,
    height: i32,
) -> (place: (i32, i32))
    requires
        0 <= screen_w,
        0 <= screen_h,
        0 <= width,
        0 <= height,
    ensures
        match pos {
            Some((x, y)) => place.0 as int == on_screen(x as int, screen_w as int, width as int)
                && place.1 as int == on_screen(y as int, screen_h as int, height as int),
            None => place.0 as int == from_edge(screen_w as int, width as int, 50) && place.1 as int
                == from_edge(screen_h as int, height as int, 100),
        },
{
    match pos {
        Some((x, y)) => (
            keep_on_screen(x, screen_w, width),
            keep_on_screen(y, screen_h, height),
        ),
        None => (
            away_from_edge(screen_w, width, 50),
            away_from_edge(screen_h, height, 100),
        ),
    }
}

/// An overlay that fits on the screen is put fully on it, wherever it was left; and where it was
/// left fully on it, it is put back there.
pub proof fn law_overlay_starts_on_screen(value: int, screen: int, length: int, distance: int)
    requires
        0 <= length <= screen,
        0 <= distance,
    ensures
        0 <= on_screen(value, screen, length),
        on_screen(value, screen, length) + length <= screen,
        0 <= from_edge(screen, length, distance),
        from_edge(screen, length, distance) + length <= screen,
        0 <= value && value + length <= screen ==> on_screen(value, screen, length) == value,
{
}

/// A reset is shown for 680 milliseconds: the cover grows for 180, is whole for 260, and shrinks for
/// 240. While it grows it never becomes smaller, and while it shrinks never larger.
pub proof fn law_cover_grows_stays_and_shrinks(a: int, b: int)
    requires
        0 <= a <= b,
    ensures
        phase_at(0).cover == 0,
        b < 180 ==> phase_at(a).cover <= phase_at(b).cover && phase_at(b).top == 0
            && phase_at(a).whole == phase_at(b).whole,
        180 <= a < 440 ==> phase_at(a).cover == phase_at(a).whole && phase_at(a).top == 0,
        440 <= a && b < 680 ==> phase_at(b).cover <= phase_at(a).cover && phase_at(a).top
            <= phase_at(b).top && phase_at(a).whole == phase_at(b).whole,
        b >= 680 ==> phase_at(b).done && phase_at(b).cover == 0,
        a < 680 ==> !phase_at(a).done,
{
    assert(cube(180) == 5_832_000) by (nonlinear_arith);
    assert(cube(240) == 13_824_000) by (nonlinear_arith);
    lemma_smooth(0, 180);
    law_smooth_step_rises(a, b, 180);
    law_smooth_step_rises(a - 440, b - 440, 240);
}

/// The mouse reaches the panel everywhere, and the toolbar only while the timer runs; a pixel below
/// the panel and away from the toolbar always lets it through.
pub proof fn law_mouse_passes_where_nothing_is(x: int, y: int, scale: Scale, running: bool)
    ensures
        y < panel_end(scale) ==> !passes_through(x, y, scale, running),
        y >= panel_end(scale) && !running ==> passes_through(x, y, scale, running),
        y >= panel_end(scale) && x < 0 ==> passes_through(x, y, scale, running),
        passes_through(x, y, scale, true) ==> passes_through(x, y, scale, false),
        running && over_toolbar(x, y, scale) ==> !passes_through(x, y, scale, running),
        over_toolbar(x, y, scale) ==> 0 <= x && 0 <= y,
{
}

/// The height of the panel follows the length of the bar, whichever end comes first, and never falls
/// below what the shortest bar gives.
pub proof fn law_panel_height_follows_the_bar(x1: int, x2: int, longer: int)
    requires
        x1 <= x2 <= longer,
    ensures
        panel_height(x1, x2) == panel_height(x2, x1),
        panel_height(x1, x2) <= panel_height(x1, longer),
        panel_height(x1, x2) >= 81,
        panel_height(0, 600) == 270,
{
}

/// An overlay that was never moved stands 50 pixels from the right edge and 100 from the bottom
/// where there is room, and at the other edge where there is none.
pub proof fn law_new_overlay_stands_near_the_corner(screen: int, length: int, distance: int)
    requires
        0 <= length,
        0 <= distance,
    ensures
        length + distance <= screen ==> from_edge(screen, length, distance) + length + distance
            == screen,
        length + distance > screen ==> from_edge(screen, length, distance) == 0,
        screen < length ==> on_screen(screen, screen, length) == 0,
{
}

} // verus!
