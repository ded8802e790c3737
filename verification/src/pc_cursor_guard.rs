//! Frames on which the cursor that the game draws hides the cost display.
use crate::analyzer_consumer::BattlePhase;
use crate::number::{Real64, ONE_BITS};
use vstd::prelude::*;

verus! {

/// A rectangle of pixels, without its right and bottom edge.
#[derive(Clone, Copy, Debug, PartialEq, Eq, Structural)]
pub struct Rect {
    pub left: i32,
    pub top: i32,
    pub right: i32,
    pub bottom: i32,
}

impl Rect {
    /// The rectangle holds the pixel.
    pub open spec fn holds(self, x: int, y: int) -> bool {
        self.left <= x < self.right && self.top <= y < self.bottom
    }

    /// The rectangles overlap by their edges.
    pub open spec fn overlaps(self, other: Rect) -> bool {
        self.left < other.right && self.right > other.left && self.top < other.bottom && self.bottom
            > other.top
    }

    pub fn intersects(self, other: Rect) -> (b: bool)
        ensures
            b == self.overlaps(other),
    {
        self.left < other.right && self.right > other.left && self.top < other.bottom && self.bottom
            > other.top
    }

    /// The part of the rectangle from the origin to `max_x` and `max_y`.
    pub open spec fn within(self, max_x: int, max_y: int) -> Rect {
        Rect {
            left: between(self.left as int, max_x) as i32,
            top: between(self.top as int, max_y) as i32,
            right: between(self.right as int, max_x) as i32,
            bottom: between(self.bottom as int, max_y) as i32,
        }
    }

    pub fn clamped(self, max_x: i32, max_y: i32) -> (r: Rect)
        requires
            0 <= max_x,
            0 <= max_y,
        ensures
            r == self.within(max_x as int, max_y as int),
    {
        Rect {
            left: clamp_to(self.left, max_x),
            top: clamp_to(self.top, max_y),
            right: clamp_to(self.right, max_x),
            bottom: clamp_to(self.bottom, max_y),
        }
    }
}

/// `value`, moved into the range from zero to `max`.
pub open spec fn between(value: int, max: int) -> int {
    if value < 0 {
        0
    } else if value > max {
        max
    } else {
        value
    }
}

fn clamp_to(value: i32, max: i32) -> (r: i32)
    requires
        0 <= max,
    ensures
        r == between(value as int, max as int),
{
    if value < 0 {
        0
    } else if value > max {
        max
    } else {
        value
    }
}

/// Overlapping is mutual, and rectangles that hold anything overlap exactly if they hold a pixel
/// in common.
pub proof fn law_overlap_is_a_common_pixel(a: Rect, b: Rect)
    requires
        a.left < a.right,
        a.top < a.bottom,
        b.left < b.right,
        b.top < b.bottom,
    ensures
        a.overlaps(b) == b.overlaps(a),
        a.overlaps(b) <==> exists|x: int, y: int| a.holds(x, y) && b.holds(x, y),
{
    if a.overlaps(b) {
        let x = if a.left > b.left {
            a.left as int
        } else {
            b.left as int
        };
        let y = if a.top > b.top {
            a.top as int
        } else {
            b.top as int
        };
        assert(a.holds(x, y) && b.holds(x, y));
    }
}

/// The sizes that the layout of the game has on the screen, in pixels.
#[derive(Clone, Copy, Debug, PartialEq, Eq, Structural)]
pub struct LayoutSizes {
    /// Where the tip of the cursor lies within its picture.
    pub hotspot_x: i32,
    pub hotspot_y: i32,
    pub cursor_width: i32,
    pub cursor_height: i32,
    /// How far the cost bar reaches above and below its line.
    pub bar_half_height: i32,
    /// The sign of the cost.
    pub cost_area: Rect,
    /// How far the sign may reach beyond its top and bottom.
    pub cost_area_pad: i32,
}

/// The size of the captured window.
#[derive(Clone, Copy, Debug, PartialEq, Eq, Structural)]
pub struct WindowSize {
    pub width: u32,
    pub height: u32,
}

/// The cost bar: from one column to another, around a row.
#[derive(Clone, Copy, Debug, PartialEq, Eq, Structural)]
pub struct BarLine {
    pub x1: i32,
    pub x2: i32,
    pub y: i32,
}

/// The cursor, where it is over the window.
#[derive(Clone, Copy, Debug, PartialEq, Eq, Structural)]
pub struct CursorState {
    pub client_x: i32,
    pub client_y: i32,
    pub native_visible: bool,
    /// No other window lies between.
    pub uncovered: bool,
}

pub open spec fn fits_pixel(n: int) -> bool {
    i32::MIN <= n <= i32::MAX
}

/// All edges can be written as pixels.
pub open spec fn edges_fit(
    width: u32,
    height: u32,
    bar: BarLine,
    cursor: CursorState,
    sizes: LayoutSizes,
) -> bool {
    &&& width <= i32::MAX
    &&& height <= i32::MAX
    &&& fits_pixel(cursor.client_x - sizes.hotspot_x)
    &&& fits_pixel(cursor.client_y - sizes.hotspot_y)
    &&& fits_pixel(cursor.client_x - sizes.hotspot_x + sizes.cursor_width)
    &&& fits_pixel(cursor.client_y - sizes.hotspot_y + sizes.cursor_height)
    &&& fits_pixel(bar.y - sizes.bar_half_height)
    &&& fits_pixel(bar.y + sizes.bar_half_height)
    &&& fits_pixel(bar.y + sizes.bar_half_height + 1)
    &&& fits_pixel(sizes.cost_area.top - sizes.cost_area_pad)
    &&& fits_pixel(sizes.cost_area.bottom + sizes.cost_area_pad)
}

/// Where the game draws its cursor.
pub open spec fn cursor_area(cursor: CursorState, sizes: LayoutSizes) -> Rect {
    Rect {
        left: (cursor.client_x - sizes.hotspot_x) as i32,
        top: (cursor.client_y - sizes.hotspot_y) as i32,
        right: (cursor.client_x - sizes.hotspot_x + sizes.cursor_width) as i32,
        bottom: (cursor.client_y - sizes.hotspot_y + sizes.cursor_height) as i32,
    }
}

/// Where the cost bar is.
pub open spec fn bar_area(bar: BarLine, width: int, height: int, sizes: LayoutSizes) -> Rect {
    Rect {
        left: if bar.x1 < bar.x2 {
            bar.x1
        } else {
            bar.x2
        },
        top: (bar.y - sizes.bar_half_height) as i32,
        right: if bar.x1 < bar.x2 {
            bar.x2
        } else {
            bar.x1
        },
        bottom: (bar.y + sizes.bar_half_height + 1) as i32,
    }.within(width, height)
}

/// Where the sign of the cost is.
pub open spec fn sign_area(width: int, height: int, sizes: LayoutSizes) -> Rect {
    Rect {
        left: sizes.cost_area.left,
        top: (sizes.cost_area.top - sizes.cost_area_pad) as i32,
        right: sizes.cost_area.right,
        bottom: (sizes.cost_area.bottom + sizes.cost_area_pad) as i32,
    }.within(width, height)
}

/// The cursor lies over the cost bar or the sign of the cost.
pub open spec fn hides_cost(
    width: u32,
    height: u32,
    bar: BarLine,
    cursor: CursorState,
    sizes: LayoutSizes,
) -> bool {
    let area = cursor_area(cursor, sizes);
    area.overlaps(bar_area(bar, width as int, height as int, sizes)) || area.overlaps(
        sign_area(width as int, height as int, sizes),
    )
}

/// Knows whether the game draws its own cursor: once the native one was hidden over the game's
/// window, it does for the rest of the run.
#[derive(Debug)]
pub struct SelfDrawnCursorGuard {
    pub ui_scaler: Real64,
    pub cursor_size: Real64,
    pub ever_saw_hidden: bool,
    pub self_drawn_enabled: bool,
}

/// `value` between zero and one, or one where it is no finite number.
pub open spec fn unit_or_one(value: Real64) -> Real64 {
    if value.finite() {
        value.clamped_to_unit()
    } else {
        Real64 { bits: ONE_BITS }
    }
}

fn to_unit(value: Real64) -> (r: Real64)
    ensures
        r == unit_or_one(value),
{
    if value.is_finite() {
        value.clamp_to_unit()
    } else {
        Real64 { bits: ONE_BITS }
    }
}

impl SelfDrawnCursorGuard {
    pub fn new(ui_scaler: Real64, cursor_size: Real64) -> (guard: Self)
        ensures
            guard == (SelfDrawnCursorGuard {
                ui_scaler: unit_or_one(ui_scaler),
                cursor_size: unit_or_one(cursor_size),
                ever_saw_hidden: false,
                self_drawn_enabled: false,
            }),
    {
        SelfDrawnCursorGuard {
            ui_scaler: to_unit(ui_scaler),
            cursor_size: to_unit(cursor_size),
            ever_saw_hidden: false,
            self_drawn_enabled: false,
        }
    }

    /// The guard after it has seen whether the native cursor is visible.
    pub open spec fn having_seen(self, native_visible: bool) -> Self {
        if self.ever_saw_hidden {
            self
        } else {
            SelfDrawnCursorGuard {
                ever_saw_hidden: !native_visible,
                self_drawn_enabled: !native_visible,
                ..self
            }
        }
    }

    pub fn observe_native_cursor(&mut self, native_visible: bool)
        ensures
            *final(self) == old(self).having_seen(native_visible),
    {
        if self.ever_saw_hidden {
            return;
        }
        if native_visible {
            self.self_drawn_enabled = false;
        } else {
            self.ever_saw_hidden = true;
            self.self_drawn_enabled = true;
        }
    }

    /// The frame can be judged: it is readable, and window, bar and cursor are known.
    pub open spec fn judged(
        phase: BattlePhase,
        window: Option<WindowSize>,
        bar: Option<BarLine>,
        cursor: Option<CursorState>,
    ) -> bool {
        phase != BattlePhase::NotInBattle && window is Some && bar is Some && cursor is Some
    }

    /// The guard after a frame. A cursor over a covered window tells nothing.
    pub open spec fn after_frame(
        self,
        phase: BattlePhase,
        window: Option<WindowSize>,
        bar: Option<BarLine>,
        cursor: Option<CursorState>,
    ) -> Self {
        if Self::judged(phase, window, bar, cursor) && cursor->0.uncovered {
            self.having_seen(cursor->0.native_visible)
        } else {
            self
        }
    }

    /// The cursor that the game draws is known to hide the cost display on this frame.
    pub open spec fn pauses(
        self,
        phase: BattlePhase,
        window: Option<WindowSize>,
        bar: Option<BarLine>,
        cursor: Option<CursorState>,
        sizes: LayoutSizes,
    ) -> bool {
        Self::judged(phase, window, bar, cursor) && self.self_drawn_enabled && hides_cost(
            window->0.width,
            window->0.height,
            bar->0,
            cursor->0,
            sizes,
        )
    }

    /// Whether the cursor that the game draws hides the cost display on this frame.
    pub fn should_pause_for_frame(
        &mut self,
        phase: BattlePhase,
        window: Option<WindowSize>,
        bar: Option<BarLine>,
        cursor: Option<CursorState>,
        sizes: &LayoutSizes,
    ) -> (pause: bool)
        requires
            Self::judged(phase, window, bar, cursor) ==> edges_fit(
                window->0.width,
                window->0.height,
                bar->0,
                cursor->0,
                *sizes,
            ),
        ensures
            *final(self) == old(self).after_frame(phase, window, bar, cursor),
            pause == final(self).pauses(phase, window, bar, cursor, *sizes),
    {
        if matches!(phase, BattlePhase::NotInBattle) {
            return false;
        }
        match (window, bar, cursor) {
            (Some(WindowSize { width, height }), Some(bar), Some(cursor)) => {
                if cursor.uncovered {
                    self.observe_native_cursor(cursor.native_visible);
                }
                if !self.self_drawn_enabled {
                    return false;
                }
                let left: i32 = cursor.client_x - sizes.hotspot_x;
                let top: i32 = cursor.client_y - sizes.hotspot_y;
                let area = Rect {
                    left,
                    top,
                    right: left + sizes.cursor_width,
                    bottom: top + sizes.cursor_height,
                };
                let max_x: i32 = width as i32;
                let max_y: i32 = height as i32;
                let bar_rect = Rect {
                    left: if bar.x1 < bar.x2 {
                        bar.x1
                    } else {
                        bar.x2
                    },
                    top: bar.y - sizes.bar_half_height,
                    right: if bar.x1 < bar.x2 {
                        bar.x2
                    } else {
                        bar.x1
                    },
                    bottom: bar.y + sizes.bar_half_height + 1,
                }.clamped(max_x, max_y);
                let sign_rect = Rect {
                    left: sizes.cost_area.left,
                    top: sizes.cost_area.top - sizes.cost_area_pad,
                    right: sizes.cost_area.right,
                    bottom: sizes.cost_area.bottom + sizes.cost_area_pad,
                }.clamped(max_x, max_y);
                area.intersects(bar_rect) || area.intersects(sign_rect)
            },
            _ => false,
        }
    }
}


/// Whether all edges can be written as pixels.
pub fn edges_are_pixels(
    width: u32,
    height: u32,
    bar: &BarLine,
    cursor: &CursorState,
    sizes: &LayoutSizes,
) -> (b: bool)
    ensures
        b == edges_fit(width, height, *bar, *cursor, *sizes),
{
    width <= 0x7fff_ffff && height <= 0x7fff_ffff && match cursor.client_x.checked_sub(
        sizes.hotspot_x,
    ) {
        Some(left) => left.checked_add(sizes.cursor_width).is_some(),
        None => false,
    } && match cursor.client_y.checked_sub(sizes.hotspot_y) {
        Some(top) => top.checked_add(sizes.cursor_height).is_some(),
        None => false,
    } && bar.y.checked_sub(sizes.bar_half_height).is_some() && match bar.y.checked_add(
        sizes.bar_half_height,
    ) {
        Some(y) => y.checked_add(1).is_some(),
        None => false,
    } && sizes.cost_area.top.checked_sub(sizes.cost_area_pad).is_some()
        && sizes.cost_area.bottom.checked_add(sizes.cost_area_pad).is_some()
}

/// The cursor at a place of the client area of that size, where it is over it.
pub open spec fn client_cursor(
    size: (u32, u32),
    place: (i32, i32),
    native_visible: Option<bool>,
    uncovered: bool,
) -> Option<CursorState> {
    if 0 <= place.0 < size.0 && 0 <= place.1 < size.1 {
        Some(
            CursorState {
                client_x: place.0,
                client_y: place.1,
                native_visible: native_visible != Some(false),
                uncovered,
            },
        )
    } else {
        None
    }
}

/// The cursor's place within the window's client area, where it is over it.
pub fn cursor_in_client(
    width: u32,
    height: u32,
    client_x: i32,
    client_y: i32,
    native_visible: Option<bool>,
    uncovered: bool,
) -> (cursor: Option<CursorState>)
    requires
        width <= i32::MAX,
        height <= i32::MAX,
    ensures
        cursor == client_cursor((width, height), (client_x, client_y), native_visible, uncovered),
{
    if client_x < 0 || client_y < 0 || client_x >= width as i32 || client_y >= height as i32 {
        None
    } else {
        let native_visible = match native_visible {
            Some(b) => b,
            None => true,
        };
        Some(CursorState { client_x, client_y, native_visible, uncovered })
    }
}

/// Once the game was seen to draw its own cursor, nothing that is seen later changes that.
pub proof fn law_self_drawn_cursor_is_remembered(
    guard: SelfDrawnCursorGuard,
    phase: BattlePhase,
    window: Option<WindowSize>,
    bar: Option<BarLine>,
    cursor: Option<CursorState>,
)
    requires
        guard.ever_saw_hidden,
    ensures
        guard.after_frame(phase, window, bar, cursor) == guard,
{
}

/// The pixel is one of the window's.
pub open spec fn in_window(window: WindowSize, x: int, y: int) -> bool {
    0 <= x < window.width && 0 <= y < window.height
}

/// The picture of the cursor covers the pixel: its tip is where the cursor is.
pub open spec fn under_cursor(cursor: CursorState, sizes: LayoutSizes, x: int, y: int) -> bool {
    &&& 0 <= x - (cursor.client_x - sizes.hotspot_x) < sizes.cursor_width
    &&& 0 <= y - (cursor.client_y - sizes.hotspot_y) < sizes.cursor_height
}

/// The pixel belongs to the cost bar: between its ends, and not far from its row.
pub open spec fn on_bar(bar: BarLine, sizes: LayoutSizes, x: int, y: int) -> bool {
    &&& bar.x1 <= x < bar.x2 || bar.x2 <= x < bar.x1
    &&& -sizes.bar_half_height <= y - bar.y <= sizes.bar_half_height
}

/// The pixel belongs to the sign of the cost, or lies right above or below it.
pub open spec fn on_sign(sizes: LayoutSizes, x: int, y: int) -> bool {
    &&& sizes.cost_area.left <= x < sizes.cost_area.right
    &&& sizes.cost_area.top - sizes.cost_area_pad <= y < sizes.cost_area.bottom
        + sizes.cost_area_pad
}

/// A single pixel of the bar or of the sign that the cursor's picture covers is enough to pause,
/// once the game draws its cursor.
pub proof fn law_covered_pixel_pauses(
    guard: SelfDrawnCursorGuard,
    phase: BattlePhase,
    window: WindowSize,
    bar: BarLine,
    cursor: CursorState,
    sizes: LayoutSizes,
    x: int,
    y: int,
)
    requires
        guard.self_drawn_enabled,
        phase != BattlePhase::NotInBattle,
        edges_fit(window.width, window.height, bar, cursor, sizes),
        in_window(window, x, y),
        under_cursor(cursor, sizes, x, y),
        on_bar(bar, sizes, x, y) || on_sign(sizes, x, y),
    ensures
        guard.pauses(phase, Some(window), Some(bar), Some(cursor), sizes),
{
}

/// Where nothing of the bar or of the sign is covered there is no pause: with a bar and a sign that
/// can be seen, a pause means a covered pixel.
pub proof fn law_pause_means_a_covered_pixel(
    guard: SelfDrawnCursorGuard,
    phase: BattlePhase,
    window: WindowSize,
    bar: BarLine,
    cursor: CursorState,
    sizes: LayoutSizes,
)
    requires
        edges_fit(window.width, window.height, bar, cursor, sizes),
        sizes.cursor_width > 0,
        sizes.cursor_height > 0,
        exists|x: int, y: int| in_window(window, x, y) && on_bar(bar, sizes, x, y),
        exists|x: int, y: int| in_window(window, x, y) && on_sign(sizes, x, y),
        guard.pauses(phase, Some(window), Some(bar), Some(cursor), sizes),
    ensures
        guard.self_drawn_enabled,
        phase != BattlePhase::NotInBattle,
        exists|x: int, y: int|
            in_window(window, x, y) && under_cursor(cursor, sizes, x, y) && (on_bar(bar, sizes, x, y)
                || on_sign(sizes, x, y)),
{
    let (w, h) = (window.width as int, window.height as int);
    let area = cursor_area(cursor, sizes);
    let bars = bar_area(bar, w, h, sizes);
    let sign = sign_area(w, h, sizes);
    let (bx, by) = choose|x: int, y: int| in_window(window, x, y) && on_bar(bar, sizes, x, y);
    assert(bars.holds(bx, by));
    let (sx, sy) = choose|x: int, y: int| in_window(window, x, y) && on_sign(sizes, x, y);
    assert(sign.holds(sx, sy));
    law_overlap_is_a_common_pixel(area, bars);
    law_overlap_is_a_common_pixel(area, sign);
    if area.overlaps(bars) {
        let (x, y) = choose|x: int, y: int| area.holds(x, y) && bars.holds(x, y);
        assert(in_window(window, x, y) && under_cursor(cursor, sizes, x, y) && on_bar(
            bar,
            sizes,
            x,
            y,
        ));
    } else {
        let (x, y) = choose|x: int, y: int| area.holds(x, y) && sign.holds(x, y);
        assert(in_window(window, x, y) && under_cursor(cursor, sizes, x, y) && on_sign(
            sizes,
            x,
            y,
        ));
    }
}

/// The game draws its cursor once the native one is seen hidden over its window; a native cursor
/// that is seen, or a window that another one covers, shows nothing of the kind. A guard that is new
/// pauses nothing.
pub proof fn law_hidden_native_cursor_is_noticed(
    guard: SelfDrawnCursorGuard,
    phase: BattlePhase,
    window: WindowSize,
    bar: BarLine,
    cursor: CursorState,
    sizes: LayoutSizes,
)
    requires
        !guard.ever_saw_hidden,
        !guard.self_drawn_enabled,
    ensures
        ({
            let after = guard.after_frame(phase, Some(window), Some(bar), Some(cursor));
            &&& after.self_drawn_enabled <==> phase != BattlePhase::NotInBattle && cursor.uncovered
                && !cursor.native_visible
            &&& after.ever_saw_hidden == after.self_drawn_enabled
            &&& after.ui_scaler == guard.ui_scaler && after.cursor_size == guard.cursor_size
        }),
        guard.after_frame(phase, None, Some(bar), Some(cursor)) == guard,
        guard.after_frame(phase, Some(window), None, Some(cursor)) == guard,
        guard.after_frame(phase, Some(window), Some(bar), None) == guard,
        !guard.pauses(phase, Some(window), Some(bar), Some(cursor), sizes),
{
}

/// A cursor is over the window exactly where it is on one of its pixels, and stays where it is; only
/// one that is known to be hidden counts as hidden.
pub proof fn law_cursor_is_where_it_is(
    window: WindowSize,
    x: i32,
    y: i32,
    native_visible: Option<bool>,
    uncovered: bool,
)
    ensures
        ({
            let cursor = client_cursor(
                (window.width, window.height),
                (x, y),
                native_visible,
                uncovered,
            );
            &&& cursor is Some <==> in_window(window, x as int, y as int)
            &&& cursor matches Some(cursor) ==> cursor.client_x == x && cursor.client_y == y
                && cursor.uncovered == uncovered && (cursor.native_visible <==> native_visible
                != Some(false))
        }),
{
}

/// A part of a rectangle holds those of its pixels that lie within the bounds.
pub proof fn law_clamping_keeps_what_is_within(
    rect: Rect,
    max_x: int,
    max_y: int,
    x: int,
    y: int,
)
    requires
        0 <= max_x <= i32::MAX,
        0 <= max_y <= i32::MAX,
    ensures
        rect.within(max_x, max_y).holds(x, y) <==> rect.holds(x, y) && 0 <= x < max_x && 0 <= y
            < max_y,
{
}

} // verus!
