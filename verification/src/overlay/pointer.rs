//! Mouse and keyboard: dragging a window, and what is typed into a field.
use crate::text;
use crate::text::{is_high, is_low, opt_view, utf16_text};
use vstd::prelude::*;

verus! {

#[derive(Clone, Copy, Debug, PartialEq, Eq, Structural)]
pub struct Point {
    pub x: i32,
    pub y: i32,
}

/// A window that can be dragged by a handle.
#[derive(Clone, Copy, Debug, PartialEq, Eq, Structural)]
pub struct Drag {
    pub mouse_down: bool,
    pub moved: bool,
    pub on_handle: bool,
    pub drag_origin: Point,
    pub window_origin: Point,
}

/// How far a point is from another.
pub open spec fn away(a: Point, b: Point) -> (int, int) {
    (a.x - b.x, a.y - b.y)
}

/// A place on the screen.
pub open spec fn coordinate(n: int) -> bool {
    i32::MIN <= n <= i32::MAX
}

/// A distance on the screen, in either direction.
pub open spec fn distance(n: int) -> bool {
    -i32::MAX <= n <= i32::MAX
}

/// The window can follow the cursor: how far it has come is a distance, and where the window goes, if
/// it does, is a place.
pub open spec fn can_follow(drag: Drag, cursor: Point) -> bool {
    let (dx, dy) = away(cursor, drag.drag_origin);
    &&& distance(dx)
    &&& distance(dy)
    &&& (drag.moved || is_far(drag, cursor)) && drag.on_handle ==> coordinate(
        drag.window_origin.x + dx,
    ) && coordinate(drag.window_origin.y + dy)
}

/// The cursor is further than two pixels from where the button was pressed.
pub open spec fn is_far(drag: Drag, cursor: Point) -> bool {
    let (dx, dy) = away(cursor, drag.drag_origin);
    dx > 2 || dx < -2 || dy > 2 || dy < -2
}

impl Drag {
    pub fn new() -> (drag: Self)
        ensures
            drag == (Drag {
                mouse_down: false,
                moved: false,
                on_handle: false,
                drag_origin: Point { x: 0, y: 0 },
                window_origin: Point { x: 0, y: 0 },
            }),
    {
        Drag {
            mouse_down: false,
            moved: false,
            on_handle: false,
            drag_origin: Point { x: 0, y: 0 },
            window_origin: Point { x: 0, y: 0 },
        }
    }

    /// The button is pressed.
    pub fn press(&mut self, cursor: Point, window: Point)
        ensures
            *final(self) == pressed_at(cursor, window),
    {
        self.mouse_down = true;
        self.moved = false;
        self.on_handle = false;
        self.drag_origin = cursor;
        self.window_origin = window;
    }

    /// The press was on the handle, or is no longer.
    pub fn set_on_handle(&mut self, on_handle: bool)
        ensures
            *final(self) == (Drag { on_handle, ..*old(self) }),
    {
        self.on_handle = on_handle;
    }

    /// The mouse has moved; the result is where the window goes, if it follows.
    pub fn move_to(&mut self, cursor: Point) -> (place: Option<Point>)
        requires
            old(self).mouse_down ==> can_follow(*old(self), cursor),
        ensures
            is_moved(*old(self), cursor, true, *final(self), place),
    {
        if !self.mouse_down {
            return None;
        }
        let dx: i32 = cursor.x - self.drag_origin.x;
        let dy: i32 = cursor.y - self.drag_origin.y;
        if dx > 2 || dx < -2 || dy > 2 || dy < -2 {
            self.moved = true;
        }
        if self.moved && self.on_handle {
            Some(Point { x: self.window_origin.x + dx, y: self.window_origin.y + dy })
        } else {
            None
        }
    }

    /// The same for a window that takes no notice of movements away from its handle.
    pub fn move_by_handle(&mut self, cursor: Point) -> (place: Option<Point>)
        requires
            old(self).mouse_down && old(self).on_handle ==> can_follow(*old(self), cursor),
        ensures
            is_moved(*old(self), cursor, false, *final(self), place),
    {
        if self.mouse_down && self.on_handle {
            self.move_to(cursor)
        } else {
            None
        }
    }

    /// The button is released; the result says whether the window was dragged. Otherwise it was a
    /// click.
    pub fn release(&mut self) -> (dragged: bool)
        ensures
            (dragged, *final(self)) == released(*old(self)),
    {
        let dragged = self.moved && self.on_handle;
        self.mouse_down = false;
        self.moved = false;
        self.on_handle = false;
        dragged
    }
}

/// Whether the window can follow the cursor.
pub fn follows(drag: &Drag, cursor: Point) -> (b: bool)
    ensures
        b == can_follow(*drag, cursor),
{
    let dx: i64 = cursor.x as i64 - drag.drag_origin.x as i64;
    let dy: i64 = cursor.y as i64 - drag.drag_origin.y as i64;
    let x: i64 = drag.window_origin.x as i64 + dx;
    let y: i64 = drag.window_origin.y as i64 + dy;
    let far = dx > 2 || dx < -2 || dy > 2 || dy < -2;
    let goes = (drag.moved || far) && drag.on_handle;
    -0x8000_0000 < dx && dx <= 0x7fff_ffff && -0x8000_0000 < dy && dy <= 0x7fff_ffff && (!goes || (
    -0x8000_0000 <= x && x <= 0x7fff_ffff && -0x8000_0000 <= y && y <= 0x7fff_ffff))
}

/// The signed number in sixteen bits.
pub open spec fn signed_word(n: int) -> int {
    if n < 0x8000 {
        n
    } else {
        n - 0x10000
    }
}

/// The point that a window message carries: the column in its lower, the row in its upper word.
pub fn client_xy(packed: u32) -> (point: (i32, i32))
    ensures
        point.0 as int == signed_word(packed as int % 0x10000),
        point.1 as int == signed_word(packed as int / 0x10000),
{
    let low: i32 = (packed % 0x10000) as i32;
    let high: i32 = (packed / 0x10000) as i32;
    let x: i32 = if low < 0x8000 {
        low
    } else {
        low - 0x10000
    };
    let y: i32 = if high < 0x8000 {
        high
    } else {
        high - 0x10000
    };
    (x, y)
}

/// What a UTF-16 unit types, after a first half `pending` (zero where there is none): control
/// characters and halves without their other half type nothing.
pub open spec fn typed_text(pending: u16, unit: u16) -> Option<Seq<char>> {
    if is_high(unit) {
        None
    } else if is_low(unit) {
        if pending == 0 {
            None
        } else {
            Some(utf16_text(seq![pending, unit]))
        }
    } else if unit < 0x20 || unit == 0x7f {
        None
    } else {
        Some(utf16_text(seq![unit]))
    }
}

/// What a UTF-16 unit types. The first half of a pair is kept for the second.
pub fn decode_wm_char(pending_high: &mut u16, unit: u16) -> (typed: Option<String>)
    ensures
        opt_view(typed) == typed_text(*old(pending_high), unit),
        *final(pending_high) == (if is_high(unit) {
            unit
        } else {
            0
        }),
{
    if 0xd800 <= unit && unit < 0xdc00 {
        *pending_high = unit;
        return None;
    }
    let high: u16 = *pending_high;
    *pending_high = 0;
    if 0xdc00 <= unit && unit < 0xe000 {
        if high == 0 {
            return None;
        }
        let units: Vec<u16> = vec![high, unit];
        assert(units@.take(2) =~= seq![high, unit]);
        Some(text::decode_utf16(&units, 2))
    } else {
        if unit < 0x20 || unit == 0x7f {
            return None;
        }
        let units: Vec<u16> = vec![unit];
        assert(units@.take(1) =~= seq![unit]);
        Some(text::decode_utf16(&units, 1))
    }
}

/// A character that is typed as a pair of units comes out as itself.
pub proof fn law_typed_pair_is_the_character(c: char)
    requires
        c as int >= 0x10000,
    ensures
        ({
            let units = text::utf16_units(c);
            is_high(units[0]) && typed_text(units[0], units[1]) == Some(seq![c])
        }),
{
    text::lemma_char_is_scalar(c);
    let units = text::utf16_units(c);
    assert(units =~= seq![units[0], units[1]]);
    assert(units.skip(2) =~= Seq::<u16>::empty());
    assert(utf16_text(Seq::<u16>::empty()) =~= Seq::<char>::empty());
    assert(utf16_text(units) =~= seq![c]);
}

/// A key that moves or changes what is typed.
#[derive(Clone, Copy, Debug, PartialEq, Eq, Structural)]
pub enum EditKey {
    Backspace,
    Delete,
    LeftArrow,
    RightArrow,
    Home,
    End,
    Return,
}

/// What a key does.
#[derive(Clone, Copy, Debug, PartialEq, Eq, Structural)]
pub enum KeyAction {
    Nothing,
    /// Closes the window.
    Close,
    /// Ends renaming or deleting.
    Abort,
    /// Goes to the field.
    Edit(EditKey),
}

/// The key by the number that Windows has for it.
pub open spec fn edit_key(vk: u16) -> Option<EditKey> {
    if vk == 0x08 {
        Some(EditKey::Backspace)
    } else if vk == 0x2e {
        Some(EditKey::Delete)
    } else if vk == 0x25 {
        Some(EditKey::LeftArrow)
    } else if vk == 0x27 {
        Some(EditKey::RightArrow)
    } else if vk == 0x24 {
        Some(EditKey::Home)
    } else if vk == 0x23 {
        Some(EditKey::End)
    } else if vk == 0x0d {
        Some(EditKey::Return)
    } else {
        None
    }
}

fn find_edit_key(vk: u16) -> (key: Option<EditKey>)
    ensures
        key == edit_key(vk),
{
    if vk == 0x08 {
        Some(EditKey::Backspace)
    } else if vk == 0x2e {
        Some(EditKey::Delete)
    } else if vk == 0x25 {
        Some(EditKey::LeftArrow)
    } else if vk == 0x27 {
        Some(EditKey::RightArrow)
    } else if vk == 0x24 {
        Some(EditKey::Home)
    } else if vk == 0x23 {
        Some(EditKey::End)
    } else if vk == 0x0d {
        Some(EditKey::Return)
    } else {
        None
    }
}

/// What a key does in the wizard: Escape closes it, the editing keys go to the field.
pub fn wizard_key(vk: u16) -> (action: KeyAction)
    ensures
        action == key_in_wizard(vk),
{
    if vk == 0x1b {
        return KeyAction::Close;
    }
    match find_edit_key(vk) {
        Some(key) => KeyAction::Edit(key),
        None => KeyAction::Nothing,
    }
}

/// What a key does in the menu: Escape ends renaming or deleting, or else closes it; the editing
/// keys go to the field while a profile is renamed.
pub fn menu_key(vk: u16, editing: bool, deleting: bool) -> (action: KeyAction)
    ensures
        action == key_in_menu(vk, editing, deleting),
{
    if vk == 0x1b {
        return if editing || deleting {
            KeyAction::Abort
        } else {
            KeyAction::Close
        };
    }
    if !editing {
        return KeyAction::Nothing;
    }
    match find_edit_key(vk) {
        Some(key) => KeyAction::Edit(key),
        None => KeyAction::Nothing,
    }
}

/// What pressing a button in the menu does.
#[derive(Clone, Copy, Debug, PartialEq, Eq, Structural)]
pub enum PressAction {
    Nothing,
    Close,
    Press,
}

pub open spec fn is_inside(x: int, y: int, width: int, height: int) -> bool {
    0 <= x < width && 0 <= y < height
}

pub fn inside(x: i32, y: i32, width: u32, height: u32) -> (b: bool)
    ensures
        b == is_inside(x as int, y as int, width as int, height as int),
{
    x >= 0 && y >= 0 && (x as u32) < width && (y as u32) < height
}

/// What pressing a button in the menu does: outside of it, it closes the menu; inside, only the
/// left one presses.
pub fn menu_press(x: i32, y: i32, width: u32, height: u32, left: bool) -> (action: PressAction)
    ensures
        action == press_in_menu((x, y), (width, height), left),
{
    if !inside(x, y, width, height) {
        PressAction::Close
    } else if left {
        PressAction::Press
    } else {
        PressAction::Nothing
    }
}

/// A drag ends where it began relative to the window: after pressing on the handle and moving far
/// enough, the window is as far from where it was as the cursor is.
pub proof fn law_window_follows_cursor(drag: Drag, cursor: Point, place: Point)
    requires
        away(place, drag.window_origin) == away(cursor, drag.drag_origin),
    ensures
        away(place, cursor) == away(drag.window_origin, drag.drag_origin),
{
}

/// A coordinate in sixteen bits is signed: a point left of the window or above it comes out negative,
/// and only there the two differ, by a whole turn.
pub proof fn law_points_outside_are_negative(n: int)
    requires
        0 <= n < 0x10000,
    ensures
        -0x8000 <= signed_word(n) < 0x8000,
        signed_word(n) == n || signed_word(n) == n - 0x10000,
        signed_word(0xffff) == -1,
        n < 0x8000 ==> signed_word(n) == n,
{
}

/// A small movement is a click and none of the window; a larger one in any direction is a drag.
pub proof fn law_small_movements_are_clicks(drag: Drag, cursor: Point)
    ensures
        is_far(drag, cursor) <==> !(-2 <= cursor.x - drag.drag_origin.x <= 2 && -2 <= cursor.y
            - drag.drag_origin.y <= 2),
        !is_far(drag, drag.drag_origin),
{
}

/// What is typed in one unit comes out as it is, but for control characters, which type nothing; a
/// half of a pair types nothing without its other half.
pub proof fn law_plain_units_type_themselves(pending: u16, unit: u16)
    ensures
        0x20 <= unit < 0x7f ==> typed_text(pending, unit) == Some(seq![unit as char]),
        unit < 0x20 || unit == 0x7f ==> typed_text(pending, unit) is None,
        is_high(unit) ==> typed_text(pending, unit) is None,
        is_low(unit) ==> typed_text(0, unit) is None,
{
    if 0x20 <= unit < 0x7f {
        let units = seq![unit];
        assert(units.skip(1) =~= Seq::<u16>::empty());
        assert(utf16_text(Seq::<u16>::empty()) =~= Seq::<char>::empty());
        assert(utf16_text(units) =~= seq![unit as char]);
    }
}

/// The keys by the numbers that Windows has for them.
pub proof fn law_keys_have_their_numbers(vk: u16)
    ensures
        edit_key(vk) == Some(EditKey::Backspace) <==> vk == 0x08,
        edit_key(vk) == Some(EditKey::Return) <==> vk == 0x0d,
        edit_key(vk) == Some(EditKey::End) <==> vk == 0x23,
        edit_key(vk) == Some(EditKey::Home) <==> vk == 0x24,
        edit_key(vk) == Some(EditKey::LeftArrow) <==> vk == 0x25,
        edit_key(vk) == Some(EditKey::RightArrow) <==> vk == 0x27,
        edit_key(vk) == Some(EditKey::Delete) <==> vk == 0x2e,
        edit_key(0x1b) is None,
{
}

/// A drag that has just begun.
pub open spec fn pressed_at(cursor: Point, window: Point) -> Drag {
    Drag {
        mouse_down: true,
        moved: false,
        on_handle: false,
        drag_origin: cursor,
        window_origin: window,
    }
}

/// The mouse has moved: how the drag stands then, and where the window goes, if it follows.
/// Movements away from the handle count only where `anywhere` says so.
pub open spec fn is_moved(
    before: Drag,
    cursor: Point,
    anywhere: bool,
    after: Drag,
    place: Option<Point>,
) -> bool {
    &&& after.moved == (before.moved || (before.mouse_down && (anywhere || before.on_handle)
        && is_far(before, cursor)))
    &&& after == (Drag { moved: after.moved, ..before })
    &&& match place {
        Some(place) => before.mouse_down && after.moved && before.on_handle && away(
            place,
            before.window_origin,
        ) == away(cursor, before.drag_origin),
        None => !(before.mouse_down && after.moved && before.on_handle),
    }
}

/// The button was released: whether the window was dragged, and how the drag stands then.
pub open spec fn released(drag: Drag) -> (bool, Drag) {
    (
        drag.moved && drag.on_handle,
        Drag { mouse_down: false, moved: false, on_handle: false, ..drag },
    )
}

/// What a key does in the wizard.
pub open spec fn key_in_wizard(vk: u16) -> KeyAction {
    if vk == 0x1b {
        KeyAction::Close
    } else {
        match edit_key(vk) {
            Some(key) => KeyAction::Edit(key),
            None => KeyAction::Nothing,
        }
    }
}

/// What a key does in the menu.
pub open spec fn key_in_menu(vk: u16, editing: bool, deleting: bool) -> KeyAction {
    if vk == 0x1b {
        if editing || deleting {
            KeyAction::Abort
        } else {
            KeyAction::Close
        }
    } else if editing {
        match edit_key(vk) {
            Some(key) => KeyAction::Edit(key),
            None => KeyAction::Nothing,
        }
    } else {
        KeyAction::Nothing
    }
}

/// What pressing a button in the menu does.
pub open spec fn press_in_menu(place: (i32, i32), size: (u32, u32), left: bool) -> PressAction {
    if !is_inside(place.0 as int, place.1 as int, size.0 as int, size.1 as int) {
        PressAction::Close
    } else if left {
        PressAction::Press
    } else {
        PressAction::Nothing
    }
}

/// A window that follows the mouse goes as far as the mouse has gone since it was pressed, and only
/// while it is held by its handle; a press that did not move far is no drag.
pub proof fn law_window_follows_its_handle(
    cursor: Point,
    window: Point,
    to: Point,
    anywhere: bool,
    held: Drag,
    after: Drag,
    place: Option<Point>,
)
    requires
        held == (Drag { on_handle: true, ..pressed_at(cursor, window) }),
        is_moved(held, to, anywhere, after, place),
    ensures
        place is Some <==> is_far(held, to),
        place matches Some(place) ==> away(place, window) == away(to, cursor),
        released(after).0 <==> is_far(held, to),
        !released(after).1.mouse_down,
        !released(held).0,
        !released(pressed_at(cursor, window)).0,
        released(released(after).1).0 == false,
{
}

/// A window that is not held by its handle stays where it is, and so does one whose button is not
/// pressed.
pub proof fn law_window_stays_without_its_handle(
    drag: Drag,
    to: Point,
    anywhere: bool,
    after: Drag,
    place: Option<Point>,
)
    requires
        !drag.on_handle || !drag.mouse_down,
        is_moved(drag, to, anywhere, after, place),
    ensures
        place is None,
        !drag.on_handle ==> !released(after).0,
        !drag.mouse_down ==> after == drag,
{
}

/// Escape leaves what is open, the innermost first; the other keys reach a field only where one is
/// edited, and then the same key does the same in the menu and in the wizard.
pub proof fn law_escape_leaves_the_innermost(vk: u16, editing: bool, deleting: bool)
    ensures
        key_in_wizard(27) == KeyAction::Close,
        key_in_menu(27, editing, deleting) == (if editing || deleting {
            KeyAction::Abort
        } else {
            KeyAction::Close
        }),
        vk != 27 ==> key_in_menu(vk, true, deleting) == key_in_wizard(vk),
        vk != 27 ==> key_in_menu(vk, false, deleting) == KeyAction::Nothing,
        vk != 27 ==> key_in_wizard(vk) != KeyAction::Close,
{
}

/// A press outside of the menu closes it, with whichever button; inside only the left one counts.
pub proof fn law_presses_outside_close_the_menu(x: i32, y: i32, width: u32, height: u32, left: bool)
    ensures
        x < 0 || y < 0 || x >= width || y >= height ==> press_in_menu((x, y), (width, height), left)
            == PressAction::Close,
        0 <= x < width && 0 <= y < height ==> press_in_menu((x, y), (width, height), true)
            == PressAction::Press && press_in_menu((x, y), (width, height), false)
            == PressAction::Nothing,
{
}

} // verus!
