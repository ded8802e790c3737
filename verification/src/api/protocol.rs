//! What clients can ask, and how their messages are understood.
use crate::commands::UiCommand;
use crate::json;
use crate::json::{
    distinct_keys, json_document, wrong_type_text, wrong_value_text, Document, DocumentKind, DocumentView,
    ItemView, JsonItem,
};
use crate::number::{single_of_integer, Real64};
use crate::text;
use crate::text::{decimal, decimal_int, opt_view, trimmed};
use crate::ui_state;
use crate::ui_state::{mode_named, timer_frames, FrameDisplayMode};
use vstd::prelude::*;

verus! {

#[derive(Debug, PartialEq, Eq)]
pub struct ClientRequest {
    pub request_id: Option<JsonItem>,
    pub action: ClientAction,
}

#[derive(Debug, PartialEq, Eq)]
pub enum ClientAction {
    GetSnapshot,
    GetFrame { frame_id: u64 },
    SendCommand(UiCommand),
    CancelCalibration,
    Exit,
}

#[derive(Debug, PartialEq, Eq)]
pub struct RequestError {
    pub request_id: Option<JsonItem>,
    pub code: &'static str,
    pub message: String,
}

/// The fields of a request, before it is known what they are for.
#[derive(Debug)]
pub struct RawClientRequest {
    pub request_type: Option<String>,
    pub request_id: Option<JsonItem>,
    pub frame_id: Option<u64>,
    pub frames: Option<i32>,
    pub filename: Option<String>,
    pub old: Option<String>,
    pub new_base: Option<String>,
    pub display_mode: Option<String>,
    pub time: Option<String>,
    pub scale: Option<Real64>,
    pub x: Option<i32>,
    pub y: Option<i32>,
}

/// What the fields of a request say.
#[verifier::ext_equal]
pub struct RawRequest {
    pub request_type: Option<Seq<char>>,
    pub request_id: Option<ItemView>,
    pub frame_id: Option<u64>,
    pub frames: Option<i32>,
    pub filename: Option<Seq<char>>,
    pub old: Option<Seq<char>>,
    pub new_base: Option<Seq<char>>,
    pub display_mode: Option<Seq<char>>,
    pub time: Option<Seq<char>>,
    pub scale: Option<Real64>,
    pub x: Option<i32>,
    pub y: Option<i32>,
}

pub open spec fn opt_item(item: Option<JsonItem>) -> Option<ItemView> {
    match item {
        Some(item) => Some(item@),
        None => None,
    }
}

impl View for RawClientRequest {
    type V = RawRequest;

    open spec fn view(&self) -> RawRequest {
        RawRequest {
            request_type: opt_view(self.request_type),
            request_id: opt_item(self.request_id),
            frame_id: self.frame_id,
            frames: self.frames,
            filename: opt_view(self.filename),
            old: opt_view(self.old),
            new_base: opt_view(self.new_base),
            display_mode: opt_view(self.display_mode),
            time: opt_view(self.time),
            scale: self.scale,
            x: self.x,
            y: self.y,
        }
    }
}

/// A request without any field.
pub open spec fn no_fields() -> RawRequest {
    RawRequest {
        request_type: None,
        request_id: None,
        frame_id: None,
        frames: None,
        filename: None,
        old: None,
        new_base: None,
        display_mode: None,
        time: None,
        scale: None,
        x: None,
        y: None,
    }
}

/// A text that has to be there.
pub open spec fn as_text(item: ItemView) -> Result<Seq<char>, Seq<char>> {
    match item {
        ItemView::Text(s) => Ok(s),
        _ => Err(wrong_type_text(item, "a string"@)),
    }
}

/// A text, where the value is not null.
pub open spec fn as_opt_text(item: ItemView) -> Result<Option<Seq<char>>, Seq<char>> {
    match item {
        ItemView::Null => Ok(None),
        ItemView::Text(s) => Ok(Some(s)),
        _ => Err(wrong_type_text(item, "a string"@)),
    }
}

pub open spec fn as_opt_u64(item: ItemView) -> Result<Option<u64>, Seq<char>> {
    match item {
        ItemView::Null => Ok(None),
        ItemView::Unsigned { value, .. } => Ok(Some(value)),
        ItemView::Negative { .. } => Err(wrong_value_text(item, "u64"@)),
        _ => Err(wrong_type_text(item, "u64"@)),
    }
}

pub open spec fn as_opt_i32(item: ItemView) -> Result<Option<i32>, Seq<char>> {
    match item {
        ItemView::Null => Ok(None),
        ItemView::Unsigned { value, .. } => if value <= i32::MAX {
            Ok(Some(value as i32))
        } else {
            Err(wrong_value_text(item, "i32"@))
        },
        ItemView::Negative { value, .. } => if i32::MIN <= value <= i32::MAX {
            Ok(Some(value as i32))
        } else {
            Err(wrong_value_text(item, "i32"@))
        },
        _ => Err(wrong_type_text(item, "i32"@)),
    }
}

pub open spec fn as_opt_single(item: ItemView) -> Result<Option<Real64>, Seq<char>> {
    match item {
        ItemView::Null => Ok(None),
        ItemView::Unsigned { value, .. } => Ok(Some(single_of_integer(value as int))),
        ItemView::Negative { value, .. } => Ok(Some(single_of_integer(value as int))),
        ItemView::Float { bits, .. } => Ok(Some((Real64 { bits }).in_single())),
        _ => Err(wrong_type_text(item, "f32"@)),
    }
}

/// The fields by their place in a request that is written as an array.
pub const FIELD_COUNT: usize = 12;

/// The place of the field of that name; behind all fields where there is none.
pub open spec fn field_named(key: Seq<char>) -> int {
    if key == "type"@ {
        0
    } else if key == "requestId"@ {
        1
    } else if key == "frameId"@ {
        2
    } else if key == "frames"@ {
        3
    } else if key == "filename"@ {
        4
    } else if key == "old"@ {
        5
    } else if key == "newBase"@ {
        6
    } else if key == "displayMode"@ {
        7
    } else if key == "time"@ {
        8
    } else if key == "scale"@ {
        9
    } else if key == "x"@ {
        10
    } else if key == "y"@ {
        11
    } else {
        12
    }
}

/// The fields with `item` in the place `field`, or what is wrong with it. A value behind all fields
/// is left aside.
pub open spec fn with_field(raw: RawRequest, field: int, item: ItemView) -> Result<
    RawRequest,
    Seq<char>,
> {
    if field == 0 {
        match as_text(item) {
            Ok(s) => Ok(RawRequest { request_type: Some(s), ..raw }),
            Err(message) => Err(message),
        }
    } else if field == 1 {
        Ok(
            RawRequest {
                request_id: if item == ItemView::Null {
                    None
                } else {
                    Some(item)
                },
                ..raw
            },
        )
    } else if field == 2 {
        match as_opt_u64(item) {
            Ok(n) => Ok(RawRequest { frame_id: n, ..raw }),
            Err(message) => Err(message),
        }
    } else if field == 3 {
        match as_opt_i32(item) {
            Ok(n) => Ok(RawRequest { frames: n, ..raw }),
            Err(message) => Err(message),
        }
    } else if field == 9 {
        match as_opt_single(item) {
            Ok(n) => Ok(RawRequest { scale: n, ..raw }),
            Err(message) => Err(message),
        }
    } else if field == 10 {
        match as_opt_i32(item) {
            Ok(n) => Ok(RawRequest { x: n, ..raw }),
            Err(message) => Err(message),
        }
    } else if field == 11 {
        match as_opt_i32(item) {
            Ok(n) => Ok(RawRequest { y: n, ..raw }),
            Err(message) => Err(message),
        }
    } else if 4 <= field <= 8 {
        match as_opt_text(item) {
            Ok(s) => Ok(
                if field == 4 {
                    RawRequest { filename: s, ..raw }
                } else if field == 5 {
                    RawRequest { old: s, ..raw }
                } else if field == 6 {
                    RawRequest { new_base: s, ..raw }
                } else if field == 7 {
                    RawRequest { display_mode: s, ..raw }
                } else {
                    RawRequest { time: s, ..raw }
                },
            ),
            Err(message) => Err(message),
        }
    } else {
        Ok(raw)
    }
}

/// The fields of an object, taken in the order of its members; the first that is wrong decides.
pub open spec fn fields_of_members(entries: Seq<(Seq<char>, ItemView)>) -> Result<
    RawRequest,
    Seq<char>,
>
    decreases entries.len(),
{
    if entries.len() == 0 {
        Ok(no_fields())
    } else {
        match fields_of_members(entries.drop_last()) {
            Ok(raw) => with_field(raw, field_named(entries.last().0), entries.last().1),
            Err(message) => Err(message),
        }
    }
}

/// The first `n` fields of a request that is written as an array.
pub open spec fn fields_of_elements(entries: Seq<(Seq<char>, ItemView)>, n: int) -> Result<
    RawRequest,
    Seq<char>,
>
    decreases n,
{
    if n <= 0 {
        Ok(no_fields())
    } else {
        match fields_of_elements(entries, n - 1) {
            Ok(raw) => if n <= entries.len() {
                with_field(raw, n - 1, entries[n - 1].1)
            } else {
                Err(
                    "invalid length "@ + decimal((n - 1) as nat)
                        + ", expected struct RawClientRequest with 12 elements"@,
                )
            },
            Err(message) => Err(message),
        }
    }
}

/// The fields that a document holds, or what is wrong with it.
pub open spec fn fields_of(document: DocumentView) -> Result<RawRequest, Seq<char>> {
    match document.kind {
        DocumentKind::Object => match fields_of_members(document.entries) {
            Ok(raw) => if raw.request_type is Some {
                Ok(raw)
            } else {
                Err("missing field `type`"@)
            },
            Err(message) => Err(message),
        },
        DocumentKind::Array => match fields_of_elements(document.entries, 12) {
            Ok(raw) => if document.entries.len() > 12 {
                Err(
                    "invalid length "@ + decimal(document.entries.len())
                        + ", expected fewer elements in array"@,
                )
            } else {
                Ok(raw)
            },
            Err(message) => Err(message),
        },
        DocumentKind::Scalar => Err(
            wrong_type_text(
                if document.entries.len() > 0 {
                    document.entries[0].1
                } else {
                    ItemView::Null
                },
                "struct RawClientRequest"@,
            ),
        ),
    }
}

/// The value of the first member `requestId` of an object.
pub open spec fn request_id_in(entries: Seq<(Seq<char>, ItemView)>) -> Option<ItemView>
    decreases entries.len(),
{
    if entries.len() == 0 {
        None
    } else if entries[0].0 == "requestId"@ {
        Some(entries[0].1)
    } else {
        request_id_in(entries.drop_first())
    }
}

/// The request id that a document names, whatever else it holds.
pub open spec fn named_request_id(document: DocumentView) -> Option<ItemView> {
    match document.kind {
        DocumentKind::Object => request_id_in(document.entries),
        _ => None,
    }
}

/// What a client wants.
#[verifier::ext_equal]
pub enum Wish {
    GetSnapshot,
    GetFrame(u64),
    PrepareCalibration,
    StartCalibration,
    CancelCalibration,
    UseProfile(Seq<char>),
    RenameProfile(Seq<char>, Seq<char>),
    DeleteProfile(Seq<char>),
    SetDisplayMode(FrameDisplayMode),
    AdjustTimer(i32),
    SetTimer(i32),
    ResetTimer,
    UndoResetTimer,
    ToggleLapTimer,
    SetOverlayScale(Real64),
    SaveOverlayPlacement(i32, i32),
    /// The end of the program, as a command of its own.
    ExitCommand,
    Exit,
}

pub open spec fn command_wish(command: UiCommand) -> Wish {
    match command {
        UiCommand::PrepareCalibration => Wish::PrepareCalibration,
        UiCommand::StartCalibration => Wish::StartCalibration,
        UiCommand::UseProfile { filename } => Wish::UseProfile(filename@),
        UiCommand::RenameProfile { old, new_base } => Wish::RenameProfile(old@, new_base@),
        UiCommand::DeleteProfile { filename } => Wish::DeleteProfile(filename@),
        UiCommand::SetDisplayMode(mode) => Wish::SetDisplayMode(mode),
        UiCommand::AdjustTimer { frames } => Wish::AdjustTimer(frames),
        UiCommand::SetTimer { frames } => Wish::SetTimer(frames),
        UiCommand::ResetTimer => Wish::ResetTimer,
        UiCommand::UndoResetTimer => Wish::UndoResetTimer,
        UiCommand::ToggleLapTimer => Wish::ToggleLapTimer,
        UiCommand::SetOverlayScale(scale) => Wish::SetOverlayScale(scale),
        UiCommand::SaveOverlayPlacement { x, y } => Wish::SaveOverlayPlacement(x, y),
        UiCommand::Exit => Wish::ExitCommand,
    }
}

pub open spec fn wish(action: ClientAction) -> Wish {
    match action {
        ClientAction::GetSnapshot => Wish::GetSnapshot,
        ClientAction::GetFrame { frame_id } => Wish::GetFrame(frame_id),
        ClientAction::SendCommand(command) => command_wish(command),
        ClientAction::CancelCalibration => Wish::CancelCalibration,
        ClientAction::Exit => Wish::Exit,
    }
}

/// A refusal: its code and its message.
pub open spec fn refusal(message: Seq<char>) -> (Seq<char>, Seq<char>) {
    ("invalid_request"@, message)
}

pub open spec fn missing(field: Seq<char>) -> (Seq<char>, Seq<char>) {
    refusal("missing required field '"@ + field + "'"@)
}

/// A text that a request needs: it has to be there and to hold more than white space.
pub open spec fn needed_text(value: Option<Seq<char>>, field: Seq<char>) -> Result<
    Seq<char>,
    (Seq<char>, Seq<char>),
> {
    match value {
        None => Err(missing(field)),
        Some(s) => if trimmed(s).len() == 0 {
            Err(refusal("field '"@ + field + "' must not be empty"@))
        } else {
            Ok(trimmed(s))
        },
    }
}

/// The frame count that a timer is to be set to.
pub open spec fn timer_target(raw: RawRequest) -> Result<i32, (Seq<char>, Seq<char>)> {
    match raw.frames {
        Some(frames) => if frames < 0 {
            Err(refusal("field 'frames' must be non-negative; got "@ + decimal_int(frames as int)))
        } else {
            Ok(frames)
        },
        None => match needed_text(raw.time, "time"@) {
            Ok(time) => match timer_frames(time) {
                Some(frames) => Ok(frames as i32),
                None => Err(refusal("field 'time' must be XX:XX:XX or XX frames"@)),
            },
            Err(error) => Err(error),
        },
    }
}

/// What the fields of a request mean: a wish, or the code and message of a refusal.
pub open spec fn meaning(raw: RawRequest) -> Result<Wish, (Seq<char>, Seq<char>)> {
    let kind = raw.request_type->0;
    if kind == "getSnapshot"@ {
        Ok(Wish::GetSnapshot)
    } else if kind == "getFrame"@ {
        match raw.frame_id {
            Some(frame_id) => Ok(Wish::GetFrame(frame_id)),
            None => Err(missing("frameId"@)),
        }
    } else if kind == "prepareCalibration"@ {
        Ok(Wish::PrepareCalibration)
    } else if kind == "startCalibration"@ {
        Ok(Wish::StartCalibration)
    } else if kind == "cancelCalibration"@ {
        Ok(Wish::CancelCalibration)
    } else if kind == "useProfile"@ {
        match needed_text(raw.filename, "filename"@) {
            Ok(filename) => Ok(Wish::UseProfile(filename)),
            Err(error) => Err(error),
        }
    } else if kind == "renameProfile"@ {
        match needed_text(raw.old, "old"@) {
            Ok(old) => match needed_text(raw.new_base, "newBase"@) {
                Ok(new_base) => Ok(Wish::RenameProfile(old, new_base)),
                Err(error) => Err(error),
            },
            Err(error) => Err(error),
        }
    } else if kind == "deleteProfile"@ {
        match needed_text(raw.filename, "filename"@) {
            Ok(filename) => Ok(Wish::DeleteProfile(filename)),
            Err(error) => Err(error),
        }
    } else if kind == "setDisplayMode"@ {
        match needed_text(raw.display_mode, "displayMode"@) {
            Ok(name) => match mode_named(name) {
                Some(mode) => Ok(Wish::SetDisplayMode(mode)),
                None => Err(
                    refusal("displayMode must be one of 0_to_n-1, 0_to_n, 1_to_n; got "@ + name),
                ),
            },
            Err(error) => Err(error),
        }
    } else if kind == "adjustTimer"@ {
        match raw.frames {
            Some(frames) => Ok(Wish::AdjustTimer(frames)),
            None => Err(missing("frames"@)),
        }
    } else if kind == "setTimer"@ {
        match timer_target(raw) {
            Ok(frames) => Ok(Wish::SetTimer(frames)),
            Err(error) => Err(error),
        }
    } else if kind == "resetTimer"@ {
        Ok(Wish::ResetTimer)
    } else if kind == "undoResetTimer"@ {
        Ok(Wish::UndoResetTimer)
    } else if kind == "toggleLapTimer"@ {
        Ok(Wish::ToggleLapTimer)
    } else if kind == "setOverlayScale"@ {
        match raw.scale {
            Some(scale) => if scale.finite() {
                Ok(Wish::SetOverlayScale(scale))
            } else {
                Err(refusal("field 'scale' must be finite"@))
            },
            None => Err(missing("scale"@)),
        }
    } else if kind == "saveOverlayPlacement"@ {
        match raw.x {
            Some(x) => match raw.y {
                Some(y) => Ok(Wish::SaveOverlayPlacement(x, y)),
                None => Err(missing("y"@)),
            },
            None => Err(missing("x"@)),
        }
    } else if kind == "exit"@ {
        Ok(Wish::Exit)
    } else {
        Err(("unknown_request"@, "unknown websocket request type '"@ + kind + "'"@))
    }
}

/// What a message means: a request with its id, or a refusal with the id it answers.
pub enum Understood {
    Request { request_id: Option<ItemView>, wish: Wish },
    Refused { request_id: Option<ItemView>, code: Seq<char>, message: Seq<char> },
}

/// What a document asks for.
pub open spec fn understood(document: DocumentView) -> Understood {
    match fields_of(document) {
        Err(message) => Understood::Refused {
            request_id: named_request_id(document),
            code: "invalid_request"@,
            message: "invalid websocket request: "@ + message,
        },
        Ok(raw) => match meaning(raw) {
            Ok(wish) => Understood::Request { request_id: raw.request_id, wish },
            Err((code, message)) => Understood::Refused {
                request_id: raw.request_id,
                code,
                message,
            },
        },
    }
}

/// What a message asks for.
pub open spec fn understood_text(text: Seq<char>) -> Understood {
    match json_document(text) {
        Ok(document) => understood(document),
        Err(message) => Understood::Refused {
            request_id: None,
            code: "invalid_json"@,
            message: "invalid JSON request: "@ + message,
        },
    }
}

/// `result` is what is `understood`.
pub open spec fn agrees(
    result: Result<ClientRequest, RequestError>,
    understood: Understood,
) -> bool {
    match result {
        Ok(request) => understood == Understood::Request {
            request_id: opt_item(request.request_id),
            wish: wish(request.action),
        },
        Err(error) => understood == Understood::Refused {
            request_id: opt_item(error.request_id),
            code: error.code@,
            message: error.message@,
        },
    }
}

fn read_text(item: &JsonItem) -> (r: Result<String, String>)
    ensures
        match r {
            Ok(s) => as_text(item@) == Ok::<Seq<char>, Seq<char>>(s@),
            Err(message) => as_text(item@) == Err::<Seq<char>, Seq<char>>(message@),
        },
{
    match item {
        JsonItem::Text(s) => Ok(s.clone()),
        _ => Err(json::wrong_type(item, "a string")),
    }
}

fn read_opt_text(item: &JsonItem) -> (r: Result<Option<String>, String>)
    ensures
        match r {
            Ok(s) => as_opt_text(item@) == Ok::<Option<Seq<char>>, Seq<char>>(opt_view(s)),
            Err(message) => as_opt_text(item@) == Err::<Option<Seq<char>>, Seq<char>>(message@),
        },
{
    match item {
        JsonItem::Null => Ok(None),
        JsonItem::Text(s) => Ok(Some(s.clone())),
        _ => Err(json::wrong_type(item, "a string")),
    }
}

fn read_opt_u64(item: &JsonItem) -> (r: Result<Option<u64>, String>)
    ensures
        match r {
            Ok(n) => as_opt_u64(item@) == Ok::<Option<u64>, Seq<char>>(n),
            Err(message) => as_opt_u64(item@) == Err::<Option<u64>, Seq<char>>(message@),
        },
{
    match item {
        JsonItem::Null => Ok(None),
        JsonItem::Unsigned { value, .. } => Ok(Some(*value)),
        JsonItem::Negative { .. } => Err(json::wrong_value(item, "u64")),
        _ => Err(json::wrong_type(item, "u64")),
    }
}

fn read_opt_i32(item: &JsonItem) -> (r: Result<Option<i32>, String>)
    ensures
        match r {
            Ok(n) => as_opt_i32(item@) == Ok::<Option<i32>, Seq<char>>(n),
            Err(message) => as_opt_i32(item@) == Err::<Option<i32>, Seq<char>>(message@),
        },
{
    match item {
        JsonItem::Null => Ok(None),
        JsonItem::Unsigned { value, .. } => if *value <= 0x7fff_ffff {
            Ok(Some(*value as i32))
        } else {
            Err(json::wrong_value(item, "i32"))
        },
        JsonItem::Negative { value, .. } => if -0x8000_0000 <= *value && *value <= 0x7fff_ffff {
            Ok(Some(*value as i32))
        } else {
            Err(json::wrong_value(item, "i32"))
        },
        _ => Err(json::wrong_type(item, "i32")),
    }
}

fn read_opt_single(item: &JsonItem) -> (r: Result<Option<Real64>, String>)
    ensures
        match r {
            Ok(n) => as_opt_single(item@) == Ok::<Option<Real64>, Seq<char>>(n),
            Err(message) => as_opt_single(item@) == Err::<Option<Real64>, Seq<char>>(message@),
        },
{
    match item {
        JsonItem::Null => Ok(None),
        JsonItem::Unsigned { value, .. } => Ok(Some(Real64::single_from_u64(*value))),
        JsonItem::Negative { value, .. } => Ok(Some(Real64::single_from_i64(*value))),
        JsonItem::Float { bits, .. } => Ok(Some((Real64 { bits: *bits }).to_single())),
        _ => Err(json::wrong_type(item, "f32")),
    }
}

fn field_index(key: &str) -> (field: usize)
    ensures
        field == field_named(key@),
        field <= 12,
{
    if text::same(key, "type") {
        0
    } else if text::same(key, "requestId") {
        1
    } else if text::same(key, "frameId") {
        2
    } else if text::same(key, "frames") {
        3
    } else if text::same(key, "filename") {
        4
    } else if text::same(key, "old") {
        5
    } else if text::same(key, "newBase") {
        6
    } else if text::same(key, "displayMode") {
        7
    } else if text::same(key, "time") {
        8
    } else if text::same(key, "scale") {
        9
    } else if text::same(key, "x") {
        10
    } else if text::same(key, "y") {
        11
    } else {
        12
    }
}

impl RawClientRequest {
    fn empty() -> (raw: Self)
        ensures
            raw@ == no_fields(),
    {
        RawClientRequest {
            request_type: None,
            request_id: None,
            frame_id: None,
            frames: None,
            filename: None,
            old: None,
            new_base: None,
            display_mode: None,
            time: None,
            scale: None,
            x: None,
            y: None,
        }
    }

    /// Puts `item` in the place `field`.
    fn set_field(&mut self, field: usize, item: &JsonItem) -> (r: Result<(), String>)
        ensures
            match r {
                Ok(_) => with_field(old(self)@, field as int, item@) == Ok::<RawRequest, Seq<char>>(
                    final(self)@,
                ),
                Err(message) => with_field(old(self)@, field as int, item@) == Err::<
                    RawRequest,
                    Seq<char>,
                >(message@),
            },
    {
        if field == 0 {
            match read_text(item) {
                Ok(s) => self.request_type = Some(s),
                Err(message) => {
                    return Err(message);
                },
            }
        } else if field == 1 {
            self.request_id =
            match item {
                JsonItem::Null => None,
                _ => Some(item.clone()),
            };
        } else if field == 2 {
            match read_opt_u64(item) {
                Ok(n) => self.frame_id = n,
                Err(message) => {
                    return Err(message);
                },
            }
        } else if field == 3 || field == 10 || field == 11 {
            match read_opt_i32(item) {
                Ok(n) => if field == 3 {
                    self.frames = n;
                } else if field == 10 {
                    self.x = n;
                } else {
                    self.y = n;
                },
                Err(message) => {
                    return Err(message);
                },
            }
        } else if field == 9 {
            match read_opt_single(item) {
                Ok(n) => self.scale = n,
                Err(message) => {
                    return Err(message);
                },
            }
        } else if field <= 8 {
            match read_opt_text(item) {
                Ok(s) => if field == 4 {
                    self.filename = s;
                } else if field == 5 {
                    self.old = s;
                } else if field == 6 {
                    self.new_base = s;
                } else if field == 7 {
                    self.display_mode = s;
                } else {
                    self.time = s;
                },
                Err(message) => {
                    return Err(message);
                },
            }
        }
        Ok(())
    }

    /// The fields that a document holds.
    pub fn from_document(document: &Document) -> (r: Result<Self, String>)
        ensures
            match r {
                Ok(raw) => fields_of(document@) == Ok::<RawRequest, Seq<char>>(raw@)
                    && raw.request_type is Some,
                Err(message) => fields_of(document@) == Err::<RawRequest, Seq<char>>(message@),
            },
    {
        match document.kind {
            DocumentKind::Object => Self::from_members(document),
            DocumentKind::Array => Self::from_elements(document),
            DocumentKind::Scalar => {
                let null = JsonItem::Null;
                let item = if document.entries.len() > 0 {
                    &document.entries[0].1
                } else {
                    &null
                };
                Err(json::wrong_type(item, "struct RawClientRequest"))
            },
        }
    }

    fn from_members(document: &Document) -> (r: Result<Self, String>)
        requires
            document.kind == DocumentKind::Object,
        ensures
            match r {
                Ok(raw) => fields_of(document@) == Ok::<RawRequest, Seq<char>>(raw@)
                    && raw.request_type is Some,
                Err(message) => fields_of(document@) == Err::<RawRequest, Seq<char>>(message@),
            },
    {
        let ghost entries = document@.entries;
        let mut raw = Self::empty();
        let mut i: usize = 0;
        assert(entries.take(0) =~= Seq::<(Seq<char>, ItemView)>::empty());
        while i < document.entries.len()
            invariant
                document.kind == DocumentKind::Object,
                i <= document.entries@.len() == entries.len(),
                entries == document@.entries,
                fields_of_members(entries.take(i as int)) == Ok::<RawRequest, Seq<char>>(raw@),
            decreases document.entries@.len() - i,
        {
            let entry = &document.entries[i];
            proof {
                assert(entries[i as int] == (entry.0@, entry.1@));
                assert(entries.take(i as int + 1).drop_last() =~= entries.take(i as int));
            }
            match raw.set_field(field_index(&entry.0), &entry.1) {
                Ok(_) => {},
                Err(message) => {
                    proof {
                        lemma_wrong_member(entries, i as int + 1);
                    }
                    return Err(message);
                },
            }
            i += 1;
        }
        assert(entries.take(i as int) =~= entries);
        if raw.request_type.is_none() {
            return Err("missing field `type`".to_owned());
        }
        Ok(raw)
    }

    fn from_elements(document: &Document) -> (r: Result<Self, String>)
        requires
            document.kind == DocumentKind::Array,
        ensures
            match r {
                Ok(raw) => fields_of(document@) == Ok::<RawRequest, Seq<char>>(raw@)
                    && raw.request_type is Some,
                Err(message) => fields_of(document@) == Err::<RawRequest, Seq<char>>(message@),
            },
    {
        let ghost entries = document@.entries;
        let mut raw = Self::empty();
        let mut i: usize = 0;
        while i < FIELD_COUNT
            invariant
                document.kind == DocumentKind::Array,
                i <= 12,
                entries == document@.entries,
                fields_of_elements(entries, i as int) == Ok::<RawRequest, Seq<char>>(raw@),
                i > 0 ==> raw.request_type is Some,
            decreases 12 - i,
        {
            if i >= document.entries.len() {
                let mut message = "invalid length ".to_owned();
                text::push_decimal(&mut message, i as u64);
                message.append(", expected struct RawClientRequest with 12 elements");
                proof {
                    lemma_wrong_element(entries, i as int + 1);
                }
                return Err(message);
            }
            assert(entries[i as int] == (
                document.entries@[i as int].0@,
                document.entries@[i as int].1@,
            ));
            match raw.set_field(i, &document.entries[i].1) {
                Ok(_) => {},
                Err(message) => {
                    proof {
                        lemma_wrong_element(entries, i as int + 1);
                    }
                    return Err(message);
                },
            }
            i += 1;
        }
        if document.entries.len() > FIELD_COUNT {
            let mut message = "invalid length ".to_owned();
            text::push_decimal(&mut message, document.entries.len() as u64);
            message.append(", expected fewer elements in array");
            return Err(message);
        }
        Ok(raw)
    }
}

proof fn lemma_wrong_member(entries: Seq<(Seq<char>, ItemView)>, n: int)
    requires
        0 <= n <= entries.len(),
        fields_of_members(entries.take(n)) is Err,
    ensures
        fields_of_members(entries) == fields_of_members(entries.take(n)),
    decreases entries.len() - n,
{
    if n < entries.len() {
        assert(entries.take(n + 1).drop_last() =~= entries.take(n));
        lemma_wrong_member(entries, n + 1);
    } else {
        assert(entries.take(n) =~= entries);
    }
}

proof fn lemma_wrong_element(entries: Seq<(Seq<char>, ItemView)>, n: int)
    requires
        0 <= n <= 12,
        fields_of_elements(entries, n) is Err,
    ensures
        fields_of_elements(entries, 12) == fields_of_elements(entries, n),
    decreases 12 - n,
{
    if n < 12 {
        lemma_wrong_element(entries, n + 1);
    }
}

/// The error for a refused field.
fn refuse(request_id: &Option<JsonItem>, message: String) -> (error: RequestError)
    ensures
        error.request_id == *request_id,
        (error.code@, error.message@) == refusal(message@),
{
    RequestError { request_id: copy_id(request_id), code: "invalid_request", message }
}

fn copy_id(request_id: &Option<JsonItem>) -> (copy: Option<JsonItem>)
    ensures
        copy == *request_id,
{
    match request_id {
        Some(item) => Some(item.clone()),
        None => None,
    }
}

impl RawClientRequest {
    fn missing_field(&self, field: &'static str) -> (error: RequestError)
        ensures
            error.request_id == self.request_id,
            (error.code@, error.message@) == missing(field@),
    {
        let mut message = "missing required field '".to_owned();
        message.append(field);
        message.append("'");
        refuse(&self.request_id, message)
    }

    fn required_text(&self, field: &'static str, value: &Option<String>) -> (r: Result<
        String,
        RequestError,
    >)
        ensures
            match r {
                Ok(s) => needed_text(opt_view(*value), field@) == Ok::<
                    Seq<char>,
                    (Seq<char>, Seq<char>),
                >(s@),
                Err(error) => error.request_id == self.request_id && needed_text(
                    opt_view(*value),
                    field@,
                ) == Err::<Seq<char>, (Seq<char>, Seq<char>)>((error.code@, error.message@)),
            },
    {
        match value {
            None => Err(self.missing_field(field)),
            Some(value) => {
                let s = text::trim(value);
                if s.as_str().is_empty() {
                    let mut message = "field '".to_owned();
                    message.append(field);
                    message.append("' must not be empty");
                    Err(refuse(&self.request_id, message))
                } else {
                    Ok(s)
                }
            },
        }
    }

    fn timer_target_frames(&self) -> (r: Result<i32, RequestError>)
        ensures
            match r {
                Ok(frames) => timer_target(self@) == Ok::<i32, (Seq<char>, Seq<char>)>(frames),
                Err(error) => error.request_id == self.request_id && timer_target(self@) == Err::<
                    i32,
                    (Seq<char>, Seq<char>),
                >((error.code@, error.message@)),
            },
    {
        if let Some(frames) = self.frames {
            if frames < 0 {
                let mut message = "field 'frames' must be non-negative; got ".to_owned();
                message.append(&text::decimal_of_int(frames as i64));
                return Err(refuse(&self.request_id, message));
            }
            return Ok(frames);
        }
        match self.required_text("time", &self.time) {
            Ok(time) => match ui_state::parse_timer_input_frames(&time) {
                Some(frames) => Ok(frames),
                None => Err(
                    refuse(
                        &self.request_id,
                        "field 'time' must be XX:XX:XX or XX frames".to_owned(),
                    ),
                ),
            },
            Err(error) => Err(error),
        }
    }

    /// The request that these fields make up.
    pub fn into_request(self) -> (r: Result<ClientRequest, RequestError>)
        requires
            self.request_type is Some,
        ensures
            match r {
                Ok(request) => request.request_id == self.request_id && meaning(self@) == Ok::<
                    Wish,
                    (Seq<char>, Seq<char>),
                >(wish(request.action)),
                Err(error) => error.request_id == self.request_id && meaning(self@) == Err::<
                    Wish,
                    (Seq<char>, Seq<char>),
                >((error.code@, error.message@)),
            },
    {
        let kind = match &self.request_type {
            Some(kind) => kind.clone(),
            None => String::new(),
        };
        let action = if text::same(&kind, "getSnapshot") {
            ClientAction::GetSnapshot
        } else if text::same(&kind, "getFrame") {
            match self.frame_id {
                Some(frame_id) => ClientAction::GetFrame { frame_id },
                None => {
                    return Err(self.missing_field("frameId"));
                },
            }
        } else if text::same(&kind, "prepareCalibration") {
            ClientAction::SendCommand(UiCommand::PrepareCalibration)
        } else if text::same(&kind, "startCalibration") {
            ClientAction::SendCommand(UiCommand::StartCalibration)
        } else if text::same(&kind, "cancelCalibration") {
            ClientAction::CancelCalibration
        } else if text::same(&kind, "useProfile") {
            match self.required_text("filename", &self.filename) {
                Ok(filename) => ClientAction::SendCommand(UiCommand::UseProfile { filename }),
                Err(error) => {
                    return Err(error);
                },
            }
        } else if text::same(&kind, "renameProfile") {
            let old = match self.required_text("old", &self.old) {
                Ok(old) => old,
                Err(error) => {
                    return Err(error);
                },
            };
            match self.required_text("newBase", &self.new_base) {
                Ok(new_base) => ClientAction::SendCommand(
                    UiCommand::RenameProfile { old, new_base },
                ),
                Err(error) => {
                    return Err(error);
                },
            }
        } else if text::same(&kind, "deleteProfile") {
            match self.required_text("filename", &self.filename) {
                Ok(filename) => ClientAction::SendCommand(UiCommand::DeleteProfile { filename }),
                Err(error) => {
                    return Err(error);
                },
            }
        } else if text::same(&kind, "setDisplayMode") {
            let name = match self.required_text("displayMode", &self.display_mode) {
                Ok(name) => name,
                Err(error) => {
                    return Err(error);
                },
            };
            match FrameDisplayMode::from_api(&name) {
                Some(mode) => ClientAction::SendCommand(UiCommand::SetDisplayMode(mode)),
                None => {
                    let mut message =
                        "displayMode must be one of 0_to_n-1, 0_to_n, 1_to_n; got ".to_owned();
                    message.append(&name);
                    return Err(refuse(&self.request_id, message));
                },
            }
        } else if text::same(&kind, "adjustTimer") {
            match self.frames {
                Some(frames) => ClientAction::SendCommand(UiCommand::AdjustTimer { frames }),
                None => {
                    return Err(self.missing_field("frames"));
                },
            }
        } else if text::same(&kind, "setTimer") {
            match self.timer_target_frames() {
                Ok(frames) => ClientAction::SendCommand(UiCommand::SetTimer { frames }),
                Err(error) => {
                    return Err(error);
                },
            }
        } else if text::same(&kind, "resetTimer") {
            ClientAction::SendCommand(UiCommand::ResetTimer)
        } else if text::same(&kind, "undoResetTimer") {
            ClientAction::SendCommand(UiCommand::UndoResetTimer)
        } else if text::same(&kind, "toggleLapTimer") {
            ClientAction::SendCommand(UiCommand::ToggleLapTimer)
        } else if text::same(&kind, "setOverlayScale") {
            match self.scale {
                Some(scale) => if scale.is_finite() {
                    ClientAction::SendCommand(UiCommand::SetOverlayScale(scale))
                } else {
                    return Err(
                        refuse(&self.request_id, "field 'scale' must be finite".to_owned()),
                    );
                },
                None => {
                    return Err(self.missing_field("scale"));
                },
            }
        } else if text::same(&kind, "saveOverlayPlacement") {
            match self.x {
                Some(x) => match self.y {
                    Some(y) => ClientAction::SendCommand(UiCommand::SaveOverlayPlacement { x, y }),
                    None => {
                        return Err(self.missing_field("y"));
                    },
                },
                None => {
                    return Err(self.missing_field("x"));
                },
            }
        } else if text::same(&kind, "exit") {
            ClientAction::Exit
        } else {
            let mut message = "unknown websocket request type '".to_owned();
            message.append(&kind);
            message.append("'");
            return Err(
                RequestError {
                    request_id: self.request_id,
                    code: "unknown_request",
                    message,
                },
            );
        };
        Ok(ClientRequest { request_id: self.request_id, action })
    }
}

fn find_request_id(document: &Document) -> (id: Option<JsonItem>)
    ensures
        opt_item(id) == named_request_id(document@),
{
    let ghost entries = document@.entries;
    match document.kind {
        DocumentKind::Object => {
            let mut i: usize = 0;
            assert(entries.skip(0) =~= entries);
            while i < document.entries.len()
                invariant
                    i <= document.entries@.len() == entries.len(),
                    entries == document@.entries,
                    document.kind == DocumentKind::Object,
                    request_id_in(entries) == request_id_in(entries.skip(i as int)),
                decreases document.entries@.len() - i,
            {
                let entry = &document.entries[i];
                assert(entries[i as int] == (entry.0@, entry.1@));
                assert(entries.skip(i as int)[0] == entries[i as int]);
                if text::same(&entry.0, "requestId") {
                    return Some(entry.1.clone());
                }
                assert(entries.skip(i as int).drop_first() =~= entries.skip(i as int + 1));
                i += 1;
            }
            None
        },
        _ => None,
    }
}

/// What a document asks for.
pub fn request_from_document(document: &Document) -> (r: Result<ClientRequest, RequestError>)
    ensures
        agrees(r, understood(document@)),
{
    match RawClientRequest::from_document(document) {
        Ok(raw) => raw.into_request(),
        Err(error) => {
            let mut message = "invalid websocket request: ".to_owned();
            message.append(&error);
            Err(
                RequestError {
                    request_id: find_request_id(document),
                    code: "invalid_request",
                    message,
                },
            )
        },
    }
}

/// What a message asks for. An object is answered under the id it names.
pub fn parse_client_request(text: &str) -> (r: Result<ClientRequest, RequestError>)
    ensures
        agrees(r, understood_text(text@)),
        json_document(text@) matches Ok(document) ==> (document.kind == DocumentKind::Object
            ==> answered_id(understood_text(text@), named_request_id(document))),
{
    match json::read_document(text) {
        Ok(document) => {
            proof {
                if document.kind == DocumentKind::Object {
                    law_request_id_is_kept(document@);
                }
            }
            request_from_document(&document)
        },
        Err(error) => {
            let mut message = "invalid JSON request: ".to_owned();
            message.append(&error);
            Err(RequestError { request_id: None, code: "invalid_json", message })
        },
    }
}

/// The id that is echoed for a named one: a null is no id.
pub open spec fn echoed_id(named: Option<ItemView>) -> Option<ItemView> {
    match named {
        Some(ItemView::Null) => None,
        other => other,
    }
}

/// What is understood is answered under the named id. Only an id of null is not one, where the
/// message is understood.
pub open spec fn answered_id(understood: Understood, named: Option<ItemView>) -> bool {
    match understood {
        Understood::Request { request_id, .. } => request_id == echoed_id(named),
        Understood::Refused { request_id, .. } => request_id == named || request_id == echoed_id(
            named,
        ),
    }
}

proof fn lemma_id_field(key: Seq<char>)
    ensures
        field_named(key) == 1 <==> key == "requestId"@,
{
    reveal_strlit("type");
    reveal_strlit("requestId");
    assert("type"@.len() == 4 && "requestId"@.len() == 9);
}

proof fn lemma_named_id(entries: Seq<(Seq<char>, ItemView)>)
    requires
        entries.len() > 0,
        distinct_keys(entries),
    ensures
        request_id_in(entries) == if entries.last().0 == "requestId"@ {
            Some(entries.last().1)
        } else {
            request_id_in(entries.drop_last())
        },
    decreases entries.len(),
{
    assert(entries.last() == entries[entries.len() - 1]);
    if entries.len() > 1 {
        let rest = entries.drop_first();
        assert forall|i: int, j: int| 0 <= i < j < rest.len() implies (#[trigger] rest[i]).0 != (
        #[trigger] rest[j]).0 by {
            assert(entries[i + 1].0 != entries[j + 1].0);
        }
        lemma_named_id(rest);
        assert(rest.last() == entries.last());
        assert(rest.drop_last() =~= entries.drop_last().drop_first());
        assert(entries.drop_last()[0] == entries[0]);
        assert(entries[0].0 != entries[entries.len() - 1].0);
    } else {
        assert(entries.drop_last() =~= Seq::<(Seq<char>, ItemView)>::empty());
        assert(entries.drop_first() =~= Seq::<(Seq<char>, ItemView)>::empty());
    }
}

proof fn lemma_fields_keep_id(entries: Seq<(Seq<char>, ItemView)>)
    requires
        distinct_keys(entries),
        fields_of_members(entries) is Ok,
    ensures
        fields_of_members(entries)->Ok_0.request_id == echoed_id(request_id_in(entries)),
    decreases entries.len(),
{
    if entries.len() > 0 {
        let head = entries.drop_last();
        assert forall|i: int, j: int| 0 <= i < j < head.len() implies (#[trigger] head[i]).0 != (
        #[trigger] head[j]).0 by {
            assert(entries[i].0 != entries[j].0);
        }
        lemma_fields_keep_id(head);
        lemma_named_id(entries);
        lemma_id_field(entries.last().0);
    }
}

/// Whatever an object asks for, and however it is refused, it is answered under the id it names.
/// Only an id of null is not one, where the object is understood.
pub proof fn law_request_id_is_kept(document: DocumentView)
    requires
        document.kind == DocumentKind::Object,
        distinct_keys(document.entries),
    ensures
        answered_id(understood(document), named_request_id(document)),
{
    if fields_of_members(document.entries) is Ok {
        lemma_fields_keep_id(document.entries);
    }
}

/// The time that the overlay shows can be sent back: the timer is then set to exactly the frames
/// that were shown.
pub proof fn law_shown_time_can_be_sent_back(raw: RawRequest, total_frames: int)
    requires
        0 <= total_frames <= i32::MAX,
        raw.request_type == Some("setTimer"@),
        raw.frames is None,
        raw.time == Some(ui_state::time_text(total_frames)),
    ensures
        meaning(raw) == Ok::<Wish, (Seq<char>, Seq<char>)>(Wish::SetTimer(total_frames as i32)),
{
    ui_state::law_shown_time_reads_back(total_frames);
    ui_state::lemma_shown_time_is_trimmed(total_frames);
    reveal_strlit("setTimer");
    reveal_strlit("getSnapshot");
    reveal_strlit("getFrame");
    reveal_strlit("prepareCalibration");
    reveal_strlit("startCalibration");
    reveal_strlit("cancelCalibration");
    reveal_strlit("useProfile");
    reveal_strlit("renameProfile");
    reveal_strlit("deleteProfile");
    reveal_strlit("setDisplayMode");
    reveal_strlit("adjustTimer");
    assert("setTimer"@.len() == 8);
    assert("getFrame"@.len() == 8 && "getFrame"@[0] == 'g' && "setTimer"@[0] == 's');
    assert("getSnapshot"@.len() == 11 && "prepareCalibration"@.len() == 18
        && "startCalibration"@.len() == 16 && "cancelCalibration"@.len() == 17
        && "useProfile"@.len() == 10 && "renameProfile"@.len() == 13 && "deleteProfile"@.len() == 13
        && "setDisplayMode"@.len() == 14 && "adjustTimer"@.len() == 11);
}

/// Whatever is understood as setting the timer sets it to a frame count that is not negative.
pub proof fn law_timer_is_never_set_below_zero(raw: RawRequest)
    ensures
        meaning(raw) matches Ok(Wish::SetTimer(frames)) ==> frames >= 0,
{
}

/// No two kinds of request have the same name.
proof fn lemma_request_names()
    ensures
        "getSnapshot"@ != "getFrame"@,
        "getSnapshot"@ != "prepareCalibration"@,
        "getSnapshot"@ != "startCalibration"@,
        "getSnapshot"@ != "cancelCalibration"@,
        "getSnapshot"@ != "useProfile"@,
        "getSnapshot"@ != "renameProfile"@,
        "getSnapshot"@ != "deleteProfile"@,
        "getSnapshot"@ != "setDisplayMode"@,
        "getSnapshot"@ != "adjustTimer"@,
        "getSnapshot"@ != "setTimer"@,
        "getSnapshot"@ != "resetTimer"@,
        "getSnapshot"@ != "undoResetTimer"@,
        "getSnapshot"@ != "toggleLapTimer"@,
        "getSnapshot"@ != "setOverlayScale"@,
        "getSnapshot"@ != "saveOverlayPlacement"@,
        "getSnapshot"@ != "exit"@,
        "getFrame"@ != "prepareCalibration"@,
        "getFrame"@ != "startCalibration"@,
        "getFrame"@ != "cancelCalibration"@,
        "getFrame"@ != "useProfile"@,
        "getFrame"@ != "renameProfile"@,
        "getFrame"@ != "deleteProfile"@,
        "getFrame"@ != "setDisplayMode"@,
        "getFrame"@ != "adjustTimer"@,
        "getFrame"@ != "setTimer"@,
        "getFrame"@ != "resetTimer"@,
        "getFrame"@ != "undoResetTimer"@,
        "getFrame"@ != "toggleLapTimer"@,
        "getFrame"@ != "setOverlayScale"@,
        "getFrame"@ != "saveOverlayPlacement"@,
        "getFrame"@ != "exit"@,
        "prepareCalibration"@ != "startCalibration"@,
        "prepareCalibration"@ != "cancelCalibration"@,
        "prepareCalibration"@ != "useProfile"@,
        "prepareCalibration"@ != "renameProfile"@,
        "prepareCalibration"@ != "deleteProfile"@,
        "prepareCalibration"@ != "setDisplayMode"@,
        "prepareCalibration"@ != "adjustTimer"@,
        "prepareCalibration"@ != "setTimer"@,
        "prepareCalibration"@ != "resetTimer"@,
        "prepareCalibration"@ != "undoResetTimer"@,
        "prepareCalibration"@ != "toggleLapTimer"@,
        "prepareCalibration"@ != "setOverlayScale"@,
        "prepareCalibration"@ != "saveOverlayPlacement"@,
        "prepareCalibration"@ != "exit"@,
        "startCalibration"@ != "cancelCalibration"@,
        "startCalibration"@ != "useProfile"@,
        "startCalibration"@ != "renameProfile"@,
        "startCalibration"@ != "deleteProfile"@,
        "startCalibration"@ != "setDisplayMode"@,
        "startCalibration"@ != "adjustTimer"@,
        "startCalibration"@ != "setTimer"@,
        "startCalibration"@ != "resetTimer"@,
        "startCalibration"@ != "undoResetTimer"@,
        "startCalibration"@ != "toggleLapTimer"@,
        "startCalibration"@ != "setOverlayScale"@,
        "startCalibration"@ != "saveOverlayPlacement"@,
        "startCalibration"@ != "exit"@,
        "cancelCalibration"@ != "useProfile"@,
        "cancelCalibration"@ != "renameProfile"@,
        "cancelCalibration"@ != "deleteProfile"@,
        "cancelCalibration"@ != "setDisplayMode"@,
        "cancelCalibration"@ != "adjustTimer"@,
        "cancelCalibration"@ != "setTimer"@,
        "cancelCalibration"@ != "resetTimer"@,
        "cancelCalibration"@ != "undoResetTimer"@,
        "cancelCalibration"@ != "toggleLapTimer"@,
        "cancelCalibration"@ != "setOverlayScale"@,
        "cancelCalibration"@ != "saveOverlayPlacement"@,
        "cancelCalibration"@ != "exit"@,
        "useProfile"@ != "renameProfile"@,
        "useProfile"@ != "deleteProfile"@,
        "useProfile"@ != "setDisplayMode"@,
        "useProfile"@ != "adjustTimer"@,
        "useProfile"@ != "setTimer"@,
        "useProfile"@ != "resetTimer"@,
        "useProfile"@ != "undoResetTimer"@,
        "useProfile"@ != "toggleLapTimer"@,
        "useProfile"@ != "setOverlayScale"@,
        "useProfile"@ != "saveOverlayPlacement"@,
        "useProfile"@ != "exit"@,
        "renameProfile"@ != "deleteProfile"@,
        "renameProfile"@ != "setDisplayMode"@,
        "renameProfile"@ != "adjustTimer"@,
        "renameProfile"@ != "setTimer"@,
        "renameProfile"@ != "resetTimer"@,
        "renameProfile"@ != "undoResetTimer"@,
        "renameProfile"@ != "toggleLapTimer"@,
        "renameProfile"@ != "setOverlayScale"@,
        "renameProfile"@ != "saveOverlayPlacement"@,
        "renameProfile"@ != "exit"@,
        "deleteProfile"@ != "setDisplayMode"@,
        "deleteProfile"@ != "adjustTimer"@,
        "deleteProfile"@ != "setTimer"@,
        "deleteProfile"@ != "resetTimer"@,
        "deleteProfile"@ != "undoResetTimer"@,
        "deleteProfile"@ != "toggleLapTimer"@,
        "deleteProfile"@ != "setOverlayScale"@,
        "deleteProfile"@ != "saveOverlayPlacement"@,
        "deleteProfile"@ != "exit"@,
        "setDisplayMode"@ != "adjustTimer"@,
        "setDisplayMode"@ != "setTimer"@,
        "setDisplayMode"@ != "resetTimer"@,
        "setDisplayMode"@ != "undoResetTimer"@,
        "setDisplayMode"@ != "toggleLapTimer"@,
        "setDisplayMode"@ != "setOverlayScale"@,
        "setDisplayMode"@ != "saveOverlayPlacement"@,
        "setDisplayMode"@ != "exit"@,
        "adjustTimer"@ != "setTimer"@,
        "adjustTimer"@ != "resetTimer"@,
        "adjustTimer"@ != "undoResetTimer"@,
        "adjustTimer"@ != "toggleLapTimer"@,
        "adjustTimer"@ != "setOverlayScale"@,
        "adjustTimer"@ != "saveOverlayPlacement"@,
        "adjustTimer"@ != "exit"@,
        "setTimer"@ != "resetTimer"@,
        "setTimer"@ != "undoResetTimer"@,
        "setTimer"@ != "toggleLapTimer"@,
        "setTimer"@ != "setOverlayScale"@,
        "setTimer"@ != "saveOverlayPlacement"@,
        "setTimer"@ != "exit"@,
        "resetTimer"@ != "undoResetTimer"@,
        "resetTimer"@ != "toggleLapTimer"@,
        "resetTimer"@ != "setOverlayScale"@,
        "resetTimer"@ != "saveOverlayPlacement"@,
        "resetTimer"@ != "exit"@,
        "undoResetTimer"@ != "toggleLapTimer"@,
        "undoResetTimer"@ != "setOverlayScale"@,
        "undoResetTimer"@ != "saveOverlayPlacement"@,
        "undoResetTimer"@ != "exit"@,
        "toggleLapTimer"@ != "setOverlayScale"@,
        "toggleLapTimer"@ != "saveOverlayPlacement"@,
        "toggleLapTimer"@ != "exit"@,
        "setOverlayScale"@ != "saveOverlayPlacement"@,
        "setOverlayScale"@ != "exit"@,
        "saveOverlayPlacement"@ != "exit"@,
{
    reveal_strlit("getSnapshot");
    reveal_strlit("getFrame");
    reveal_strlit("prepareCalibration");
    reveal_strlit("startCalibration");
    reveal_strlit("cancelCalibration");
    reveal_strlit("useProfile");
    reveal_strlit("renameProfile");
    reveal_strlit("deleteProfile");
    reveal_strlit("setDisplayMode");
    reveal_strlit("adjustTimer");
    reveal_strlit("setTimer");
    reveal_strlit("resetTimer");
    reveal_strlit("undoResetTimer");
    reveal_strlit("toggleLapTimer");
    reveal_strlit("setOverlayScale");
    reveal_strlit("saveOverlayPlacement");
    reveal_strlit("exit");
    assert("getSnapshot"@.len() == 11);
    assert("getFrame"@.len() == 8);
    assert("prepareCalibration"@.len() == 18);
    assert("startCalibration"@.len() == 16);
    assert("cancelCalibration"@.len() == 17);
    assert("useProfile"@.len() == 10);
    assert("renameProfile"@.len() == 13);
    assert("deleteProfile"@.len() == 13);
    assert("setDisplayMode"@.len() == 14);
    assert("adjustTimer"@.len() == 11);
    assert("setTimer"@.len() == 8);
    assert("resetTimer"@.len() == 10);
    assert("undoResetTimer"@.len() == 14);
    assert("toggleLapTimer"@.len() == 14);
    assert("setOverlayScale"@.len() == 15);
    assert("saveOverlayPlacement"@.len() == 20);
    assert("exit"@.len() == 4);
    assert("getSnapshot"@[0] != "adjustTimer"@[0]);
    assert("getFrame"@[0] != "setTimer"@[0]);
    assert("useProfile"@[0] != "resetTimer"@[0]);
    assert("renameProfile"@[0] != "deleteProfile"@[0]);
    assert("setDisplayMode"@[0] != "undoResetTimer"@[0]);
    assert("setDisplayMode"@[0] != "toggleLapTimer"@[0]);
    assert("undoResetTimer"@[0] != "toggleLapTimer"@[0]);
}

/// A request is understood by the name of its kind, and what it carries goes over unchanged: the
/// number of the frame, the frames to move the timer by or to set it to, the position, the scale,
/// and names without the white space around them.
pub proof fn law_requests_mean_what_they_name(raw: RawRequest)
    requires
        raw.request_type is Some,
    ensures
        ({
            let kind = raw.request_type->0;
            let asked = meaning(raw);
            &&& kind == "getSnapshot"@ ==> asked is Ok && asked->Ok_0 is GetSnapshot
            &&& kind == "prepareCalibration"@ ==> asked is Ok && asked->Ok_0 is PrepareCalibration
            &&& kind == "startCalibration"@ ==> asked is Ok && asked->Ok_0 is StartCalibration
            &&& kind == "cancelCalibration"@ ==> asked is Ok && asked->Ok_0 is CancelCalibration
            &&& kind == "resetTimer"@ ==> asked is Ok && asked->Ok_0 is ResetTimer
            &&& kind == "undoResetTimer"@ ==> asked is Ok && asked->Ok_0 is UndoResetTimer
            &&& kind == "toggleLapTimer"@ ==> asked is Ok && asked->Ok_0 is ToggleLapTimer
            &&& kind == "exit"@ ==> asked is Ok && asked->Ok_0 is Exit
            &&& kind == "getFrame"@ ==> asked is Ok == raw.frame_id is Some
            &&& kind == "getFrame"@ && asked is Ok ==> asked->Ok_0 == Wish::GetFrame(
                raw.frame_id->0,
            )
            &&& kind == "adjustTimer"@ ==> asked is Ok == raw.frames is Some
            &&& kind == "adjustTimer"@ && asked is Ok ==> asked->Ok_0 == Wish::AdjustTimer(
                raw.frames->0,
            )
            &&& kind == "setTimer"@ && raw.frames is Some ==> asked is Ok == (raw.frames->0 >= 0)
            &&& kind == "setTimer"@ && raw.frames is Some && asked is Ok ==> asked->Ok_0
                == Wish::SetTimer(raw.frames->0)
            &&& kind == "setTimer"@ && raw.frames is None && asked is Ok ==> raw.time is Some
                && timer_frames(trimmed(raw.time->0)) is Some
            &&& kind == "saveOverlayPlacement"@ ==> asked is Ok == (raw.x is Some && raw.y is Some)
            &&& kind == "saveOverlayPlacement"@ && asked is Ok ==> asked->Ok_0
                == Wish::SaveOverlayPlacement(raw.x->0, raw.y->0)
            &&& kind == "setOverlayScale"@ ==> asked is Ok == (raw.scale is Some
                && raw.scale->0.finite())
            &&& kind == "setOverlayScale"@ && asked is Ok ==> asked->Ok_0 == Wish::SetOverlayScale(
                raw.scale->0,
            )
            &&& kind == "useProfile"@ ==> asked is Ok == (raw.filename is Some && trimmed(
                raw.filename->0,
            ).len() > 0)
            &&& kind == "useProfile"@ && asked is Ok ==> asked->Ok_0 == Wish::UseProfile(
                trimmed(raw.filename->0),
            )
            &&& kind == "deleteProfile"@ ==> asked is Ok == (raw.filename is Some && trimmed(
                raw.filename->0,
            ).len() > 0)
            &&& kind == "deleteProfile"@ && asked is Ok ==> asked->Ok_0 == Wish::DeleteProfile(
                trimmed(raw.filename->0),
            )
            &&& kind == "renameProfile"@ ==> asked is Ok == (raw.old is Some && trimmed(
                raw.old->0,
            ).len() > 0 && raw.new_base is Some && trimmed(raw.new_base->0).len() > 0)
            &&& kind == "renameProfile"@ && asked is Ok ==> asked->Ok_0 == Wish::RenameProfile(
                trimmed(raw.old->0),
                trimmed(raw.new_base->0),
            )
            &&& kind == "setDisplayMode"@ && asked is Ok ==> raw.display_mode is Some
                && asked->Ok_0 is SetDisplayMode && mode_named(trimmed(raw.display_mode->0))
                == Some(asked->Ok_0->SetDisplayMode_0)
        }),
{
    lemma_request_names();
}

/// What a request is refused with: a kind that is not known under `unknown_request`, anything else
/// that is wrong with an object under `invalid_request`.
pub proof fn law_refusals_have_their_codes(raw: RawRequest)
    requires
        raw.request_type is Some,
        meaning(raw) is Err,
    ensures
        ({
            let kind = raw.request_type->0;
            let known = kind == "getSnapshot"@
                || kind == "getFrame"@
                || kind == "prepareCalibration"@
                || kind == "startCalibration"@
                || kind == "cancelCalibration"@
                || kind == "useProfile"@
                || kind == "renameProfile"@
                || kind == "deleteProfile"@
                || kind == "setDisplayMode"@
                || kind == "adjustTimer"@
                || kind == "setTimer"@
                || kind == "resetTimer"@
                || kind == "undoResetTimer"@
                || kind == "toggleLapTimer"@
                || kind == "setOverlayScale"@
                || kind == "saveOverlayPlacement"@
                || kind == "exit"@;
            &&& known ==> meaning(raw)->Err_0.0 == "invalid_request"@
            &&& !known ==> meaning(raw)->Err_0.0 == "unknown_request"@
        }),
{
}

/// A whole number as a field takes it over.
pub open spec fn reads_number(field: Option<i32>, item: ItemView) -> bool {
    match item {
        ItemView::Null => field is None,
        ItemView::Unsigned { value, .. } => field is Some && field->0 == value,
        ItemView::Negative { value, .. } => field is Some && field->0 == value,
        _ => false,
    }
}

/// A text as a field takes it over.
pub open spec fn reads_text(field: Option<Seq<char>>, item: ItemView) -> bool {
    match item {
        ItemView::Null => field is None,
        ItemView::Text(s) => field == Some(s),
        _ => false,
    }
}

/// The fields hold what stands under `key`, where that is the name of a field.
pub open spec fn reads_member(raw: RawRequest, key: Seq<char>, item: ItemView) -> bool {
    &&& key == "type"@ ==> raw.request_type is Some && item == ItemView::Text(raw.request_type->0)
    &&& key == "frameId"@ ==> match item {
        ItemView::Null => raw.frame_id is None,
        ItemView::Unsigned { value, .. } => raw.frame_id == Some(value),
        _ => false,
    }
    &&& key == "frames"@ ==> reads_number(raw.frames, item)
    &&& key == "x"@ ==> reads_number(raw.x, item)
    &&& key == "y"@ ==> reads_number(raw.y, item)
    &&& key == "filename"@ ==> reads_text(raw.filename, item)
    &&& key == "old"@ ==> reads_text(raw.old, item)
    &&& key == "newBase"@ ==> reads_text(raw.new_base, item)
    &&& key == "displayMode"@ ==> reads_text(raw.display_mode, item)
    &&& key == "time"@ ==> reads_text(raw.time, item)
    &&& key == "scale"@ ==> match item {
        ItemView::Null => raw.scale is None,
        ItemView::Unsigned { value, .. } => raw.scale == Some(single_of_integer(value as int)),
        ItemView::Negative { value, .. } => raw.scale == Some(single_of_integer(value as int)),
        ItemView::Float { bits, .. } => raw.scale == Some((Real64 { bits }).in_single()),
        _ => false,
    }
}

/// No two fields have the same name.
proof fn lemma_field_names()
    ensures
        "type"@ != "requestId"@,
        "type"@ != "frameId"@,
        "type"@ != "frames"@,
        "type"@ != "filename"@,
        "type"@ != "old"@,
        "type"@ != "newBase"@,
        "type"@ != "displayMode"@,
        "type"@ != "time"@,
        "type"@ != "scale"@,
        "type"@ != "x"@,
        "type"@ != "y"@,
        "requestId"@ != "frameId"@,
        "requestId"@ != "frames"@,
        "requestId"@ != "filename"@,
        "requestId"@ != "old"@,
        "requestId"@ != "newBase"@,
        "requestId"@ != "displayMode"@,
        "requestId"@ != "time"@,
        "requestId"@ != "scale"@,
        "requestId"@ != "x"@,
        "requestId"@ != "y"@,
        "frameId"@ != "frames"@,
        "frameId"@ != "filename"@,
        "frameId"@ != "old"@,
        "frameId"@ != "newBase"@,
        "frameId"@ != "displayMode"@,
        "frameId"@ != "time"@,
        "frameId"@ != "scale"@,
        "frameId"@ != "x"@,
        "frameId"@ != "y"@,
        "frames"@ != "filename"@,
        "frames"@ != "old"@,
        "frames"@ != "newBase"@,
        "frames"@ != "displayMode"@,
        "frames"@ != "time"@,
        "frames"@ != "scale"@,
        "frames"@ != "x"@,
        "frames"@ != "y"@,
        "filename"@ != "old"@,
        "filename"@ != "newBase"@,
        "filename"@ != "displayMode"@,
        "filename"@ != "time"@,
        "filename"@ != "scale"@,
        "filename"@ != "x"@,
        "filename"@ != "y"@,
        "old"@ != "newBase"@,
        "old"@ != "displayMode"@,
        "old"@ != "time"@,
        "old"@ != "scale"@,
        "old"@ != "x"@,
        "old"@ != "y"@,
        "newBase"@ != "displayMode"@,
        "newBase"@ != "time"@,
        "newBase"@ != "scale"@,
        "newBase"@ != "x"@,
        "newBase"@ != "y"@,
        "displayMode"@ != "time"@,
        "displayMode"@ != "scale"@,
        "displayMode"@ != "x"@,
        "displayMode"@ != "y"@,
        "time"@ != "scale"@,
        "time"@ != "x"@,
        "time"@ != "y"@,
        "scale"@ != "x"@,
        "scale"@ != "y"@,
        "x"@ != "y"@,
{
    reveal_strlit("type");
    reveal_strlit("requestId");
    reveal_strlit("frameId");
    reveal_strlit("frames");
    reveal_strlit("filename");
    reveal_strlit("old");
    reveal_strlit("newBase");
    reveal_strlit("displayMode");
    reveal_strlit("time");
    reveal_strlit("scale");
    reveal_strlit("x");
    reveal_strlit("y");
    assert("type"@.len() == 4);
    assert("requestId"@.len() == 9);
    assert("frameId"@.len() == 7);
    assert("frames"@.len() == 6);
    assert("filename"@.len() == 8);
    assert("old"@.len() == 3);
    assert("newBase"@.len() == 7);
    assert("displayMode"@.len() == 11);
    assert("time"@.len() == 4);
    assert("scale"@.len() == 5);
    assert("x"@.len() == 1);
    assert("y"@.len() == 1);
    assert("type"@[1] != "time"@[1]);
    assert("frameId"@[0] != "newBase"@[0]);
    assert("x"@[0] != "y"@[0]);
}

/// Members of different names go into different fields: one that is read later leaves what was read
/// before as it was.
proof fn lemma_members_do_not_disturb(
    raw: RawRequest,
    key: Seq<char>,
    item: ItemView,
    later: Seq<char>,
    value: ItemView,
)
    requires
        reads_member(raw, key, item),
        key != later,
        with_field(raw, field_named(later), value) is Ok,
    ensures
        reads_member(with_field(raw, field_named(later), value)->Ok_0, key, item),
{
    lemma_field_names();
}

/// A member is read into the field of its name.
proof fn lemma_member_is_read(raw: RawRequest, key: Seq<char>, item: ItemView)
    requires
        with_field(raw, field_named(key), item) is Ok,
    ensures
        reads_member(with_field(raw, field_named(key), item)->Ok_0, key, item),
{
    lemma_field_names();
}

/// Each member of an object is read into the field of its name, in whatever order the members come:
/// no value is taken for another one, and members that are no fields are left aside.
pub proof fn law_members_are_read_by_name(entries: Seq<(Seq<char>, ItemView)>)
    requires
        distinct_keys(entries),
        fields_of_members(entries) is Ok,
    ensures
        forall|i: int|
            0 <= i < entries.len() ==> reads_member(
                fields_of_members(entries)->Ok_0,
                (#[trigger] entries[i]).0,
                entries[i].1,
            ),
    decreases entries.len(),
{
    if entries.len() > 0 {
        let head = entries.drop_last();
        let last = entries.last();
        assert forall|i: int, j: int| 0 <= i < j < head.len() implies (#[trigger] head[i]).0 != (
        #[trigger] head[j]).0 by {
            assert(entries[i].0 != entries[j].0);
        }
        law_members_are_read_by_name(head);
        let before = fields_of_members(head)->Ok_0;
        assert forall|i: int| 0 <= i < entries.len() implies reads_member(
            fields_of_members(entries)->Ok_0,
            (#[trigger] entries[i]).0,
            entries[i].1,
        ) by {
            if i < head.len() {
                assert(head[i] == entries[i]);
                assert(entries[i].0 != entries[entries.len() - 1].0);
                lemma_members_do_not_disturb(before, entries[i].0, entries[i].1, last.0, last.1);
            } else {
                lemma_member_is_read(before, last.0, last.1);
            }
        }
    }
}

/// A message that is an object is understood by the names of its members: one that asks to move the
/// timer by a number of frames, to show a frame, or to use a profile is taken for just that, with
/// the value that stands under the name.
pub proof fn law_messages_are_understood_by_their_members(document: DocumentView, i: int, j: int)
    requires
        document.kind == DocumentKind::Object,
        distinct_keys(document.entries),
        0 <= i < document.entries.len(),
        0 <= j < document.entries.len(),
        document.entries[i].0 == "type"@,
        fields_of_members(document.entries) is Ok,
    ensures
        ({
            let kind = document.entries[i].1;
            let name = document.entries[j].0;
            let value = document.entries[j].1;
            let result = understood(document);
            &&& kind == ItemView::Text("adjustTimer"@) && name == "frames"@
                && value is Unsigned ==> result is Request && result->wish is AdjustTimer
                && result->wish->AdjustTimer_0 == value->Unsigned_value
            &&& kind == ItemView::Text("adjustTimer"@) && name == "frames"@
                && value is Negative ==> result is Request && result->wish is AdjustTimer
                && result->wish->AdjustTimer_0 == value->Negative_value
            &&& kind == ItemView::Text("setTimer"@) && name == "frames"@
                && value is Unsigned ==> result is Request && result->wish is SetTimer
                && result->wish->SetTimer_0 == value->Unsigned_value
            &&& kind == ItemView::Text("getFrame"@) && name == "frameId"@
                && value is Unsigned ==> result is Request && result->wish == Wish::GetFrame(
                value->Unsigned_value,
            )
            &&& kind == ItemView::Text("useProfile"@) && name == "filename"@ && value is Text
                && trimmed(value->Text_0).len() > 0 ==> result is Request && result->wish
                == Wish::UseProfile(trimmed(value->Text_0))
            &&& kind == ItemView::Text("deleteProfile"@) && name == "filename"@ && value is Text
                && trimmed(value->Text_0).len() > 0 ==> result is Request && result->wish
                == Wish::DeleteProfile(trimmed(value->Text_0))
        }),
{
    let entries = document.entries;
    law_members_are_read_by_name(entries);
    let raw = fields_of_members(entries)->Ok_0;
    assert(reads_member(raw, entries[i].0, entries[i].1));
    assert(reads_member(raw, entries[j].0, entries[j].1));
    lemma_field_names();
    law_requests_mean_what_they_name(raw);
}

} // verus!
