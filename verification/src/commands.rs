//! What the user, the overlay and API clients can ask of the program.
use crate::number::Real64;
use crate::ui_state::FrameDisplayMode;
use vstd::prelude::*;

verus! {

#[derive(Debug, PartialEq, Eq)]
pub enum UiCommand {
    PrepareCalibration,
    StartCalibration,
    UseProfile { filename: String },
    RenameProfile { old: String, new_base: String },
    DeleteProfile { filename: String },
    SetDisplayMode(FrameDisplayMode),
    AdjustTimer { frames: i32 },
    /// Set the timer to an absolute number of elapsed frames.
    SetTimer { frames: i32 },
    ResetTimer,
    /// Bring back the time that the last reset took away.
    UndoResetTimer,
    ToggleLapTimer,
    /// Keep the overlay's scale multiplier (one is 100%).
    SetOverlayScale(Real64),
    /// Keep the position of the overlay window, in screen pixels.
    SaveOverlayPlacement { x: i32, y: i32 },
    Exit,
}

} // verus!
