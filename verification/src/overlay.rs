//! The overlay over the game.
use crate::config::RulerConfig;
use crate::number::{Real64, ONE_BITS};
use crate::ui_state::OverlayMode;
use vstd::prelude::*;

pub mod geometry;
pub mod hud;
pub mod menu;
pub mod pointer;

verus! {

/// A tenth as single precision has it: scales up to it count as not set.
pub const TENTH_BITS: u64 = 0x3fb9_9999_a000_0000;

/// Where the overlay is put and how large it is.
#[derive(Clone, Copy, Debug, PartialEq, Eq)]
pub struct OverlayPlacement {
    pub pos: Option<(i32, i32)>,
    pub scale_mult: Real64,
}

impl OverlayPlacement {
    /// The multiplier, or one where it is not a number above a tenth.
    pub open spec fn scale(self) -> Real64 {
        if !self.scale_mult.negative() && !self.scale_mult.is_nan() && self.scale_mult.bits
            > TENTH_BITS {
            self.scale_mult
        } else {
            Real64 { bits: ONE_BITS }
        }
    }

    #[must_use]
    pub fn scale_or_default(self) -> (scale: Real64)
        ensures
            scale == self.scale(),
    {
        let bits: u64 = self.scale_mult.bits;
        if bits > TENTH_BITS && bits <= 0x7ff0_0000_0000_0000 {
            self.scale_mult
        } else {
            Real64 { bits: ONE_BITS }
        }
    }
}

/// The placement that a configuration asks for.
pub open spec fn placement_of(config: Option<RulerConfig>) -> OverlayPlacement {
    match config {
        Some(config) => OverlayPlacement {
            pos: match (config.overlay_pos_x, config.overlay_pos_y) {
                (Some(x), Some(y)) => Some((x, y)),
                _ => None,
            },
            scale_mult: match config.overlay_scale {
                Some(scale) => scale,
                None => Real64 { bits: ONE_BITS },
            },
        },
        None => OverlayPlacement { pos: None, scale_mult: Real64 { bits: 0 } },
    }
}

pub fn overlay_placement(config: &Option<RulerConfig>) -> (placement: OverlayPlacement)
    ensures
        placement == placement_of(*config),
{
    match config {
        Some(config) => OverlayPlacement {
            pos: match (config.overlay_pos_x, config.overlay_pos_y) {
                (Some(x), Some(y)) => Some((x, y)),
                _ => None,
            },
            scale_mult: match config.overlay_scale {
                Some(scale) => scale,
                None => Real64 { bits: ONE_BITS },
            },
        },
        None => OverlayPlacement { pos: None, scale_mult: Real64 { bits: 0 } },
    }
}

/// A placement is always usable: its scale is a positive number.
pub proof fn law_scale_is_positive(placement: OverlayPlacement)
    ensures
        placement.scale().magnitude() > 0,
        !placement.scale().negative(),
        !placement.scale().is_nan(),
{
}

/// The name of a screen.
pub open spec fn screen_name(mode: OverlayMode) -> Seq<char> {
    match mode {
        OverlayMode::Booting => "Booting"@,
        OverlayMode::Idle => "Idle"@,
        OverlayMode::PreCalibration => "PreCalibration"@,
        OverlayMode::Calibrating => "Calibrating"@,
        OverlayMode::Running => "Running"@,
        OverlayMode::Error => "Error"@,
    }
}

/// What is noted of the overlay when the program starts.
pub fn startup_note(mode: OverlayMode) -> (note: String)
    ensures
        note@ == "slint overlay runtime registered with mode="@ + screen_name(mode),
{
    let mut note = "slint overlay runtime registered with mode=".to_owned();
    note.append(
        match mode {
            OverlayMode::Booting => "Booting",
            OverlayMode::Idle => "Idle",
            OverlayMode::PreCalibration => "PreCalibration",
            OverlayMode::Calibrating => "Calibrating",
            OverlayMode::Running => "Running",
            OverlayMode::Error => "Error",
        },
    );
    note
}

/// Why the overlay could not be shown.
#[derive(Debug)]
pub struct OverlayError {
    pub message: String,
}

impl OverlayError {
    pub fn new(message: String) -> (error: Self)
        ensures
            error.message == message,
    {
        OverlayError { message }
    }

    pub fn text(&self) -> (s: String)
        ensures
            s@ == self.message@,
    {
        self.message.clone()
    }
}

/// The overlay is put where the configuration says, if it says both coordinates, at the scale it
/// says, or at its own size.
pub proof fn law_overlay_is_put_where_it_was_left(config: RulerConfig)
    ensures
        ({
            let placement = placement_of(Some(config));
            &&& placement.pos is Some <==> config.overlay_pos_x is Some && config.overlay_pos_y
                is Some
            &&& placement.pos matches Some((x, y)) ==> config.overlay_pos_x == Some(x)
                && config.overlay_pos_y == Some(y)
            &&& config.overlay_scale is Some ==> placement.scale_mult == config.overlay_scale->0
            &&& config.overlay_scale is None ==> placement.scale() == (Real64 { bits: ONE_BITS })
            &&& placement_of(None).pos is None
            &&& placement_of(None).scale() == (Real64 { bits: ONE_BITS })
        }),
{
}

} // verus!
