//! What the overlay shows and what its buttons do.
use crate::commands::UiCommand;
use crate::config_wizard::sync::tr;
use crate::i18n::I18n;
use crate::overlay::geometry;
use crate::overlay::geometry::{phase_at, ResetPhase};
use crate::text;
use crate::text::decimal_int;
use crate::tray;
use crate::ui_state::{OverlayMode, ResetKind, UiSnapshot};
use vstd::prelude::*;

verus! {

/// What the overlay shows.
#[derive(Debug)]
pub struct HudProperties {
    pub mode: OverlayMode,
    pub time_str: String,
    pub frame_str: String,
    pub total_str: String,
    pub cost_negative: bool,
    pub lap_str: String,
    pub undo_reset_enabled: bool,
    pub cursor_blocked: bool,
    pub cursor_warning_text: String,
    pub message: String,
}

/// `s` without the stars at its end.
pub open spec fn without_stars(s: Seq<char>) -> Seq<char>
    decreases s.len(),
{
    if s.len() > 0 && s.last() == '*' {
        without_stars(s.drop_last())
    } else {
        s
    }
}

pub open spec fn ends_with_star(s: Seq<char>) -> bool {
    s.len() > 0 && s.last() == '*'
}

/// The message on the screen of that mode.
pub open spec fn shown_message(ui: UiSnapshot, i18n: I18n) -> Seq<char> {
    match ui.mode {
        OverlayMode::Idle => tr(i18n, "overlay.msg.idle"@),
        OverlayMode::PreCalibration => tr(i18n, "overlay.msg.pre_cal"@),
        OverlayMode::Error => ui.message@,
        OverlayMode::Booting => ui.message@,
        _ => Seq::empty(),
    }
}

fn strip_stars(s: &str) -> (r: String)
    ensures
        r@ == without_stars(s@),
{
    let chars = text::to_chars(s);
    let mut n: usize = chars.len();
    assert(chars@.take(n as int) =~= chars@);
    while n > 0 && chars[n - 1] == '*'
        invariant
            n <= chars@.len(),
            without_stars(chars@) == without_stars(chars@.take(n as int)),
        decreases n,
    {
        assert(chars@.take(n as int).drop_last() =~= chars@.take(n as int - 1));
        n -= 1;
    }
    assert(chars@.subrange(0, n as int) =~= chars@.take(n as int));
    text::from_char_range(&chars, 0, n)
}

/// `hud` is what the overlay shows of `ui`.
pub open spec fn shows_hud(hud: HudProperties, ui: UiSnapshot, i18n: I18n) -> bool {
    &&& hud.mode == ui.mode
    &&& hud.time_str@ == ui.time_str@
    &&& hud.frame_str@ == ui.display_frame@
    &&& hud.total_str@ == without_stars(ui.display_total@)
    &&& hud.cost_negative == ends_with_star(ui.display_total@)
    &&& hud.lap_str@ == (match ui.lap_frames {
        Some(frames) => decimal_int(frames as int),
        None => Seq::empty(),
    })
    &&& hud.undo_reset_enabled == ui.can_undo_reset
    &&& hud.cursor_blocked == ui.cursor_blocked
    &&& hud.cursor_warning_text@ == tr(i18n, "overlay.cursor.blocked"@)
    &&& hud.message@ == shown_message(ui, i18n)
}

/// What the overlay shows of the state. A star behind the total says that the cost is negative.
pub fn hud_properties(ui: &UiSnapshot, i18n: &I18n) -> (hud: HudProperties)
    ensures
        shows_hud(hud, *ui, *i18n),
{
    let total = text::to_chars(&ui.display_total);
    let lap_str = match ui.lap_frames {
        Some(frames) => text::decimal_of_int(frames as i64),
        None => String::new(),
    };
    let message = match ui.mode {
        OverlayMode::Idle => i18n.tr("overlay.msg.idle"),
        OverlayMode::PreCalibration => i18n.tr("overlay.msg.pre_cal"),
        OverlayMode::Error => ui.message.clone(),
        OverlayMode::Booting => ui.message.clone(),
        _ => String::new(),
    };
    proof {
        assert(ui.lap_frames is None ==> lap_str@ =~= Seq::<char>::empty());
        assert(message@ =~= shown_message(*ui, *i18n));
    }
    HudProperties {
        mode: ui.mode,
        time_str: ui.time_str.clone(),
        frame_str: ui.display_frame.clone(),
        total_str: strip_stars(&ui.display_total),
        cost_negative: total.len() > 0 && total[total.len() - 1] == '*',
        lap_str,
        undo_reset_enabled: ui.can_undo_reset,
        cursor_blocked: ui.cursor_blocked,
        cursor_warning_text: i18n.tr("overlay.cursor.blocked"),
        message,
    }
}

/// A button of the overlay.
#[derive(Clone, Copy, Debug, PartialEq, Eq, Structural)]
pub enum HudButton {
    Start,
    Reset,
    UndoReset,
    Lap,
    BackCycle,
    ForwardCycle,
}

/// What a button asks for.
pub open spec fn asked_by(button: HudButton, ui: UiSnapshot) -> UiCommand {
    match button {
        HudButton::Start => UiCommand::StartCalibration,
        HudButton::Reset => UiCommand::ResetTimer,
        HudButton::UndoReset => UiCommand::UndoResetTimer,
        HudButton::Lap => UiCommand::ToggleLapTimer,
        HudButton::BackCycle => UiCommand::AdjustTimer {
            frames: (-ui.total_frames_in_cycle) as i32,
        },
        HudButton::ForwardCycle => UiCommand::AdjustTimer { frames: ui.total_frames_in_cycle },
    }
}

pub fn button_command(button: HudButton, ui: &UiSnapshot) -> (command: UiCommand)
    requires
        button is BackCycle ==> ui.total_frames_in_cycle > i32::MIN,
    ensures
        command == asked_by(button, *ui),
{
    match button {
        HudButton::Start => UiCommand::StartCalibration,
        HudButton::Reset => UiCommand::ResetTimer,
        HudButton::UndoReset => UiCommand::UndoResetTimer,
        HudButton::Lap => UiCommand::ToggleLapTimer,
        HudButton::BackCycle => UiCommand::AdjustTimer { frames: -ui.total_frames_in_cycle },
        HudButton::ForwardCycle => UiCommand::AdjustTimer { frames: ui.total_frames_in_cycle },
    }
}

/// Stepping back a cycle and forward again leaves the time as it was.
pub proof fn law_cycle_steps_cancel_out(ui: UiSnapshot)
    requires
        ui.total_frames_in_cycle > i32::MIN,
    ensures
        asked_by(HudButton::BackCycle, ui) matches UiCommand::AdjustTimer { frames: back } && asked_by(
            HudButton::ForwardCycle,
            ui,
        ) matches UiCommand::AdjustTimer { frames: forward } && back + forward == 0,
{
}

/// A cover that is shown: since when, in milliseconds, and for what kind of reset.
#[derive(Clone, Copy, Debug, PartialEq, Eq, Structural)]
pub struct ResetAnim {
    pub start_ms: u128,
    pub kind: ResetKind,
}

/// The covers over the overlay: the last reset that was seen, and the cover that is shown.
#[derive(Clone, Copy, Debug, PartialEq, Eq, Structural)]
pub struct ResetCover {
    pub last_reset_pulse: u32,
    pub anim: Option<ResetAnim>,
}

impl ResetCover {
    /// The cover that is shown from now on: a new one for a new reset.
    pub open spec fn running(self, pulse: u32, kind: ResetKind, now_ms: u128) -> Option<ResetAnim> {
        if pulse != self.last_reset_pulse {
            Some(ResetAnim { start_ms: now_ms, kind })
        } else {
            self.anim
        }
    }

    pub open spec fn elapsed(anim: ResetAnim, now_ms: u128) -> int {
        if now_ms < anim.start_ms {
            0
        } else {
            now_ms - anim.start_ms
        }
    }
}

/// The cover as it is shown now.
#[derive(Debug)]
pub struct CoverFrame {
    pub phase: ResetPhase,
    pub text: String,
}

pub open spec fn cover_key(kind: ResetKind) -> Seq<char> {
    match kind {
        ResetKind::Manual => "overlay.reset.manual"@,
        ResetKind::Auto => "overlay.reset.auto"@,
    }
}

/// `frame` is the cover as it is shown now, with `reset` the pulse and the kind of the last reset,
/// and `after` remembers it.
pub open spec fn advances(
    before: ResetCover,
    after: ResetCover,
    reset: (u32, ResetKind),
    now_ms: u128,
    i18n: I18n,
    frame: Option<CoverFrame>,
) -> bool {
    &&& after.last_reset_pulse == reset.0
    &&& match before.running(reset.0, reset.1, now_ms) {
        Some(anim) => {
            let phase = phase_at(ResetCover::elapsed(anim, now_ms));
            if phase.done {
                frame is None && after.anim is None
            } else {
                &&& after.anim == Some(anim)
                &&& frame matches Some(frame) && frame.phase == phase && frame.text@ == tr(
                    i18n,
                    cover_key(anim.kind),
                )
            }
        },
        None => frame is None && after.anim is None,
    }
}

/// Takes notice of a new reset, which starts the cover anew, and gives the cover as it is shown
/// now; none where the last one is over.
pub fn advance_reset_anim(
    cover: &mut ResetCover,
    reset_pulse: u32,
    reset_kind: ResetKind,
    now_ms: u128,
    i18n: &I18n,
) -> (frame: Option<CoverFrame>)
    ensures
        advances(*old(cover), *final(cover), (reset_pulse, reset_kind), now_ms, *i18n, frame),
{
    if reset_pulse != cover.last_reset_pulse {
        cover.last_reset_pulse = reset_pulse;
        cover.anim = Some(ResetAnim { start_ms: now_ms, kind: reset_kind });
    }
    match cover.anim {
        Some(anim) => {
            let elapsed: u128 = if now_ms < anim.start_ms {
                0
            } else {
                now_ms - anim.start_ms
            };
            let phase = geometry::compute_reset_phase(elapsed);
            if phase.done {
                cover.anim = None;
                return None;
            }
            let text = match anim.kind {
                ResetKind::Manual => i18n.tr("overlay.reset.manual"),
                ResetKind::Auto => i18n.tr("overlay.reset.auto"),
            };
            Some(CoverFrame { phase, text })
        },
        None => None,
    }
}

/// The text of the icon in the notification area: the message, or while the timer runs the name of
/// the program.
pub fn tray_tip(ui: &UiSnapshot) -> (tip: String)
    ensures
        tip@ == (if ui.mode == OverlayMode::Running {
            tray::DEFAULT_TIP@
        } else {
            ui.message@
        }),
{
    match ui.mode {
        OverlayMode::Running => tray::DEFAULT_TIP.to_owned(),
        _ => ui.message.clone(),
    }
}

/// A new reset is shown from its start, whatever was shown before.
pub proof fn law_new_reset_starts_the_cover_anew(
    cover: ResetCover,
    pulse: u32,
    kind: ResetKind,
    now_ms: u128,
)
    requires
        pulse != cover.last_reset_pulse,
    ensures
        cover.running(pulse, kind, now_ms) == Some(ResetAnim { start_ms: now_ms, kind }),
        phase_at(ResetCover::elapsed(ResetAnim { start_ms: now_ms, kind }, now_ms)) == phase_at(0),
        !phase_at(0).done,
{
}

/// The overlay shows what the state says: the time, the frame and the lap as they are, the length of
/// the cycle without the mark of a negative cost, which it shows apart.
pub proof fn law_overlay_shows_the_state(
    hud: HudProperties,
    ui: UiSnapshot,
    i18n: I18n,
    total: Seq<char>,
)
    requires
        shows_hud(hud, ui, i18n),
        total.len() > 0,
        total.last() != '*',
    ensures
        hud.mode == ui.mode,
        hud.time_str@ == ui.time_str@,
        hud.frame_str@ == ui.display_frame@,
        ui.display_total@ == total ==> hud.total_str@ == total && !hud.cost_negative,
        ui.display_total@ == total.push('*') ==> hud.total_str@ == total && hud.cost_negative,
        ui.lap_frames is None <==> hud.lap_str@.len() == 0,
        ui.lap_frames is Some ==> hud.lap_str@ == decimal_int(ui.lap_frames->0 as int),
        hud.undo_reset_enabled == ui.can_undo_reset,
        hud.cursor_blocked == ui.cursor_blocked,
        ui.mode == OverlayMode::Error || ui.mode == OverlayMode::Booting ==> hud.message@
            == ui.message@,
        ui.mode == OverlayMode::Running || ui.mode == OverlayMode::Calibrating
            ==> hud.message@.len() == 0,
{
    assert(total.push('*').drop_last() =~= total);
    assert(without_stars(total) == total);
    if ui.lap_frames is Some {
        let lap = ui.lap_frames->0 as int;
        text::lemma_decimal_digits(
            (if lap < 0 {
                -lap
            } else {
                lap
            }) as nat,
        );
    }
}

/// Each button asks for what it is there for, and the two that step by a cycle step by its length.
pub proof fn law_buttons_ask_for_their_command(ui: UiSnapshot)
    requires
        ui.total_frames_in_cycle > i32::MIN,
    ensures
        asked_by(HudButton::Start, ui) is StartCalibration,
        asked_by(HudButton::Reset, ui) is ResetTimer,
        asked_by(HudButton::UndoReset, ui) is UndoResetTimer,
        asked_by(HudButton::Lap, ui) is ToggleLapTimer,
        asked_by(HudButton::BackCycle, ui) matches UiCommand::AdjustTimer { frames } && frames
            == -ui.total_frames_in_cycle,
        asked_by(HudButton::ForwardCycle, ui) matches UiCommand::AdjustTimer { frames } && frames
            == ui.total_frames_in_cycle,
{
}

/// A reset is announced once: its cover starts when it is first seen, says whether the reset was made
/// by hand or came by itself, and once it is over it does not come back without another reset.
pub proof fn law_each_reset_is_shown_once(
    before: ResetCover,
    after: ResetCover,
    reset: (u32, ResetKind),
    now_ms: u128,
    i18n: I18n,
    frame: Option<CoverFrame>,
)
    requires
        advances(before, after, reset, now_ms, i18n, frame),
    ensures
        after.last_reset_pulse == reset.0,
        frame is Some <==> after.anim is Some,
        reset.0 != before.last_reset_pulse ==> {
            &&& frame is Some
            &&& after.anim == Some(ResetAnim { start_ms: now_ms, kind: reset.1 })
            &&& reset.1 == ResetKind::Manual ==> frame->0.text@ == tr(
                i18n,
                "overlay.reset.manual"@,
            )
            &&& reset.1 == ResetKind::Auto ==> frame->0.text@ == tr(i18n, "overlay.reset.auto"@)
        },
        reset.0 == before.last_reset_pulse && before.anim is None ==> frame is None,
        reset.0 == before.last_reset_pulse && before.anim is Some ==> (frame is Some <==> now_ms
            < before.anim->0.start_ms + 680),
        reset.0 == before.last_reset_pulse && frame is Some ==> after.anim == before.anim,
{
}

} // verus!
