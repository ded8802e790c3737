//! The real-time analysis path: what the commands of the worker and the analyzed frames do to the
//! timer, and what is shown and recorded of each frame.
use crate::telemetry::RunTelemetryStats;
use crate::text;
use crate::text::opt_view;
use crate::ui_state;
use crate::ui_state::{
    api_of_record, frame_text, time_text, total_text, ApiFrameRecord, ApiStateSnapshot,
    FrameDisplayMode, OverlayMode, Progress, ResetKind, TimingDebug, UiSnapshot,
};
use crate::worker::{shown_anew, AppStateSnapshot, SharedAppState, WorkerTimingSnapshot};
use vstd::prelude::*;

verus! {

/// Commands from the worker to the analyzer.
#[derive(Debug, PartialEq, Eq)]
pub enum AnalyzerCommand {
    /// Load a calibration profile.
    LoadCalibration { path: String },
    /// Forget the current calibration.
    ClearCalibration,
    /// Set the timer to zero.
    ResetTimer,
    /// Bring back the time that the last reset took away.
    UndoResetTimer,
    /// Move the timer by a number of frames, forward or back.
    AdjustTimer { frames: i32 },
    /// Set the timer to an absolute number of elapsed frames.
    SetTimer { frames: i32 },
    /// Choose the active profile within the calibration table.
    SetProfileIndex { index: usize },
    /// Choose how frames are numbered.
    SetDisplayMode(FrameDisplayMode),
    /// Tell the size of the captured picture.
    SetRoi { width: i32, height: i32 },
    /// Start a lap, or end the one that runs.
    ToggleLapTimer,
    /// While calibrating, frames are not published: the collector owns what is shown.
    SetCalibrating { calibrating: bool },
    /// Stop analyzing.
    Shutdown,
}

/// What the analysis engine is told.
#[derive(Debug, PartialEq, Eq)]
pub enum EngineCall {
    LoadCalibration { path: String },
    ClearCalibration,
    ResetTimer,
    AdjustTimer { frames: i32 },
    SetProfileIndex { index: usize },
    SetRoi { width: i32, height: i32 },
}

/// The time that the last reset took away, while it can be brought back.
#[derive(Clone, Copy, Debug, PartialEq, Eq, Structural)]
pub struct TimerResetUndo {
    pub previous_elapsed_frames: Option<i32>,
}

impl Default for TimerResetUndo {
    fn default() -> (undo: Self)
        ensures
            undo.previous_elapsed_frames is None,
    {
        TimerResetUndo { previous_elapsed_frames: None }
    }
}

impl TimerResetUndo {
    /// A reset that took away no time cannot be undone.
    pub open spec fn of_reset(elapsed_frames: i32) -> TimerResetUndo {
        TimerResetUndo {
            previous_elapsed_frames: if elapsed_frames != 0 {
                Some(elapsed_frames)
            } else {
                None
            },
        }
    }

    pub fn remember_reset(&mut self, elapsed_frames: i32)
        ensures
            *final(self) == TimerResetUndo::of_reset(elapsed_frames),
    {
        self.previous_elapsed_frames =
        if elapsed_frames != 0 {
            Some(elapsed_frames)
        } else {
            None
        };
    }

    pub fn take(&mut self) -> (elapsed_frames: Option<i32>)
        ensures
            elapsed_frames == old(self).previous_elapsed_frames,
            final(self).previous_elapsed_frames is None,
    {
        let elapsed_frames = self.previous_elapsed_frames;
        self.previous_elapsed_frames = None;
        elapsed_frames
    }

    pub fn clear(&mut self)
        ensures
            final(self).previous_elapsed_frames is None,
    {
        self.previous_elapsed_frames = None;
    }

    pub fn is_available(self) -> (b: bool)
        ensures
            b == self.previous_elapsed_frames is Some,
    {
        self.previous_elapsed_frames.is_some()
    }
}

/// What the analyzer remembers between frames.
#[derive(Clone, Copy, Debug, PartialEq, Eq, Structural)]
pub struct AnalyzerContext {
    pub display_mode: FrameDisplayMode,
    pub sample_index: u64,
    pub last_elapsed_frames: i32,
    pub last_total_frames: i32,
    pub last_cost_is_negative: bool,
    pub last_recorded_frame_id: Option<u64>,
    pub lap_start_frame: Option<i32>,
    pub reset_pulse: u32,
    pub reset_kind: ResetKind,
    pub timer_reset_undo: TimerResetUndo,
    pub calibrating: bool,
    pub running: bool,
}

/// The timer starts over: no time, no undo, no lap, no frame before.
pub open spec fn started_over(ctx: AnalyzerContext) -> AnalyzerContext {
    AnalyzerContext {
        last_elapsed_frames: 0,
        last_cost_is_negative: false,
        last_recorded_frame_id: None,
        timer_reset_undo: TimerResetUndo { previous_elapsed_frames: None },
        lap_start_frame: None,
        ..ctx
    }
}

/// The numbers that a command leads to fit the timer.
pub open spec fn command_fits(ctx: AnalyzerContext, cmd: AnalyzerCommand) -> bool {
    match cmd {
        AnalyzerCommand::UndoResetTimer => match ctx.timer_reset_undo.previous_elapsed_frames {
            Some(elapsed) => i32::MIN <= elapsed - ctx.last_elapsed_frames <= i32::MAX,
            None => true,
        },
        AnalyzerCommand::AdjustTimer { frames } => i32::MIN <= ctx.last_elapsed_frames + frames
            <= i32::MAX,
        AnalyzerCommand::SetTimer { frames } => i32::MIN <= frames - ctx.last_elapsed_frames
            <= i32::MAX,
        _ => true,
    }
}

/// What a command does to what the analyzer remembers.
pub open spec fn after_command(ctx: AnalyzerContext, cmd: AnalyzerCommand) -> AnalyzerContext {
    match cmd {
        AnalyzerCommand::LoadCalibration { .. } => started_over(ctx),
        AnalyzerCommand::ClearCalibration => started_over(ctx),
        AnalyzerCommand::ResetTimer => AnalyzerContext {
            reset_pulse: if ctx.last_elapsed_frames != 0 {
                ctx.reset_pulse.wrapping_add(1)
            } else {
                ctx.reset_pulse
            },
            reset_kind: if ctx.last_elapsed_frames != 0 {
                ResetKind::Manual
            } else {
                ctx.reset_kind
            },
            timer_reset_undo: TimerResetUndo::of_reset(ctx.last_elapsed_frames),
            lap_start_frame: None,
            last_elapsed_frames: 0,
            last_recorded_frame_id: None,
            ..ctx
        },
        AnalyzerCommand::UndoResetTimer => match ctx.timer_reset_undo.previous_elapsed_frames {
            Some(elapsed) => AnalyzerContext {
                timer_reset_undo: TimerResetUndo { previous_elapsed_frames: None },
                last_elapsed_frames: elapsed,
                lap_start_frame: None,
                ..ctx
            },
            None => ctx,
        },
        AnalyzerCommand::AdjustTimer { frames } => AnalyzerContext {
            last_elapsed_frames: (ctx.last_elapsed_frames + frames) as i32,
            ..ctx
        },
        AnalyzerCommand::SetTimer { frames } => AnalyzerContext {
            last_elapsed_frames: frames,
            ..ctx
        },
        AnalyzerCommand::SetDisplayMode(mode) => AnalyzerContext { display_mode: mode, ..ctx },
        AnalyzerCommand::ToggleLapTimer => AnalyzerContext {
            lap_start_frame: match ctx.lap_start_frame {
                Some(_) => None,
                None => Some(ctx.last_elapsed_frames),
            },
            ..ctx
        },
        AnalyzerCommand::SetCalibrating { calibrating } => AnalyzerContext {
            calibrating,
            last_recorded_frame_id: if calibrating {
                None
            } else {
                ctx.last_recorded_frame_id
            },
            ..ctx
        },
        AnalyzerCommand::Shutdown => AnalyzerContext { running: false, ..ctx },
        AnalyzerCommand::SetProfileIndex { .. } => ctx,
        AnalyzerCommand::SetRoi { .. } => ctx,
    }
}

/// What a command makes the engine do: its timer moves as the remembered one does.
pub open spec fn engine_calls(ctx: AnalyzerContext, cmd: AnalyzerCommand) -> Seq<EngineCall> {
    match cmd {
        AnalyzerCommand::LoadCalibration { path } => seq![EngineCall::LoadCalibration { path }],
        AnalyzerCommand::ClearCalibration => seq![
            EngineCall::ClearCalibration,
            EngineCall::ResetTimer,
        ],
        AnalyzerCommand::ResetTimer => seq![EngineCall::ResetTimer],
        AnalyzerCommand::UndoResetTimer => match ctx.timer_reset_undo.previous_elapsed_frames {
            Some(elapsed) => seq![
                EngineCall::AdjustTimer { frames: (elapsed - ctx.last_elapsed_frames) as i32 },
            ],
            None => Seq::empty(),
        },
        AnalyzerCommand::AdjustTimer { frames } => seq![EngineCall::AdjustTimer { frames }],
        AnalyzerCommand::SetTimer { frames } => seq![
            EngineCall::AdjustTimer { frames: (frames - ctx.last_elapsed_frames) as i32 },
        ],
        AnalyzerCommand::SetProfileIndex { index } => seq![EngineCall::SetProfileIndex { index }],
        AnalyzerCommand::SetRoi { width, height } => seq![EngineCall::SetRoi { width, height }],
        _ => Seq::empty(),
    }
}

impl AnalyzerContext {
    /// A context that has seen nothing yet.
    pub fn new(display_mode: FrameDisplayMode) -> (ctx: Self)
        ensures
            ctx == (AnalyzerContext {
                display_mode,
                sample_index: 0,
                last_elapsed_frames: 0,
                last_total_frames: 0,
                last_cost_is_negative: false,
                last_recorded_frame_id: None,
                lap_start_frame: None,
                reset_pulse: 0,
                reset_kind: ResetKind::Manual,
                timer_reset_undo: TimerResetUndo { previous_elapsed_frames: None },
                calibrating: false,
                running: true,
            }),
    {
        AnalyzerContext {
            display_mode,
            sample_index: 0,
            last_elapsed_frames: 0,
            last_total_frames: 0,
            last_cost_is_negative: false,
            last_recorded_frame_id: None,
            lap_start_frame: None,
            reset_pulse: 0,
            reset_kind: ResetKind::Manual,
            timer_reset_undo: TimerResetUndo { previous_elapsed_frames: None },
            calibrating: false,
            running: true,
        }
    }

    fn start_over(&mut self)
        ensures
            *final(self) == started_over(*old(self)),
    {
        self.last_elapsed_frames = 0;
        self.last_cost_is_negative = false;
        self.last_recorded_frame_id = None;
        self.timer_reset_undo.clear();
        self.lap_start_frame = None;
    }

    /// Carries out one command and says what the engine has to do for it, in order.
    pub fn apply_command(&mut self, cmd: AnalyzerCommand) -> (calls: Vec<EngineCall>)
        requires
            command_fits(*old(self), cmd),
        ensures
            *final(self) == after_command(*old(self), cmd),
            calls@ == engine_calls(*old(self), cmd),
    {
        match cmd {
            AnalyzerCommand::LoadCalibration { path } => {
                self.start_over();
                vec![EngineCall::LoadCalibration { path }]
            },
            AnalyzerCommand::ClearCalibration => {
                self.start_over();
                vec![EngineCall::ClearCalibration, EngineCall::ResetTimer]
            },
            AnalyzerCommand::ResetTimer => {
                if self.last_elapsed_frames != 0 {
                    self.reset_pulse = self.reset_pulse.wrapping_add(1);
                    self.reset_kind = ResetKind::Manual;
                }
                self.timer_reset_undo.remember_reset(self.last_elapsed_frames);
                self.lap_start_frame = None;
                self.last_elapsed_frames = 0;
                self.last_recorded_frame_id = None;
                vec![EngineCall::ResetTimer]
            },
            AnalyzerCommand::UndoResetTimer => {
                match self.timer_reset_undo.take() {
                    Some(elapsed) => {
                        let frames: i32 = elapsed - self.last_elapsed_frames;
                        self.last_elapsed_frames = elapsed;
                        self.lap_start_frame = None;
                        vec![EngineCall::AdjustTimer { frames }]
                    },
                    None => Vec::new(),
                }
            },
            AnalyzerCommand::AdjustTimer { frames } => {
                self.last_elapsed_frames = self.last_elapsed_frames + frames;
                vec![EngineCall::AdjustTimer { frames }]
            },
            AnalyzerCommand::SetTimer { frames } => {
                let delta: i32 = frames - self.last_elapsed_frames;
                self.last_elapsed_frames = frames;
                vec![EngineCall::AdjustTimer { frames: delta }]
            },
            AnalyzerCommand::SetProfileIndex { index } => {
                vec![EngineCall::SetProfileIndex { index }]
            },
            AnalyzerCommand::SetDisplayMode(mode) => {
                self.display_mode = mode;
                Vec::new()
            },
            AnalyzerCommand::SetRoi { width, height } => {
                vec![EngineCall::SetRoi { width, height }]
            },
            AnalyzerCommand::ToggleLapTimer => {
                self.lap_start_frame =
                if self.lap_start_frame.is_some() {
                    None
                } else {
                    Some(self.last_elapsed_frames)
                };
                Vec::new()
            },
            AnalyzerCommand::SetCalibrating { calibrating } => {
                self.calibrating = calibrating;
                if calibrating {
                    self.last_recorded_frame_id = None;
                }
                Vec::new()
            },
            AnalyzerCommand::Shutdown => {
                self.running = false;
                Vec::new()
            },
        }
    }

    /// Whether the numbers that a command leads to fit the timer.
    pub fn can_apply(&self, cmd: &AnalyzerCommand) -> (b: bool)
        ensures
            b == command_fits(*self, *cmd),
    {
        match cmd {
            AnalyzerCommand::UndoResetTimer => match self.timer_reset_undo.previous_elapsed_frames {
                Some(elapsed) => elapsed.checked_sub(self.last_elapsed_frames).is_some(),
                None => true,
            },
            AnalyzerCommand::AdjustTimer { frames } => {
                self.last_elapsed_frames.checked_add(*frames).is_some()
            },
            AnalyzerCommand::SetTimer { frames } => {
                frames.checked_sub(self.last_elapsed_frames).is_some()
            },
            _ => true,
        }
    }

    /// Whether frames are published: never while the worker owns what is shown, that is during a
    /// calibration or as long as there is none.
    pub fn publishes(&self, has_calibration: bool) -> (b: bool)
        ensures
            b == (!self.calibrating && has_calibration),
    {
        !self.calibrating && has_calibration
    }
}

/// Undoing a reset brings back exactly the time that was shown before it.
pub proof fn law_undo_restores_the_time(ctx: AnalyzerContext)
    requires
        ctx.last_elapsed_frames != 0,
    ensures
        command_fits(after_command(ctx, AnalyzerCommand::ResetTimer), AnalyzerCommand::UndoResetTimer),
        ({
            let reset = after_command(ctx, AnalyzerCommand::ResetTimer);
            let undone = after_command(reset, AnalyzerCommand::UndoResetTimer);
            &&& reset.last_elapsed_frames == 0
            &&& undone.last_elapsed_frames == ctx.last_elapsed_frames
            &&& undone.timer_reset_undo.previous_elapsed_frames is None
            &&& engine_calls(reset, AnalyzerCommand::UndoResetTimer) == seq![
                EngineCall::AdjustTimer { frames: ctx.last_elapsed_frames },
            ]
        }),
{
}

/// A reset of a timer that stands at zero shows nothing and leaves nothing to undo.
pub proof fn law_empty_reset_is_silent(ctx: AnalyzerContext)
    requires
        ctx.last_elapsed_frames == 0,
    ensures
        ({
            let reset = after_command(ctx, AnalyzerCommand::ResetTimer);
            &&& reset.reset_pulse == ctx.reset_pulse
            &&& reset.reset_kind == ctx.reset_kind
            &&& reset.timer_reset_undo.previous_elapsed_frames is None
        }),
{
}

/// Every reset that takes time away changes the pulse, so that the overlay sees it.
pub proof fn law_reset_pulse_changes(ctx: AnalyzerContext)
    requires
        ctx.last_elapsed_frames != 0,
    ensures
        after_command(ctx, AnalyzerCommand::ResetTimer).reset_pulse != ctx.reset_pulse,
        after_command(ctx, AnalyzerCommand::ResetTimer).reset_kind == ResetKind::Manual,
{
}

/// Setting the timer and moving it there are the same for the engine and for what is remembered.
pub proof fn law_setting_is_adjusting(ctx: AnalyzerContext, frames: i32)
    requires
        command_fits(ctx, AnalyzerCommand::SetTimer { frames }),
    ensures
        ({
            let delta = (frames - ctx.last_elapsed_frames) as i32;
            let adjust = AnalyzerCommand::AdjustTimer { frames: delta };
            let set = AnalyzerCommand::SetTimer { frames };
            &&& command_fits(ctx, adjust)
            &&& after_command(ctx, set) == after_command(ctx, adjust)
            &&& engine_calls(ctx, set) == engine_calls(ctx, adjust)
            &&& after_command(ctx, set).last_elapsed_frames == frames
        }),
{
}

/// Toggling the lap timer twice changes nothing when no lap ran before.
pub proof fn law_lap_toggles(ctx: AnalyzerContext)
    ensures
        ({
            let once = after_command(ctx, AnalyzerCommand::ToggleLapTimer);
            let twice = after_command(once, AnalyzerCommand::ToggleLapTimer);
            &&& once.lap_start_frame is Some <==> ctx.lap_start_frame is None
            &&& ctx.lap_start_frame is None ==> twice == ctx
        }),
{
}

#[derive(Clone, Copy, Debug, PartialEq, Eq, Structural)]
pub enum PixelFormat {
    Rgba,
    Bgr,
    Bgra,
}

pub open spec fn format_name(format: PixelFormat) -> Seq<char> {
    match format {
        PixelFormat::Rgba => "rgba"@,
        PixelFormat::Bgr => "bgr"@,
        PixelFormat::Bgra => "bgra"@,
    }
}

pub fn pixel_format_name(format: PixelFormat) -> (name: &'static str)
    ensures
        name@ == format_name(format),
{
    match format {
        PixelFormat::Rgba => "rgba",
        PixelFormat::Bgr => "bgr",
        PixelFormat::Bgra => "bgra",
    }
}

/// What the library needs to know of a captured frame; its pixels stay outside.
#[derive(Clone, Copy, Debug, PartialEq, Eq, Structural)]
pub struct FrameInfo {
    pub id: u64,
    pub width: u32,
    pub height: u32,
    pub format: PixelFormat,
    pub capture_timestamp_ns: u64,
    pub capture_duration_us: u64,
}

/// The part of a battle's course that the timer depends on.
#[derive(Clone, Copy, Debug, PartialEq, Eq, Structural)]
pub enum BattlePhase {
    /// The frame does not show a battle, or cannot be read.
    NotInBattle,
    /// A battle has just begun.
    BattleBegin,
    /// Anything else.
    Other,
}

/// The state of the battle on a frame: the name that the API shows, and its phase.
#[derive(Debug, PartialEq, Eq)]
pub struct BattleState {
    pub name: String,
    pub phase: BattlePhase,
}

/// What the engine found on a frame.
#[derive(Debug, PartialEq, Eq)]
pub struct FrameResult {
    pub battle_state: BattleState,
    pub logical_frame: Option<i32>,
    pub total_frames_in_cycle: i32,
    pub elapsed_frames: i32,
    pub raw_pixel_width: Option<i32>,
    pub cost_is_negative: bool,
    pub timing_debug: Option<TimingDebug>,
}

/// The number of frames between the one before and this one that were not analyzed.
pub open spec fn dropped_between(previous: Option<u64>, frame_id: u64) -> int {
    match previous {
        Some(previous) => if frame_id > previous + 1 {
            frame_id - previous - 1
        } else {
            0
        },
        None => 0,
    }
}

pub fn dropped_since_previous(previous_frame_id: Option<u64>, frame_id: u64) -> (dropped: u64)
    ensures
        dropped == dropped_between(previous_frame_id, frame_id),
{
    match previous_frame_id {
        Some(previous) => if previous < frame_id {
            frame_id - previous - 1
        } else {
            0
        },
        None => 0,
    }
}

pub open spec fn total_with_marker(
    mode: FrameDisplayMode,
    total_frames: int,
    cost_is_negative: bool,
) -> Seq<char> {
    if cost_is_negative {
        total_text(mode, total_frames).push('*')
    } else {
        total_text(mode, total_frames)
    }
}

fn display_total_with_cost_marker(
    display_mode: FrameDisplayMode,
    total_frames: i32,
    cost_is_negative: bool,
) -> (shown: String)
    requires
        display_mode == FrameDisplayMode::ZeroToNMinusOne ==> total_frames > i32::MIN,
    ensures
        shown@ == total_with_marker(display_mode, total_frames as int, cost_is_negative),
{
    let mut shown = display_mode.display_total(total_frames);
    if cost_is_negative {
        shown.push('*');
    }
    shown
}

/// The lap that runs, in frames.
pub open spec fn lap_of(ctx: AnalyzerContext) -> Option<int> {
    match ctx.lap_start_frame {
        Some(start) => Some(ctx.last_elapsed_frames - start),
        None => None,
    }
}

/// The lap that runs fits the timer.
pub open spec fn lap_fits(ctx: AnalyzerContext) -> bool {
    lap_of(ctx) matches Some(lap) ==> i32::MIN <= lap <= i32::MAX
}

pub open spec fn opt_int(o: Option<i32>) -> Option<int> {
    match o {
        Some(n) => Some(n as int),
        None => None,
    }
}

fn lap_frames(ctx: &AnalyzerContext) -> (lap: Option<i32>)
    requires
        lap_fits(*ctx),
    ensures
        opt_int(lap) == lap_of(*ctx),
{
    match ctx.lap_start_frame {
        Some(start) => Some(ctx.last_elapsed_frames - start),
        None => None,
    }
}

/// The numbers of a result can be shown.
pub open spec fn result_fits(ctx: AnalyzerContext, result: FrameResult) -> bool {
    &&& ctx.display_mode == FrameDisplayMode::OneToN ==> (result.logical_frame matches Some(frame)
        ==> frame < i32::MAX)
    &&& lap_fits(after_result(ctx, result))
}

/// Whether the lap that runs fits the timer.
pub fn lap_can_be_shown(ctx: &AnalyzerContext) -> (b: bool)
    ensures
        b == lap_fits(*ctx),
{
    match ctx.lap_start_frame {
        Some(start) => ctx.last_elapsed_frames.checked_sub(start).is_some(),
        None => true,
    }
}

/// A battle has begun, and the timer stood elsewhere: it starts over by itself.
pub open spec fn auto_resets(ctx: AnalyzerContext, result: FrameResult) -> bool {
    result.battle_state.phase == BattlePhase::BattleBegin && ctx.last_elapsed_frames
        != result.elapsed_frames
}

/// What a result does to what the analyzer remembers. The beginning of a battle ends the lap and,
/// where the time changes, counts as a reset that can be undone; otherwise the time is taken over
/// only while a cost cycle is seen.
pub open spec fn after_result(ctx: AnalyzerContext, result: FrameResult) -> AnalyzerContext {
    let begins = result.battle_state.phase == BattlePhase::BattleBegin;
    let resets = auto_resets(ctx, result);
    let pulses = resets && ctx.last_elapsed_frames != 0;
    AnalyzerContext {
        last_recorded_frame_id: if resets {
            None
        } else {
            ctx.last_recorded_frame_id
        },
        last_total_frames: result.total_frames_in_cycle,
        last_cost_is_negative: result.cost_is_negative,
        timer_reset_undo: if resets {
            TimerResetUndo::of_reset(ctx.last_elapsed_frames)
        } else {
            ctx.timer_reset_undo
        },
        reset_pulse: if pulses {
            ctx.reset_pulse.wrapping_add(1)
        } else {
            ctx.reset_pulse
        },
        reset_kind: if pulses {
            ResetKind::Auto
        } else {
            ctx.reset_kind
        },
        last_elapsed_frames: if begins || result.logical_frame is Some {
            result.elapsed_frames
        } else {
            ctx.last_elapsed_frames
        },
        lap_start_frame: if begins {
            None
        } else {
            ctx.lap_start_frame
        },
        ..ctx
    }
}

/// Whether the numbers of a result can be shown.
pub fn result_can_be_shown(ctx: &AnalyzerContext, result: &FrameResult) -> (b: bool)
    ensures
        b == result_fits(*ctx, *result),
{
    if let FrameDisplayMode::OneToN = ctx.display_mode {
        if let Some(frame) = result.logical_frame {
            if frame == i32::MAX {
                return false;
            }
        }
    }
    if let BattlePhase::BattleBegin = result.battle_state.phase {
        return true;
    }
    let elapsed: i32 = if result.logical_frame.is_some() {
        result.elapsed_frames
    } else {
        ctx.last_elapsed_frames
    };
    match ctx.lap_start_frame {
        Some(start) => elapsed.checked_sub(start).is_some(),
        None => true,
    }
}

/// `record` tells of `result` on `frame`.
pub open spec fn records(
    record: ApiFrameRecord,
    ctx: AnalyzerContext,
    frame: FrameInfo,
    result: FrameResult,
    active_profile: Option<String>,
) -> bool {
    &&& record == ApiFrameRecord {
        frame_id: frame.id,
        sample_index: ctx.sample_index,
        dropped_since_previous: dropped_between(ctx.last_recorded_frame_id, frame.id) as u64,
        is_running: result.logical_frame is Some,
        current_frame: result.logical_frame,
        total_frames_in_cycle: result.total_frames_in_cycle,
        total_elapsed_frames: ctx.last_elapsed_frames,
        active_profile: active_profile,
        raw_pixel_width: result.raw_pixel_width,
        cost_is_negative: result.cost_is_negative,
        battle_state: result.battle_state.name,
        capture_width: frame.width,
        capture_height: frame.height,
        capture_format: record.capture_format,
        capture_timestamp_ns: frame.capture_timestamp_ns,
        capture_duration_us: frame.capture_duration_us,
        timing_debug: result.timing_debug,
    }
    &&& record.capture_format@ == format_name(frame.format)
}

fn api_frame_record(
    state: &SharedAppState,
    ctx: &AnalyzerContext,
    frame: &FrameInfo,
    result: FrameResult,
) -> (record: ApiFrameRecord)
    ensures
        records(record, *ctx, *frame, result, state.inner.api.active_profile),
{
    ApiFrameRecord {
        frame_id: frame.id,
        sample_index: ctx.sample_index,
        dropped_since_previous: dropped_since_previous(ctx.last_recorded_frame_id, frame.id),
        is_running: result.logical_frame.is_some(),
        current_frame: result.logical_frame,
        total_frames_in_cycle: result.total_frames_in_cycle,
        total_elapsed_frames: ctx.last_elapsed_frames,
        active_profile: text::copy_opt(&state.inner.api.active_profile),
        raw_pixel_width: result.raw_pixel_width,
        cost_is_negative: result.cost_is_negative,
        battle_state: result.battle_state.name,
        capture_width: frame.width,
        capture_height: frame.height,
        capture_format: pixel_format_name(frame.format).to_owned(),
        capture_timestamp_ns: frame.capture_timestamp_ns,
        capture_duration_us: frame.capture_duration_us,
        timing_debug: result.timing_debug,
    }
}

/// The overlay shows the running timer as of `record`; what belongs to the worker is left alone.
pub open spec fn shows_running(
    before: UiSnapshot,
    after: UiSnapshot,
    ctx: AnalyzerContext,
    record: ApiFrameRecord,
) -> bool {
    &&& after == UiSnapshot {
        mode: OverlayMode::Running,
        message: after.message,
        display_mode: ctx.display_mode,
        display_frame: after.display_frame,
        display_total: after.display_total,
        time_str: after.time_str,
        lap_frames: after.lap_frames,
        can_undo_reset: ctx.timer_reset_undo.previous_elapsed_frames is Some,
        cursor_blocked: false,
        total_frames_in_cycle: record.total_frames_in_cycle,
        reset_pulse: ctx.reset_pulse,
        reset_kind: ctx.reset_kind,
        ..before
    }
    &&& after.message@ == Seq::<char>::empty()
    &&& after.display_frame@ == frame_text(ctx.display_mode, record.current_frame)
    &&& after.display_total@ == if record.total_frames_in_cycle > 0 {
        total_with_marker(
            ctx.display_mode,
            record.total_frames_in_cycle as int,
            record.cost_is_negative,
        )
    } else {
        "/--"@
    }
    &&& after.time_str@ == time_text(ctx.last_elapsed_frames as int)
    &&& opt_int(after.lap_frames) == lap_of(ctx)
}

fn publish_running(state: &mut SharedAppState, ctx: &AnalyzerContext, record: &ApiFrameRecord)
    requires
        lap_fits(*ctx),
        ctx.display_mode == FrameDisplayMode::OneToN ==> (record.current_frame matches Some(frame)
            ==> frame < i32::MAX),
    ensures
        shown_anew(*old(state), *final(state)),
        shows_running(old(state).inner.ui, final(state).inner.ui, *ctx, *record),
        final(state).inner.api == api_of_record(*record),
{
    let display_frame = ctx.display_mode.display_frame(record.current_frame);
    let display_total = if record.total_frames_in_cycle > 0 {
        display_total_with_cost_marker(
            ctx.display_mode,
            record.total_frames_in_cycle,
            record.cost_is_negative,
        )
    } else {
        "/--".to_owned()
    };
    let lap_frames = lap_frames(ctx);
    state.inner.ui.mode = OverlayMode::Running;
    state.inner.ui.message = String::new();
    state.inner.ui.display_mode = ctx.display_mode;
    state.inner.ui.display_frame = display_frame;
    state.inner.ui.display_total = display_total;
    state.inner.ui.time_str = ui_state::format_time_from_frames(ctx.last_elapsed_frames);
    state.inner.ui.lap_frames = lap_frames;
    state.inner.ui.can_undo_reset = ctx.timer_reset_undo.is_available();
    state.inner.ui.cursor_blocked = false;
    state.inner.ui.total_frames_in_cycle = record.total_frames_in_cycle;
    state.inner.ui.reset_pulse = ctx.reset_pulse;
    state.inner.ui.reset_kind = ctx.reset_kind;
    state.inner.api.update_from_frame_record(record);
    state.notify_overlay();
}

/// The overlay shows that the cursor hides the cost bar, and the time as it stood.
pub open spec fn shows_cursor_blocked(
    before: UiSnapshot,
    after: UiSnapshot,
    ctx: AnalyzerContext,
) -> bool {
    &&& after == UiSnapshot {
        mode: OverlayMode::Running,
        message: after.message,
        progress: Progress::none(),
        cursor_blocked: true,
        time_str: after.time_str,
        lap_frames: after.lap_frames,
        ..before
    }
    &&& after.message@ == Seq::<char>::empty()
    &&& after.time_str@ == time_text(ctx.last_elapsed_frames as int)
    &&& opt_int(after.lap_frames) == lap_of(ctx)
}

/// The API tells of a frame that could not be read behind the cursor.
pub open spec fn tells_cursor_blocked(
    before: ApiStateSnapshot,
    after: ApiStateSnapshot,
    ctx: AnalyzerContext,
    frame: FrameInfo,
    battle_state: Seq<char>,
) -> bool {
    &&& after == ApiStateSnapshot {
        is_running: false,
        current_frame: None,
        total_frames_in_cycle: 0,
        total_elapsed_frames: ctx.last_elapsed_frames,
        frame_id: Some(frame.id),
        sample_index: ctx.sample_index,
        dropped_since_previous: dropped_between(ctx.last_recorded_frame_id, frame.id) as u64,
        raw_pixel_width: None,
        cost_is_negative: false,
        battle_state: after.battle_state,
        capture_width: Some(frame.width),
        capture_height: Some(frame.height),
        capture_format: after.capture_format,
        capture_timestamp_ns: Some(frame.capture_timestamp_ns),
        capture_duration_us: Some(frame.capture_duration_us),
        timing_debug: None,
        ..before
    }
    &&& opt_view(after.battle_state) == Some(battle_state)
    &&& opt_view(after.capture_format) == Some(format_name(frame.format))
}

/// What a frame on which the cursor hides the cost bar does to the shared state and to what the
/// analyzer remembers.
pub open spec fn is_blocked(
    before: (SharedAppState, AnalyzerContext),
    after: (SharedAppState, AnalyzerContext),
    frame: FrameInfo,
    battle_state: Seq<char>,
) -> bool {
    &&& after.1 == (AnalyzerContext {
        sample_index: (before.1.sample_index + 1) as u64,
        ..before.1
    })
    &&& shows_cursor_blocked(before.0.inner.ui, after.0.inner.ui, after.1)
    &&& tells_cursor_blocked(
        before.0.inner.api,
        after.0.inner.api,
        after.1,
        frame,
        battle_state,
    )
    &&& after.0 == (SharedAppState {
        inner: AppStateSnapshot {
            ui: after.0.inner.ui,
            api: after.0.inner.api,
            worker_timing: WorkerTimingSnapshot { sample_index: after.1.sample_index },
            ..before.0.inner
        },
        wakes: before.0.wakes.wrapping_add(1).wrapping_add(1),
        ..before.0
    })
}

/// Counts a frame and, where the cursor hides the cost bar, shows that in place of a result.
pub fn publish_cursor_blocked(
    state: &mut SharedAppState,
    ctx: &mut AnalyzerContext,
    frame: &FrameInfo,
    battle_state: &str,
)
    requires
        old(ctx).sample_index < u64::MAX,
        lap_fits(*old(ctx)),
    ensures
        is_blocked((*old(state), *old(ctx)), (*final(state), *final(ctx)), *frame, battle_state@),
{
    ctx.sample_index = ctx.sample_index + 1;
    let dropped: u64 = dropped_since_previous(ctx.last_recorded_frame_id, frame.id);
    state.inner.ui.mode = OverlayMode::Running;
    state.inner.ui.message = String::new();
    state.inner.ui.progress = Progress::none();
    state.inner.ui.cursor_blocked = true;
    state.inner.ui.time_str = ui_state::format_time_from_frames(ctx.last_elapsed_frames);
    state.inner.ui.lap_frames = lap_frames(ctx);
    state.inner.api.is_running = false;
    state.inner.api.current_frame = None;
    state.inner.api.total_frames_in_cycle = 0;
    state.inner.api.total_elapsed_frames = ctx.last_elapsed_frames;
    state.inner.api.frame_id = Some(frame.id);
    state.inner.api.sample_index = ctx.sample_index;
    state.inner.api.dropped_since_previous = dropped;
    state.inner.api.raw_pixel_width = None;
    state.inner.api.cost_is_negative = false;
    state.inner.api.battle_state = Some(battle_state.to_owned());
    state.inner.api.capture_width = Some(frame.width);
    state.inner.api.capture_height = Some(frame.height);
    state.inner.api.capture_format = Some(pixel_format_name(frame.format).to_owned());
    state.inner.api.capture_timestamp_ns = Some(frame.capture_timestamp_ns);
    state.inner.api.capture_duration_us = Some(frame.capture_duration_us);
    state.inner.api.timing_debug = None;
    state.notify_overlay();
    state.update_timing(WorkerTimingSnapshot { sample_index: ctx.sample_index });
}

fn publish_error(state: &mut SharedAppState, error: String)
    ensures
        shown_anew(*old(state), *final(state)),
        final(state).inner.ui == (UiSnapshot {
            mode: OverlayMode::Error,
            message: error,
            progress: Progress::none(),
            cursor_blocked: false,
            ..old(state).inner.ui
        }),
        final(state).inner.api == (ApiStateSnapshot {
            is_running: false,
            current_frame: None,
            ..old(state).inner.api
        }),
{
    state.inner.ui.mode = OverlayMode::Error;
    state.inner.ui.message = error;
    state.inner.ui.progress = Progress::none();
    state.inner.ui.cursor_blocked = false;
    state.inner.api.is_running = false;
    state.inner.api.current_frame = None;
    state.notify_overlay();
}

/// What an analyzed frame does to all that is shared: `history` is the record of frames before it.
pub open spec fn published(
    before: SharedAppState,
    after: SharedAppState,
    ctx: AnalyzerContext,
    frame: FrameInfo,
    result: FrameResult,
) -> bool {
    let settled = after_result(ctx, result);
    let kept = if auto_resets(ctx, result) {
        Seq::<ApiFrameRecord>::empty()
    } else {
        before.api_history@
    };
    let record = after.api_history@.last();
    &&& after.api_history@ == kept.push(record)
    &&& records(record, settled, frame, result, before.inner.api.active_profile)
    &&& shows_running(before.inner.ui, after.inner.ui, settled, record)
    &&& after == SharedAppState {
        inner: AppStateSnapshot {
            ui: after.inner.ui,
            api: api_of_record(record),
            worker_timing: WorkerTimingSnapshot { sample_index: ctx.sample_index },
            ..before.inner
        },
        api_history: after.api_history,
        wakes: before.wakes.wrapping_add(1).wrapping_add(1),
        ..before
    }
}

/// What is remembered once the frame is recorded.
pub open spec fn after_frame(
    ctx: AnalyzerContext,
    frame: FrameInfo,
    result: FrameResult,
) -> AnalyzerContext {
    AnalyzerContext { last_recorded_frame_id: Some(frame.id), ..after_result(ctx, result) }
}

/// What a frame that could be analyzed does to the shared state, to what the analyzer remembers and
/// to the counts of the run: all three are as `before` first and as `after` then.
pub open spec fn analyzed(
    before: (SharedAppState, AnalyzerContext, RunTelemetryStats),
    after: (SharedAppState, AnalyzerContext, RunTelemetryStats),
    frame: FrameInfo,
    result: FrameResult,
) -> bool {
    let counted = AnalyzerContext { sample_index: (before.1.sample_index + 1) as u64, ..before.1 };
    &&& after.1 == after_frame(counted, frame, result)
    &&& published(before.0, after.0, counted, frame, result)
    &&& after.2 == RunTelemetryStats {
        analyzed_frames: before.2.analyzed_frames.wrapping_add(1),
        action_restarts: if auto_resets(before.1, result) {
            before.2.action_restarts.wrapping_add(1)
        } else {
            before.2.action_restarts
        },
    }
}

/// What a frame that could not be analyzed does: it is counted, and only the error is shown.
pub open spec fn analysis_failed(
    before: (SharedAppState, AnalyzerContext, RunTelemetryStats),
    after: (SharedAppState, AnalyzerContext, RunTelemetryStats),
    error: Seq<char>,
) -> bool {
    &&& after.1 == AnalyzerContext {
        sample_index: (before.1.sample_index + 1) as u64,
        ..before.1
    }
    &&& shown_anew(before.0, after.0)
    &&& after.0.inner.ui == UiSnapshot {
        mode: OverlayMode::Error,
        message: after.0.inner.ui.message,
        progress: Progress::none(),
        cursor_blocked: false,
        ..before.0.inner.ui
    }
    &&& after.0.inner.ui.message@ == "analyze error: "@ + error
    &&& after.0.inner.api == ApiStateSnapshot {
        is_running: false,
        current_frame: None,
        ..before.0.inner.api
    }
    &&& after.2 == RunTelemetryStats {
        analyzed_frames: before.2.analyzed_frames.wrapping_add(1),
        ..before.2
    }
}

/// Takes in what the engine says of a frame: counts it, moves the timer, shows and records it.
/// Where the engine failed, only the error is shown.
pub fn analyze_and_publish(
    state: &mut SharedAppState,
    ctx: &mut AnalyzerContext,
    stats: &mut RunTelemetryStats,
    frame: &FrameInfo,
    outcome: Result<FrameResult, String>,
)
    requires
        old(ctx).sample_index < u64::MAX,
        outcome matches Ok(result) ==> result_fits(*old(ctx), result),
    ensures
        match outcome {
            Ok(result) => analyzed(
                (*old(state), *old(ctx), *old(stats)),
                (*final(state), *final(ctx), *final(stats)),
                *frame,
                result,
            ),
            Err(error) => analysis_failed(
                (*old(state), *old(ctx), *old(stats)),
                (*final(state), *final(ctx), *final(stats)),
                error@,
            ),
        },
{
    ctx.sample_index = ctx.sample_index + 1;
    stats.record_analyzed_frame();
    match outcome {
        Ok(result) => {
            let begins = result.battle_state.phase == BattlePhase::BattleBegin;
            let resets = begins && ctx.last_elapsed_frames != result.elapsed_frames;
            if resets {
                state.clear_api_frame_history();
                ctx.last_recorded_frame_id = None;
                stats.record_action_restart();
            }
            ctx.last_total_frames = result.total_frames_in_cycle;
            ctx.last_cost_is_negative = result.cost_is_negative;
            if begins {
                if resets {
                    ctx.timer_reset_undo.remember_reset(ctx.last_elapsed_frames);
                    if ctx.last_elapsed_frames != 0 {
                        ctx.reset_pulse = ctx.reset_pulse.wrapping_add(1);
                        ctx.reset_kind = ResetKind::Auto;
                    }
                }
                ctx.last_elapsed_frames = result.elapsed_frames;
                ctx.lap_start_frame = None;
            } else if result.logical_frame.is_some() {
                ctx.last_elapsed_frames = result.elapsed_frames;
            }
            let record = api_frame_record(state, ctx, frame, result);
            publish_running(state, ctx, &record);
            state.record_api_frame(record);
            ctx.last_recorded_frame_id = Some(frame.id);
            state.update_timing(WorkerTimingSnapshot { sample_index: ctx.sample_index });
        },
        Err(error) => {
            let mut message = "analyze error: ".to_owned();
            message.append(&error);
            publish_error(state, message);
        },
    }
}

/// What the API tells of the current frame is what a request for that frame gives.
pub proof fn law_snapshot_agrees_with_history(
    before: SharedAppState,
    after: SharedAppState,
    ctx: AnalyzerContext,
    frame: FrameInfo,
    result: FrameResult,
)
    requires
        published(before, after, ctx, frame, result),
    ensures
        after.inner.api.frame_id == Some(frame.id),
        crate::worker::record_at_or_before(after.api_history@, frame.id) == Some(
            after.api_history@.last(),
        ),
        after.inner.api == api_of_record(after.api_history@.last()),
{
}

/// Frames recorded one after the other stay in capture order, as long as they are captured in it.
pub proof fn law_history_stays_in_capture_order(
    before: SharedAppState,
    after: SharedAppState,
    ctx: AnalyzerContext,
    frame: FrameInfo,
    result: FrameResult,
)
    requires
        published(before, after, ctx, frame, result),
        crate::worker::in_capture_order(before.api_history@),
        before.api_history@.len() > 0 ==> before.api_history@.last().frame_id < frame.id,
    ensures
        crate::worker::in_capture_order(after.api_history@),
{
    let history = before.api_history@;
    let kept = if auto_resets(ctx, result) {
        Seq::<ApiFrameRecord>::empty()
    } else {
        history
    };
    assert forall|i: int, j: int| 0 <= i < j < after.api_history@.len() implies (
    #[trigger] after.api_history@[i]).frame_id < (#[trigger] after.api_history@[j]).frame_id by {
        if j < kept.len() {
            assert(history[i].frame_id < history[j].frame_id);
        } else if i < history.len() - 1 {
            assert(history[i].frame_id < history[history.len() - 1].frame_id);
        }
    }
}

/// The beginning of a battle that changes the time can be undone: the time before comes back.
pub proof fn law_undo_restores_the_time_before_a_battle(ctx: AnalyzerContext, result: FrameResult)
    requires
        auto_resets(ctx, result),
        ctx.last_elapsed_frames != 0,
    ensures
        ({
            let begun = after_result(ctx, result);
            &&& begun.last_elapsed_frames == result.elapsed_frames
            &&& begun.reset_pulse != ctx.reset_pulse
            &&& begun.reset_kind == ResetKind::Auto
            &&& after_command(begun, AnalyzerCommand::UndoResetTimer).last_elapsed_frames
                == ctx.last_elapsed_frames
        }),
{
}

/// The time that an engine shows once it has carried out `calls`, having shown `time` before: a
/// reset takes it to zero, an adjustment moves it, and the other calls do not touch it.
pub open spec fn engine_time(time: int, calls: Seq<EngineCall>) -> int
    decreases calls.len(),
{
    if calls.len() == 0 {
        time
    } else {
        let before = engine_time(time, calls.drop_last());
        match calls.last() {
            EngineCall::ResetTimer => 0,
            EngineCall::AdjustTimer { frames } => before + frames,
            _ => before,
        }
    }
}

proof fn lemma_engine_time_of_one(time: int, call: EngineCall)
    ensures
        engine_time(time, Seq::<EngineCall>::empty()) == time,
        engine_time(time, seq![call]) == match call {
            EngineCall::ResetTimer => 0,
            EngineCall::AdjustTimer { frames } => time + frames,
            _ => time,
        },
{
    assert(seq![call].drop_last() =~= Seq::<EngineCall>::empty());
    assert(seq![call].last() == call);
    assert(engine_time(time, seq![call].drop_last()) == time);
}

/// Whatever is done to the timer is done to the engine's too: an engine that shows the remembered
/// time before a command shows the remembered time after it has carried out what it is told.
/// Loading a calibration is left out: there the engine takes its own timer back to zero.
pub proof fn law_engine_timer_keeps_step(ctx: AnalyzerContext, cmd: AnalyzerCommand)
    requires
        command_fits(ctx, cmd),
        !(cmd is LoadCalibration),
    ensures
        engine_time(ctx.last_elapsed_frames as int, engine_calls(ctx, cmd)) == after_command(
            ctx,
            cmd,
        ).last_elapsed_frames,
{
    let time = ctx.last_elapsed_frames as int;
    let calls = engine_calls(ctx, cmd);
    if calls.len() == 1 {
        assert(calls =~= seq![calls[0]]);
        lemma_engine_time_of_one(time, calls[0]);
    } else if calls.len() == 2 {
        assert(calls.drop_last() =~= seq![calls[0]]);
        lemma_engine_time_of_one(time, calls[0]);
    }
}

/// The timer goes where a command says: an adjustment moves it by just that many frames, setting it
/// and resetting it put it at the number given and at zero, undoing brings back what the last reset
/// took, and no command but these and a change of calibration moves it.
pub proof fn law_timer_goes_where_it_is_sent(ctx: AnalyzerContext, cmd: AnalyzerCommand)
    requires
        command_fits(ctx, cmd),
    ensures
        ({
            let time = ctx.last_elapsed_frames;
            let moved = after_command(ctx, cmd).last_elapsed_frames;
            match cmd {
                AnalyzerCommand::AdjustTimer { frames } => moved - time == frames,
                AnalyzerCommand::SetTimer { frames } => moved == frames,
                AnalyzerCommand::ResetTimer => moved == 0,
                AnalyzerCommand::LoadCalibration { .. } => moved == 0,
                AnalyzerCommand::ClearCalibration => moved == 0,
                AnalyzerCommand::UndoResetTimer => moved == (
                if ctx.timer_reset_undo.previous_elapsed_frames is Some {
                    ctx.timer_reset_undo.previous_elapsed_frames->0
                } else {
                    time
                }),
                _ => moved == time,
            }
        }),
{
}

/// An adjustment is one call of the engine with just that number of frames, and adjusting there and
/// back again leaves everything as it was, for the engine too.
pub proof fn law_adjusting_back_restores(ctx: AnalyzerContext, frames: i32)
    requires
        frames > i32::MIN,
        command_fits(ctx, AnalyzerCommand::AdjustTimer { frames }),
    ensures
        ({
            let there = AnalyzerCommand::AdjustTimer { frames };
            let back = AnalyzerCommand::AdjustTimer { frames: (-frames) as i32 };
            let moved = after_command(ctx, there);
            let told = engine_calls(ctx, there) + engine_calls(moved, back);
            &&& engine_calls(ctx, there).len() == 1
            &&& engine_calls(ctx, there)[0] == EngineCall::AdjustTimer { frames }
            &&& command_fits(moved, back)
            &&& after_command(moved, back) == ctx
            &&& forall|time: int| #[trigger] engine_time(time, told) == time
        }),
{
    let there = AnalyzerCommand::AdjustTimer { frames };
    let back = AnalyzerCommand::AdjustTimer { frames: (-frames) as i32 };
    let moved = after_command(ctx, there);
    let first = engine_calls(ctx, there);
    let told = first + engine_calls(moved, back);
    assert forall|time: int| #[trigger] engine_time(time, told) == time by {
        lemma_engine_time_of_one(time, first[0]);
        assert(first =~= seq![first[0]]);
        assert(told.drop_last() =~= first);
        assert(told.last() == (EngineCall::AdjustTimer { frames: (-frames) as i32 }));
    }
}

/// A command to the engine reaches it as it was given: the path, the number of the profile, the size
/// of the picture. Commands that are no business of the engine reach it not at all.
pub proof fn law_engine_is_told_what_was_asked(ctx: AnalyzerContext, cmd: AnalyzerCommand)
    ensures
        ({
            let calls = engine_calls(ctx, cmd);
            match cmd {
                AnalyzerCommand::LoadCalibration { path } => calls.len() == 1
                    && (calls[0] matches EngineCall::LoadCalibration { path: told } && told == path),
                AnalyzerCommand::ClearCalibration => calls.contains(EngineCall::ClearCalibration),
                AnalyzerCommand::SetProfileIndex { index } => calls.len() == 1
                    && (calls[0] matches EngineCall::SetProfileIndex { index: told } && told
                    == index),
                AnalyzerCommand::SetRoi { width, height } => calls.len() == 1
                    && (calls[0] matches EngineCall::SetRoi { width: wide, height: high } && wide
                    == width && high == height),
                AnalyzerCommand::SetDisplayMode(_) => calls.len() == 0,
                AnalyzerCommand::ToggleLapTimer => calls.len() == 0,
                AnalyzerCommand::SetCalibrating { .. } => calls.len() == 0,
                AnalyzerCommand::Shutdown => calls.len() == 0,
                _ => true,
            }
        }),
{
    if cmd is ClearCalibration {
        assert(engine_calls(ctx, cmd)[0] == EngineCall::ClearCalibration);
    }
}

/// What a command is not about stays: only a reset that takes time away changes the pulse and its
/// kind, only a shutdown ends the run, only the command for it changes how frames are numbered or
/// whether a calibration runs, and the samples go on being counted. A lap ends with a reset, with
/// its undoing and with a change of calibration; an adjustment lets it run on from where it began.
pub proof fn law_commands_keep_to_their_business(ctx: AnalyzerContext, cmd: AnalyzerCommand)
    requires
        command_fits(ctx, cmd),
    ensures
        ({
            let after = after_command(ctx, cmd);
            &&& after.sample_index == ctx.sample_index
            &&& after.last_total_frames == ctx.last_total_frames
            &&& after.running == (ctx.running && !(cmd is Shutdown))
            &&& after.display_mode == (if cmd is SetDisplayMode {
                cmd->SetDisplayMode_0
            } else {
                ctx.display_mode
            })
            &&& after.calibrating == (if cmd is SetCalibrating {
                cmd->calibrating
            } else {
                ctx.calibrating
            })
            &&& (after.reset_pulse != ctx.reset_pulse) == (cmd is ResetTimer
                && ctx.last_elapsed_frames != 0)
            &&& after.reset_pulse != ctx.reset_pulse ==> after.reset_kind == ResetKind::Manual
            &&& after.reset_pulse == ctx.reset_pulse ==> after.reset_kind == ctx.reset_kind
            &&& after.lap_start_frame is Some && !(cmd is ToggleLapTimer) ==> after.lap_start_frame
                == ctx.lap_start_frame
            &&& cmd is ResetTimer || cmd is LoadCalibration || cmd is ClearCalibration || (cmd
                is UndoResetTimer && ctx.timer_reset_undo.previous_elapsed_frames is Some)
                ==> after.lap_start_frame is None
            &&& cmd is AdjustTimer || cmd is SetTimer || cmd is SetDisplayMode || cmd
                is SetProfileIndex || cmd is SetRoi || cmd is SetCalibrating || cmd is Shutdown
                ==> after.lap_start_frame == ctx.lap_start_frame && after.timer_reset_undo
                == ctx.timer_reset_undo
        }),
{
}

/// A change of calibration starts everything over: there is nothing to undo, no lap and no frame
/// before. While a calibration is made or after a reset, no frame counts as the one before either.
pub proof fn law_new_calibration_starts_over(ctx: AnalyzerContext, cmd: AnalyzerCommand)
    requires
        cmd is LoadCalibration || cmd is ClearCalibration,
    ensures
        ({
            let after = after_command(ctx, cmd);
            &&& after.last_elapsed_frames == 0
            &&& after.timer_reset_undo.previous_elapsed_frames is None
            &&& after.lap_start_frame is None
            &&& after.last_recorded_frame_id is None
            &&& !after.last_cost_is_negative
            &&& after.reset_pulse == ctx.reset_pulse
            &&& forall|frame_id: u64| #[trigger]
                dropped_between(after.last_recorded_frame_id, frame_id) == 0
            &&& after_command(ctx, AnalyzerCommand::ResetTimer).last_recorded_frame_id is None
            &&& after_command(
                ctx,
                AnalyzerCommand::SetCalibrating { calibrating: true },
            ).last_recorded_frame_id is None
            &&& after_command(
                ctx,
                AnalyzerCommand::SetCalibrating { calibrating: false },
            ).last_recorded_frame_id == ctx.last_recorded_frame_id
        }),
{
}

/// A lap shows the time since it was started, at zero first, however the timer is moved meanwhile.
pub proof fn law_lap_is_the_time_since_its_start(ctx: AnalyzerContext, cmd: AnalyzerCommand)
    requires
        ctx.lap_start_frame is None,
        cmd is AdjustTimer || cmd is SetTimer,
        command_fits(after_command(ctx, AnalyzerCommand::ToggleLapTimer), cmd),
    ensures
        ({
            let started = after_command(ctx, AnalyzerCommand::ToggleLapTimer);
            let moved = after_command(started, cmd);
            &&& lap_of(ctx) is None
            &&& lap_of(started) == Some(0int)
            &&& lap_of(moved) == Some(moved.last_elapsed_frames - ctx.last_elapsed_frames)
            &&& lap_of(after_command(moved, AnalyzerCommand::ToggleLapTimer)) is None
        }),
{
}

/// A battle that begins while the timer shows another time starts the run over by itself: the time
/// is that of the frame, no lap runs, the history holds this frame alone, none counts as dropped
/// before it, and one more restart is counted. Where the timer did not stand at zero, the reset is
/// announced as an automatic one and can be undone, and undoing it brings the time before back.
pub proof fn law_battle_begin_starts_over(
    before: (SharedAppState, AnalyzerContext, RunTelemetryStats),
    after: (SharedAppState, AnalyzerContext, RunTelemetryStats),
    frame: FrameInfo,
    result: FrameResult,
)
    requires
        analyzed(before, after, frame, result),
        result.battle_state.phase == BattlePhase::BattleBegin,
        before.1.last_elapsed_frames != result.elapsed_frames,
    ensures
        after.1.last_elapsed_frames == result.elapsed_frames,
        after.1.lap_start_frame is None,
        after.0.api_history@.len() == 1,
        after.0.api_history@[0].frame_id == frame.id,
        after.0.api_history@[0].dropped_since_previous == 0,
        after.0.inner.ui.lap_frames is None,
        after.2.action_restarts as int == if before.2.action_restarts == u64::MAX {
            0
        } else {
            before.2.action_restarts + 1
        },
        before.1.last_elapsed_frames != 0 ==> {
            &&& after.1.reset_pulse != before.1.reset_pulse
            &&& after.1.reset_kind == ResetKind::Auto
            &&& after.0.inner.ui.reset_pulse == after.1.reset_pulse
            &&& after.0.inner.ui.reset_kind == ResetKind::Auto
            &&& after.0.inner.ui.can_undo_reset
            &&& after_command(after.1, AnalyzerCommand::UndoResetTimer).last_elapsed_frames
                == before.1.last_elapsed_frames
        },
        before.1.last_elapsed_frames == 0 ==> {
            &&& after.1.reset_pulse == before.1.reset_pulse
            &&& after.1.reset_kind == before.1.reset_kind
            &&& !after.0.inner.ui.can_undo_reset
        },
{
}

/// Any other frame carries the run on: the history is kept and grows by this frame, no restart is
/// counted, no reset is announced, and what could be undone still can. The timer takes over the time
/// of the frame where a cost cycle is seen on it or a battle begins, and stands still otherwise; the
/// lap runs on unless a battle begins.
pub proof fn law_other_frames_carry_on(
    before: (SharedAppState, AnalyzerContext, RunTelemetryStats),
    after: (SharedAppState, AnalyzerContext, RunTelemetryStats),
    frame: FrameInfo,
    result: FrameResult,
)
    requires
        analyzed(before, after, frame, result),
        result.battle_state.phase != BattlePhase::BattleBegin || before.1.last_elapsed_frames
            == result.elapsed_frames,
    ensures
        after.0.api_history@.len() == before.0.api_history@.len() + 1,
        forall|i: int|
            0 <= i < before.0.api_history@.len() ==> #[trigger] after.0.api_history@[i]
                == before.0.api_history@[i],
        after.0.api_history@.last().frame_id == frame.id,
        after.2.action_restarts == before.2.action_restarts,
        after.1.reset_pulse == before.1.reset_pulse,
        after.1.reset_kind == before.1.reset_kind,
        after.1.timer_reset_undo == before.1.timer_reset_undo,
        after.0.inner.ui.can_undo_reset == (before.1.timer_reset_undo.previous_elapsed_frames
            is Some),
        result.logical_frame is Some ==> after.1.last_elapsed_frames == result.elapsed_frames,
        result.logical_frame is None ==> after.1.last_elapsed_frames
            == before.1.last_elapsed_frames,
        result.battle_state.phase == BattlePhase::BattleBegin ==> after.1.lap_start_frame is None,
        result.battle_state.phase != BattlePhase::BattleBegin ==> after.1.lap_start_frame
            == before.1.lap_start_frame,
{
}

/// Every analyzed frame is counted once, is the one before for the next, and leaves alone how frames
/// are numbered, whether a calibration runs, and all of the overlay that the worker looks after.
pub proof fn law_every_frame_is_counted(
    before: (SharedAppState, AnalyzerContext, RunTelemetryStats),
    after: (SharedAppState, AnalyzerContext, RunTelemetryStats),
    frame: FrameInfo,
    result: FrameResult,
)
    requires
        before.1.sample_index < u64::MAX,
        analyzed(before, after, frame, result),
    ensures
        after.1.sample_index == before.1.sample_index + 1,
        before.2.analyzed_frames < u64::MAX ==> after.2.analyzed_frames
            == before.2.analyzed_frames + 1,
        after.1.last_recorded_frame_id == Some(frame.id),
        after.1.display_mode == before.1.display_mode,
        after.1.calibrating == before.1.calibrating,
        after.1.running == before.1.running,
        after.1.last_total_frames == result.total_frames_in_cycle,
        after.1.last_cost_is_negative == result.cost_is_negative,
        after.0.inner.worker_timing.sample_index == after.1.sample_index,
        after.0.cancel_calibration == before.0.cancel_calibration,
        after.0.inner.ui.profiles == before.0.inner.ui.profiles,
        after.0.inner.ui.should_exit == before.0.inner.ui.should_exit,
        after.0.inner.ui.overlay_scale_pct == before.0.inner.ui.overlay_scale_pct,
        after.0.inner.ui.update_notice == before.0.inner.ui.update_notice,
{
}

/// The record of a frame tells of that frame and no other: its number, size, format and times as
/// they were captured, the reading and the state of the battle as the engine gave them, the time
/// that the timer shows from then on, and the profile in use.
pub proof fn law_record_tells_of_its_frame(
    before: (SharedAppState, AnalyzerContext, RunTelemetryStats),
    after: (SharedAppState, AnalyzerContext, RunTelemetryStats),
    frame: FrameInfo,
    result: FrameResult,
)
    requires
        analyzed(before, after, frame, result),
    ensures
        ({
            let record = after.0.api_history@.last();
            &&& record.frame_id == frame.id
            &&& record.sample_index == after.1.sample_index
            &&& record.capture_width == frame.width
            &&& record.capture_height == frame.height
            &&& record.capture_timestamp_ns == frame.capture_timestamp_ns
            &&& record.capture_duration_us == frame.capture_duration_us
            &&& frame.format == PixelFormat::Rgba ==> record.capture_format@ == "rgba"@
            &&& frame.format == PixelFormat::Bgr ==> record.capture_format@ == "bgr"@
            &&& frame.format == PixelFormat::Bgra ==> record.capture_format@ == "bgra"@
            &&& record.is_running == (result.logical_frame is Some)
            &&& record.current_frame == result.logical_frame
            &&& record.total_frames_in_cycle == result.total_frames_in_cycle
            &&& record.total_elapsed_frames == after.1.last_elapsed_frames
            &&& record.raw_pixel_width == result.raw_pixel_width
            &&& record.cost_is_negative == result.cost_is_negative
            &&& record.battle_state == result.battle_state.name
            &&& record.timing_debug == result.timing_debug
            &&& record.active_profile == before.0.inner.api.active_profile
        }),
{
}

/// The frames that a record counts as dropped are those that lie between it and the one before.
pub proof fn law_dropped_frames_lie_between(
    before: (SharedAppState, AnalyzerContext, RunTelemetryStats),
    after: (SharedAppState, AnalyzerContext, RunTelemetryStats),
    frame: FrameInfo,
    result: FrameResult,
)
    requires
        analyzed(before, after, frame, result),
        result.battle_state.phase != BattlePhase::BattleBegin,
    ensures
        ({
            let dropped = after.0.api_history@.last().dropped_since_previous;
            match before.1.last_recorded_frame_id {
                Some(previous) => {
                    &&& previous < frame.id ==> previous + dropped + 1 == frame.id
                    &&& previous >= frame.id ==> dropped == 0
                },
                None => dropped == 0,
            }
        }),
{
}

/// The overlay shows the timer as it is remembered: the time, the lap, the number of the frame in
/// its cycle and the length of the cycle, marked where the cost is negative.
pub proof fn law_overlay_shows_the_timer(
    before: (SharedAppState, AnalyzerContext, RunTelemetryStats),
    after: (SharedAppState, AnalyzerContext, RunTelemetryStats),
    frame: FrameInfo,
    result: FrameResult,
)
    requires
        analyzed(before, after, frame, result),
    ensures
        ({
            let ui = after.0.inner.ui;
            let mode = before.1.display_mode;
            let total = result.total_frames_in_cycle as int;
            &&& ui.mode == OverlayMode::Running
            &&& ui.message@.len() == 0
            &&& !ui.cursor_blocked
            &&& ui.display_mode == mode
            &&& ui.total_frames_in_cycle == result.total_frames_in_cycle
            &&& ui.time_str@ == time_text(after.1.last_elapsed_frames as int)
            &&& ui.display_frame@ == frame_text(mode, result.logical_frame)
            &&& total <= 0 ==> ui.display_total@ == "/--"@
            &&& total > 0 && !result.cost_is_negative ==> ui.display_total@ == total_text(
                mode,
                total,
            )
            &&& total > 0 && result.cost_is_negative ==> ui.display_total@ == total_text(
                mode,
                total,
            ) + seq!['*']
            &&& match after.1.lap_start_frame {
                Some(start) => ui.lap_frames matches Some(lap) && lap
                    == after.1.last_elapsed_frames - start,
                None => ui.lap_frames is None,
            }
            &&& ui.reset_pulse == after.1.reset_pulse
            &&& ui.reset_kind == after.1.reset_kind
        }),
{
    let total = result.total_frames_in_cycle as int;
    let shown = total_text(before.1.display_mode, total);
    assert(shown.push('*') =~= shown + seq!['*']);
}

/// A frame that cannot be analyzed moves nothing: the timer, the lap, what can be undone and the
/// history stay as they were. It is counted, the overlay shows the error, and the API tells that
/// nothing runs while the time it tells stays.
pub proof fn law_failed_analysis_keeps_the_timer(
    before: (SharedAppState, AnalyzerContext, RunTelemetryStats),
    after: (SharedAppState, AnalyzerContext, RunTelemetryStats),
    error: Seq<char>,
)
    requires
        before.1.sample_index < u64::MAX,
        analysis_failed(before, after, error),
    ensures
        after.1.last_elapsed_frames == before.1.last_elapsed_frames,
        after.1.lap_start_frame == before.1.lap_start_frame,
        after.1.timer_reset_undo == before.1.timer_reset_undo,
        after.1.last_recorded_frame_id == before.1.last_recorded_frame_id,
        after.1.reset_pulse == before.1.reset_pulse,
        after.1.running == before.1.running,
        after.1.sample_index == before.1.sample_index + 1,
        before.2.analyzed_frames < u64::MAX ==> after.2.analyzed_frames
            == before.2.analyzed_frames + 1,
        after.2.action_restarts == before.2.action_restarts,
        after.0.api_history == before.0.api_history,
        after.0.inner.ui.mode == OverlayMode::Error,
        after.0.inner.ui.message@.len() == 15 + error.len(),
        after.0.inner.ui.message@.skip(15) == error,
        after.0.inner.ui.time_str == before.0.inner.ui.time_str,
        !after.0.inner.api.is_running,
        after.0.inner.api.current_frame is None,
        after.0.inner.api.total_elapsed_frames == before.0.inner.api.total_elapsed_frames,
{
    reveal_strlit("analyze error: ");
    assert(after.0.inner.ui.message@.skip(15) =~= error);
}

/// While the cursor hides the cost bar, the overlay and the API go on showing the time as it stood,
/// and the lap; the overlay says that the bar is hidden, and the API tells of the frame itself, with
/// no reading of the bar.
pub proof fn law_hidden_bar_shows_the_time_as_it_stood(
    before: SharedAppState,
    after: SharedAppState,
    ctx: AnalyzerContext,
    frame: FrameInfo,
    battle_state: Seq<char>,
)
    requires
        shows_cursor_blocked(before.inner.ui, after.inner.ui, ctx),
        tells_cursor_blocked(before.inner.api, after.inner.api, ctx, frame, battle_state),
    ensures
        after.inner.ui.cursor_blocked,
        after.inner.ui.mode == OverlayMode::Running,
        after.inner.ui.message@.len() == 0,
        after.inner.ui.time_str@ == time_text(ctx.last_elapsed_frames as int),
        match ctx.lap_start_frame {
            Some(start) => after.inner.ui.lap_frames matches Some(lap) && lap
                == ctx.last_elapsed_frames - start,
            None => after.inner.ui.lap_frames is None,
        },
        after.inner.ui.display_frame == before.inner.ui.display_frame,
        after.inner.ui.display_total == before.inner.ui.display_total,
        after.inner.ui.can_undo_reset == before.inner.ui.can_undo_reset,
        after.inner.ui.reset_pulse == before.inner.ui.reset_pulse,
        after.inner.api.total_elapsed_frames == ctx.last_elapsed_frames,
        after.inner.api.frame_id == Some(frame.id),
        after.inner.api.sample_index == ctx.sample_index,
        after.inner.api.capture_width == Some(frame.width),
        after.inner.api.capture_height == Some(frame.height),
        after.inner.api.capture_timestamp_ns == Some(frame.capture_timestamp_ns),
        after.inner.api.capture_duration_us == Some(frame.capture_duration_us),
        after.inner.api.battle_state matches Some(name) && name@ == battle_state,
        after.inner.api.active_profile == before.inner.api.active_profile,
        !after.inner.api.is_running,
        after.inner.api.current_frame is None,
        after.inner.api.raw_pixel_width is None,
        after.inner.api.timing_debug is None,
        after.inner.api.total_frames_in_cycle == 0,
        match ctx.last_recorded_frame_id {
            Some(previous) => previous < frame.id ==> previous
                + after.inner.api.dropped_since_previous + 1 == frame.id,
            None => after.inner.api.dropped_since_previous == 0,
        },
{
}

/// A frame behind the cursor is counted and told of, but not recorded: the timer, the lap, what a
/// reset can bring back and the frames on record all stay, so that the next frame goes on as if this
/// one had not been.
pub proof fn law_hidden_frames_are_not_recorded(
    before: (SharedAppState, AnalyzerContext),
    after: (SharedAppState, AnalyzerContext),
    frame: FrameInfo,
    battle_state: Seq<char>,
    result: FrameResult,
)
    requires
        before.1.sample_index < u64::MAX,
        is_blocked(before, after, frame, battle_state),
    ensures
        after.0.api_history == before.0.api_history,
        after.1.sample_index == before.1.sample_index + 1,
        after.1.last_elapsed_frames == before.1.last_elapsed_frames,
        after.1.lap_start_frame == before.1.lap_start_frame,
        after.1.timer_reset_undo == before.1.timer_reset_undo,
        after.1.last_recorded_frame_id == before.1.last_recorded_frame_id,
        after.1.reset_pulse == before.1.reset_pulse,
        auto_resets(after.1, result) == auto_resets(before.1, result),
        after_result(after.1, result).last_elapsed_frames == after_result(
            before.1,
            result,
        ).last_elapsed_frames,
        after.0.inner.api.frame_id == Some(frame.id),
        after.0.inner.api.capture_width == Some(frame.width),
        after.0.inner.api.capture_height == Some(frame.height),
        after.0.inner.api.capture_timestamp_ns == Some(frame.capture_timestamp_ns),
        after.0.inner.api.capture_duration_us == Some(frame.capture_duration_us),
        after.0.inner.api.sample_index == after.1.sample_index,
        after.0.inner.api.total_elapsed_frames == before.1.last_elapsed_frames,
        after.0.inner.api.current_frame is None,
        !after.0.inner.api.is_running,
        opt_view(after.0.inner.api.battle_state) == Some(battle_state),
        after.0.inner.api.active_profile == before.0.inner.api.active_profile,
        after.0.inner.worker_timing.sample_index == after.1.sample_index,
        after.0.inner.ui.cursor_blocked,
        after.0.cancel_calibration == before.0.cancel_calibration,
{
}

} // verus!
