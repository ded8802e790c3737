//! What the worker does with the commands it gets: the state it keeps, what it shows, and what has
//! to be done outside for it.
use crate::analyzer_consumer::{after_command, AnalyzerCommand, AnalyzerContext};
use crate::calibration::CALIBRATION_CANCELLED;
use crate::commands::UiCommand;
use crate::config::RulerConfig;
use crate::number::{percent_of, scale_percent, Real64, ONE_BITS};
use crate::overlay::placement_of;
use crate::paths::joined;
use crate::profiles;
use crate::profiles::{
    base_of, file_named, item_views, listing, suffix_of, ProfileFile, ProfileStore,
};
use crate::text;
use crate::text::{decimal, opt_view};
use crate::ui_state::{
    mode_from_config, mode_name, timer_is_blank, without_frame_metadata, ApiFrameRecord,
    ApiStateSnapshot, FrameDisplayMode, OverlayMode, Progress, UiSnapshot,
};
use crate::worker::{shown_anew, SharedAppState};
use vstd::prelude::*;

verus! {

/// What the worker keeps between commands.
#[derive(Debug)]
pub struct WorkerContext {
    pub config: RulerConfig,
    pub profiles: ProfileStore,
    pub active_profile: Option<String>,
    pub display_mode: FrameDisplayMode,
    /// Frames are being captured.
    pub capture_running: bool,
}

/// Something that has to be done outside once a command is carried out.
#[derive(Debug, PartialEq, Eq)]
pub enum WorkerEffect {
    /// Hand a command to the analyzer.
    Analyzer(AnalyzerCommand),
    /// Write the configuration to its file.
    SaveConfig { reason: &'static str },
}

/// What an effect tells.
#[verifier::ext_equal]
pub enum Told {
    LoadCalibration(Seq<char>),
    ClearCalibration,
    ResetTimer,
    UndoResetTimer,
    AdjustTimer(i32),
    SetTimer(i32),
    SetProfileIndex(usize),
    SetDisplayMode(FrameDisplayMode),
    SetRoi(i32, i32),
    ToggleLapTimer,
    SetCalibrating(bool),
    Shutdown,
    SaveConfig(Seq<char>),
}

pub open spec fn told(effect: WorkerEffect) -> Told {
    match effect {
        WorkerEffect::Analyzer(command) => match command {
            AnalyzerCommand::LoadCalibration { path } => Told::LoadCalibration(path@),
            AnalyzerCommand::ClearCalibration => Told::ClearCalibration,
            AnalyzerCommand::ResetTimer => Told::ResetTimer,
            AnalyzerCommand::UndoResetTimer => Told::UndoResetTimer,
            AnalyzerCommand::AdjustTimer { frames } => Told::AdjustTimer(frames),
            AnalyzerCommand::SetTimer { frames } => Told::SetTimer(frames),
            AnalyzerCommand::SetProfileIndex { index } => Told::SetProfileIndex(index),
            AnalyzerCommand::SetDisplayMode(mode) => Told::SetDisplayMode(mode),
            AnalyzerCommand::SetRoi { width, height } => Told::SetRoi(width, height),
            AnalyzerCommand::ToggleLapTimer => Told::ToggleLapTimer,
            AnalyzerCommand::SetCalibrating { calibrating } => Told::SetCalibrating(calibrating),
            AnalyzerCommand::Shutdown => Told::Shutdown,
        },
        WorkerEffect::SaveConfig { reason } => Told::SaveConfig(reason@),
    }
}

pub open spec fn told_all(effects: Seq<WorkerEffect>) -> Seq<Told> {
    effects.map_values(|effect: WorkerEffect| told(effect))
}

/// What has to be done outside before a command can be carried out.
#[derive(Debug, PartialEq, Eq)]
pub enum OutsideStep {
    Nothing,
    /// Run a calibration.
    Calibrate,
    /// Find out whether a file is there.
    FindFile { path: String },
    RenameFile { from: String, to: String },
    RemoveFile { path: String },
}

/// Why an outside step failed.
#[derive(Debug, PartialEq, Eq)]
pub struct StepError {
    pub not_found: bool,
    pub message: String,
}

/// `step` is what `command` asks for.
pub open spec fn asks_for(ctx: WorkerContext, command: UiCommand, step: OutsideStep) -> bool {
    let dir = ctx.profiles.calibration_dir@;
    match command {
        UiCommand::StartCalibration => step == OutsideStep::Calibrate,
        UiCommand::UseProfile { filename } => step matches OutsideStep::FindFile { path } && path@
            == joined(dir, filename@),
        UiCommand::RenameProfile { old, new_base } => step matches OutsideStep::RenameFile {
            from,
            to,
        } && from@ == joined(dir, old@) && to@ == joined(
            dir,
            file_named(new_base@, suffix_of(old@)),
        ),
        UiCommand::DeleteProfile { filename } => step matches OutsideStep::RemoveFile { path }
            && path@ == joined(dir, filename@),
        _ => step == OutsideStep::Nothing,
    }
}

/// What the worker starts with, given its configuration.
pub open spec fn starts_with_config(ctx: WorkerContext, config: RulerConfig) -> bool {
    &&& ctx.config == config
    &&& ctx.active_profile == config.active_calibration_profile
    &&& ctx.display_mode == mode_from_config(opt_view(config.frame_display_mode))
    &&& !ctx.capture_running
}

impl WorkerContext {
    pub fn new(config: RulerConfig, profiles: ProfileStore) -> (ctx: Self)
        ensures
            starts_with_config(ctx, config),
            ctx.profiles == profiles,
    {
        let display_mode = match &config.frame_display_mode {
            Some(name) => FrameDisplayMode::from_config(Some(name.as_str())),
            None => FrameDisplayMode::from_config(None),
        };
        let active_profile = text::copy_opt(&config.active_calibration_profile);
        WorkerContext { config, profiles, active_profile, display_mode, capture_running: false }
    }

    /// What has to be done outside before `command` can be carried out.
    pub fn outside_step(&self, command: &UiCommand) -> (step: OutsideStep)
        ensures
            asks_for(*self, *command, step),
    {
        match command {
            UiCommand::StartCalibration => OutsideStep::Calibrate,
            UiCommand::UseProfile { filename } => OutsideStep::FindFile {
                path: self.profiles.calibration_path(filename),
            },
            UiCommand::RenameProfile { old, new_base } => {
                let new_filename = ProfileStore::renamed(old, new_base);
                OutsideStep::RenameFile {
                    from: self.profiles.calibration_path(old),
                    to: self.profiles.calibration_path(&new_filename),
                }
            },
            UiCommand::DeleteProfile { filename } => OutsideStep::RemoveFile {
                path: self.profiles.calibration_path(filename),
            },
            _ => OutsideStep::Nothing,
        }
    }

    /// Uses no profile any more.
    fn drop_profile(&mut self)
        ensures
            *final(self) == without_profile(*old(self)),
    {
        self.active_profile = None;
        self.config.active_calibration_profile = None;
    }

    /// Uses the profile in file `filename`.
    fn take_profile(&mut self, filename: String)
        ensures
            *final(self) == with_profile(*old(self), filename),
    {
        self.active_profile = Some(filename.clone());
        self.config.active_calibration_profile = Some(filename);
    }
}

pub open spec fn without_profile(ctx: WorkerContext) -> WorkerContext {
    WorkerContext {
        active_profile: None,
        config: RulerConfig { active_calibration_profile: None, ..ctx.config },
        ..ctx
    }
}

pub open spec fn with_profile(ctx: WorkerContext, filename: String) -> WorkerContext {
    WorkerContext {
        active_profile: Some(filename),
        config: RulerConfig { active_calibration_profile: Some(filename), ..ctx.config },
        ..ctx
    }
}

/// The API tells of no frame any more.
pub open spec fn api_stopped(api: ApiStateSnapshot) -> ApiStateSnapshot {
    without_frame_metadata(ApiStateSnapshot { is_running: false, current_frame: None, ..api })
}

/// The API tells of no frame, no cycle and no time any more.
pub open spec fn api_blank(api: ApiStateSnapshot) -> ApiStateSnapshot {
    api_stopped(ApiStateSnapshot { total_frames_in_cycle: 0, total_elapsed_frames: 0, ..api })
}

/// The overlay shows the timer of the profile in use.
pub open spec fn shows_profile(
    before: SharedAppState,
    after: SharedAppState,
    ctx: WorkerContext,
    files: Seq<ProfileFile>,
) -> bool {
    let ui = after.inner.ui;
    &&& shown_anew(before, after)
    &&& ui == UiSnapshot {
        mode: OverlayMode::Running,
        message: ui.message,
        progress: Progress::none(),
        display_mode: ctx.display_mode,
        active_profile: ctx.active_profile,
        profiles: ui.profiles,
        cursor_blocked: false,
        ..before.inner.ui
    }
    &&& ui.message@ == Seq::<char>::empty()
    &&& item_views(ui.profiles@) == listing(files, opt_view(ctx.active_profile))
    &&& after.inner.api == ApiStateSnapshot {
        active_profile: after.inner.api.active_profile,
        ..before.inner.api
    }
    &&& opt_view(after.inner.api.active_profile) == match ctx.active_profile {
        Some(filename) => Some(base_of(filename@)),
        None => None,
    }
}

/// The overlay waits for a profile to be chosen.
pub open spec fn shows_idle(
    before: SharedAppState,
    after: SharedAppState,
    ctx: WorkerContext,
    files: Seq<ProfileFile>,
) -> bool {
    let ui = after.inner.ui;
    &&& shown_anew(before, after)
    &&& timer_is_blank(ui)
    &&& ui == UiSnapshot {
        mode: OverlayMode::Idle,
        message: ui.message,
        progress: Progress::none(),
        display_mode: ctx.display_mode,
        display_frame: ui.display_frame,
        display_total: ui.display_total,
        time_str: ui.time_str,
        lap_frames: None,
        can_undo_reset: false,
        cursor_blocked: false,
        total_frames_in_cycle: 0,
        active_profile: None,
        profiles: ui.profiles,
        ..before.inner.ui
    }
    &&& ui.message@ == Seq::<char>::empty()
    &&& item_views(ui.profiles@) == listing(files, None)
    &&& after.inner.api == api_blank(
        ApiStateSnapshot { active_profile: None, ..before.inner.api },
    )
}

/// The overlay shows what is current: the profile in use, or that there is none.
pub open spec fn shows_current(
    before: SharedAppState,
    after: SharedAppState,
    ctx: WorkerContext,
    files: Seq<ProfileFile>,
) -> bool {
    if ctx.active_profile is Some {
        shows_profile(before, after, ctx, files)
    } else {
        shows_idle(before, after, ctx, files)
    }
}

/// The overlay shows an error.
pub open spec fn shows_error(
    before: SharedAppState,
    after: SharedAppState,
    ctx: WorkerContext,
    files: Seq<ProfileFile>,
    message: Seq<char>,
) -> bool {
    let ui = after.inner.ui;
    &&& shown_anew(before, after)
    &&& ui == UiSnapshot {
        mode: OverlayMode::Error,
        message: ui.message,
        progress: Progress::none(),
        active_profile: ctx.active_profile,
        cursor_blocked: false,
        profiles: ui.profiles,
        ..before.inner.ui
    }
    &&& ui.message@ == message
    &&& item_views(ui.profiles@) == listing(files, opt_view(ctx.active_profile))
    &&& after.inner.api == api_stopped(before.inner.api)
}

/// The overlay waits for a calibration to be started.
pub open spec fn shows_pre_calibration(
    before: SharedAppState,
    after: SharedAppState,
    files: Seq<ProfileFile>,
) -> bool {
    let ui = after.inner.ui;
    &&& shown_anew(before, after)
    &&& ui == UiSnapshot {
        mode: OverlayMode::PreCalibration,
        message: ui.message,
        progress: Progress::none(),
        active_profile: None,
        total_frames_in_cycle: 0,
        can_undo_reset: false,
        cursor_blocked: false,
        profiles: ui.profiles,
        ..before.inner.ui
    }
    &&& ui.message@ == Seq::<char>::empty()
    &&& item_views(ui.profiles@) == listing(files, None)
    &&& after.inner.api == api_stopped(
        ApiStateSnapshot { active_profile: None, ..before.inner.api },
    )
}

/// The overlay is back where a calibration can be started, with nothing on the timer.
pub open spec fn shows_cancelled(
    before: SharedAppState,
    after: SharedAppState,
    files: Seq<ProfileFile>,
) -> bool {
    let ui = after.inner.ui;
    &&& shown_anew(before, after)
    &&& timer_is_blank(ui)
    &&& ui == UiSnapshot {
        mode: OverlayMode::PreCalibration,
        message: ui.message,
        progress: Progress::none(),
        display_frame: ui.display_frame,
        display_total: ui.display_total,
        time_str: ui.time_str,
        lap_frames: None,
        can_undo_reset: false,
        cursor_blocked: false,
        profiles: ui.profiles,
        ..before.inner.ui
    }
    &&& ui.message@ == Seq::<char>::empty()
    &&& item_views(ui.profiles@) == listing(files, None)
    &&& after.inner.api == api_blank(before.inner.api)
}

/// The overlay shows that a calibration has started.
pub open spec fn shows_calibrating(before: SharedAppState, after: SharedAppState) -> bool {
    let ui = after.inner.ui;
    &&& shown_anew(before, after)
    &&& timer_is_blank(ui)
    &&& ui == UiSnapshot {
        mode: OverlayMode::Calibrating,
        message: ui.message,
        progress: Progress::none(),
        display_frame: ui.display_frame,
        display_total: ui.display_total,
        time_str: ui.time_str,
        lap_frames: None,
        can_undo_reset: false,
        cursor_blocked: false,
        ..before.inner.ui
    }
    &&& ui.message@ == Seq::<char>::empty()
    &&& after.inner.api == api_blank(before.inner.api)
}

fn stop_api(api: &mut ApiStateSnapshot)
    ensures
        *final(api) == api_stopped(*old(api)),
{
    api.is_running = false;
    api.current_frame = None;
    api.clear_frame_metadata();
}

fn blank_api(api: &mut ApiStateSnapshot)
    ensures
        *final(api) == api_blank(*old(api)),
{
    api.total_frames_in_cycle = 0;
    api.total_elapsed_frames = 0;
    stop_api(api);
}

fn publish_running_state(
    state: &mut SharedAppState,
    ctx: &WorkerContext,
    files: &Vec<ProfileFile>,
)
    ensures
        shows_profile(*old(state), *final(state), *ctx, files@),
{
    state.inner.ui.mode = OverlayMode::Running;
    state.inner.ui.message = String::new();
    state.inner.ui.progress = Progress::none();
    state.inner.ui.display_mode = ctx.display_mode;
    state.inner.ui.active_profile = text::copy_opt(&ctx.active_profile);
    state.inner.ui.cursor_blocked = false;
    match &ctx.active_profile {
        Some(filename) => {
            state.inner.ui.profiles = ProfileStore::list(files, Some(filename.as_str()));
            state.inner.api.active_profile = Some(profiles::calibration_basename(filename));
        },
        None => {
            state.inner.ui.profiles = ProfileStore::list(files, None);
            state.inner.api.active_profile = None;
        },
    }
    state.notify_overlay();
}

fn publish_idle(state: &mut SharedAppState, ctx: &WorkerContext, files: &Vec<ProfileFile>)
    ensures
        shows_idle(*old(state), *final(state), *ctx, files@),
{
    state.inner.ui.blank_timer();
    state.inner.ui.mode = OverlayMode::Idle;
    state.inner.ui.message = String::new();
    state.inner.ui.progress = Progress::none();
    state.inner.ui.display_mode = ctx.display_mode;
    state.inner.ui.can_undo_reset = false;
    state.inner.ui.cursor_blocked = false;
    state.inner.ui.total_frames_in_cycle = 0;
    state.inner.ui.active_profile = None;
    state.inner.ui.profiles = ProfileStore::list(files, None);
    state.inner.api.active_profile = None;
    blank_api(&mut state.inner.api);
    state.notify_overlay();
}

/// Shows what is current: the profile in use, or that there is none.
pub fn publish_current_state(
    state: &mut SharedAppState,
    ctx: &WorkerContext,
    files: &Vec<ProfileFile>,
)
    ensures
        shows_current(*old(state), *final(state), *ctx, files@),
{
    if ctx.active_profile.is_some() {
        publish_running_state(state, ctx, files);
    } else {
        publish_idle(state, ctx, files);
    }
}

/// Shows an error.
pub fn publish_error(
    state: &mut SharedAppState,
    ctx: &WorkerContext,
    files: &Vec<ProfileFile>,
    error: String,
)
    ensures
        shows_error(*old(state), *final(state), *ctx, files@, error@),
{
    state.inner.ui.mode = OverlayMode::Error;
    state.inner.ui.message = error;
    state.inner.ui.progress = Progress::none();
    state.inner.ui.active_profile = text::copy_opt(&ctx.active_profile);
    state.inner.ui.cursor_blocked = false;
    match &ctx.active_profile {
        Some(filename) => {
            state.inner.ui.profiles = ProfileStore::list(files, Some(filename.as_str()));
        },
        None => {
            state.inner.ui.profiles = ProfileStore::list(files, None);
        },
    }
    stop_api(&mut state.inner.api);
    state.notify_overlay();
}

fn publish_pre_calibration(state: &mut SharedAppState, files: &Vec<ProfileFile>)
    ensures
        shows_pre_calibration(*old(state), *final(state), files@),
{
    state.inner.ui.mode = OverlayMode::PreCalibration;
    state.inner.ui.message = String::new();
    state.inner.ui.progress = Progress::none();
    state.inner.ui.active_profile = None;
    state.inner.ui.total_frames_in_cycle = 0;
    state.inner.ui.can_undo_reset = false;
    state.inner.ui.cursor_blocked = false;
    state.inner.ui.profiles = ProfileStore::list(files, None);
    state.inner.api.active_profile = None;
    stop_api(&mut state.inner.api);
    state.notify_overlay();
}

fn publish_cancelled(state: &mut SharedAppState, files: &Vec<ProfileFile>)
    ensures
        shows_cancelled(*old(state), *final(state), files@),
{
    state.inner.ui.blank_timer();
    state.inner.ui.mode = OverlayMode::PreCalibration;
    state.inner.ui.progress = Progress::none();
    state.inner.ui.message = String::new();
    state.inner.ui.can_undo_reset = false;
    state.inner.ui.cursor_blocked = false;
    state.inner.ui.profiles = ProfileStore::list(files, None);
    blank_api(&mut state.inner.api);
    state.notify_overlay();
}

/// What a command leads to.
#[derive(Debug)]
pub struct CommandResult {
    /// The worker goes on; otherwise the program ends.
    pub keep_running: bool,
    /// What has to be done outside, in order.
    pub effects: Vec<WorkerEffect>,
}

/// `state` with an empty record of frames in place of its own.
pub open spec fn history_cleared(before: SharedAppState, cleared: SharedAppState) -> bool {
    &&& cleared.api_history@ == Seq::<ApiFrameRecord>::empty()
    &&& cleared == SharedAppState { api_history: cleared.api_history, ..before }
}

/// `before` with the record of frames that `after` has.
pub open spec fn with_history_of(before: SharedAppState, after: SharedAppState) -> SharedAppState {
    SharedAppState { api_history: after.api_history, ..before }
}

/// What carrying out `command` does, where the outside step it asks for came back with `outcome`.
pub open spec fn carries_out(
    before: (SharedAppState, WorkerContext),
    after: (SharedAppState, WorkerContext),
    command: UiCommand,
    outcome: Result<(), StepError>,
    files: Seq<ProfileFile>,
    result: CommandResult,
) -> bool {
    let (state, ctx) = before;
    let (state2, ctx2) = after;
    let effects = told_all(result.effects@);
    &&& result.keep_running == (command != UiCommand::Exit)
    &&& match command {
        UiCommand::PrepareCalibration => {
            &&& ctx2 == without_profile(ctx)
            &&& history_cleared(state, with_history_of(state, state2))
            &&& shows_pre_calibration(with_history_of(state, state2), state2, files)
            &&& effects == seq![
                Told::ClearCalibration,
                Told::SetCalibrating(false),
                Told::SaveConfig("prepare calibration"@),
            ]
        },
        UiCommand::StartCalibration => {
            &&& ctx2 == ctx
            &&& effects == Seq::<Told>::empty()
            &&& match outcome {
                Ok(_) => shows_profile(state, state2, ctx, files),
                Err(error) => if error.message@ == CALIBRATION_CANCELLED@ {
                    shows_cancelled(
                        SharedAppState { cancel_calibration: false, ..state },
                        state2,
                        files,
                    )
                } else {
                    shows_error(
                        state,
                        state2,
                        ctx,
                        files,
                        "calibration failed: "@ + error.message@,
                    )
                },
            }
        },
        UiCommand::UseProfile { filename } => match outcome {
            Ok(_) => {
                &&& ctx2 == with_profile(ctx, filename)
                &&& history_cleared(state, with_history_of(state, state2))
                &&& shows_profile(with_history_of(state, state2), state2, ctx2, files)
                &&& effects == seq![
                    Told::LoadCalibration(joined(ctx.profiles.calibration_dir@, filename@)),
                    Told::SaveConfig("select profile"@),
                ]
            },
            Err(error) => {
                &&& ctx2 == ctx
                &&& effects == Seq::<Told>::empty()
                &&& shows_error(
                    state,
                    state2,
                    ctx,
                    files,
                    "failed to load profile: "@ + error.message@,
                )
            },
        },
        UiCommand::RenameProfile { old, new_base } => match outcome {
            Ok(_) => {
                &&& shows_current(state, state2, ctx2, files)
                &&& if opt_view(ctx.active_profile) == Some(old@) {
                    &&& opt_view(ctx2.active_profile) == Some(
                        file_named(new_base@, suffix_of(old@)),
                    )
                    &&& ctx2 == with_profile(ctx, ctx2.active_profile->0)
                    &&& effects == seq![Told::SaveConfig("rename active profile"@)]
                } else {
                    ctx2 == ctx && effects == Seq::<Told>::empty()
                }
            },
            Err(error) => {
                &&& ctx2 == ctx
                &&& effects == Seq::<Told>::empty()
                &&& shows_error(
                    state,
                    state2,
                    ctx,
                    files,
                    "failed to rename profile: "@ + error.message@,
                )
            },
        },
        UiCommand::DeleteProfile { filename } => if outcome matches Err(error) && !error.not_found {
            &&& ctx2 == ctx
            &&& effects == Seq::<Told>::empty()
            &&& shows_error(
                state,
                state2,
                ctx,
                files,
                "failed to delete profile: "@ + outcome->Err_0.message@,
            )
        } else if opt_view(ctx.active_profile) == Some(filename@) {
            &&& ctx2 == without_profile(ctx)
            &&& history_cleared(state, with_history_of(state, state2))
            &&& shows_idle(with_history_of(state, state2), state2, ctx2, files)
            &&& effects == seq![
                Told::ClearCalibration,
                Told::ResetTimer,
                Told::SaveConfig("delete active profile"@),
            ]
        } else {
            &&& ctx2 == ctx
            &&& effects == Seq::<Told>::empty()
            &&& shows_current(state, state2, ctx, files)
        },
        UiCommand::SetDisplayMode(mode) => {
            &&& ctx2 == WorkerContext {
                display_mode: mode,
                config: RulerConfig {
                    frame_display_mode: ctx2.config.frame_display_mode,
                    ..ctx.config
                },
                ..ctx
            }
            &&& opt_view(ctx2.config.frame_display_mode) == Some(mode_name(mode))
            &&& shows_current(state, state2, ctx2, files)
            &&& effects == seq![Told::SetDisplayMode(mode), Told::SaveConfig("set display mode"@)]
        },
        UiCommand::AdjustTimer { frames } => {
            &&& ctx2 == ctx
            &&& state2 == state
            &&& effects == seq![Told::AdjustTimer(frames)]
        },
        UiCommand::SetTimer { frames } => {
            &&& ctx2 == ctx
            &&& state2 == state
            &&& effects == seq![Told::SetTimer(frames)]
        },
        UiCommand::ResetTimer => {
            &&& ctx2 == ctx
            &&& history_cleared(state, state2)
            &&& effects == seq![Told::ResetTimer]
        },
        UiCommand::UndoResetTimer => {
            &&& ctx2 == ctx
            &&& state2 == state
            &&& effects == seq![Told::UndoResetTimer]
        },
        UiCommand::ToggleLapTimer => {
            &&& ctx2 == ctx
            &&& state2 == state
            &&& effects == seq![Told::ToggleLapTimer]
        },
        UiCommand::SetOverlayScale(scale) => {
            &&& ctx2 == WorkerContext {
                config: RulerConfig { overlay_scale: Some(scale), ..ctx.config },
                ..ctx
            }
            &&& shown_anew(state, state2)
            &&& state2.inner.ui == UiSnapshot {
                overlay_scale_pct: percent_of(scale) as u16,
                ..state.inner.ui
            }
            &&& state2.inner.api == state.inner.api
            &&& effects == seq![Told::SaveConfig("set overlay scale"@)]
        },
        UiCommand::SaveOverlayPlacement { x, y } => {
            &&& ctx2 == WorkerContext {
                config: RulerConfig {
                    overlay_pos_x: Some(x),
                    overlay_pos_y: Some(y),
                    ..ctx.config
                },
                ..ctx
            }
            &&& state2 == state
            &&& effects == seq![Told::SaveConfig("save overlay placement"@)]
        },
        UiCommand::Exit => {
            &&& ctx2 == ctx
            &&& shown_anew(state, state2)
            &&& state2.inner.ui == UiSnapshot { should_exit: true, ..state.inner.ui }
            &&& state2.inner.api == state.inner.api
            &&& effects == Seq::<Told>::empty()
        },
    }
}

fn with_prefix(prefix: &str, message: &str) -> (s: String)
    ensures
        s@ == prefix@ + message@,
{
    let mut s = prefix.to_owned();
    s.append(message);
    s
}

fn is_active(ctx: &WorkerContext, filename: &str) -> (b: bool)
    ensures
        b == (opt_view(ctx.active_profile) == Some(filename@)),
{
    match &ctx.active_profile {
        Some(active) => text::same(active, filename),
        None => false,
    }
}

/// Carries out one command. `outcome` is what the outside step that it asks for came back with, and
/// `files` what the directory of profiles holds since.
#[verifier::rlimit(30)]
pub fn handle_command(
    state: &mut SharedAppState,
    ctx: &mut WorkerContext,
    command: UiCommand,
    outcome: Result<(), StepError>,
    files: &Vec<ProfileFile>,
) -> (result: CommandResult)
    ensures
        carries_out(
            (*old(state), *old(ctx)),
            (*final(state), *final(ctx)),
            command,
            outcome,
            files@,
            result,
        ),
{
    let effects: Vec<WorkerEffect> = match command {
        UiCommand::PrepareCalibration => {
            state.clear_api_frame_history();
            ctx.drop_profile();
            publish_pre_calibration(state, files);
            vec![
                WorkerEffect::Analyzer(AnalyzerCommand::ClearCalibration),
                WorkerEffect::Analyzer(AnalyzerCommand::SetCalibrating { calibrating: false }),
                WorkerEffect::SaveConfig { reason: "prepare calibration" },
            ]
        },
        UiCommand::StartCalibration => {
            match outcome {
                Ok(_) => {
                    publish_running_state(state, ctx, files);
                },
                Err(error) => {
                    if text::same(&error.message, CALIBRATION_CANCELLED) {
                        let _ = state.take_cancel_calibration();
                        publish_cancelled(state, files);
                    } else {
                        publish_error(
                            state,
                            ctx,
                            files,
                            with_prefix("calibration failed: ", &error.message),
                        );
                    }
                },
            }
            Vec::new()
        },
        UiCommand::UseProfile { filename } => {
            match outcome {
                Ok(_) => {
                    let path = ctx.profiles.calibration_path(&filename);
                    state.clear_api_frame_history();
                    ctx.take_profile(filename);
                    publish_running_state(state, ctx, files);
                    vec![
                        WorkerEffect::Analyzer(AnalyzerCommand::LoadCalibration { path }),
                        WorkerEffect::SaveConfig { reason: "select profile" },
                    ]
                },
                Err(error) => {
                    publish_error(
                        state,
                        ctx,
                        files,
                        with_prefix("failed to load profile: ", &error.message),
                    );
                    Vec::new()
                },
            }
        },
        UiCommand::RenameProfile { old, new_base } => {
            match outcome {
                Ok(_) => {
                    let renames_active = is_active(ctx, &old);
                    if renames_active {
                        ctx.take_profile(ProfileStore::renamed(&old, &new_base));
                    }
                    publish_current_state(state, ctx, files);
                    if renames_active {
                        vec![WorkerEffect::SaveConfig { reason: "rename active profile" }]
                    } else {
                        Vec::new()
                    }
                },
                Err(error) => {
                    publish_error(
                        state,
                        ctx,
                        files,
                        with_prefix("failed to rename profile: ", &error.message),
                    );
                    Vec::new()
                },
            }
        },
        UiCommand::DeleteProfile { filename } => {
            let failure = match outcome {
                Ok(_) => None,
                Err(error) => if error.not_found {
                    None
                } else {
                    Some(error.message)
                },
            };
            match failure {
                Some(message) => {
                    publish_error(
                        state,
                        ctx,
                        files,
                        with_prefix("failed to delete profile: ", &message),
                    );
                    Vec::new()
                },
                None => {
                    if is_active(ctx, &filename) {
                        state.clear_api_frame_history();
                        ctx.drop_profile();
                        publish_idle(state, ctx, files);
                        vec![
                            WorkerEffect::Analyzer(AnalyzerCommand::ClearCalibration),
                            WorkerEffect::Analyzer(AnalyzerCommand::ResetTimer),
                            WorkerEffect::SaveConfig { reason: "delete active profile" },
                        ]
                    } else {
                        publish_current_state(state, ctx, files);
                        Vec::new()
                    }
                },
            }
        },
        UiCommand::SetDisplayMode(mode) => {
            ctx.display_mode = mode;
            ctx.config.frame_display_mode = Some(mode.as_config().to_owned());
            publish_current_state(state, ctx, files);
            vec![
                WorkerEffect::Analyzer(AnalyzerCommand::SetDisplayMode(mode)),
                WorkerEffect::SaveConfig { reason: "set display mode" },
            ]
        },
        UiCommand::AdjustTimer { frames } => {
            vec![WorkerEffect::Analyzer(AnalyzerCommand::AdjustTimer { frames })]
        },
        UiCommand::SetTimer { frames } => {
            vec![WorkerEffect::Analyzer(AnalyzerCommand::SetTimer { frames })]
        },
        UiCommand::ResetTimer => {
            state.clear_api_frame_history();
            vec![WorkerEffect::Analyzer(AnalyzerCommand::ResetTimer)]
        },
        UiCommand::UndoResetTimer => {
            vec![WorkerEffect::Analyzer(AnalyzerCommand::UndoResetTimer)]
        },
        UiCommand::ToggleLapTimer => {
            vec![WorkerEffect::Analyzer(AnalyzerCommand::ToggleLapTimer)]
        },
        UiCommand::SetOverlayScale(scale) => {
            ctx.config.overlay_scale = Some(scale);
            state.inner.ui.overlay_scale_pct = scale_percent(scale);
            state.notify_overlay();
            vec![WorkerEffect::SaveConfig { reason: "set overlay scale" }]
        },
        UiCommand::SaveOverlayPlacement { x, y } => {
            ctx.config.overlay_pos_x = Some(x);
            ctx.config.overlay_pos_y = Some(y);
            vec![WorkerEffect::SaveConfig { reason: "save overlay placement" }]
        },
        UiCommand::Exit => {
            state.request_exit();
            let effects: Vec<WorkerEffect> = Vec::new();
            proof {
                assert(told_all(effects@) =~= Seq::<Told>::empty());
            }
            return CommandResult { keep_running: false, effects };
        },
    };
    let result = CommandResult { keep_running: true, effects };
    proof {
        lemma_told(result.effects@);
    }
    result
}

/// Effects tell what they are, one by one.
proof fn lemma_told(effects: Seq<WorkerEffect>)
    ensures
        effects.len() == 0 ==> told_all(effects) == Seq::<Told>::empty(),
        effects.len() == 1 ==> told_all(effects) == seq![told(effects[0])],
        effects.len() == 2 ==> told_all(effects) == seq![told(effects[0]), told(effects[1])],
        effects.len() == 3 ==> told_all(effects) == seq![
            told(effects[0]),
            told(effects[1]),
            told(effects[2]),
        ],
{
    assert(effects.len() == 0 ==> told_all(effects) =~= Seq::<Told>::empty());
    assert(effects.len() == 1 ==> told_all(effects) =~= seq![told(effects[0])]);
    assert(effects.len() == 2 ==> told_all(effects) =~= seq![told(effects[0]), told(effects[1])]);
    assert(effects.len() == 3 ==> told_all(effects) =~= seq![
        told(effects[0]),
        told(effects[1]),
        told(effects[2]),
    ]);
}

/// The profile in use is the one that the configuration names.
pub open spec fn profile_agrees(ctx: WorkerContext) -> bool {
    ctx.active_profile == ctx.config.active_calibration_profile
}

/// Every command keeps the profile in use and the one in the configuration the same, and every
/// change of the configuration is written to its file.
pub proof fn law_config_is_kept_and_saved(
    before: (SharedAppState, WorkerContext),
    after: (SharedAppState, WorkerContext),
    command: UiCommand,
    outcome: Result<(), StepError>,
    files: Seq<ProfileFile>,
    result: CommandResult,
)
    requires
        carries_out(before, after, command, outcome, files, result),
        profile_agrees(before.1),
    ensures
        profile_agrees(after.1),
        before.1.config != after.1.config ==> exists|i: int|
            0 <= i < result.effects@.len() && #[trigger] result.effects@[i] is SaveConfig,
        after.1.profiles == before.1.profiles,
        after.1.capture_running == before.1.capture_running,
{
    let effects = told_all(result.effects@);
    if before.1.config != after.1.config {
        let last = result.effects@.len() - 1;
        assert(effects.last() is SaveConfig);
        assert(effects[last] == told(result.effects@[last]));
        assert(result.effects@[last] is SaveConfig);
    }
}

/// Where the overlay was left and how large it was made is what the next start finds, and no other
/// command changes it.
pub proof fn law_placement_is_remembered(
    before: (SharedAppState, WorkerContext),
    after: (SharedAppState, WorkerContext),
    command: UiCommand,
    outcome: Result<(), StepError>,
    files: Seq<ProfileFile>,
    result: CommandResult,
)
    requires
        carries_out(before, after, command, outcome, files, result),
    ensures
        ({
            let found = placement_of(Some(before.1.config));
            let left = placement_of(Some(after.1.config));
            match command {
                UiCommand::SaveOverlayPlacement { x, y } => left.pos == Some((x, y))
                    && left.scale_mult == found.scale_mult,
                UiCommand::SetOverlayScale(scale) => left.pos == found.pos && left.scale_mult == scale,
                _ => left == found,
            }
        }),
{
}

/// Whenever the frames on record would belong to another timer, they are forgotten: before a
/// calibration, with a new profile, without one, and on a reset.
pub proof fn law_stale_frames_are_forgotten(
    before: (SharedAppState, WorkerContext),
    after: (SharedAppState, WorkerContext),
    command: UiCommand,
    outcome: Result<(), StepError>,
    files: Seq<ProfileFile>,
    result: CommandResult,
)
    requires
        carries_out(before, after, command, outcome, files, result),
        command is PrepareCalibration || command is ResetTimer || (command is UseProfile
            && outcome is Ok) || (command matches UiCommand::DeleteProfile { filename } && outcome
            is Ok && opt_view(before.1.active_profile) == Some(filename@)),
    ensures
        after.0.api_history@.len() == 0,
        forall|frame_id: u64| #[trigger]
            crate::worker::record_at_or_before(after.0.api_history@, frame_id) is None,
{
}

/// A calibration that the user stopped leaves no request to stop behind.
pub proof fn law_cancelled_calibration_leaves_no_request(
    before: (SharedAppState, WorkerContext),
    after: (SharedAppState, WorkerContext),
    outcome: Result<(), StepError>,
    files: Seq<ProfileFile>,
    result: CommandResult,
)
    requires
        carries_out(
            before,
            after,
            UiCommand::StartCalibration,
            outcome,
            files,
            result,
        ),
        outcome matches Err(error) && error.message@ == CALIBRATION_CANCELLED@,
    ensures
        !after.0.cancel_calibration,
        after.0.inner.ui.mode == OverlayMode::PreCalibration,
        after.1 == before.1,
{
}

/// What is told when a calibration starts: frames are not published, and the timer is at zero.
pub open spec fn told_at_start() -> Seq<Told> {
    seq![Told::SetCalibrating(true), Told::ResetTimer]
}

/// What is told when the user has stopped a calibration: frames are published again.
pub open spec fn told_when_stopped() -> Seq<Told> {
    seq![Told::SetCalibrating(false)]
}

/// What is told when a calibration was saved in the file at `path`.
pub open spec fn told_when_saved(path: Seq<char>) -> Seq<Told> {
    seq![Told::LoadCalibration(path), Told::ResetTimer, Told::SetCalibrating(false)]
}

/// A calibration has begun, or why it has not.
pub open spec fn is_calibration_begun(
    before: SharedAppState,
    after: SharedAppState,
    ctx: WorkerContext,
    begun: Result<Vec<WorkerEffect>, String>,
) -> bool {
    let ready = with_history_of(SharedAppState { cancel_calibration: false, ..before }, after);
    &&& after.api_history@ == Seq::<ApiFrameRecord>::empty()
    &&& match begun {
        Ok(effects) => {
            &&& ctx.capture_running
            &&& told_all(effects@) == told_at_start()
            &&& shows_calibrating(ready, after)
        },
        Err(message) => {
            &&& !ctx.capture_running
            &&& message@ == "capture pipeline is not running"@
            &&& after == ready
        },
    }
}

/// Starts a calibration: forgets an earlier request to stop and the frames on record, and shows
/// the calibration. Without frames to capture there is none.
pub fn begin_calibration(state: &mut SharedAppState, ctx: &WorkerContext) -> (begun: Result<
    Vec<WorkerEffect>,
    String,
>)
    ensures
        is_calibration_begun(*old(state), *final(state), *ctx, begun),
{
    let _ = state.take_cancel_calibration();
    state.clear_api_frame_history();
    if !ctx.capture_running {
        return Err("capture pipeline is not running".to_owned());
    }
    state.inner.ui.blank_timer();
    state.inner.ui.mode = OverlayMode::Calibrating;
    state.inner.ui.progress = Progress::none();
    state.inner.ui.message = String::new();
    state.inner.ui.can_undo_reset = false;
    state.inner.ui.cursor_blocked = false;
    blank_api(&mut state.inner.api);
    state.notify_overlay();
    let effects = vec![
        WorkerEffect::Analyzer(AnalyzerCommand::SetCalibrating { calibrating: true }),
        WorkerEffect::Analyzer(AnalyzerCommand::ResetTimer),
    ];
    proof {
        lemma_told(effects@);
    }
    Ok(effects)
}

/// Collecting has ended: what comes of it.
pub open spec fn is_collection_ended(
    before: SharedAppState,
    after: SharedAppState,
    outcome: Result<(), String>,
    ended: (Result<(), String>, Vec<WorkerEffect>),
) -> bool {
    &&& after == (SharedAppState { cancel_calibration: false, ..before })
    &&& if before.cancel_calibration {
        &&& ended.0 matches Err(message) && message@ == CALIBRATION_CANCELLED@
        &&& told_all(ended.1@) == told_when_stopped()
    } else {
        &&& ended.0 == outcome
        &&& ended.1@ == Seq::<WorkerEffect>::empty()
    }
}

/// What follows once collecting has ended with `outcome`: a request to stop that came meanwhile
/// wins over any outcome.
pub fn collection_ended(state: &mut SharedAppState, outcome: Result<(), String>) -> (ended: (
    Result<(), String>,
    Vec<WorkerEffect>,
))
    ensures
        is_collection_ended(*old(state), *final(state), outcome, ended),
{
    if state.take_cancel_calibration() {
        let effects = vec![
            WorkerEffect::Analyzer(AnalyzerCommand::SetCalibrating { calibrating: false }),
        ];
        proof {
            lemma_told(effects@);
        }
        (Err(CALIBRATION_CANCELLED.to_owned()), effects)
    } else {
        (outcome, Vec::new())
    }
}

/// The name of a profile calibrated `seconds` after the epoch.
pub fn calibration_base(seconds: u64) -> (base: String)
    ensures
        base@ == "profile_"@ + decimal(seconds as nat),
{
    let mut base = "profile_".to_owned();
    text::push_decimal(&mut base, seconds);
    base
}

/// Takes a calibration into use that was saved as `filename`.
pub fn calibration_saved(ctx: &mut WorkerContext, filename: String) -> (effects: Vec<WorkerEffect>)
    ensures
        *final(ctx) == with_profile(*old(ctx), filename),
        told_all(effects@) == told_when_saved(
            joined(old(ctx).profiles.calibration_dir@, filename@),
        ),
{
    let path = ctx.profiles.calibration_path(&filename);
    ctx.take_profile(filename);
    let effects = vec![
        WorkerEffect::Analyzer(AnalyzerCommand::LoadCalibration { path }),
        WorkerEffect::Analyzer(AnalyzerCommand::ResetTimer),
        WorkerEffect::Analyzer(AnalyzerCommand::SetCalibrating { calibrating: false }),
    ];
    proof {
        lemma_told(effects@);
    }
    effects
}

/// A value that the game keeps in the registry, where it could be read.
pub open spec fn read_value(value: Result<Option<Real64>, String>) -> Option<Real64> {
    match value {
        Ok(Some(value)) => Some(value.clamped_to_unit()),
        _ => None,
    }
}

fn read_registry_value(value: &Result<Option<Real64>, String>) -> (read: Option<Real64>)
    ensures
        read == read_value(*value),
{
    match value {
        Ok(Some(value)) => Some(value.clamp_to_unit()),
        _ => None,
    }
}

/// The scale of the game's layout.
pub open spec fn scale_of_layout(
    config: RulerConfig,
    registry: Result<Option<Real64>, String>,
    configured: Real64,
) -> Real64 {
    if config.capture_type@ == "window"@ {
        match read_value(registry) {
            Some(value) => value,
            None => configured,
        }
    } else {
        Real64 { bits: ONE_BITS }
    }
}

/// The size of the cursor that the game draws.
pub open spec fn size_of_cursor(
    config: RulerConfig,
    registry: Result<Option<Real64>, String>,
) -> Option<Real64> {
    if config.capture_type@ == "window"@ {
        match read_value(registry) {
            Some(value) => Some(value),
            None => Some(Real64 { bits: ONE_BITS }),
        }
    } else {
        None
    }
}

/// The scale of the game's layout: what the game itself says, or else the configured value, for a
/// captured window; the reference layout for everything else.
pub fn layout_scale(
    config: &RulerConfig,
    registry: &Result<Option<Real64>, String>,
    configured: Real64,
) -> (scale: Real64)
    ensures
        scale == scale_of_layout(*config, *registry, configured),
{
    if text::same(&config.capture_type, "window") {
        match read_registry_value(registry) {
            Some(value) => value,
            None => configured,
        }
    } else {
        Real64 { bits: ONE_BITS }
    }
}

/// The size of the cursor that the game draws, for a captured window.
pub fn guarded_cursor_size(
    config: &RulerConfig,
    registry: &Result<Option<Real64>, String>,
) -> (size: Option<Real64>)
    ensures
        size == size_of_cursor(*config, *registry),
{
    if text::same(&config.capture_type, "window") {
        match read_registry_value(registry) {
            Some(value) => Some(value),
            None => Some(Real64 { bits: ONE_BITS }),
        }
    } else {
        None
    }
}

/// The size of the captured picture is shown.
pub open spec fn shows_capture(
    before: SharedAppState,
    after: SharedAppState,
    width: u32,
    height: u32,
) -> bool {
    &&& shown_anew(before, after)
    &&& after.inner.ui == (UiSnapshot {
        capture_dimensions: Some((width, height)),
        cursor_blocked: false,
        ..before.inner.ui
    })
    &&& after.inner.api == before.inner.api
}

/// Shows the size of the captured picture.
pub fn show_capture(state: &mut SharedAppState, width: u32, height: u32)
    ensures
        shows_capture(*old(state), *final(state), width, height),
{
    state.inner.ui.capture_dimensions = Some((width, height));
    state.inner.ui.cursor_blocked = false;
    state.notify_overlay();
}

/// What a recording of the session holds.
#[derive(Clone, Copy, Debug, PartialEq, Eq, Structural)]
pub struct RecorderPlan {
    pub record_video: bool,
    pub record_csv: bool,
}

/// The recording that the configuration asks for.
pub open spec fn wanted_recording(config: RulerConfig) -> Option<RecorderPlan> {
    if config.debug_recording_enabled && (config.debug_recording_video
        || config.debug_recording_csv) {
        Some(
            RecorderPlan {
                record_video: config.debug_recording_video,
                record_csv: config.debug_recording_csv,
            },
        )
    } else {
        None
    }
}

pub fn recorder_plan(config: &RulerConfig) -> (plan: Option<RecorderPlan>)
    ensures
        plan == wanted_recording(*config),
{
    if config.debug_recording_enabled && (config.debug_recording_video
        || config.debug_recording_csv) {
        Some(
            RecorderPlan {
                record_video: config.debug_recording_video,
                record_csv: config.debug_recording_csv,
            },
        )
    } else {
        None
    }
}

/// The configuration once a recording has started: a video is recorded only once.
pub open spec fn after_recording_started(config: RulerConfig, plan: RecorderPlan) -> RulerConfig {
    if plan.record_video {
        RulerConfig {
            debug_recording_video: false,
            debug_recording_enabled: config.debug_recording_csv,
            ..config
        }
    } else {
        config
    }
}

/// The recorder has started: what the worker remembers, and what is told.
pub open spec fn is_recorder_started(
    before: WorkerContext,
    after: WorkerContext,
    plan: RecorderPlan,
    told: Seq<Told>,
) -> bool {
    &&& after == (WorkerContext {
        config: after_recording_started(before.config, plan),
        ..before
    })
    &&& told == if plan.record_video {
        seq![Told::SaveConfig("consume one-shot MKV recording"@)]
    } else {
        Seq::empty()
    }
}

pub fn recorder_started(ctx: &mut WorkerContext, plan: RecorderPlan) -> (effects: Vec<WorkerEffect>)
    ensures
        is_recorder_started(*old(ctx), *final(ctx), plan, told_all(effects@)),
{
    let effects: Vec<WorkerEffect> = if plan.record_video {
        ctx.config.debug_recording_video = false;
        ctx.config.debug_recording_enabled = ctx.config.debug_recording_csv;
        vec![WorkerEffect::SaveConfig { reason: "consume one-shot MKV recording" }]
    } else {
        Vec::new()
    };
    proof {
        lemma_told(effects@);
    }
    effects
}

/// After a session that recorded a video, the next one records none; analysis data are recorded
/// as before.
pub proof fn law_video_is_recorded_once(config: RulerConfig)
    requires
        wanted_recording(config) is Some,
    ensures
        ({
            let plan = wanted_recording(config)->0;
            let next = wanted_recording(after_recording_started(config, plan));
            &&& next matches Some(again) ==> !again.record_video
            &&& plan.record_csv <==> (next matches Some(again) && again.record_csv)
        }),
{
}

/// The file of the calibration in use.
pub open spec fn calibration_in_use(ctx: WorkerContext) -> Option<Seq<char>> {
    match ctx.active_profile {
        Some(filename) => Some(joined(ctx.profiles.calibration_dir@, filename@)),
        None => None,
    }
}

/// The calibration that the analyzer starts with.
pub fn initial_calibration_path(ctx: &WorkerContext) -> (path: Option<String>)
    ensures
        opt_view(path) == calibration_in_use(*ctx),
{
    match &ctx.active_profile {
        Some(filename) => Some(ctx.profiles.calibration_path(filename)),
        None => None,
    }
}

/// Frames are captured and analyzed from now on: shows what is current.
pub fn bootstrapped(state: &mut SharedAppState, ctx: &mut WorkerContext, files: &Vec<ProfileFile>)
    ensures
        *final(ctx) == (WorkerContext { capture_running: true, ..*old(ctx) }),
        shows_current(*old(state), *final(state), *final(ctx), files@),
{
    ctx.capture_running = true;
    publish_current_state(state, ctx, files);
}

/// What a worker without a configuration finds when it looks for commands.
#[derive(Debug)]
pub enum WaitEvent {
    Command(UiCommand),
    Nothing,
    Disconnected,
}

/// Whether a worker without a configuration goes on waiting.
pub open spec fn is_waiting(
    before: SharedAppState,
    after: SharedAppState,
    event: WaitEvent,
    waits: bool,
) -> bool {
    &&& waits == !(event is Disconnected || event == WaitEvent::Command(UiCommand::Exit))
    &&& waits ==> after == before
    &&& !waits ==> shown_anew(before, after) && after.inner.ui == (UiSnapshot {
        should_exit: true,
        ..before.inner.ui
    }) && after.inner.api == before.inner.api
}

/// A worker without a configuration only waits for the end. Gives whether it goes on waiting.
pub fn wait_for_exit(state: &mut SharedAppState, event: WaitEvent) -> (waits: bool)
    ensures
        is_waiting(*old(state), *final(state), event, waits),
{
    let ends = match event {
        WaitEvent::Command(UiCommand::Exit) => true,
        WaitEvent::Command(_) => false,
        WaitEvent::Nothing => false,
        WaitEvent::Disconnected => true,
    };
    if ends {
        state.request_exit();
    }
    !ends
}

/// What an analyzer remembers once it has heard the effects meant for it, one after the other.
pub open spec fn having_heard(analyzer: AnalyzerContext, effects: Seq<WorkerEffect>) -> AnalyzerContext
    decreases effects.len(),
{
    if effects.len() == 0 {
        analyzer
    } else {
        let before = having_heard(analyzer, effects.drop_last());
        match effects.last() {
            WorkerEffect::Analyzer(command) => after_command(before, command),
            _ => before,
        }
    }
}

proof fn lemma_heard(analyzer: AnalyzerContext, effects: Seq<WorkerEffect>)
    ensures
        effects.len() == 0 ==> having_heard(analyzer, effects) == analyzer,
        effects.len() == 1 ==> having_heard(analyzer, effects) == heard_one(analyzer, effects[0]),
        effects.len() == 2 ==> having_heard(analyzer, effects) == heard_one(
            heard_one(analyzer, effects[0]),
            effects[1],
        ),
        effects.len() == 3 ==> having_heard(analyzer, effects) == heard_one(
            heard_one(heard_one(analyzer, effects[0]), effects[1]),
            effects[2],
        ),
{
    if effects.len() == 1 {
        assert(having_heard(analyzer, effects.drop_last()) == analyzer);
    } else if effects.len() == 2 {
        let one = effects.drop_last();
        assert(having_heard(analyzer, one.drop_last()) == analyzer);
        assert(one.last() == effects[0]);
        assert(having_heard(analyzer, one) == heard_one(analyzer, effects[0]));
    } else if effects.len() == 3 {
        let two = effects.drop_last();
        let one = two.drop_last();
        assert(having_heard(analyzer, one.drop_last()) == analyzer);
        assert(one.last() == effects[0]);
        assert(two.last() == effects[1]);
        assert(having_heard(analyzer, one) == heard_one(analyzer, effects[0]));
        assert(having_heard(analyzer, two) == heard_one(
            heard_one(analyzer, effects[0]),
            effects[1],
        ));
    }
}

spec fn heard_one(analyzer: AnalyzerContext, effect: WorkerEffect) -> AnalyzerContext {
    match effect {
        WorkerEffect::Analyzer(command) => after_command(analyzer, command),
        _ => analyzer,
    }
}

/// What is asked of the timer happens to it: once the analyzer has heard what a command tells it,
/// the timer stands where the command sends it. Commands to the timer change no profile, no setting
/// and nothing that is shown; a reset forgets the frames on record.
pub proof fn law_timer_commands_reach_the_timer(
    before: (SharedAppState, WorkerContext),
    after: (SharedAppState, WorkerContext),
    command: UiCommand,
    outcome: Result<(), StepError>,
    files: Seq<ProfileFile>,
    result: CommandResult,
    analyzer: AnalyzerContext,
)
    requires
        carries_out(before, after, command, outcome, files, result),
        command is AdjustTimer || command is SetTimer || command is ResetTimer || command
            is UndoResetTimer || command is ToggleLapTimer,
        command matches UiCommand::AdjustTimer { frames } ==> i32::MIN
            <= analyzer.last_elapsed_frames + frames <= i32::MAX,
    ensures
        ({
            let heard = having_heard(analyzer, result.effects@);
            &&& command matches UiCommand::AdjustTimer { frames } ==> heard.last_elapsed_frames
                == analyzer.last_elapsed_frames + frames
            &&& command matches UiCommand::SetTimer { frames } ==> heard.last_elapsed_frames
                == frames
            &&& command is ResetTimer ==> heard.last_elapsed_frames == 0
            &&& command is UndoResetTimer
                && analyzer.timer_reset_undo.previous_elapsed_frames is Some
                ==> heard.last_elapsed_frames
                == analyzer.timer_reset_undo.previous_elapsed_frames->0
            &&& command is ToggleLapTimer ==> heard.last_elapsed_frames
                == analyzer.last_elapsed_frames && heard.lap_start_frame is Some
                == analyzer.lap_start_frame is None
            &&& after.1 == before.1
            &&& after.0.inner == before.0.inner
            &&& !(command is ResetTimer) ==> after.0.api_history == before.0.api_history
            &&& command is ResetTimer ==> after.0.api_history@.len() == 0
            &&& result.keep_running
        }),
{
    let effects = result.effects@;
    lemma_heard(analyzer, effects);
    assert(told_all(effects).len() == effects.len());
    assert(effects.len() == 1);
    assert(told_all(effects)[0] == told(effects[0]));
}

/// Using a profile that is there takes it into use everywhere: it is the one that the configuration
/// names and saves, the analyzer loads its file and starts over, the overlay shows it among the
/// profiles, and the API tells its name. Where it is not there, everything stays with the profile
/// before, and the overlay says what is wrong.
pub proof fn law_profile_is_taken_into_use(
    before: (SharedAppState, WorkerContext),
    after: (SharedAppState, WorkerContext),
    filename: String,
    outcome: Result<(), StepError>,
    files: Seq<ProfileFile>,
    result: CommandResult,
    analyzer: AnalyzerContext,
)
    requires
        carries_out(
            before,
            after,
            UiCommand::UseProfile { filename },
            outcome,
            files,
            result,
        ),
    ensures
        outcome is Ok ==> {
            &&& after.1.active_profile == Some(filename)
            &&& after.1.config.active_calibration_profile == Some(filename)
            &&& after.0.inner.ui.mode == OverlayMode::Running
            &&& after.0.inner.ui.active_profile == Some(filename)
            &&& after.0.inner.api.active_profile is Some
            &&& after.0.inner.api.active_profile->0@ == base_of(filename@)
            &&& after.0.api_history@.len() == 0
            &&& result.effects@.len() == 2
            &&& result.effects@[0] matches WorkerEffect::Analyzer(
                AnalyzerCommand::LoadCalibration { path },
            ) && path@ == joined(before.1.profiles.calibration_dir@, filename@)
            &&& result.effects@[1] is SaveConfig
            &&& having_heard(analyzer, result.effects@).last_elapsed_frames == 0
            &&& having_heard(
                analyzer,
                result.effects@,
            ).timer_reset_undo.previous_elapsed_frames is None
        },
        outcome is Err ==> {
            &&& after.1 == before.1
            &&& after.0.api_history == before.0.api_history
            &&& after.0.inner.ui.mode == OverlayMode::Error
            &&& after.0.inner.ui.active_profile == before.1.active_profile
            &&& after.0.inner.ui.message@ == "failed to load profile: "@
                + outcome->Err_0.message@
            &&& !after.0.inner.api.is_running
            &&& result.effects@.len() == 0
        },
        result.keep_running,
{
    let effects = result.effects@;
    lemma_heard(analyzer, effects);
    assert(told_all(effects).len() == effects.len());
    if outcome is Ok {
        assert(told_all(effects)[0] == told(effects[0]));
        assert(told_all(effects)[1] == told(effects[1]));
    }
}

/// Renaming a profile gives its file the new name, keeps what stood behind the old one, and stays in
/// the directory of profiles. The profile in use stays in use under its new name, and only then
/// something has to be saved; any other renaming leaves the one in use alone. The analyzer hears
/// nothing of it.
pub proof fn law_renamed_profile_stays_in_use(
    before: (SharedAppState, WorkerContext),
    after: (SharedAppState, WorkerContext),
    old_name: String,
    new_base: String,
    outcome: Result<(), StepError>,
    files: Seq<ProfileFile>,
    result: CommandResult,
    step: OutsideStep,
)
    requires
        asks_for(before.1, UiCommand::RenameProfile { old: old_name, new_base }, step),
        carries_out(
            before,
            after,
            UiCommand::RenameProfile { old: old_name, new_base },
            outcome,
            files,
            result,
        ),
    ensures
        ({
            let dir = before.1.profiles.calibration_dir@;
            let renamed = file_named(new_base@, suffix_of(old_name@));
            let in_use = before.1.active_profile is Some && before.1.active_profile->0@
                == old_name@;
            &&& step matches OutsideStep::RenameFile { from, to } && from@ == joined(
                dir,
                old_name@,
            ) && to@ == joined(dir, renamed)
            &&& outcome is Ok && in_use ==> {
                &&& after.1.active_profile is Some
                &&& after.1.active_profile->0@ == renamed
                &&& after.1.config.active_calibration_profile == after.1.active_profile
                &&& after.0.inner.ui.active_profile == after.1.active_profile
                &&& after.0.inner.api.active_profile is Some
                &&& after.0.inner.api.active_profile->0@ == base_of(renamed)
                &&& result.effects@.len() == 1
                &&& result.effects@[0] is SaveConfig
            }
            &&& outcome is Ok && !in_use ==> after.1 == before.1 && result.effects@.len() == 0
            &&& outcome is Err ==> {
                &&& after.1 == before.1
                &&& result.effects@.len() == 0
                &&& after.0.inner.ui.mode == OverlayMode::Error
                &&& after.0.inner.ui.message@ == "failed to rename profile: "@
                    + outcome->Err_0.message@
            }
            &&& after.0.api_history == before.0.api_history
        }),
{
    let effects = result.effects@;
    assert(told_all(effects).len() == effects.len());
    if effects.len() == 1 {
        assert(told_all(effects)[0] == told(effects[0]));
    }
}

/// Deleting a profile removes its file from the directory of profiles. A file that is not there any
/// more counts as deleted. Where the profile was in use, none is used from then on: the analyzer
/// forgets it and starts over, the overlay shows nothing and waits. Otherwise the one in use stays.
pub proof fn law_deleted_profile_is_not_used(
    before: (SharedAppState, WorkerContext),
    after: (SharedAppState, WorkerContext),
    filename: String,
    outcome: Result<(), StepError>,
    files: Seq<ProfileFile>,
    result: CommandResult,
    step: OutsideStep,
    analyzer: AnalyzerContext,
)
    requires
        asks_for(before.1, UiCommand::DeleteProfile { filename }, step),
        carries_out(
            before,
            after,
            UiCommand::DeleteProfile { filename },
            outcome,
            files,
            result,
        ),
    ensures
        ({
            let in_use = before.1.active_profile is Some && before.1.active_profile->0@
                == filename@;
            let gone = outcome is Ok || outcome->Err_0.not_found;
            &&& step matches OutsideStep::RemoveFile { path } && path@ == joined(
                before.1.profiles.calibration_dir@,
                filename@,
            )
            &&& gone && in_use ==> {
                &&& after.1.active_profile is None
                &&& after.1.config.active_calibration_profile is None
                &&& after.0.inner.ui.mode == OverlayMode::Idle
                &&& after.0.inner.ui.active_profile is None
                &&& after.0.inner.ui.time_str@ == "00:00:00"@
                &&& !after.0.inner.ui.can_undo_reset
                &&& after.0.inner.api.active_profile is None
                &&& after.0.inner.api.total_elapsed_frames == 0
                &&& !after.0.inner.api.is_running
                &&& after.0.api_history@.len() == 0
                &&& having_heard(analyzer, result.effects@).last_elapsed_frames == 0
                &&& result.effects@.contains(
                    WorkerEffect::Analyzer(AnalyzerCommand::ClearCalibration),
                )
                &&& result.effects@.last() is SaveConfig
            }
            &&& gone && !in_use ==> after.1 == before.1 && result.effects@.len() == 0
                && after.0.api_history == before.0.api_history
            &&& !gone ==> {
                &&& after.1 == before.1
                &&& result.effects@.len() == 0
                &&& after.0.inner.ui.mode == OverlayMode::Error
                &&& after.0.inner.ui.message@ == "failed to delete profile: "@
                    + outcome->Err_0.message@
            }
        }),
{
    let effects = result.effects@;
    lemma_heard(analyzer, effects);
    assert(told_all(effects).len() == effects.len());
    if effects.len() == 3 {
        assert(told_all(effects)[0] == told(effects[0]));
        assert(told_all(effects)[1] == told(effects[1]));
        assert(told_all(effects)[2] == told(effects[2]));
        assert(effects[0] == WorkerEffect::Analyzer(AnalyzerCommand::ClearCalibration));
    }
}

/// Preparing a calibration lets go of the profile in use, in the configuration too, forgets the
/// frames on record, and has the analyzer clear its calibration and publish nothing until there is
/// one again; the overlay asks to start.
pub proof fn law_preparing_lets_go_of_the_profile(
    before: (SharedAppState, WorkerContext),
    after: (SharedAppState, WorkerContext),
    outcome: Result<(), StepError>,
    files: Seq<ProfileFile>,
    result: CommandResult,
    analyzer: AnalyzerContext,
)
    requires
        carries_out(
            before,
            after,
            UiCommand::PrepareCalibration,
            outcome,
            files,
            result,
        ),
    ensures
        after.1.active_profile is None,
        after.1.config.active_calibration_profile is None,
        after.0.inner.ui.mode == OverlayMode::PreCalibration,
        after.0.inner.ui.active_profile is None,
        after.0.inner.api.active_profile is None,
        !after.0.inner.api.is_running,
        after.0.inner.api.frame_id is None,
        after.0.api_history@.len() == 0,
        result.effects@.contains(WorkerEffect::Analyzer(AnalyzerCommand::ClearCalibration)),
        result.effects@.last() is SaveConfig,
        !having_heard(analyzer, result.effects@).calibrating,
        having_heard(analyzer, result.effects@).last_elapsed_frames == 0,
{
    let effects = result.effects@;
    lemma_heard(analyzer, effects);
    assert(told_all(effects).len() == effects.len());
    assert(told_all(effects)[0] == told(effects[0]));
    assert(told_all(effects)[1] == told(effects[1]));
    assert(told_all(effects)[2] == told(effects[2]));
    assert(effects[0] == WorkerEffect::Analyzer(AnalyzerCommand::ClearCalibration));
}

/// Choosing how frames are numbered holds everywhere at once: for the worker, for the analyzer, on
/// the overlay and in the configuration, where the next start reads back the same mode.
pub proof fn law_display_mode_holds_everywhere(
    before: (SharedAppState, WorkerContext),
    after: (SharedAppState, WorkerContext),
    mode: FrameDisplayMode,
    outcome: Result<(), StepError>,
    files: Seq<ProfileFile>,
    result: CommandResult,
    analyzer: AnalyzerContext,
)
    requires
        carries_out(
            before,
            after,
            UiCommand::SetDisplayMode(mode),
            outcome,
            files,
            result,
        ),
    ensures
        after.1.display_mode == mode,
        mode_from_config(opt_view(after.1.config.frame_display_mode)) == mode,
        after.0.inner.ui.display_mode == mode,
        having_heard(analyzer, result.effects@).display_mode == mode,
        result.effects@.last() is SaveConfig,
        after.1.active_profile == before.1.active_profile,
        after.0.api_history == before.0.api_history,
{
    let effects = result.effects@;
    lemma_heard(analyzer, effects);
    assert(told_all(effects).len() == effects.len());
    assert(told_all(effects)[0] == told(effects[0]));
    assert(told_all(effects)[1] == told(effects[1]));
    crate::ui_state::law_display_mode_name_round_trip(mode);
}

/// A new scale is kept and shown in percent at once, a new position is kept, and nothing else of the
/// configuration or of what is shown changes with them. Only the end ends the worker, and the
/// overlay sees it.
pub proof fn law_settings_are_kept_and_shown(
    before: (SharedAppState, WorkerContext),
    after: (SharedAppState, WorkerContext),
    command: UiCommand,
    outcome: Result<(), StepError>,
    files: Seq<ProfileFile>,
    result: CommandResult,
)
    requires
        carries_out(before, after, command, outcome, files, result),
    ensures
        command matches UiCommand::SetOverlayScale(scale) ==> {
            &&& after.1.config.overlay_scale == Some(scale)
            &&& after.0.inner.ui.overlay_scale_pct == percent_of(scale) as u16
            &&& after.0.inner.api == before.0.inner.api
            &&& after.0.inner.ui.time_str == before.0.inner.ui.time_str
            &&& result.effects@.len() == 1
            &&& result.effects@[0] is SaveConfig
        },
        command matches UiCommand::SaveOverlayPlacement { x, y } ==> {
            &&& after.1.config.overlay_pos_x == Some(x)
            &&& after.1.config.overlay_pos_y == Some(y)
            &&& after.0 == before.0
            &&& result.effects@.len() == 1
            &&& result.effects@[0] is SaveConfig
        },
        command is Exit ==> !result.keep_running && after.0.inner.ui.should_exit && after.1
            == before.1 && result.effects@.len() == 0,
        !(command is Exit) ==> result.keep_running && after.0.inner.ui.should_exit
            == before.0.inner.ui.should_exit,
        !(command is SetOverlayScale) ==> after.1.config.overlay_scale
            == before.1.config.overlay_scale,
        !(command is SaveOverlayPlacement) ==> after.1.config.overlay_pos_x
            == before.1.config.overlay_pos_x && after.1.config.overlay_pos_y
            == before.1.config.overlay_pos_y,
        !(command is SetDisplayMode) ==> after.1.display_mode == before.1.display_mode,
        after.1.config.capture_type == before.1.config.capture_type,
        after.1.config.install_path == before.1.config.install_path,
        after.1.config.instance_index == before.1.config.instance_index,
        after.1.config.device_id == before.1.config.device_id,
        after.1.config.uuid == before.1.config.uuid,
{
    let effects = result.effects@;
    assert(told_all(effects).len() == effects.len());
    if effects.len() == 1 {
        assert(told_all(effects)[0] == told(effects[0]));
    }
}

/// A calibration that ended well shows the profile in use; one that the user stopped leads back to
/// where it can be started, with nothing on the timer; one that failed shows why.
pub proof fn law_calibration_ends_as_it_went(
    before: (SharedAppState, WorkerContext),
    after: (SharedAppState, WorkerContext),
    outcome: Result<(), StepError>,
    files: Seq<ProfileFile>,
    result: CommandResult,
)
    requires
        carries_out(before, after, UiCommand::StartCalibration, outcome, files, result),
    ensures
        after.1 == before.1,
        result.effects@.len() == 0,
        outcome is Ok ==> after.0.inner.ui.mode == OverlayMode::Running
            && after.0.inner.ui.active_profile == before.1.active_profile,
        outcome matches Err(error) ==> {
            &&& error.message@ == "calibration_cancelled"@ ==> {
                &&& after.0.inner.ui.mode == OverlayMode::PreCalibration
                &&& after.0.inner.ui.time_str@ == "00:00:00"@
                &&& after.0.inner.ui.display_frame@ == "--"@
                &&& !after.0.inner.ui.can_undo_reset
                &&& after.0.inner.api.total_elapsed_frames == 0
            }
            &&& error.message@ != "calibration_cancelled"@ ==> {
                &&& after.0.inner.ui.mode == OverlayMode::Error
                &&& after.0.inner.ui.message@ == "calibration failed: "@ + error.message@
            }
        },
{
    assert(told_all(result.effects@).len() == result.effects@.len());
}

/// While a calibration runs no frame is published and the timer is at zero; once it was stopped or
/// saved, frames are published again, and a saved one is loaded from its file.
pub proof fn law_frames_wait_for_the_calibration(
    analyzer: AnalyzerContext,
    path: Seq<char>,
    started: Seq<WorkerEffect>,
    stopped: Seq<WorkerEffect>,
    saved: Seq<WorkerEffect>,
)
    requires
        told_all(started) == told_at_start(),
        told_all(stopped) == told_when_stopped(),
        told_all(saved) == told_when_saved(path),
    ensures
        having_heard(analyzer, started).calibrating,
        having_heard(analyzer, started).last_elapsed_frames == 0,
        !having_heard(analyzer, stopped).calibrating,
        having_heard(analyzer, stopped).last_elapsed_frames == analyzer.last_elapsed_frames,
        !having_heard(analyzer, saved).calibrating,
        having_heard(analyzer, saved).last_elapsed_frames == 0,
        saved[0] matches WorkerEffect::Analyzer(AnalyzerCommand::LoadCalibration { path: loaded })
            && loaded@ == path,
{
    lemma_heard(analyzer, started);
    lemma_heard(analyzer, stopped);
    lemma_heard(analyzer, saved);
    assert(told_all(started).len() == started.len());
    assert(told_all(stopped).len() == stopped.len());
    assert(told_all(saved).len() == saved.len());
    assert(told_all(started)[0] == told(started[0]) && told_all(started)[1] == told(started[1]));
    assert(told_all(stopped)[0] == told(stopped[0]));
    assert(told_all(saved)[0] == told(saved[0]) && told_all(saved)[1] == told(saved[1])
        && told_all(saved)[2] == told(saved[2]));
}

/// The profile that is taken into use is the one that the configuration names; without one, it names
/// none.
pub proof fn law_config_names_the_profile_in_use(ctx: WorkerContext, filename: String)
    ensures
        with_profile(ctx, filename).active_profile == Some(filename),
        with_profile(ctx, filename).config.active_calibration_profile == Some(filename),
        with_profile(ctx, filename).display_mode == ctx.display_mode,
        without_profile(with_profile(ctx, filename)) == without_profile(ctx),
        without_profile(ctx).active_profile is None,
        without_profile(ctx).config.active_calibration_profile is None,
{
}

/// The outside is asked only for what a command needs: calibrating, looking for the file of the
/// profile to use, and nothing for anything but profiles.
pub proof fn law_only_profiles_need_the_outside(
    ctx: WorkerContext,
    command: UiCommand,
    step: OutsideStep,
)
    requires
        asks_for(ctx, command, step),
    ensures
        command is StartCalibration <==> step is Calibrate,
        command is UseProfile <==> step is FindFile,
        command is RenameProfile <==> step is RenameFile,
        command is DeleteProfile <==> step is RemoveFile,
        command matches UiCommand::UseProfile { filename } ==> step->FindFile_path@ == joined(
            ctx.profiles.calibration_dir@,
            filename@,
        ),
        command matches UiCommand::DeleteProfile { filename } ==> step->RemoveFile_path@ == joined(
            ctx.profiles.calibration_dir@,
            filename@,
        ),
{
}

/// What is recorded is what the configuration asks for, and nothing while recording is switched off.
pub proof fn law_recording_is_what_was_asked_for(config: RulerConfig)
    ensures
        wanted_recording(config) is Some <==> config.debug_recording_enabled && (
        config.debug_recording_video || config.debug_recording_csv),
        wanted_recording(config) matches Some(plan) ==> plan.record_video
            == config.debug_recording_video && plan.record_csv == config.debug_recording_csv,
{
}

/// A calibration begins with nothing on record, no request to stop and nothing on the timer, and the
/// analyzer told to hold its frames back; without frames to capture it does not begin and says so,
/// and what is shown stays.
pub proof fn law_calibration_begins_afresh(
    before: SharedAppState,
    after: SharedAppState,
    ctx: WorkerContext,
    begun: Result<Vec<WorkerEffect>, String>,
)
    requires
        is_calibration_begun(before, after, ctx, begun),
    ensures
        begun is Ok <==> ctx.capture_running,
        after.api_history@.len() == 0,
        !after.cancel_calibration,
        begun matches Ok(effects) ==> {
            &&& told_all(effects@).contains(Told::SetCalibrating(true))
            &&& told_all(effects@).contains(Told::ResetTimer)
            &&& after.inner.ui.mode == OverlayMode::Calibrating
            &&& after.inner.ui.lap_frames is None
            &&& !after.inner.ui.can_undo_reset
            &&& after.inner.ui.progress == Progress::none()
        },
        begun is Err ==> after.inner == before.inner && after.wakes == before.wakes,
        after.inner.worker_timing == before.inner.worker_timing,
{
    if begun is Ok {
        assert(told_at_start()[0] == Told::SetCalibrating(true));
        assert(told_at_start()[1] == Told::ResetTimer);
    }
}

/// A request to stop wins over any outcome, and lets frames be published again; without one the
/// outcome stands. The request is used up.
pub proof fn law_request_to_stop_wins(
    before: SharedAppState,
    after: SharedAppState,
    outcome: Result<(), String>,
    ended: (Result<(), String>, Vec<WorkerEffect>),
)
    requires
        is_collection_ended(before, after, outcome, ended),
    ensures
        before.cancel_calibration ==> ended.0 is Err && told_all(ended.1@).contains(
            Told::SetCalibrating(false),
        ),
        !before.cancel_calibration ==> ended.0 == outcome && ended.1@.len() == 0,
        !after.cancel_calibration,
        after.inner == before.inner,
        after.api_history == before.api_history,
{
    if before.cancel_calibration {
        assert(told_when_stopped()[0] == Told::SetCalibrating(false));
    }
}

/// What the game says of its scale and its cursor counts for its own window alone, and before what
/// is configured; elsewhere the layout is the usual one and there is no such cursor.
pub proof fn law_the_game_knows_its_own_window(
    config: RulerConfig,
    value: Real64,
    configured: Real64,
    error: String,
)
    ensures
        config.capture_type@ == "window"@ ==> {
            &&& scale_of_layout(config, Ok(Some(value)), configured) == value.clamped_to_unit()
            &&& scale_of_layout(config, Ok(None), configured) == configured
            &&& scale_of_layout(config, Err(error), configured) == configured
            &&& size_of_cursor(config, Ok(Some(value))) == Some(value.clamped_to_unit())
            &&& size_of_cursor(config, Ok(None)) == Some(Real64 { bits: ONE_BITS })
        },
        config.capture_type@ != "window"@ ==> {
            &&& scale_of_layout(config, Ok(Some(value)), configured) == Real64 { bits: ONE_BITS }
            &&& size_of_cursor(config, Ok(Some(value))) is None
        },
{
}

/// The size of the picture is shown as it is, and nothing else of what is shown changes but that the
/// cursor does not hide it.
pub proof fn law_capture_is_shown_in_its_size(
    before: SharedAppState,
    after: SharedAppState,
    width: u32,
    height: u32,
)
    requires
        shows_capture(before, after, width, height),
    ensures
        after.inner.ui.capture_dimensions == Some((width, height)),
        after.inner.ui.mode == before.inner.ui.mode,
        after.inner.ui.message == before.inner.ui.message,
        after.inner.ui.progress == before.inner.ui.progress,
        !after.inner.ui.cursor_blocked,
        after.inner.api == before.inner.api,
        after.api_history == before.api_history,
{
}

/// A video that is asked for once is recorded once: when the recorder has started, the configuration
/// no longer asks for it, and is saved; the table is asked for as before. Without a video nothing
/// changes and nothing is saved.
pub proof fn law_video_request_is_used_up(
    before: WorkerContext,
    after: WorkerContext,
    plan: RecorderPlan,
    told: Seq<Told>,
)
    requires
        is_recorder_started(before, after, plan, told),
    ensures
        plan.record_video ==> {
            &&& !after.config.debug_recording_video
            &&& after.config.debug_recording_csv == before.config.debug_recording_csv
            &&& after.config.debug_recording_enabled == before.config.debug_recording_csv
            &&& after.config.capture_type == before.config.capture_type
            &&& after.config.target_fingerprint == before.config.target_fingerprint
            &&& told.len() == 1 && told[0] is SaveConfig
        },
        !plan.record_video ==> after == before && told.len() == 0,
        after.capture_running == before.capture_running,
{
}

/// A worker without a configuration waits until it is told to end or nobody is left to tell it, and
/// then closes the overlay; until then nothing changes.
pub proof fn law_waiting_ends_with_the_program(
    before: SharedAppState,
    after: SharedAppState,
    event: WaitEvent,
    waits: bool,
)
    requires
        is_waiting(before, after, event, waits),
    ensures
        event is Disconnected ==> !waits,
        event == WaitEvent::Command(UiCommand::Exit) ==> !waits,
        event matches WaitEvent::Command(command) ==> (command != UiCommand::Exit ==> waits),
        waits ==> after == before,
        !waits ==> after.inner.ui.should_exit && after.inner.api == before.inner.api
            && after.api_history == before.api_history,
{
}

/// A calibration that was saved is taken into use: the analyzer is told to load the very file that
/// it will start with next time, the timer starts over, and frames are published again.
pub proof fn law_saved_calibration_is_used_again(
    ctx: WorkerContext,
    filename: String,
    next: WorkerContext,
)
    requires
        starts_with_config(next, with_profile(ctx, filename).config),
        next.profiles == ctx.profiles,
    ensures
        ({
            let path = joined(ctx.profiles.calibration_dir@, filename@);
            &&& calibration_in_use(with_profile(ctx, filename)) == Some(path)
            &&& calibration_in_use(next) == Some(path)
            &&& told_when_saved(path).contains(Told::LoadCalibration(path))
            &&& told_when_saved(path).contains(Told::ResetTimer)
            &&& told_when_saved(path).last() == Told::SetCalibrating(false)
        }),
        calibration_in_use(without_profile(ctx)) is None,
        with_profile(ctx, filename).display_mode == ctx.display_mode,
        with_profile(ctx, filename).capture_running == ctx.capture_running,
{
    let path = joined(ctx.profiles.calibration_dir@, filename@);
    assert(told_when_saved(path)[0] == Told::LoadCalibration(path));
    assert(told_when_saved(path)[1] == Told::ResetTimer);
}

/// A worker starts with the profile and the way of counting that its configuration names, and
/// without frames.
pub proof fn law_worker_starts_as_configured(ctx: WorkerContext, config: RulerConfig)
    requires
        starts_with_config(ctx, config),
    ensures
        config.active_calibration_profile is None ==> calibration_in_use(ctx) is None,
        config.active_calibration_profile matches Some(filename) ==> calibration_in_use(ctx) == Some(
            joined(ctx.profiles.calibration_dir@, filename@),
        ),
        config.frame_display_mode matches Some(name) ==> ctx.display_mode == mode_from_config(
            Some(name@),
        ),
        !ctx.capture_running,
        ctx.config == config,
{
}

} // verus!
