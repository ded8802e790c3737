//! Finding what can be captured: emulators, the game's own window and plain ADB devices.
use crate::analyzer_consumer::PixelFormat;
use crate::config::RulerConfig;
use crate::target_discovery::facts::{
    consistent, fits, grows, known_machine, questions, Asked, Fact, Machine,
};
use crate::target_discovery::mumu::Surroundings;
use crate::target_discovery::order::{connects_first, connects_only, emulator_addresses};
use crate::target_discovery::search::{
    all_fresh, all_found, nothing_found, opt_config, without_repeats, Found, Search,
};
use crate::target_discovery::windows::WindowInfo;
use crate::text;
use crate::text::{opt_view, views};
use vstd::prelude::*;

pub mod adb;
pub mod bundled_adb;
pub mod facts;
pub mod ldplayer;
pub mod mumu;
pub mod offers;
pub mod order;
pub mod process;
pub mod search;
pub mod windows;

verus! {

#[derive(Clone, Copy, Debug, PartialEq, Eq, Structural)]
pub enum TargetKind {
    MuMu,
    LDPlayer,
    Windows,
    Adb,
}

/// How fast screenshots of a target are.
#[derive(Clone, Copy, Debug, PartialEq, Eq, Structural)]
pub enum LatencyClass {
    PaleGreen,
    Green,
    Yellow,
    Orange,
    Red,
    Unknown,
}

/// A screenshot of a target.
#[derive(Debug)]
pub struct PreviewFrame {
    pub data: Vec<u8>,
    pub width: u32,
    pub height: u32,
    pub format: PixelFormat,
}

/// Something that can be captured. The latency of its screenshots is in nanoseconds.
#[derive(Debug)]
pub struct TargetCandidate {
    pub kind: TargetKind,
    pub fingerprint: String,
    pub name: String,
    pub detail: String,
    pub config: RulerConfig,
    pub latency: Option<u128>,
    pub latency_class: LatencyClass,
    pub preview: Option<PreviewFrame>,
    pub error: Option<String>,
}

/// What a trial screenshot of a target brought.
#[derive(Debug)]
pub struct ProbeResult {
    pub fingerprint: String,
    pub latency: Option<u128>,
    pub latency_class: LatencyClass,
    pub preview: Option<PreviewFrame>,
    pub error: Option<String>,
}

pub open spec fn kind_name(kind: TargetKind) -> Seq<char> {
    match kind {
        TargetKind::MuMu => "MuMu"@,
        TargetKind::LDPlayer => "LDPlayer"@,
        TargetKind::Windows => "Windows"@,
        TargetKind::Adb => "ADB"@,
    }
}

fn kind_label(kind: TargetKind) -> (label: &'static str)
    ensures
        label@ == kind_name(kind),
{
    match kind {
        TargetKind::MuMu => "MuMu",
        TargetKind::LDPlayer => "LDPlayer",
        TargetKind::Windows => "Windows",
        TargetKind::Adb => "ADB",
    }
}

/// The line of a target in a list: its kind, its name, its latency or what went wrong, its detail.
pub open spec fn list_line(candidate: TargetCandidate, latency_text: Seq<char>) -> Seq<char> {
    kind_name(candidate.kind) + " | "@ + candidate.name@ + " | "@ + (match candidate.error {
        Some(error) => "error: "@ + error@,
        None => latency_text,
    }) + " | "@ + candidate.detail@
}

impl TargetCandidate {
    /// The line of this target in a list, with its latency as `latency_text`.
    #[must_use]
    pub fn list_label(&self, latency_text: &str) -> (label: String)
        ensures
            label@ == list_line(*self, latency_text@),
    {
        let mut label = kind_label(self.kind).to_owned();
        label.append(" | ");
        label.append(&self.name);
        label.append(" | ");
        match &self.error {
            Some(error) => {
                label.append("error: ");
                label.append(error);
            },
            None => label.append(latency_text),
        }
        label.append(" | ");
        label.append(&self.detail);
        assert(label@ =~= list_line(*self, latency_text@));
        label
    }
}

/// The class of a latency in nanoseconds: below 8 ms, up to 16 ms, 33 ms, 166 ms, and above.
pub open spec fn class_of(nanos: int) -> LatencyClass {
    if nanos < 8_000_000 {
        LatencyClass::PaleGreen
    } else if nanos <= 16_000_000 {
        LatencyClass::Green
    } else if nanos <= 33_000_000 {
        LatencyClass::Yellow
    } else if nanos <= 166_000_000 {
        LatencyClass::Orange
    } else {
        LatencyClass::Red
    }
}

#[must_use]
pub fn latency_class(nanos: u128) -> (class: LatencyClass)
    ensures
        class == class_of(nanos as int),
{
    if nanos < 8_000_000 {
        LatencyClass::PaleGreen
    } else if nanos <= 16_000_000 {
        LatencyClass::Green
    } else if nanos <= 33_000_000 {
        LatencyClass::Yellow
    } else if nanos <= 166_000_000 {
        LatencyClass::Orange
    } else {
        LatencyClass::Red
    }
}

/// The rank of a class, from the fastest to the slowest.
pub open spec fn class_rank(class: LatencyClass) -> int {
    match class {
        LatencyClass::PaleGreen => 0,
        LatencyClass::Green => 1,
        LatencyClass::Yellow => 2,
        LatencyClass::Orange => 3,
        LatencyClass::Red => 4,
        LatencyClass::Unknown => 5,
    }
}

/// A slower screenshot is never in a faster class, and every measured one has a class.
pub proof fn law_latency_classes_are_ordered(a: int, b: int)
    requires
        a <= b,
    ensures
        class_rank(class_of(a)) <= class_rank(class_of(b)),
        class_of(a) != LatencyClass::Unknown,
{
}

/// What a trial screenshot tells of its target.
pub open spec fn result_of(
    fingerprint: String,
    outcome: Result<(u128, PreviewFrame), String>,
) -> ProbeResult {
    match outcome {
        Ok((latency, preview)) => ProbeResult {
            fingerprint,
            latency: Some(latency),
            latency_class: class_of(latency as int),
            preview: Some(preview),
            error: None,
        },
        Err(error) => ProbeResult {
            fingerprint,
            latency: None,
            latency_class: LatencyClass::Unknown,
            preview: None,
            error: Some(error),
        },
    }
}

/// What follows from a trial screenshot: a latency and a picture, or what went wrong.
pub fn probe_result(
    fingerprint: String,
    outcome: Result<(u128, PreviewFrame), String>,
) -> (result: ProbeResult)
    ensures
        result == result_of(fingerprint, outcome),
{
    match outcome {
        Ok((latency, preview)) => ProbeResult {
            fingerprint,
            latency: Some(latency),
            latency_class: latency_class(latency),
            preview: Some(preview),
            error: None,
        },
        Err(error) => ProbeResult {
            fingerprint,
            latency: None,
            latency_class: LatencyClass::Unknown,
            preview: None,
            error: Some(error),
        },
    }
}

/// The value without white space at its ends, where anything is left of it.
pub open spec fn non_empty_text(value: Option<Seq<char>>) -> Option<Seq<char>> {
    match value {
        Some(s) => if text::trimmed(s).len() == 0 {
            None
        } else {
            Some(text::trimmed(s))
        },
        None => None,
    }
}

pub(crate) fn non_empty(value: &Option<String>) -> (r: Option<String>)
    ensures
        opt_view(r) == non_empty_text(opt_view(*value)),
{
    match value {
        Some(s) => {
            let s = text::trim(s);
            if s.as_str().is_empty() {
                None
            } else {
                Some(s)
            }
        },
        None => None,
    }
}

/// A path in one spelling: backslashes between components, ASCII letters in lower case.
pub open spec fn stable_path_text(path: Seq<char>) -> Seq<char> {
    text::lowered(path.map_values(|c: char| if c == '/' { '\\' } else { c }))
}

pub(crate) fn stable_path(path: &str) -> (r: String)
    ensures
        r@ == stable_path_text(path@),
{
    let chars = text::to_chars(path);
    let mut r = String::new();
    let mut i: usize = 0;
    while i < chars.len()
        invariant
            i <= chars@.len(),
            chars@ == path@,
            r@ == stable_path_text(path@).take(i as int),
        decreases chars@.len() - i,
    {
        let c: char = if chars[i] == '/' {
            '\\'
        } else {
            chars[i]
        };
        r.push(text::ascii_lower(c));
        i += 1;
        assert(r@ =~= stable_path_text(path@).take(i as int));
    }
    assert(r@ =~= stable_path_text(path@));
    r
}

/// The stable spelling of a path is its own, and the spelling with slashes has the same.
pub proof fn law_stable_path_settles(path: Seq<char>)
    ensures
        stable_path_text(stable_path_text(path)) == stable_path_text(path),
        stable_path_text(crate::paths::with_slashes(path)) == stable_path_text(path),
{
    assert(stable_path_text(stable_path_text(path)) =~= stable_path_text(path));
    assert(stable_path_text(crate::paths::with_slashes(path)) =~= stable_path_text(path));
}

/// Where to capture from.
pub struct Source {
    pub install_path: Option<String>,
    pub instance_index: Option<u32>,
    pub device_id: Option<String>,
    pub window_handle: Option<isize>,
    pub window_title: Option<String>,
    pub window_class: Option<String>,
}

/// `value`, or `default` where there is none.
pub open spec fn or_default(value: Option<Seq<char>>, default: Seq<char>) -> Option<Seq<char>> {
    match value {
        Some(s) => Some(s),
        None => Some(default),
    }
}

/// `config` captures from `source`, and keeps from the configuration before it what does not
/// depend on the target.
pub open spec fn is_base_config(
    config: RulerConfig,
    capture_type: Seq<char>,
    source: Source,
    fingerprint: Seq<char>,
    previous: Option<RulerConfig>,
) -> bool {
    &&& config.capture_type@ == capture_type
    &&& config.install_path == source.install_path
    &&& config.instance_index == source.instance_index
    &&& config.device_id == source.device_id
    &&& config.window_handle == source.window_handle
    &&& config.window_title == source.window_title
    &&& config.window_class == source.window_class
    &&& !config.auto_select_target
    &&& opt_view(config.target_fingerprint) == Some(fingerprint)
    &&& config.screenshot_delay_ms is None
    &&& match previous {
        Some(p) => {
            &&& config.uuid == p.uuid
            &&& config.telemetry_enabled == p.telemetry_enabled
            &&& config.active_calibration_profile == p.active_calibration_profile
            &&& opt_view(config.frame_display_mode) == or_default(
                opt_view(p.frame_display_mode),
                "0_to_n-1"@,
            )
            &&& opt_view(config.language) == or_default(opt_view(p.language), "zh_CN"@)
            &&& config.overlay_pos_x == p.overlay_pos_x
            &&& config.overlay_pos_y == p.overlay_pos_y
            &&& config.overlay_scale == p.overlay_scale
            &&& config.ui_scaler == p.ui_scaler
            &&& config.debug_recording_enabled == p.debug_recording_enabled
            &&& config.debug_recording_video == p.debug_recording_video
            &&& config.debug_recording_csv == p.debug_recording_csv
            &&& config.trace_logging_enabled == p.trace_logging_enabled
            &&& config.log_output_dir == p.log_output_dir
            &&& config.replay_video_path == p.replay_video_path
            &&& config.replay_fps == p.replay_fps
        },
        None => {
            &&& config.uuid is None
            &&& config.telemetry_enabled is None
            &&& config.active_calibration_profile is None
            &&& opt_view(config.frame_display_mode) == Some("0_to_n-1"@)
            &&& opt_view(config.language) == Some("zh_CN"@)
            &&& config.overlay_pos_x is None
            &&& config.overlay_pos_y is None
            &&& config.overlay_scale is None
            &&& config.ui_scaler is None
            &&& !config.debug_recording_enabled
            &&& !config.debug_recording_video
            &&& !config.debug_recording_csv
            &&& !config.trace_logging_enabled
            &&& config.log_output_dir is None
            &&& config.replay_video_path is None
            &&& config.replay_fps is None
        },
    }
}

fn copy_or(value: &Option<String>, default: &str) -> (r: Option<String>)
    ensures
        opt_view(r) == or_default(opt_view(*value), default@),
{
    match value {
        Some(s) => Some(s.clone()),
        None => Some(default.to_owned()),
    }
}

pub(crate) fn base_config(
    capture_type: &str,
    source: Source,
    fingerprint: &str,
    previous: Option<&RulerConfig>,
) -> (config: RulerConfig)
    ensures
        is_base_config(
            config,
            capture_type@,
            source,
            fingerprint@,
            match previous {
                Some(p) => Some(*p),
                None => None,
            },
        ),
{
    match previous {
        Some(p) => RulerConfig {
            uuid: text::copy_opt(&p.uuid),
            telemetry_enabled: p.telemetry_enabled,
            screenshot_delay_ms: None,
            capture_type: capture_type.to_owned(),
            install_path: source.install_path,
            instance_index: source.instance_index,
            device_id: source.device_id,
            window_handle: source.window_handle,
            window_title: source.window_title,
            window_class: source.window_class,
            active_calibration_profile: text::copy_opt(&p.active_calibration_profile),
            frame_display_mode: copy_or(&p.frame_display_mode, "0_to_n-1"),
            language: copy_or(&p.language, "zh_CN"),
            auto_select_target: false,
            target_fingerprint: Some(fingerprint.to_owned()),
            overlay_pos_x: p.overlay_pos_x,
            overlay_pos_y: p.overlay_pos_y,
            overlay_scale: p.overlay_scale,
            ui_scaler: p.ui_scaler,
            debug_recording_enabled: p.debug_recording_enabled,
            debug_recording_video: p.debug_recording_video,
            debug_recording_csv: p.debug_recording_csv,
            trace_logging_enabled: p.trace_logging_enabled,
            log_output_dir: text::copy_opt(&p.log_output_dir),
            replay_video_path: text::copy_opt(&p.replay_video_path),
            replay_fps: p.replay_fps,
        },
        None => RulerConfig {
            uuid: None,
            telemetry_enabled: None,
            screenshot_delay_ms: None,
            capture_type: capture_type.to_owned(),
            install_path: source.install_path,
            instance_index: source.instance_index,
            device_id: source.device_id,
            window_handle: source.window_handle,
            window_title: source.window_title,
            window_class: source.window_class,
            active_calibration_profile: None,
            frame_display_mode: Some("0_to_n-1".to_owned()),
            language: Some("zh_CN".to_owned()),
            auto_select_target: false,
            target_fingerprint: Some(fingerprint.to_owned()),
            overlay_pos_x: None,
            overlay_pos_y: None,
            overlay_scale: None,
            ui_scaler: None,
            debug_recording_enabled: false,
            debug_recording_video: false,
            debug_recording_csv: false,
            trace_logging_enabled: false,
            log_output_dir: None,
            replay_video_path: None,
            replay_fps: None,
        },
    }
}

/// What can be captured on a machine, in the order in which it is offered: MuMu instances,
/// LDPlayer instances, windows of the game and other devices with the game.
pub open spec fn targets(
    machine: Machine,
    around: Surroundings,
    windows: Seq<WindowInfo>,
) -> Seq<Found> {
    without_repeats(
        adb::with_generic(
            machine,
            windows::with_windows(
                ldplayer::with_ldplayer(
                    machine,
                    mumu::with_mumu(machine, nothing_found(), around),
                    around,
                ),
                around.processes@,
                windows,
            ),
            views(around.connected@),
        ).found,
    )
}

/// What has been asked once everything was looked for: first MuMu instances, then LDPlayer
/// instances, at last the devices that are no one's. Windows are found without asking.
pub open spec fn asking_for_targets(
    machine: Machine,
    asked: Seq<Asked>,
    around: Surroundings,
    windows: Seq<WindowInfo>,
) -> Seq<Asked> {
    let search = windows::with_windows(
        ldplayer::with_ldplayer(machine, mumu::with_mumu(machine, nothing_found(), around), around),
        around.processes@,
        windows,
    );
    adb::asking_others(
        machine,
        ldplayer::asking_for_ldplayer(
            machine,
            mumu::asking_for_mumu(machine, asked, around),
            around,
        ),
        search,
        views(around.connected@),
    )
}

/// What can be captured, by what is known of the machine. Where `facts` grows, the first addition is
/// what has to be found out next, and the search made anew with its answer. A device is asked
/// nothing before it is connected, and nothing but an emulator is connected to.
pub fn discover_targets(
    facts: &mut Vec<Fact>,
    around: &Surroundings,
    windows: &Vec<WindowInfo>,
    previous: Option<&RulerConfig>,
) -> (candidates: Vec<TargetCandidate>)
    ensures
        all_fresh(candidates@, opt_config(previous)),
        grows(old(facts)@, final(facts)@),
        consistent(old(facts)@) ==> connects_first(
            old(facts)@,
            final(facts)@,
            views(around.connected@),
        ) && connects_only(
            old(facts)@,
            final(facts)@,
            views(around.connected@),
            emulator_addresses(known_machine(final(facts)@), *around),
        ),
        forall|machine: Machine| #[trigger]
            fits(machine, final(facts)@) ==> questions(final(facts)@) == asking_for_targets(
                machine,
                questions(old(facts)@),
                *around,
                windows@,
            ),
        forall|machine: Machine| #[trigger]
            fits(machine, final(facts)@) ==> all_found(candidates@) == targets(
                machine,
                *around,
                windows@,
            ),
{
    let mut search = Search::new();
    mumu::discover_mumu(facts, around, previous, &mut search);
    ldplayer::discover_ldplayer(facts, around, previous, &mut search);
    windows::discover_windows(&around.processes, windows, previous, &mut search);
    adb::discover_generic_adb(facts, &around.connected, previous, &mut search);
    proof {
        let connected = views(around.connected@);
        let asked = questions(old(facts)@);
        let emulators = |machine: Machine| emulator_addresses(machine, *around);
        assert forall|machine: Machine| #[trigger] fits(machine, facts@) implies order::orderly(
            machine,
            connected,
            emulators(machine),
            asked,
            questions(facts@),
        ) by {
            order::law_only_emulators_are_connected_to(machine, asked, *around, windows@);
        }
        if consistent(old(facts)@) {
            order::law_order_of_known_facts(connected, emulators, old(facts)@, facts@);
        }
    }
    search::keep_first(search.candidates, previous)
}

/// The bounds of the classes of latency: below 8 ms, up to 16, up to 33, up to 166, and above.
pub proof fn law_latency_classes_have_their_bounds(nanos: int)
    ensures
        class_of(nanos) == LatencyClass::PaleGreen <==> nanos < 8_000_000,
        class_of(nanos) == LatencyClass::Green <==> 8_000_000 <= nanos <= 16_000_000,
        class_of(nanos) == LatencyClass::Yellow <==> 16_000_000 < nanos <= 33_000_000,
        class_of(nanos) == LatencyClass::Orange <==> 33_000_000 < nanos <= 166_000_000,
        class_of(nanos) == LatencyClass::Red <==> nanos > 166_000_000,
{
}

/// A trial screenshot tells of its own target: the picture and how long it took where it worked, and
/// what went wrong where it did not, but never both.
pub proof fn law_trials_tell_of_their_target(
    fingerprint: String,
    latency: u128,
    preview: PreviewFrame,
    error: String,
)
    ensures
        ({
            let worked = result_of(fingerprint, Ok((latency, preview)));
            let failed = result_of(fingerprint, Err(error));
            &&& worked.fingerprint == fingerprint && failed.fingerprint == fingerprint
            &&& worked.latency == Some(latency) && worked.preview == Some(preview)
            &&& worked.error is None && worked.latency_class == class_of(latency as int)
            &&& failed.error == Some(error) && failed.preview is None && failed.latency is None
            &&& failed.latency_class == LatencyClass::Unknown
        }),
{
}

} // verus!
