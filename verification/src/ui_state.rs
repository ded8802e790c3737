//! What the overlay and the local API show, and how frame counts are written and read.
use crate::text;
use crate::text::{decimal_int, digits_at_most, padded, split_on, trimmed};
use vstd::prelude::*;

verus! {

pub const FRAMES_PER_SECOND: i32 = 30;

pub const VERSION: &'static str = "v2.2.0";

/// The version without the mark before it.
pub const PACKAGE_VERSION: &'static str = "2.2.0";

/// What triggered a timer reset: it drives the label of the overlay's cover animation.
#[derive(Clone, Copy, Debug, PartialEq, Eq, Structural)]
pub enum ResetKind {
    Manual,
    Auto,
}

impl Default for ResetKind {
    fn default() -> (kind: Self)
        ensures
            kind == ResetKind::Manual,
    {
        ResetKind::Manual
    }
}

/// How the frames of a cost cycle are numbered on screen.
#[derive(Clone, Copy, Debug, PartialEq, Eq, Structural)]
pub enum FrameDisplayMode {
    ZeroToNMinusOne,
    ZeroToN,
    OneToN,
}

impl Default for FrameDisplayMode {
    fn default() -> (mode: Self)
        ensures
            mode == FrameDisplayMode::ZeroToNMinusOne,
    {
        FrameDisplayMode::ZeroToNMinusOne
    }
}

/// The name under which a display mode stands in the configuration and in the API.
pub open spec fn mode_name(mode: FrameDisplayMode) -> Seq<char> {
    match mode {
        FrameDisplayMode::ZeroToNMinusOne => "0_to_n-1"@,
        FrameDisplayMode::ZeroToN => "0_to_n"@,
        FrameDisplayMode::OneToN => "1_to_n"@,
    }
}

/// The display mode of that name.
pub open spec fn mode_named(name: Seq<char>) -> Option<FrameDisplayMode> {
    if name == "0_to_n-1"@ {
        Some(FrameDisplayMode::ZeroToNMinusOne)
    } else if name == "0_to_n"@ {
        Some(FrameDisplayMode::ZeroToN)
    } else if name == "1_to_n"@ {
        Some(FrameDisplayMode::OneToN)
    } else {
        None
    }
}

/// The display mode a configuration value stands for: the default where the value is absent or
/// unknown.
pub open spec fn mode_from_config(value: Option<Seq<char>>) -> FrameDisplayMode {
    match value {
        Some(name) => match mode_named(name) {
            Some(mode) => mode,
            None => FrameDisplayMode::ZeroToNMinusOne,
        },
        None => FrameDisplayMode::ZeroToNMinusOne,
    }
}

pub open spec fn total_text(mode: FrameDisplayMode, total_frames: int) -> Seq<char> {
    let shown = if mode == FrameDisplayMode::ZeroToNMinusOne {
        if total_frames >= 1 {
            total_frames - 1
        } else {
            0
        }
    } else {
        total_frames
    };
    seq!['/'] + decimal_int(shown)
}

pub open spec fn frame_text(mode: FrameDisplayMode, logical_frame: Option<i32>) -> Seq<char> {
    match logical_frame {
        Some(frame) => if mode == FrameDisplayMode::OneToN {
            decimal_int(frame + 1)
        } else {
            decimal_int(frame as int)
        },
        None => "--"@,
    }
}

impl FrameDisplayMode {
    #[must_use]
    pub fn from_config(value: Option<&str>) -> (mode: Self)
        ensures
            mode == mode_from_config(
                match value {
                    Some(name) => Some(name@),
                    None => None,
                },
            ),
    {
        match value {
            Some(name) => match Self::from_api(name) {
                Some(mode) => mode,
                None => FrameDisplayMode::ZeroToNMinusOne,
            },
            None => FrameDisplayMode::ZeroToNMinusOne,
        }
    }

    #[must_use]
    pub fn as_config(self) -> (name: &'static str)
        ensures
            name@ == mode_name(self),
    {
        match self {
            FrameDisplayMode::ZeroToNMinusOne => "0_to_n-1",
            FrameDisplayMode::ZeroToN => "0_to_n",
            FrameDisplayMode::OneToN => "1_to_n",
        }
    }

    #[must_use]
    pub fn from_api(value: &str) -> (mode: Option<Self>)
        ensures
            mode == mode_named(value@),
    {
        if text::same(value, "0_to_n-1") {
            Some(FrameDisplayMode::ZeroToNMinusOne)
        } else if text::same(value, "0_to_n") {
            Some(FrameDisplayMode::ZeroToN)
        } else if text::same(value, "1_to_n") {
            Some(FrameDisplayMode::OneToN)
        } else {
            None
        }
    }

    /// The number of frames in a cycle, as the overlay shows it behind the current frame.
    #[must_use]
    pub fn display_total(self, total_frames: i32) -> (shown: String)
        requires
            self == FrameDisplayMode::ZeroToNMinusOne ==> total_frames > i32::MIN,
        ensures
            shown@ == total_text(self, total_frames as int),
    {
        let number: i32 = match self {
            FrameDisplayMode::ZeroToNMinusOne => if total_frames >= 1 {
                total_frames - 1
            } else {
                0
            },
            _ => total_frames,
        };
        let mut shown = String::new();
        shown.push('/');
        shown.append(&text::decimal_of_int(number as i64));
        assert(shown@ =~= total_text(self, total_frames as int));
        shown
    }

    /// The current frame, as the overlay shows it.
    #[must_use]
    pub fn display_frame(self, logical_frame: Option<i32>) -> (shown: String)
        requires
            logical_frame matches Some(frame) ==> self == FrameDisplayMode::OneToN ==> frame
                < i32::MAX,
        ensures
            shown@ == frame_text(self, logical_frame),
    {
        match logical_frame {
            Some(frame) => if self == FrameDisplayMode::OneToN {
                text::decimal_of_int(frame as i64 + 1)
            } else {
                text::decimal_of_int(frame as i64)
            },
            None => "--".to_owned(),
        }
    }
}

/// Writing a display mode to the configuration or the API and reading it back gives the mode.
pub proof fn law_display_mode_name_round_trip(mode: FrameDisplayMode)
    ensures
        mode_named(mode_name(mode)) == Some(mode),
        mode_from_config(Some(mode_name(mode))) == mode,
{
    reveal_strlit("0_to_n-1");
    reveal_strlit("0_to_n");
    reveal_strlit("1_to_n");
    assert("0_to_n-1"@.len() == 8 && "0_to_n"@.len() == 6 && "1_to_n"@.len() == 6);
    assert("0_to_n"@[0] == '0' && "1_to_n"@[0] == '1');
}

/// The screen the overlay is on.
#[derive(Clone, Copy, Debug, PartialEq, Eq, Structural)]
pub enum OverlayMode {
    Booting,
    Idle,
    PreCalibration,
    Calibrating,
    Running,
    Error,
}

impl Default for OverlayMode {
    fn default() -> (mode: Self)
        ensures
            mode == OverlayMode::Booting,
    {
        OverlayMode::Booting
    }
}

/// A share of some work: `completed` parts out of `total`.
#[derive(Clone, Copy, Debug, PartialEq, Eq, Structural)]
pub struct Progress {
    pub completed: u64,
    pub total: u64,
}

impl Progress {
    /// Whether this is a share of a whole: some parts, and no more of them done than there are.
    pub open spec fn valid(self) -> bool {
        0 < self.total && self.completed <= self.total
    }

    /// Whether this share is at least as large as `other`.
    pub open spec fn at_least(self, other: Progress) -> bool {
        self.completed * other.total >= other.completed * self.total
    }

    /// Nothing done yet.
    pub open spec fn spec_none() -> Progress {
        Progress { completed: 0, total: 1 }
    }

    #[verifier::when_used_as_spec(spec_none)]
    pub fn none() -> (progress: Progress)
        ensures
            progress == Progress::spec_none(),
            progress.valid(),
    {
        Progress { completed: 0, total: 1 }
    }
}

/// One calibration profile, as menus and the API list it.
#[derive(Debug, PartialEq, Eq)]
pub struct ProfileMenuItem {
    pub filename: String,
    pub basename: String,
    pub total_frames_str: String,
    pub resolution: String,
    pub is_active: bool,
}

impl Clone for ProfileMenuItem {
    fn clone(&self) -> (copy: Self)
        ensures
            copy == *self,
    {
        ProfileMenuItem {
            filename: self.filename.clone(),
            basename: self.basename.clone(),
            total_frames_str: self.total_frames_str.clone(),
            resolution: self.resolution.clone(),
            is_active: self.is_active,
        }
    }
}

/// A newer release that the user can be told about.
#[derive(Debug, PartialEq, Eq)]
pub struct UpdateNotice {
    pub version: String,
    pub release_title: String,
    pub html_url: String,
    pub download_url: Option<String>,
}

impl Clone for UpdateNotice {
    fn clone(&self) -> (copy: Self)
        ensures
            copy == *self,
    {
        UpdateNotice {
            version: self.version.clone(),
            release_title: self.release_title.clone(),
            html_url: self.html_url.clone(),
            download_url: text::copy_opt(&self.download_url),
        }
    }
}

/// Fixed-point timing diagnostics of one analyzed frame.
#[derive(Clone, Copy, Debug, PartialEq, Eq, Structural)]
pub struct TimingDebug {
    pub required_fp: i64,
    pub speed_fp: i64,
    pub accumulator_fp: i64,
    pub advanced_frames: i32,
    pub frames_since_cycle_start: i32,
    pub frames_until_next_cost: i32,
    pub match_error_px: i32,
    pub boundary_corrected: bool,
}

/// What the API tells of the current frame.
#[derive(Debug, PartialEq, Eq)]
pub struct ApiStateSnapshot {
    pub is_running: bool,
    pub current_frame: Option<i32>,
    pub total_frames_in_cycle: i32,
    pub total_elapsed_frames: i32,
    pub active_profile: Option<String>,
    pub frame_id: Option<u64>,
    pub sample_index: u64,
    pub dropped_since_previous: u64,
    pub raw_pixel_width: Option<i32>,
    pub cost_is_negative: bool,
    pub battle_state: Option<String>,
    pub capture_width: Option<u32>,
    pub capture_height: Option<u32>,
    pub capture_format: Option<String>,
    pub capture_timestamp_ns: Option<u64>,
    pub capture_duration_us: Option<u64>,
    pub timing_debug: Option<TimingDebug>,
}

impl Clone for ApiStateSnapshot {
    fn clone(&self) -> (copy: Self)
        ensures
            copy == *self,
    {
        ApiStateSnapshot {
            is_running: self.is_running,
            current_frame: self.current_frame,
            total_frames_in_cycle: self.total_frames_in_cycle,
            total_elapsed_frames: self.total_elapsed_frames,
            active_profile: text::copy_opt(&self.active_profile),
            frame_id: self.frame_id,
            sample_index: self.sample_index,
            dropped_since_previous: self.dropped_since_previous,
            raw_pixel_width: self.raw_pixel_width,
            cost_is_negative: self.cost_is_negative,
            battle_state: self.battle_state.clone(),
            capture_width: self.capture_width,
            capture_height: self.capture_height,
            capture_format: self.capture_format.clone(),
            capture_timestamp_ns: self.capture_timestamp_ns,
            capture_duration_us: self.capture_duration_us,
            timing_debug: self.timing_debug,
        }
    }
}

impl Default for ApiStateSnapshot {
    fn default() -> (api: Self)
        ensures
            api == initial_api_state(),
    {
        ApiStateSnapshot {
            is_running: false,
            current_frame: None,
            total_frames_in_cycle: 0,
            total_elapsed_frames: 0,
            active_profile: None,
            frame_id: None,
            sample_index: 0,
            dropped_since_previous: 0,
            raw_pixel_width: None,
            cost_is_negative: false,
            battle_state: None,
            capture_width: None,
            capture_height: None,
            capture_format: None,
            capture_timestamp_ns: None,
            capture_duration_us: None,
            timing_debug: None,
        }
    }
}

/// Before anything has run: no frame, no profile, all counts at zero.
pub open spec fn initial_api_state() -> ApiStateSnapshot {
    ApiStateSnapshot {
        is_running: false,
        current_frame: None,
        total_frames_in_cycle: 0,
        total_elapsed_frames: 0,
        active_profile: None,
        frame_id: None,
        sample_index: 0,
        dropped_since_previous: 0,
        raw_pixel_width: None,
        cost_is_negative: false,
        battle_state: None,
        capture_width: None,
        capture_height: None,
        capture_format: None,
        capture_timestamp_ns: None,
        capture_duration_us: None,
        timing_debug: None,
    }
}

/// `api` with nothing left of the frame it was taken from.
pub open spec fn without_frame_metadata(api: ApiStateSnapshot) -> ApiStateSnapshot {
    ApiStateSnapshot {
        frame_id: None,
        sample_index: 0,
        dropped_since_previous: 0,
        raw_pixel_width: None,
        cost_is_negative: false,
        battle_state: None,
        capture_width: None,
        capture_height: None,
        capture_format: None,
        capture_timestamp_ns: None,
        capture_duration_us: None,
        timing_debug: None,
        ..api
    }
}

/// What the API tells once `record` is the current frame: the cycle length only while the cycle
/// runs, everything else as the record has it.
pub open spec fn api_of_record(record: ApiFrameRecord) -> ApiStateSnapshot {
    ApiStateSnapshot {
        is_running: record.is_running,
        current_frame: record.current_frame,
        total_frames_in_cycle: if record.is_running {
            record.total_frames_in_cycle
        } else {
            0
        },
        total_elapsed_frames: record.total_elapsed_frames,
        active_profile: record.active_profile,
        frame_id: Some(record.frame_id),
        sample_index: record.sample_index,
        dropped_since_previous: record.dropped_since_previous,
        raw_pixel_width: record.raw_pixel_width,
        cost_is_negative: record.cost_is_negative,
        battle_state: Some(record.battle_state),
        capture_width: Some(record.capture_width),
        capture_height: Some(record.capture_height),
        capture_format: Some(record.capture_format),
        capture_timestamp_ns: Some(record.capture_timestamp_ns),
        capture_duration_us: Some(record.capture_duration_us),
        timing_debug: record.timing_debug,
    }
}

impl ApiStateSnapshot {
    pub fn clear_frame_metadata(&mut self)
        ensures
            *final(self) == without_frame_metadata(*old(self)),
    {
        self.frame_id = None;
        self.sample_index = 0;
        self.dropped_since_previous = 0;
        self.raw_pixel_width = None;
        self.cost_is_negative = false;
        self.battle_state = None;
        self.capture_width = None;
        self.capture_height = None;
        self.capture_format = None;
        self.capture_timestamp_ns = None;
        self.capture_duration_us = None;
        self.timing_debug = None;
    }

    pub fn update_from_frame_record(&mut self, record: &ApiFrameRecord)
        ensures
            *final(self) == api_of_record(*record),
    {
        self.is_running = record.is_running;
        self.current_frame = record.current_frame;
        self.total_frames_in_cycle =
        if record.is_running {
            record.total_frames_in_cycle
        } else {
            0
        };
        self.total_elapsed_frames = record.total_elapsed_frames;
        self.active_profile = record.active_profile.clone();
        self.frame_id = Some(record.frame_id);
        self.sample_index = record.sample_index;
        self.dropped_since_previous = record.dropped_since_previous;
        self.raw_pixel_width = record.raw_pixel_width;
        self.cost_is_negative = record.cost_is_negative;
        self.battle_state = Some(record.battle_state.clone());
        self.capture_width = Some(record.capture_width);
        self.capture_height = Some(record.capture_height);
        self.capture_format = Some(record.capture_format.clone());
        self.capture_timestamp_ns = Some(record.capture_timestamp_ns);
        self.capture_duration_us = Some(record.capture_duration_us);
        self.timing_debug = record.timing_debug;
    }
}

/// The frame numbers that the API can still answer for.
#[derive(Clone, Copy, Debug, PartialEq, Eq, Structural)]
pub struct ApiHistoryBounds {
    pub oldest_frame_id: Option<u64>,
    pub latest_frame_id: Option<u64>,
}

impl Default for ApiHistoryBounds {
    fn default() -> (bounds: Self)
        ensures
            bounds.oldest_frame_id is None,
            bounds.latest_frame_id is None,
    {
        ApiHistoryBounds { oldest_frame_id: None, latest_frame_id: None }
    }
}

/// One analyzed frame, as the API keeps it.
#[derive(Debug, PartialEq, Eq)]
pub struct ApiFrameRecord {
    pub frame_id: u64,
    pub sample_index: u64,
    pub dropped_since_previous: u64,
    pub is_running: bool,
    pub current_frame: Option<i32>,
    pub total_frames_in_cycle: i32,
    pub total_elapsed_frames: i32,
    pub active_profile: Option<String>,
    pub raw_pixel_width: Option<i32>,
    pub cost_is_negative: bool,
    pub battle_state: String,
    pub capture_width: u32,
    pub capture_height: u32,
    pub capture_format: String,
    pub capture_timestamp_ns: u64,
    pub capture_duration_us: u64,
    pub timing_debug: Option<TimingDebug>,
}

impl Clone for ApiFrameRecord {
    fn clone(&self) -> (copy: Self)
        ensures
            copy == *self,
    {
        ApiFrameRecord {
            frame_id: self.frame_id,
            sample_index: self.sample_index,
            dropped_since_previous: self.dropped_since_previous,
            is_running: self.is_running,
            current_frame: self.current_frame,
            total_frames_in_cycle: self.total_frames_in_cycle,
            total_elapsed_frames: self.total_elapsed_frames,
            active_profile: text::copy_opt(&self.active_profile),
            raw_pixel_width: self.raw_pixel_width,
            cost_is_negative: self.cost_is_negative,
            battle_state: self.battle_state.clone(),
            capture_width: self.capture_width,
            capture_height: self.capture_height,
            capture_format: self.capture_format.clone(),
            capture_timestamp_ns: self.capture_timestamp_ns,
            capture_duration_us: self.capture_duration_us,
            timing_debug: self.timing_debug,
        }
    }
}

/// The answer to a request for one frame.
#[derive(Debug, PartialEq, Eq)]
pub enum ApiFrameLookup {
    Found {
        requested_frame_id: u64,
        record: ApiFrameRecord,
        fell_back: bool,
        fallback_reason: Option<String>,
    },
    NotRetained { requested_frame_id: u64 },
}

/// What the overlay shows.
#[derive(Debug, PartialEq, Eq)]
pub struct UiSnapshot {
    pub mode: OverlayMode,
    pub message: String,
    pub progress: Progress,
    pub display_frame: String,
    pub display_total: String,
    pub time_str: String,
    pub lap_frames: Option<i32>,
    pub can_undo_reset: bool,
    pub total_frames_in_cycle: i32,
    pub active_profile: Option<String>,
    pub display_mode: FrameDisplayMode,
    pub profiles: Vec<ProfileMenuItem>,
    pub capture_dimensions: Option<(u32, u32)>,
    pub overlay_scale_pct: u16,
    pub should_exit: bool,
    pub cursor_blocked: bool,
    pub update_notice: Option<UpdateNotice>,
    /// Bumped each time the timer is reset, by hand or by itself. The overlay compares it with its
    /// own copy to find new resets and to drive the cover animation. Wrapping is fine: only
    /// inequality matters.
    pub reset_pulse: u32,
    pub reset_kind: ResetKind,
}

/// The overlay before anything has run.
pub open spec fn is_initial_ui(ui: UiSnapshot) -> bool {
    &&& ui.mode == OverlayMode::Booting
    &&& ui.message@ == "booting"@
    &&& ui.progress == Progress::none()
    &&& timer_is_blank(ui)
    &&& ui.can_undo_reset == false
    &&& ui.total_frames_in_cycle == 0
    &&& ui.active_profile is None
    &&& ui.display_mode == FrameDisplayMode::ZeroToNMinusOne
    &&& ui.profiles@ == Seq::<ProfileMenuItem>::empty()
    &&& ui.capture_dimensions is None
    &&& ui.overlay_scale_pct == 100
    &&& ui.should_exit == false
    &&& ui.cursor_blocked == false
    &&& ui.update_notice is None
    &&& ui.reset_pulse == 0
    &&& ui.reset_kind == ResetKind::Manual
}

/// The timer shows nothing: no frame, no cycle, zero time, no lap.
pub open spec fn timer_is_blank(ui: UiSnapshot) -> bool {
    &&& ui.display_frame@ == "--"@
    &&& ui.display_total@ == "/--"@
    &&& ui.time_str@ == "00:00:00"@
    &&& ui.lap_frames is None
}

impl Default for UiSnapshot {
    fn default() -> (ui: Self)
        ensures
            is_initial_ui(ui),
    {
        UiSnapshot {
            mode: OverlayMode::Booting,
            message: "booting".to_owned(),
            progress: Progress::none(),
            display_frame: "--".to_owned(),
            display_total: "/--".to_owned(),
            time_str: "00:00:00".to_owned(),
            lap_frames: None,
            can_undo_reset: false,
            total_frames_in_cycle: 0,
            active_profile: None,
            display_mode: FrameDisplayMode::ZeroToNMinusOne,
            profiles: Vec::new(),
            capture_dimensions: None,
            overlay_scale_pct: 100,
            should_exit: false,
            cursor_blocked: false,
            update_notice: None,
            reset_pulse: 0,
            reset_kind: ResetKind::Manual,
        }
    }
}

impl UiSnapshot {
    /// Shows no frame, no cycle, zero time and no lap.
    pub fn blank_timer(&mut self)
        ensures
            timer_is_blank(*final(self)),
            *final(self) == (UiSnapshot {
                display_frame: final(self).display_frame,
                display_total: final(self).display_total,
                time_str: final(self).time_str,
                lap_frames: None,
                ..*old(self)
            }),
    {
        self.display_frame = "--".to_owned();
        self.display_total = "/--".to_owned();
        self.time_str = "00:00:00".to_owned();
        self.lap_frames = None;
    }
}

/// `profiles`, item by item.
pub fn clone_profiles(profiles: &Vec<ProfileMenuItem>) -> (copy: Vec<ProfileMenuItem>)
    ensures
        copy@ == profiles@,
{
    let mut copy: Vec<ProfileMenuItem> = Vec::new();
    let mut i: usize = 0;
    while i < profiles.len()
        invariant
            i <= profiles@.len(),
            copy@ == profiles@.take(i as int),
        decreases profiles@.len() - i,
    {
        copy.push(profiles[i].clone());
        i += 1;
        assert(copy@ =~= profiles@.take(i as int));
    }
    assert(copy@ =~= profiles@);
    copy
}

/// Two snapshots that show the same.
pub open spec fn same_ui(a: UiSnapshot, b: UiSnapshot) -> bool {
    &&& a == UiSnapshot { profiles: a.profiles, ..b }
    &&& a.profiles@ == b.profiles@
}

impl Clone for UiSnapshot {
    fn clone(&self) -> (copy: Self)
        ensures
            same_ui(copy, *self),
    {
        UiSnapshot {
            mode: self.mode,
            message: self.message.clone(),
            progress: self.progress,
            display_frame: self.display_frame.clone(),
            display_total: self.display_total.clone(),
            time_str: self.time_str.clone(),
            lap_frames: self.lap_frames,
            can_undo_reset: self.can_undo_reset,
            total_frames_in_cycle: self.total_frames_in_cycle,
            active_profile: text::copy_opt(&self.active_profile),
            display_mode: self.display_mode,
            profiles: clone_profiles(&self.profiles),
            capture_dimensions: self.capture_dimensions,
            overlay_scale_pct: self.overlay_scale_pct,
            should_exit: self.should_exit,
            cursor_blocked: self.cursor_blocked,
            update_notice: self.update_notice.clone(),
            reset_pulse: self.reset_pulse,
            reset_kind: self.reset_kind,
        }
    }
}

/// Frame counts as minutes, seconds and frames, two digits each at least; nothing before zero.
pub open spec fn time_text(total_frames: int) -> Seq<char> {
    if total_frames < 0 {
        "00:00:00"@
    } else {
        let seconds = total_frames / 30;
        padded((seconds / 60) as nat, 2) + seq![':'] + padded((seconds % 60) as nat, 2) + seq![':']
            + padded((total_frames % 30) as nat, 2)
    }
}

#[must_use]
pub fn format_time_from_frames(total_frames: i32) -> (shown: String)
    ensures
        shown@ == time_text(total_frames as int),
{
    if total_frames < 0 {
        return "00:00:00".to_owned();
    }
    let frames: i32 = total_frames % FRAMES_PER_SECOND;
    let total_seconds: i32 = total_frames / FRAMES_PER_SECOND;
    let mut shown = String::new();
    text::push_padded(&mut shown, (total_seconds / 60) as u64, 2);
    shown.push(':');
    text::push_padded(&mut shown, (total_seconds % 60) as u64, 2);
    shown.push(':');
    text::push_padded(&mut shown, frames as u64, 2);
    assert(shown@ =~= time_text(total_frames as int));
    shown
}

/// One number of a timer input: decimal digits only, and no more than a timer can hold.
pub open spec fn timer_number(segment: Seq<char>) -> Option<int> {
    digits_at_most(segment, i32::MAX as int)
}

/// The frame count that a timer input stands for: a bare number of frames, or minutes, seconds
/// and frames between colons, with fewer than 60 seconds and fewer than 30 frames.
pub open spec fn timer_frames(input: Seq<char>) -> Option<int> {
    let shown = trimmed(input);
    if !shown.contains(':') {
        timer_number(shown)
    } else {
        let parts = split_on(shown, ':');
        if parts.len() == 3 {
            match (timer_number(parts[0]), timer_number(parts[1]), timer_number(parts[2])) {
                (Some(minutes), Some(seconds), Some(frames)) => {
                    let total = (minutes * 60 + seconds) * 30 + frames;
                    if seconds < 60 && frames < 30 && total <= i32::MAX {
                        Some(total)
                    } else {
                        None
                    }
                },
                _ => None,
            }
        } else {
            None
        }
    }
}

fn parse_timer_number(segment: &str) -> (number: Option<i32>)
    ensures
        match number {
            Some(n) => timer_number(segment@) == Some(n as int),
            None => timer_number(segment@) is None,
        },
{
    let chars = text::to_chars(segment);
    assert(chars@.subrange(0, chars@.len() as int) =~= segment@);
    match text::parse_digits(&chars, 0, chars.len(), 0x7fff_ffff) {
        Some(n) => Some(n as i32),
        None => None,
    }
}

#[must_use]
pub fn parse_timer_input_frames(input: &str) -> (frames: Option<i32>)
    ensures
        match frames {
            Some(n) => timer_frames(input@) == Some(n as int),
            None => timer_frames(input@) is None,
        },
{
    let shown = text::trim(input);
    if !text::contains_char(&text::to_chars(&shown), ':') {
        return parse_timer_number(&shown);
    }
    let parts = text::split(&shown, ':');
    let ghost split = split_on(shown@, ':');
    assert(split.len() == parts@.len());
    if parts.len() != 3 {
        return None;
    }
    assert(split[0] == parts@[0]@ && split[1] == parts@[1]@ && split[2] == parts@[2]@);
    let minutes: i32 = match parse_timer_number(&parts[0]) {
        Some(n) => n,
        None => {
            return None;
        },
    };
    let seconds: i32 = match parse_timer_number(&parts[1]) {
        Some(n) => n,
        None => {
            return None;
        },
    };
    let frames: i32 = match parse_timer_number(&parts[2]) {
        Some(n) => n,
        None => {
            return None;
        },
    };
    if seconds >= 60 || frames >= FRAMES_PER_SECOND {
        return None;
    }
    let total: i64 = (minutes as i64 * 60 + seconds as i64) * 30 + frames as i64;
    if total > 0x7fff_ffff {
        None
    } else {
        Some(total as i32)
    }
}

/// The shown time has no white space at its ends.
pub proof fn lemma_shown_time_is_trimmed(total_frames: int)
    requires
        0 <= total_frames,
    ensures
        time_text(total_frames).len() > 0,
        trimmed(time_text(total_frames)) == time_text(total_frames),
{
    let seconds = total_frames / 30;
    let m = padded((seconds / 60) as nat, 2);
    let f = padded((total_frames % 30) as nat, 2);
    text::lemma_padded_digits((seconds / 60) as nat, 2);
    text::lemma_padded_digits((total_frames % 30) as nat, 2);
    let shown = time_text(total_frames);
    assert(shown[0] == m[0] && is_digit_at(m, 0));
    assert(shown.last() == f[f.len() - 1] && is_digit_at(f, f.len() - 1));
    text::lemma_trimmed_is_itself(shown);
}

/// Every frame count that the overlay can show reads back as itself.
pub proof fn law_shown_time_reads_back(total_frames: int)
    requires
        0 <= total_frames <= i32::MAX,
    ensures
        timer_frames(time_text(total_frames)) == Some(total_frames),
{
    let seconds = total_frames / 30;
    let m = padded((seconds / 60) as nat, 2);
    let s = padded((seconds % 60) as nat, 2);
    let f = padded((total_frames % 30) as nat, 2);
    text::lemma_padded_digits((seconds / 60) as nat, 2);
    text::lemma_padded_digits((seconds % 60) as nat, 2);
    text::lemma_padded_digits((total_frames % 30) as nat, 2);
    let shown = time_text(total_frames);
    lemma_shown_time_is_trimmed(total_frames);
    assert(shown[m.len() as int] == ':');
    assert(!m.contains(':')) by {
        assert forall|i: int| 0 <= i < m.len() implies m[i] != ':' by {
            assert(text::is_digit(m[i]));
        }
    }
    assert(!s.contains(':')) by {
        assert forall|i: int| 0 <= i < s.len() implies s[i] != ':' by {
            assert(text::is_digit(s[i]));
        }
    }
    assert(!f.contains(':')) by {
        assert forall|i: int| 0 <= i < f.len() implies f[i] != ':' by {
            assert(text::is_digit(f[i]));
        }
    }
    text::lemma_split_plain(m, ':');
    text::lemma_split_last(m, ':', s);
    let head = m.push(':') + s;
    text::lemma_split_last(head, ':', f);
    assert(shown =~= head.push(':') + f);
    assert(split_on(shown, ':') =~= seq![m, s, f]);
}

spec fn is_digit_at(s: Seq<char>, i: int) -> bool {
    text::is_digit(s[i])
}

/// The shown time is minutes, seconds and frames, with sixty seconds to a minute and thirty frames
/// to a second. A time below zero shows as none.
pub proof fn law_shown_time_counts_frames(minutes: nat, seconds: nat, frames: nat)
    requires
        seconds < 60,
        frames < 30,
    ensures
        time_text(((minutes * 60 + seconds) * 30 + frames) as int) == padded(minutes, 2) + seq![':']
            + padded(seconds, 2) + seq![':'] + padded(frames, 2),
        forall|time: int| time < 0 ==> #[trigger] time_text(time) == "00:00:00"@,
        time_text(0) == "00:00:00"@,
{
    let total = ((minutes * 60 + seconds) * 30 + frames) as int;
    assert(total / 30 == minutes * 60 + seconds);
    assert(total % 30 == frames);
    assert((minutes * 60 + seconds) / 60 == minutes);
    assert((minutes * 60 + seconds) % 60 == seconds as int);
    reveal_strlit("00:00:00");
    assert(text::decimal(0) =~= seq!['0']);
    assert(padded(0, 2) =~= seq!['0', '0']);
    assert(time_text(0) =~= "00:00:00"@);
}

/// A timer can be set by a bare number of frames, and by minutes, seconds and frames between colons.
pub proof fn law_timer_input_counts_frames(minutes: nat, seconds: nat, frames: nat)
    requires
        seconds < 60,
        frames < 30,
        (minutes * 60 + seconds) * 30 + frames <= i32::MAX,
    ensures
        timer_frames(
            padded(minutes, 2) + seq![':'] + padded(seconds, 2) + seq![':'] + padded(frames, 2),
        ) == Some(((minutes * 60 + seconds) * 30 + frames) as int),
        timer_frames(text::decimal(frames)) == Some(frames as int),
{
    law_shown_time_counts_frames(minutes, seconds, frames);
    law_shown_time_reads_back(((minutes * 60 + seconds) * 30 + frames) as int);
    lemma_bare_number(frames);
}

/// A number of frames up to what a timer can hold is taken for that number; a larger one for none.
pub proof fn law_bare_numbers_are_frames(frames: nat)
    ensures
        frames <= i32::MAX ==> timer_frames(text::decimal(frames)) == Some(frames as int),
        frames > i32::MAX ==> timer_frames(text::decimal(frames)) is None,
{
    lemma_bare_number(frames);
}

proof fn lemma_bare_number(frames: nat)
    ensures
        frames <= i32::MAX ==> timer_frames(text::decimal(frames)) == Some(frames as int),
        frames > i32::MAX ==> timer_frames(text::decimal(frames)) is None,
{
    let digits = text::decimal(frames);
    text::lemma_decimal_digits(frames);
    assert forall|i: int| 0 <= i < digits.len() implies digits[i] != ':' && !text::is_white_space(
        digits[i],
    ) by {
        assert(text::is_digit(digits[i]));
    }
    text::lemma_trimmed_is_itself(digits);
}

/// The three ways to number the frames of a cycle. From zero, the last frame of a cycle of `n` shows
/// as `n - 1`, which is also the number behind the slash, or `n` stands there; from one, the last
/// frame shows as `n`, and `n` stands behind the slash. From one frame to the next the number grows
/// by one.
pub proof fn law_frames_are_numbered_by_mode(mode: FrameDisplayMode, n: i32, frame: i32)
    requires
        1 <= n,
        0 <= frame < n,
    ensures
        ({
            let first = if mode == FrameDisplayMode::OneToN {
                1
            } else {
                0int
            };
            let last = frame_text(mode, Some((n - 1) as i32));
            &&& frame_text(mode, Some(0)) == text::decimal_int(first)
            &&& frame_text(mode, Some(frame)) == text::decimal_int(first + frame)
            &&& mode == FrameDisplayMode::ZeroToNMinusOne ==> last == text::decimal_int(n - 1)
                && total_text(mode, n as int) == seq!['/'] + last
            &&& mode == FrameDisplayMode::OneToN ==> last == text::decimal_int(n as int)
                && total_text(mode, n as int) == seq!['/'] + last
            &&& mode == FrameDisplayMode::ZeroToN ==> last == text::decimal_int(n - 1)
                && total_text(mode, n as int) == seq!['/'] + text::decimal_int(n as int)
            &&& frame_text(mode, None) == "--"@
        }),
{
}

/// The names of the display modes.
pub proof fn law_display_modes_have_their_names()
    ensures
        mode_name(FrameDisplayMode::ZeroToNMinusOne) == "0_to_n-1"@,
        mode_name(FrameDisplayMode::ZeroToN) == "0_to_n"@,
        mode_name(FrameDisplayMode::OneToN) == "1_to_n"@,
        mode_from_config(None) == FrameDisplayMode::ZeroToNMinusOne,
        forall|name: Seq<char>|
            name != "0_to_n-1"@ && name != "0_to_n"@ && name != "1_to_n"@ ==> #[trigger] mode_named(
                name,
            ) is None && mode_from_config(Some(name)) == FrameDisplayMode::ZeroToNMinusOne,
{
}

/// What the API tells while a frame is current is what was recorded of that frame, each thing under
/// its own name; only the length of the cycle is told as zero while no cycle runs.
pub proof fn law_api_tells_the_recorded_frame(record: ApiFrameRecord)
    ensures
        ({
            let api = api_of_record(record);
            &&& api.frame_id == Some(record.frame_id)
            &&& api.sample_index == record.sample_index
            &&& api.dropped_since_previous == record.dropped_since_previous
            &&& api.is_running == record.is_running
            &&& api.current_frame == record.current_frame
            &&& api.total_frames_in_cycle == (if record.is_running {
                record.total_frames_in_cycle
            } else {
                0
            })
            &&& api.total_elapsed_frames == record.total_elapsed_frames
            &&& api.active_profile == record.active_profile
            &&& api.raw_pixel_width == record.raw_pixel_width
            &&& api.cost_is_negative == record.cost_is_negative
            &&& api.battle_state == Some(record.battle_state)
            &&& api.capture_width == Some(record.capture_width)
            &&& api.capture_height == Some(record.capture_height)
            &&& api.capture_format == Some(record.capture_format)
            &&& api.capture_timestamp_ns == Some(record.capture_timestamp_ns)
            &&& api.capture_duration_us == Some(record.capture_duration_us)
            &&& api.timing_debug == record.timing_debug
        }),
{
}

/// Forgetting a frame leaves nothing that was read from it, and keeps what does not depend on it:
/// the time, the cycle and the profile. Doing it again changes nothing.
pub proof fn law_forgetting_a_frame_keeps_the_time(api: ApiStateSnapshot)
    ensures
        ({
            let after = without_frame_metadata(api);
            &&& after.frame_id is None
            &&& after.sample_index == 0
            &&& after.dropped_since_previous == 0
            &&& after.raw_pixel_width is None
            &&& !after.cost_is_negative
            &&& after.battle_state is None
            &&& after.capture_width is None
            &&& after.capture_height is None
            &&& after.capture_format is None
            &&& after.capture_timestamp_ns is None
            &&& after.capture_duration_us is None
            &&& after.timing_debug is None
            &&& after.total_elapsed_frames == api.total_elapsed_frames
            &&& after.total_frames_in_cycle == api.total_frames_in_cycle
            &&& after.active_profile == api.active_profile
            &&& after.is_running == api.is_running
            &&& after.current_frame == api.current_frame
            &&& without_frame_metadata(after) == after
        }),
{
}

} // verus!
