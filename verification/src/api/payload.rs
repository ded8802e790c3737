//! What the API tells, as plain data and as JSON.
use crate::json;
use crate::json::{
    array_text, bool_text, int_of_i32, int_of_u32, int_of_u64, member_views, members_text,
    opt_int_text, opt_string_text, string_text, MemberOrder,
};
use crate::text;
use crate::text::{decimal, decimal_int, opt_view, views};
use crate::ui_state::{
    api_of_record, mode_name, ApiFrameRecord, ApiHistoryBounds, ProfileMenuItem, TimingDebug, VERSION,
};
use crate::worker::AppStateSnapshot;
use vstd::prelude::*;

verus! {

pub const API_VERSION: u32 = 2;

/// The snapshot of the current state.
#[derive(Debug)]
pub struct ApiPayload {
    pub api_version: u32,
    pub app_version: &'static str,
    pub is_running: bool,
    pub current_frame: Option<i32>,
    pub total_frames_in_cycle: i32,
    pub total_elapsed_frames: i32,
    pub active_profile: Option<String>,
    pub frame_id: Option<u64>,
    pub sample_index: u64,
    pub dropped_since_previous: u64,
    pub raw_pixel_width: Option<i32>,
    pub cost_is_negative: bool,
    pub battle_state: Option<String>,
    pub capture_width: Option<u32>,
    pub capture_height: Option<u32>,
    pub capture_format: Option<String>,
    pub capture_timestamp_ns: Option<u64>,
    pub capture_duration_us: Option<u64>,
    pub cursor_blocked: bool,
    pub display_mode: &'static str,
    pub display_frame: String,
    pub display_total: String,
    pub time: String,
    pub lap_frames: Option<i32>,
    pub can_undo_reset: bool,
    pub profiles: Vec<ApiProfilePayload>,
    pub history_oldest_frame_id: Option<u64>,
    pub history_latest_frame_id: Option<u64>,
    pub timing_debug: Option<TimingDebugPayload>,
}

/// One analyzed frame.
#[derive(Debug)]
pub struct ApiFramePayload {
    pub frame_id: u64,
    pub sample_index: u64,
    pub dropped_since_previous: u64,
    pub is_running: bool,
    pub current_frame: Option<i32>,
    pub total_frames_in_cycle: i32,
    pub total_elapsed_frames: i32,
    pub active_profile: Option<String>,
    pub raw_pixel_width: Option<i32>,
    pub cost_is_negative: bool,
    pub battle_state: String,
    pub capture_width: u32,
    pub capture_height: u32,
    pub capture_format: String,
    pub capture_timestamp_ns: u64,
    pub capture_duration_us: u64,
    pub timing_debug: Option<TimingDebugPayload>,
}

/// Fixed-point timing diagnostics of one frame.
#[derive(Clone, Copy, Debug, PartialEq, Eq, Structural)]
pub struct TimingDebugPayload {
    pub required_fp: i64,
    pub speed_fp: i64,
    pub accumulator_fp: i64,
    pub advanced_frames: i32,
    pub frames_since_cycle_start: i32,
    pub frames_until_next_cost: i32,
    pub match_error_px: i32,
    pub boundary_corrected: bool,
}

/// One calibration profile.
#[derive(Debug)]
pub struct ApiProfilePayload {
    pub filename: String,
    pub basename: String,
    pub total_frames: String,
    pub resolution: String,
    pub is_active: bool,
}

pub open spec fn debug_payload(debug: TimingDebug) -> TimingDebugPayload {
    TimingDebugPayload {
        required_fp: debug.required_fp,
        speed_fp: debug.speed_fp,
        accumulator_fp: debug.accumulator_fp,
        advanced_frames: debug.advanced_frames,
        frames_since_cycle_start: debug.frames_since_cycle_start,
        frames_until_next_cost: debug.frames_until_next_cost,
        match_error_px: debug.match_error_px,
        boundary_corrected: debug.boundary_corrected,
    }
}

pub open spec fn opt_debug_payload(debug: Option<TimingDebug>) -> Option<TimingDebugPayload> {
    match debug {
        Some(debug) => Some(debug_payload(debug)),
        None => None,
    }
}

pub open spec fn profile_payload(profile: ProfileMenuItem) -> ApiProfilePayload {
    ApiProfilePayload {
        filename: profile.filename,
        basename: profile.basename,
        total_frames: profile.total_frames_str,
        resolution: profile.resolution,
        is_active: profile.is_active,
    }
}

/// `payload` tells of `snapshot` and of the frames between `bounds`.
pub open spec fn tells(
    payload: ApiPayload,
    snapshot: AppStateSnapshot,
    bounds: ApiHistoryBounds,
) -> bool {
    let api = snapshot.api;
    let ui = snapshot.ui;
    &&& payload == ApiPayload {
        api_version: API_VERSION,
        app_version: payload.app_version,
        is_running: api.is_running,
        current_frame: api.current_frame,
        total_frames_in_cycle: api.total_frames_in_cycle,
        total_elapsed_frames: api.total_elapsed_frames,
        active_profile: api.active_profile,
        frame_id: api.frame_id,
        sample_index: api.sample_index,
        dropped_since_previous: api.dropped_since_previous,
        raw_pixel_width: api.raw_pixel_width,
        cost_is_negative: api.cost_is_negative,
        battle_state: api.battle_state,
        capture_width: api.capture_width,
        capture_height: api.capture_height,
        capture_format: api.capture_format,
        capture_timestamp_ns: api.capture_timestamp_ns,
        capture_duration_us: api.capture_duration_us,
        cursor_blocked: ui.cursor_blocked,
        display_mode: payload.display_mode,
        display_frame: ui.display_frame,
        display_total: ui.display_total,
        time: ui.time_str,
        lap_frames: ui.lap_frames,
        can_undo_reset: ui.can_undo_reset,
        profiles: payload.profiles,
        history_oldest_frame_id: bounds.oldest_frame_id,
        history_latest_frame_id: bounds.latest_frame_id,
        timing_debug: opt_debug_payload(api.timing_debug),
    }
    &&& payload.app_version@ == VERSION@
    &&& payload.display_mode@ == mode_name(ui.display_mode)
    &&& payload.profiles@ == ui.profiles@.map_values(|p: ProfileMenuItem| profile_payload(p))
}

impl ApiPayload {
    #[must_use]
    pub fn from_snapshot(snapshot: &AppStateSnapshot, bounds: ApiHistoryBounds) -> (payload: Self)
        ensures
            tells(payload, *snapshot, bounds),
    {
        let api = &snapshot.api;
        let ui = &snapshot.ui;
        let mut profiles: Vec<ApiProfilePayload> = Vec::new();
        let ghost want = ui.profiles@.map_values(|p: ProfileMenuItem| profile_payload(p));
        let mut i: usize = 0;
        while i < ui.profiles.len()
            invariant
                i <= ui.profiles@.len(),
                want == ui.profiles@.map_values(|p: ProfileMenuItem| profile_payload(p)),
                profiles@ == want.take(i as int),
            decreases ui.profiles@.len() - i,
        {
            profiles.push(ApiProfilePayload::from_profile(&ui.profiles[i]));
            i += 1;
            assert(profiles@ =~= want.take(i as int));
        }
        assert(want.take(i as int) =~= want);
        ApiPayload {
            api_version: API_VERSION,
            app_version: VERSION,
            is_running: api.is_running,
            current_frame: api.current_frame,
            total_frames_in_cycle: api.total_frames_in_cycle,
            total_elapsed_frames: api.total_elapsed_frames,
            active_profile: text::copy_opt(&api.active_profile),
            frame_id: api.frame_id,
            sample_index: api.sample_index,
            dropped_since_previous: api.dropped_since_previous,
            raw_pixel_width: api.raw_pixel_width,
            cost_is_negative: api.cost_is_negative,
            battle_state: text::copy_opt(&api.battle_state),
            capture_width: api.capture_width,
            capture_height: api.capture_height,
            capture_format: text::copy_opt(&api.capture_format),
            capture_timestamp_ns: api.capture_timestamp_ns,
            capture_duration_us: api.capture_duration_us,
            cursor_blocked: ui.cursor_blocked,
            display_mode: ui.display_mode.as_config(),
            display_frame: ui.display_frame.clone(),
            display_total: ui.display_total.clone(),
            time: ui.time_str.clone(),
            lap_frames: ui.lap_frames,
            can_undo_reset: ui.can_undo_reset,
            profiles,
            history_oldest_frame_id: bounds.oldest_frame_id,
            history_latest_frame_id: bounds.latest_frame_id,
            timing_debug: TimingDebugPayload::from_opt(api.timing_debug),
        }
    }

    /// The snapshot as JSON.
    pub fn to_json(&self, order: MemberOrder) -> (json: String)
        ensures
            json@ == payload_json(*self, order),
    {
        let mut profiles: Vec<String> = Vec::new();
        let ghost want = self.profiles@.map_values(|p: ApiProfilePayload| profile_json(p, order));
        let mut i: usize = 0;
        while i < self.profiles.len()
            invariant
                i <= self.profiles@.len(),
                want == self.profiles@.map_values(|p: ApiProfilePayload| profile_json(p, order)),
                views(profiles@) == want.take(i as int),
            decreases self.profiles@.len() - i,
        {
            let ghost before = views(profiles@);
            let profile = self.profiles[i].to_json(order);
            let ghost added = profile@;
            profiles.push(profile);
            assert(views(profiles@) =~= before.push(added));
            i += 1;
            assert(want.take(i as int) =~= want.take(i as int - 1).push(want[i as int - 1]));
        }
        assert(want.take(i as int) =~= want);
        let members: Vec<(&'static str, String)> = vec![
            ("apiVersion", text::decimal_of(self.api_version as u64)),
            ("appVersion", json::write_string(self.app_version)),
            ("isRunning", json::write_bool(self.is_running)),
            ("currentFrame", json::write_opt_i32(self.current_frame)),
            ("totalFramesInCycle", text::decimal_of_int(self.total_frames_in_cycle as i64)),
            ("totalElapsedFrames", text::decimal_of_int(self.total_elapsed_frames as i64)),
            ("activeProfile", json::write_opt_string(&self.active_profile)),
            ("frameId", json::write_opt_u64(self.frame_id)),
            ("sampleIndex", text::decimal_of(self.sample_index)),
            ("droppedSincePrevious", text::decimal_of(self.dropped_since_previous)),
            ("rawPixelWidth", json::write_opt_i32(self.raw_pixel_width)),
            ("costIsNegative", json::write_bool(self.cost_is_negative)),
            ("battleState", json::write_opt_string(&self.battle_state)),
            ("captureWidth", json::write_opt_u32(self.capture_width)),
            ("captureHeight", json::write_opt_u32(self.capture_height)),
            ("captureFormat", json::write_opt_string(&self.capture_format)),
            ("captureTimestampNs", json::write_opt_u64(self.capture_timestamp_ns)),
            ("captureDurationUs", json::write_opt_u64(self.capture_duration_us)),
            ("cursorBlocked", json::write_bool(self.cursor_blocked)),
            ("displayMode", json::write_string(self.display_mode)),
            ("displayFrame", json::write_string(&self.display_frame)),
            ("displayTotal", json::write_string(&self.display_total)),
            ("time", json::write_string(&self.time)),
            ("lapFrames", json::write_opt_i32(self.lap_frames)),
            ("canUndoReset", json::write_bool(self.can_undo_reset)),
            ("profiles", json::write_array(&profiles)),
            ("historyOldestFrameId", json::write_opt_u64(self.history_oldest_frame_id)),
            ("historyLatestFrameId", json::write_opt_u64(self.history_latest_frame_id)),
            ("timingDebug", TimingDebugPayload::opt_to_json(&self.timing_debug, order)),
        ];
        assert(member_views(members@) =~= payload_members(*self, order));
        json::write_members(order, &members)
    }
}

/// A snapshot in JSON.
pub open spec fn payload_json(p: ApiPayload, order: MemberOrder) -> Seq<char> {
    members_text(order, payload_members(p, order))
}

/// The members of a snapshot in JSON.
pub open spec fn payload_members(p: ApiPayload, order: MemberOrder) -> Seq<(Seq<char>, Seq<char>)> {
    seq![
        ("apiVersion"@, decimal(p.api_version as nat)),
        ("appVersion"@, string_text(p.app_version@)),
        ("isRunning"@, bool_text(p.is_running)),
        ("currentFrame"@, opt_int_text(int_of_i32(p.current_frame))),
        ("totalFramesInCycle"@, decimal_int(p.total_frames_in_cycle as int)),
        ("totalElapsedFrames"@, decimal_int(p.total_elapsed_frames as int)),
        ("activeProfile"@, opt_string_text(opt_view(p.active_profile))),
        ("frameId"@, opt_int_text(int_of_u64(p.frame_id))),
        ("sampleIndex"@, decimal(p.sample_index as nat)),
        ("droppedSincePrevious"@, decimal(p.dropped_since_previous as nat)),
        ("rawPixelWidth"@, opt_int_text(int_of_i32(p.raw_pixel_width))),
        ("costIsNegative"@, bool_text(p.cost_is_negative)),
        ("battleState"@, opt_string_text(opt_view(p.battle_state))),
        ("captureWidth"@, opt_int_text(int_of_u32(p.capture_width))),
        ("captureHeight"@, opt_int_text(int_of_u32(p.capture_height))),
        ("captureFormat"@, opt_string_text(opt_view(p.capture_format))),
        ("captureTimestampNs"@, opt_int_text(int_of_u64(p.capture_timestamp_ns))),
        ("captureDurationUs"@, opt_int_text(int_of_u64(p.capture_duration_us))),
        ("cursorBlocked"@, bool_text(p.cursor_blocked)),
        ("displayMode"@, string_text(p.display_mode@)),
        ("displayFrame"@, string_text(p.display_frame@)),
        ("displayTotal"@, string_text(p.display_total@)),
        ("time"@, string_text(p.time@)),
        ("lapFrames"@, opt_int_text(int_of_i32(p.lap_frames))),
        ("canUndoReset"@, bool_text(p.can_undo_reset)),
        (
            "profiles"@,
            array_text(p.profiles@.map_values(|profile: ApiProfilePayload| profile_json(profile, order))),
        ),
        ("historyOldestFrameId"@, opt_int_text(int_of_u64(p.history_oldest_frame_id))),
        ("historyLatestFrameId"@, opt_int_text(int_of_u64(p.history_latest_frame_id))),
        ("timingDebug"@, opt_debug_json(p.timing_debug, order)),
    ]
}

/// `payload` tells of the frame in `record`.
pub open spec fn frame_payload(record: ApiFrameRecord) -> ApiFramePayload {
    ApiFramePayload {
        frame_id: record.frame_id,
        sample_index: record.sample_index,
        dropped_since_previous: record.dropped_since_previous,
        is_running: record.is_running,
        current_frame: record.current_frame,
        total_frames_in_cycle: record.total_frames_in_cycle,
        total_elapsed_frames: record.total_elapsed_frames,
        active_profile: record.active_profile,
        raw_pixel_width: record.raw_pixel_width,
        cost_is_negative: record.cost_is_negative,
        battle_state: record.battle_state,
        capture_width: record.capture_width,
        capture_height: record.capture_height,
        capture_format: record.capture_format,
        capture_timestamp_ns: record.capture_timestamp_ns,
        capture_duration_us: record.capture_duration_us,
        timing_debug: opt_debug_payload(record.timing_debug),
    }
}

/// A frame in JSON.
pub open spec fn frame_json(p: ApiFramePayload, order: MemberOrder) -> Seq<char> {
    members_text(order, frame_members(p, order))
}

/// The members of a frame in JSON.
pub open spec fn frame_members(p: ApiFramePayload, order: MemberOrder) -> Seq<(Seq<char>, Seq<char>)> {
    seq![
        ("frameId"@, decimal(p.frame_id as nat)),
        ("sampleIndex"@, decimal(p.sample_index as nat)),
        ("droppedSincePrevious"@, decimal(p.dropped_since_previous as nat)),
        ("isRunning"@, bool_text(p.is_running)),
        ("currentFrame"@, opt_int_text(int_of_i32(p.current_frame))),
        ("totalFramesInCycle"@, decimal_int(p.total_frames_in_cycle as int)),
        ("totalElapsedFrames"@, decimal_int(p.total_elapsed_frames as int)),
        ("activeProfile"@, opt_string_text(opt_view(p.active_profile))),
        ("rawPixelWidth"@, opt_int_text(int_of_i32(p.raw_pixel_width))),
        ("costIsNegative"@, bool_text(p.cost_is_negative)),
        ("battleState"@, string_text(p.battle_state@)),
        ("captureWidth"@, decimal(p.capture_width as nat)),
        ("captureHeight"@, decimal(p.capture_height as nat)),
        ("captureFormat"@, string_text(p.capture_format@)),
        ("captureTimestampNs"@, decimal(p.capture_timestamp_ns as nat)),
        ("captureDurationUs"@, decimal(p.capture_duration_us as nat)),
        ("timingDebug"@, opt_debug_json(p.timing_debug, order)),
    ]
}

impl ApiFramePayload {
    #[must_use]
    pub fn from_record(record: &ApiFrameRecord) -> (payload: Self)
        ensures
            payload == frame_payload(*record),
    {
        ApiFramePayload {
            frame_id: record.frame_id,
            sample_index: record.sample_index,
            dropped_since_previous: record.dropped_since_previous,
            is_running: record.is_running,
            current_frame: record.current_frame,
            total_frames_in_cycle: record.total_frames_in_cycle,
            total_elapsed_frames: record.total_elapsed_frames,
            active_profile: text::copy_opt(&record.active_profile),
            raw_pixel_width: record.raw_pixel_width,
            cost_is_negative: record.cost_is_negative,
            battle_state: record.battle_state.clone(),
            capture_width: record.capture_width,
            capture_height: record.capture_height,
            capture_format: record.capture_format.clone(),
            capture_timestamp_ns: record.capture_timestamp_ns,
            capture_duration_us: record.capture_duration_us,
            timing_debug: TimingDebugPayload::from_opt(record.timing_debug),
        }
    }

    /// The frame as JSON.
    pub fn to_json(&self, order: MemberOrder) -> (json: String)
        ensures
            json@ == frame_json(*self, order),
    {
        let members: Vec<(&'static str, String)> = vec![
            ("frameId", text::decimal_of(self.frame_id)),
            ("sampleIndex", text::decimal_of(self.sample_index)),
            ("droppedSincePrevious", text::decimal_of(self.dropped_since_previous)),
            ("isRunning", json::write_bool(self.is_running)),
            ("currentFrame", json::write_opt_i32(self.current_frame)),
            ("totalFramesInCycle", text::decimal_of_int(self.total_frames_in_cycle as i64)),
            ("totalElapsedFrames", text::decimal_of_int(self.total_elapsed_frames as i64)),
            ("activeProfile", json::write_opt_string(&self.active_profile)),
            ("rawPixelWidth", json::write_opt_i32(self.raw_pixel_width)),
            ("costIsNegative", json::write_bool(self.cost_is_negative)),
            ("battleState", json::write_string(&self.battle_state)),
            ("captureWidth", text::decimal_of(self.capture_width as u64)),
            ("captureHeight", text::decimal_of(self.capture_height as u64)),
            ("captureFormat", json::write_string(&self.capture_format)),
            ("captureTimestampNs", text::decimal_of(self.capture_timestamp_ns)),
            ("captureDurationUs", text::decimal_of(self.capture_duration_us)),
            ("timingDebug", TimingDebugPayload::opt_to_json(&self.timing_debug, order)),
        ];
        assert(member_views(members@) =~= frame_members(*self, order));
        json::write_members(order, &members)
    }
}

pub open spec fn debug_members(p: TimingDebugPayload) -> Seq<(Seq<char>, Seq<char>)> {
    seq![
        ("requiredFp"@, decimal_int(p.required_fp as int)),
        ("speedFp"@, decimal_int(p.speed_fp as int)),
        ("accumulatorFp"@, decimal_int(p.accumulator_fp as int)),
        ("advancedFrames"@, decimal_int(p.advanced_frames as int)),
        ("framesSinceCycleStart"@, decimal_int(p.frames_since_cycle_start as int)),
        ("framesUntilNextCost"@, decimal_int(p.frames_until_next_cost as int)),
        ("matchErrorPx"@, decimal_int(p.match_error_px as int)),
        ("boundaryCorrected"@, bool_text(p.boundary_corrected)),
    ]
}

pub open spec fn opt_debug_json(p: Option<TimingDebugPayload>, order: MemberOrder) -> Seq<char> {
    match p {
        Some(p) => members_text(order, debug_members(p)),
        None => "null"@,
    }
}

impl TimingDebugPayload {
    fn from_debug(debug: TimingDebug) -> (payload: Self)
        ensures
            payload == debug_payload(debug),
    {
        TimingDebugPayload {
            required_fp: debug.required_fp,
            speed_fp: debug.speed_fp,
            accumulator_fp: debug.accumulator_fp,
            advanced_frames: debug.advanced_frames,
            frames_since_cycle_start: debug.frames_since_cycle_start,
            frames_until_next_cost: debug.frames_until_next_cost,
            match_error_px: debug.match_error_px,
            boundary_corrected: debug.boundary_corrected,
        }
    }

    fn from_opt(debug: Option<TimingDebug>) -> (payload: Option<Self>)
        ensures
            payload == opt_debug_payload(debug),
    {
        match debug {
            Some(debug) => Some(Self::from_debug(debug)),
            None => None,
        }
    }

    fn opt_to_json(payload: &Option<Self>, order: MemberOrder) -> (json: String)
        ensures
            json@ == opt_debug_json(*payload, order),
    {
        match payload {
            Some(p) => {
                let members: Vec<(&'static str, String)> = vec![
                    ("requiredFp", text::decimal_of_int(p.required_fp)),
                    ("speedFp", text::decimal_of_int(p.speed_fp)),
                    ("accumulatorFp", text::decimal_of_int(p.accumulator_fp)),
                    ("advancedFrames", text::decimal_of_int(p.advanced_frames as i64)),
                    ("framesSinceCycleStart", text::decimal_of_int(p.frames_since_cycle_start as i64)),
                    ("framesUntilNextCost", text::decimal_of_int(p.frames_until_next_cost as i64)),
                    ("matchErrorPx", text::decimal_of_int(p.match_error_px as i64)),
                    ("boundaryCorrected", json::write_bool(p.boundary_corrected)),
                ];
                assert(member_views(members@) =~= debug_members(*p));
                json::write_members(order, &members)
            },
            None => "null".to_owned(),
        }
    }
}

pub open spec fn profile_members(p: ApiProfilePayload) -> Seq<(Seq<char>, Seq<char>)> {
    seq![
        ("filename"@, string_text(p.filename@)),
        ("basename"@, string_text(p.basename@)),
        ("totalFrames"@, string_text(p.total_frames@)),
        ("resolution"@, string_text(p.resolution@)),
        ("isActive"@, bool_text(p.is_active)),
    ]
}

pub open spec fn profile_json(p: ApiProfilePayload, order: MemberOrder) -> Seq<char> {
    members_text(order, profile_members(p))
}

impl ApiProfilePayload {
    fn from_profile(profile: &ProfileMenuItem) -> (payload: Self)
        ensures
            payload == profile_payload(*profile),
    {
        ApiProfilePayload {
            filename: profile.filename.clone(),
            basename: profile.basename.clone(),
            total_frames: profile.total_frames_str.clone(),
            resolution: profile.resolution.clone(),
            is_active: profile.is_active,
        }
    }

    fn to_json(&self, order: MemberOrder) -> (json: String)
        ensures
            json@ == profile_json(*self, order),
    {
        let members: Vec<(&'static str, String)> = vec![
            ("filename", json::write_string(&self.filename)),
            ("basename", json::write_string(&self.basename)),
            ("totalFrames", json::write_string(&self.total_frames)),
            ("resolution", json::write_string(&self.resolution)),
            ("isActive", json::write_bool(self.is_active)),
        ];
        assert(member_views(members@) =~= profile_members(*self));
        json::write_members(order, &members)
    }
}

/// The members tell of the frame in `record`: under each name stands what the record has under that
/// name.
pub open spec fn members_tell_record(
    members: Seq<(Seq<char>, Seq<char>)>,
    record: ApiFrameRecord,
) -> bool {
    &&& members.contains(("frameId"@, decimal_int(record.frame_id as int)))
    &&& members.contains(("sampleIndex"@, decimal_int(record.sample_index as int)))
    &&& members.contains(
        ("droppedSincePrevious"@, decimal_int(record.dropped_since_previous as int)),
    )
    &&& members.contains(("isRunning"@, bool_text(record.is_running)))
    &&& members.contains(("currentFrame"@, opt_int_text(int_of_i32(record.current_frame))))
    &&& members.contains(("totalFramesInCycle"@, decimal_int(record.total_frames_in_cycle as int)))
    &&& members.contains(("totalElapsedFrames"@, decimal_int(record.total_elapsed_frames as int)))
    &&& members.contains(("activeProfile"@, opt_string_text(opt_view(record.active_profile))))
    &&& members.contains(("rawPixelWidth"@, opt_int_text(int_of_i32(record.raw_pixel_width))))
    &&& members.contains(("costIsNegative"@, bool_text(record.cost_is_negative)))
    &&& members.contains(("battleState"@, string_text(record.battle_state@)))
    &&& members.contains(("captureWidth"@, decimal_int(record.capture_width as int)))
    &&& members.contains(("captureHeight"@, decimal_int(record.capture_height as int)))
    &&& members.contains(("captureFormat"@, string_text(record.capture_format@)))
    &&& members.contains(("captureTimestampNs"@, decimal_int(record.capture_timestamp_ns as int)))
    &&& members.contains(("captureDurationUs"@, decimal_int(record.capture_duration_us as int)))
    &&& record.timing_debug is None ==> members.contains(("timingDebug"@, "null"@))
}

/// The members tell of a frame's timing diagnostics, each number under its name.
pub open spec fn members_tell_debug(
    members: Seq<(Seq<char>, Seq<char>)>,
    debug: TimingDebug,
) -> bool {
    &&& members.contains(("requiredFp"@, decimal_int(debug.required_fp as int)))
    &&& members.contains(("speedFp"@, decimal_int(debug.speed_fp as int)))
    &&& members.contains(("accumulatorFp"@, decimal_int(debug.accumulator_fp as int)))
    &&& members.contains(("advancedFrames"@, decimal_int(debug.advanced_frames as int)))
    &&& members.contains(
        ("framesSinceCycleStart"@, decimal_int(debug.frames_since_cycle_start as int)),
    )
    &&& members.contains(("framesUntilNextCost"@, decimal_int(debug.frames_until_next_cost as int)))
    &&& members.contains(("matchErrorPx"@, decimal_int(debug.match_error_px as int)))
    &&& members.contains(("boundaryCorrected"@, bool_text(debug.boundary_corrected)))
}

/// A frame is told as it was recorded: under each name stands what the record has under it.
pub proof fn law_frame_is_told_as_recorded(record: ApiFrameRecord, order: MemberOrder)
    ensures
        members_tell_record(frame_members(frame_payload(record), order), record),
{
    let m = frame_members(frame_payload(record), order);
    assert(m[0] == ("frameId"@, decimal_int(record.frame_id as int)));
    assert(m[1] == ("sampleIndex"@, decimal_int(record.sample_index as int)));
    assert(m[2] == ("droppedSincePrevious"@, decimal_int(record.dropped_since_previous as int)));
    assert(m[3] == ("isRunning"@, bool_text(record.is_running)));
    assert(m[4] == ("currentFrame"@, opt_int_text(int_of_i32(record.current_frame))));
    assert(m[5] == ("totalFramesInCycle"@, decimal_int(record.total_frames_in_cycle as int)));
    assert(m[6] == ("totalElapsedFrames"@, decimal_int(record.total_elapsed_frames as int)));
    assert(m[7] == ("activeProfile"@, opt_string_text(opt_view(record.active_profile))));
    assert(m[8] == ("rawPixelWidth"@, opt_int_text(int_of_i32(record.raw_pixel_width))));
    assert(m[9] == ("costIsNegative"@, bool_text(record.cost_is_negative)));
    assert(m[10] == ("battleState"@, string_text(record.battle_state@)));
    assert(m[11] == ("captureWidth"@, decimal_int(record.capture_width as int)));
    assert(m[12] == ("captureHeight"@, decimal_int(record.capture_height as int)));
    assert(m[13] == ("captureFormat"@, string_text(record.capture_format@)));
    assert(m[14] == ("captureTimestampNs"@, decimal_int(record.capture_timestamp_ns as int)));
    assert(m[15] == ("captureDurationUs"@, decimal_int(record.capture_duration_us as int)));
    assert(m[16] == ("timingDebug"@, opt_debug_json(opt_debug_payload(record.timing_debug), order)));
}

/// The timing diagnostics of a frame are told number by number, each under its name.
pub proof fn law_debug_is_told_as_recorded(debug: TimingDebug, order: MemberOrder)
    ensures
        members_tell_debug(debug_members(debug_payload(debug)), debug),
        opt_debug_json(opt_debug_payload(Some(debug)), order) == members_text(
            order,
            debug_members(debug_payload(debug)),
        ),
        opt_debug_json(opt_debug_payload(None), order) == "null"@,
{
    let m = debug_members(debug_payload(debug));
    assert(m[0] == ("requiredFp"@, decimal_int(debug.required_fp as int)));
    assert(m[1] == ("speedFp"@, decimal_int(debug.speed_fp as int)));
    assert(m[2] == ("accumulatorFp"@, decimal_int(debug.accumulator_fp as int)));
    assert(m[3] == ("advancedFrames"@, decimal_int(debug.advanced_frames as int)));
    assert(m[4] == ("framesSinceCycleStart"@, decimal_int(debug.frames_since_cycle_start as int)));
    assert(m[5] == ("framesUntilNextCost"@, decimal_int(debug.frames_until_next_cost as int)));
    assert(m[6] == ("matchErrorPx"@, decimal_int(debug.match_error_px as int)));
    assert(m[7] == ("boundaryCorrected"@, bool_text(debug.boundary_corrected)));
}

/// The snapshot taken while a frame is the current one and the answer to a request for that frame
/// agree in everything that both tell; the length of the cycle is told in the snapshot only while
/// the cycle runs.
pub proof fn law_snapshot_and_frame_agree(
    payload: ApiPayload,
    snapshot: AppStateSnapshot,
    bounds: ApiHistoryBounds,
    record: ApiFrameRecord,
)
    requires
        tells(payload, snapshot, bounds),
        snapshot.api == api_of_record(record),
    ensures
        ({
            let frame = frame_payload(record);
            &&& payload.frame_id == Some(frame.frame_id)
            &&& payload.sample_index == frame.sample_index
            &&& payload.dropped_since_previous == frame.dropped_since_previous
            &&& payload.is_running == frame.is_running
            &&& payload.current_frame == frame.current_frame
            &&& frame.is_running ==> payload.total_frames_in_cycle == frame.total_frames_in_cycle
            &&& !frame.is_running ==> payload.total_frames_in_cycle == 0
            &&& payload.total_elapsed_frames == frame.total_elapsed_frames
            &&& payload.active_profile == frame.active_profile
            &&& payload.raw_pixel_width == frame.raw_pixel_width
            &&& payload.cost_is_negative == frame.cost_is_negative
            &&& payload.battle_state == Some(frame.battle_state)
            &&& payload.capture_width == Some(frame.capture_width)
            &&& payload.capture_height == Some(frame.capture_height)
            &&& payload.capture_format == Some(frame.capture_format)
            &&& payload.capture_timestamp_ns == Some(frame.capture_timestamp_ns)
            &&& payload.capture_duration_us == Some(frame.capture_duration_us)
            &&& payload.timing_debug == frame.timing_debug
        }),
{
}

/// The members tell of what is shown and shared: under each name stands what the snapshot has under
/// it.
pub open spec fn members_tell_snapshot(
    members: Seq<(Seq<char>, Seq<char>)>,
    snapshot: AppStateSnapshot,
    bounds: ApiHistoryBounds,
) -> bool {
    let api = snapshot.api;
    let ui = snapshot.ui;
    &&& members.contains(("apiVersion"@, decimal_int(2)))
    &&& members.contains(("appVersion"@, string_text(VERSION@)))
    &&& members.contains(("isRunning"@, bool_text(api.is_running)))
    &&& members.contains(("currentFrame"@, opt_int_text(int_of_i32(api.current_frame))))
    &&& members.contains(("totalFramesInCycle"@, decimal_int(api.total_frames_in_cycle as int)))
    &&& members.contains(("totalElapsedFrames"@, decimal_int(api.total_elapsed_frames as int)))
    &&& members.contains(("activeProfile"@, opt_string_text(opt_view(api.active_profile))))
    &&& members.contains(("frameId"@, opt_int_text(int_of_u64(api.frame_id))))
    &&& members.contains(("sampleIndex"@, decimal_int(api.sample_index as int)))
    &&& members.contains(("droppedSincePrevious"@, decimal_int(api.dropped_since_previous as int)))
    &&& members.contains(("rawPixelWidth"@, opt_int_text(int_of_i32(api.raw_pixel_width))))
    &&& members.contains(("costIsNegative"@, bool_text(api.cost_is_negative)))
    &&& members.contains(("battleState"@, opt_string_text(opt_view(api.battle_state))))
    &&& members.contains(("captureWidth"@, opt_int_text(int_of_u32(api.capture_width))))
    &&& members.contains(("captureHeight"@, opt_int_text(int_of_u32(api.capture_height))))
    &&& members.contains(("captureFormat"@, opt_string_text(opt_view(api.capture_format))))
    &&& members.contains(("captureTimestampNs"@, opt_int_text(int_of_u64(api.capture_timestamp_ns))))
    &&& members.contains(("captureDurationUs"@, opt_int_text(int_of_u64(api.capture_duration_us))))
    &&& members.contains(("cursorBlocked"@, bool_text(ui.cursor_blocked)))
    &&& members.contains(("displayMode"@, string_text(mode_name(ui.display_mode))))
    &&& members.contains(("displayFrame"@, string_text(ui.display_frame@)))
    &&& members.contains(("displayTotal"@, string_text(ui.display_total@)))
    &&& members.contains(("time"@, string_text(ui.time_str@)))
    &&& members.contains(("lapFrames"@, opt_int_text(int_of_i32(ui.lap_frames))))
    &&& members.contains(("canUndoReset"@, bool_text(ui.can_undo_reset)))
    &&& members.contains(("historyOldestFrameId"@, opt_int_text(int_of_u64(bounds.oldest_frame_id))))
    &&& members.contains(("historyLatestFrameId"@, opt_int_text(int_of_u64(bounds.latest_frame_id))))
    &&& api.timing_debug is None ==> members.contains(("timingDebug"@, "null"@))
}

/// A snapshot is told as it is: under each name stands what the snapshot has under it.
#[verifier::rlimit(30)]
pub proof fn law_snapshot_is_told_as_it_is(
    payload: ApiPayload,
    snapshot: AppStateSnapshot,
    bounds: ApiHistoryBounds,
    order: MemberOrder,
)
    requires
        tells(payload, snapshot, bounds),
    ensures
        members_tell_snapshot(payload_members(payload, order), snapshot, bounds),
{
    let api = snapshot.api;
    let ui = snapshot.ui;
    let m = payload_members(payload, order);
    assert(m[0] == ("apiVersion"@, decimal_int(2)));
    assert(m[1] == ("appVersion"@, string_text(VERSION@)));
    assert(m[2] == ("isRunning"@, bool_text(api.is_running)));
    assert(m[3] == ("currentFrame"@, opt_int_text(int_of_i32(api.current_frame))));
    assert(m[4] == ("totalFramesInCycle"@, decimal_int(api.total_frames_in_cycle as int)));
    assert(m[5] == ("totalElapsedFrames"@, decimal_int(api.total_elapsed_frames as int)));
    assert(m[6] == ("activeProfile"@, opt_string_text(opt_view(api.active_profile))));
    assert(m[7] == ("frameId"@, opt_int_text(int_of_u64(api.frame_id))));
    assert(m[8] == ("sampleIndex"@, decimal_int(api.sample_index as int)));
    assert(m[9] == ("droppedSincePrevious"@, decimal_int(api.dropped_since_previous as int)));
    assert(m[10] == ("rawPixelWidth"@, opt_int_text(int_of_i32(api.raw_pixel_width))));
    assert(m[11] == ("costIsNegative"@, bool_text(api.cost_is_negative)));
    assert(m[12] == ("battleState"@, opt_string_text(opt_view(api.battle_state))));
    assert(m[13] == ("captureWidth"@, opt_int_text(int_of_u32(api.capture_width))));
    assert(m[14] == ("captureHeight"@, opt_int_text(int_of_u32(api.capture_height))));
    assert(m[15] == ("captureFormat"@, opt_string_text(opt_view(api.capture_format))));
    assert(m[16] == ("captureTimestampNs"@, opt_int_text(int_of_u64(api.capture_timestamp_ns))));
    assert(m[17] == ("captureDurationUs"@, opt_int_text(int_of_u64(api.capture_duration_us))));
    assert(m[18] == ("cursorBlocked"@, bool_text(ui.cursor_blocked)));
    assert(m[19] == ("displayMode"@, string_text(mode_name(ui.display_mode))));
    assert(m[20] == ("displayFrame"@, string_text(ui.display_frame@)));
    assert(m[21] == ("displayTotal"@, string_text(ui.display_total@)));
    assert(m[22] == ("time"@, string_text(ui.time_str@)));
    assert(m[23] == ("lapFrames"@, opt_int_text(int_of_i32(ui.lap_frames))));
    assert(m[24] == ("canUndoReset"@, bool_text(ui.can_undo_reset)));
    assert(m[26] == ("historyOldestFrameId"@, opt_int_text(int_of_u64(bounds.oldest_frame_id))));
    assert(m[27] == ("historyLatestFrameId"@, opt_int_text(int_of_u64(bounds.latest_frame_id))));
    assert(m[28] == ("timingDebug"@, opt_debug_json(opt_debug_payload(api.timing_debug), order)));
}

/// The profiles are told in the order of the menu, each with its file, its name, its length, its
/// resolution and whether it is in use.
pub proof fn law_profiles_are_told_as_listed(
    payload: ApiPayload,
    snapshot: AppStateSnapshot,
    bounds: ApiHistoryBounds,
    i: int,
)
    requires
        tells(payload, snapshot, bounds),
        0 <= i < snapshot.ui.profiles@.len(),
    ensures
        payload.profiles@.len() == snapshot.ui.profiles@.len(),
        ({
            let profile = snapshot.ui.profiles@[i];
            let members = profile_members(payload.profiles@[i]);
            &&& members.contains(("filename"@, string_text(profile.filename@)))
            &&& members.contains(("basename"@, string_text(profile.basename@)))
            &&& members.contains(("totalFrames"@, string_text(profile.total_frames_str@)))
            &&& members.contains(("resolution"@, string_text(profile.resolution@)))
            &&& members.contains(("isActive"@, bool_text(profile.is_active)))
        }),
{
    let profile = snapshot.ui.profiles@[i];
    let members = profile_members(payload.profiles@[i]);
    assert(members[0] == ("filename"@, string_text(profile.filename@)));
    assert(members[1] == ("basename"@, string_text(profile.basename@)));
    assert(members[2] == ("totalFrames"@, string_text(profile.total_frames_str@)));
    assert(members[3] == ("resolution"@, string_text(profile.resolution@)));
    assert(members[4] == ("isActive"@, bool_text(profile.is_active)));
}

} // verus!
