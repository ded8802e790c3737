//! The state that the worker, the analyzer, the overlay and the API share.
use crate::config::RulerConfig;
use crate::number::{percent_of, scale_percent};
use crate::profiles;
use crate::profiles::base_of;
use crate::text::{contains_text, opt_view, stands_at, starts_with};
use crate::ui_state::{
    initial_api_state, is_initial_ui, mode_from_config, same_ui, ApiFrameLookup, ApiFrameRecord,
    ApiHistoryBounds, ApiStateSnapshot, FrameDisplayMode, OverlayMode, UiSnapshot, UpdateNotice,
};
use std::collections::VecDeque;
use vstd::prelude::*;

verus! {

/// `std::time::Instant`: a moment, which the library only hands on.
#[verifier::external_type_specification]
#[verifier::external_body]
pub struct ExInstant(std::time::Instant);

#[derive(Clone, Copy, Debug)]
pub struct WorkerTimingSnapshot {
    pub sample_index: u64,
}

#[derive(Clone, Copy, Debug)]
pub struct OverlayTimingSnapshot {
    pub last_painted_sample_index: Option<u64>,
    pub last_painted_at: Option<std::time::Instant>,
}

/// Everything that is shown at one moment.
#[derive(Debug)]
pub struct AppStateSnapshot {
    pub ui: UiSnapshot,
    pub api: ApiStateSnapshot,
    pub worker_timing: WorkerTimingSnapshot,
    pub overlay_timing: OverlayTimingSnapshot,
}

/// Two snapshots that show the same.
pub open spec fn same_snapshot(a: AppStateSnapshot, b: AppStateSnapshot) -> bool {
    &&& same_ui(a.ui, b.ui)
    &&& a.api == b.api
    &&& a.worker_timing == b.worker_timing
    &&& a.overlay_timing == b.overlay_timing
}

impl Clone for AppStateSnapshot {
    fn clone(&self) -> (copy: Self)
        ensures
            same_snapshot(copy, *self),
    {
        AppStateSnapshot {
            ui: self.ui.clone(),
            api: self.api.clone(),
            worker_timing: self.worker_timing,
            overlay_timing: self.overlay_timing,
        }
    }
}

/// The shared state. It counts in `wakes` how often the overlay was asked to look at it again.
#[derive(Debug)]
pub struct SharedAppState {
    pub inner: AppStateSnapshot,
    /// The analyzed frames since the timer last started over, the oldest first.
    pub api_history: VecDeque<ApiFrameRecord>,
    /// The user has asked to stop the calibration that runs. Read and cleared at once.
    pub cancel_calibration: bool,
    pub wakes: u64,
}

/// Only what is shown has changed, and the overlay was asked once to look at it.
pub open spec fn shown_anew(before: SharedAppState, after: SharedAppState) -> bool {
    after == SharedAppState {
        inner: AppStateSnapshot { ui: after.inner.ui, api: after.inner.api, ..before.inner },
        wakes: before.wakes.wrapping_add(1),
        ..before
    }
}

/// The last record of `history` whose frame is not after the requested one.
pub open spec fn record_at_or_before(history: Seq<ApiFrameRecord>, frame_id: u64) -> Option<
    ApiFrameRecord,
>
    decreases history.len(),
{
    if history.len() == 0 {
        None
    } else if history.last().frame_id <= frame_id {
        Some(history.last())
    } else {
        record_at_or_before(history.drop_last(), frame_id)
    }
}

/// Why another frame than the requested one is given: it lies after the latest, or was skipped.
pub open spec fn fallback_reason(history: Seq<ApiFrameRecord>, frame_id: u64) -> Seq<char> {
    if history.len() > 0 && frame_id > history.last().frame_id {
        "requested_after_latest"@
    } else {
        "frame_skipped"@
    }
}

/// `lookup` answers a request for `frame_id`.
pub open spec fn answers(
    lookup: ApiFrameLookup,
    history: Seq<ApiFrameRecord>,
    frame_id: u64,
) -> bool {
    match lookup {
        ApiFrameLookup::Found { requested_frame_id, record, fell_back, fallback_reason } => {
            &&& record_at_or_before(history, frame_id) == Some(record)
            &&& requested_frame_id == frame_id
            &&& fell_back == (record.frame_id != frame_id)
            &&& opt_view(fallback_reason) == if fell_back {
                Some(self::fallback_reason(history, frame_id))
            } else {
                None
            }
        },
        ApiFrameLookup::NotRetained { requested_frame_id } => {
            &&& record_at_or_before(history, frame_id) is None
            &&& requested_frame_id == frame_id
        },
    }
}

pub open spec fn bounds_of(history: Seq<ApiFrameRecord>) -> ApiHistoryBounds {
    if history.len() == 0 {
        ApiHistoryBounds { oldest_frame_id: None, latest_frame_id: None }
    } else {
        ApiHistoryBounds {
            oldest_frame_id: Some(history[0].frame_id),
            latest_frame_id: Some(history.last().frame_id),
        }
    }
}

impl Default for SharedAppState {
    fn default() -> (state: Self)
        ensures
            is_initial_ui(state.inner.ui),
            state.inner.api == initial_api_state(),
            state.inner.worker_timing.sample_index == 0,
            state.inner.overlay_timing.last_painted_sample_index is None,
            state.inner.overlay_timing.last_painted_at is None,
            state.api_history@.len() == 0,
            !state.cancel_calibration,
            state.wakes == 0,
    {
        SharedAppState {
            inner: AppStateSnapshot {
                ui: UiSnapshot::default(),
                api: ApiStateSnapshot::default(),
                worker_timing: WorkerTimingSnapshot { sample_index: 0 },
                overlay_timing: OverlayTimingSnapshot {
                    last_painted_sample_index: None,
                    last_painted_at: None,
                },
            },
            api_history: VecDeque::new(),
            cancel_calibration: false,
            wakes: 0,
        }
    }
}

/// The configured scale of the overlay in percent.
pub open spec fn configured_percent(config: Option<RulerConfig>) -> int {
    match config {
        Some(config) => match config.overlay_scale {
            Some(scale) => percent_of(scale),
            None => 100,
        },
        None => 100,
    }
}

/// What the configuration says of the profile in use, as the API shows it.
pub open spec fn configured_profile(config: Option<RulerConfig>) -> Option<Seq<char>> {
    match config {
        Some(config) => match config.active_calibration_profile {
            Some(filename) => Some(base_of(filename@)),
            None => None,
        },
        None => None,
    }
}

/// The frame is on record, behind those before it.
pub open spec fn is_recorded(
    before: SharedAppState,
    record: ApiFrameRecord,
    after: SharedAppState,
) -> bool {
    &&& after.api_history@ == before.api_history@.push(record)
    &&& after == (SharedAppState { api_history: after.api_history, ..before })
}

/// No frame is on record any more.
pub open spec fn is_forgotten(before: SharedAppState, after: SharedAppState) -> bool {
    &&& after.api_history@ == Seq::<ApiFrameRecord>::empty()
    &&& after == (SharedAppState { api_history: after.api_history, ..before })
}

/// It is shown how starting went.
pub open spec fn shows_startup(
    before: SharedAppState,
    startup: StartupStatus,
    after: SharedAppState,
) -> bool {
    &&& shown_anew(before, after)
    &&& after.inner.ui == (UiSnapshot {
        mode: if startup.loaded_config is Some {
            OverlayMode::Booting
        } else {
            OverlayMode::Error
        },
        message: after.inner.ui.message,
        display_mode: match startup.loaded_config {
            Some(config) => mode_from_config(opt_view(config.frame_display_mode)),
            None => FrameDisplayMode::ZeroToNMinusOne,
        },
        overlay_scale_pct: configured_percent(startup.loaded_config) as u16,
        cursor_blocked: false,
        ..before.inner.ui
    })
    &&& after.inner.ui.message@ == startup.phase@ + ": "@ + startup.detail@ + " ("@
        + startup.config_path@ + ")"@
    &&& after.inner.api == (ApiStateSnapshot {
        active_profile: after.inner.api.active_profile,
        ..before.inner.api
    })
    &&& opt_view(after.inner.api.active_profile) == configured_profile(startup.loaded_config)
}

/// The overlay is asked to close.
pub open spec fn asks_to_exit(before: SharedAppState, after: SharedAppState) -> bool {
    &&& shown_anew(before, after)
    &&& after.inner.ui == (UiSnapshot { should_exit: true, ..before.inner.ui })
    &&& after.inner.api == before.inner.api
}

/// It is shown what is known of a newer version.
pub open spec fn shows_notice(
    before: SharedAppState,
    notice: Option<UpdateNotice>,
    after: SharedAppState,
) -> bool {
    &&& shown_anew(before, after)
    &&& after.inner.ui == (UiSnapshot { update_notice: notice, ..before.inner.ui })
    &&& after.inner.api == before.inner.api
}

impl SharedAppState {
    /// The state once it was asked to stop the calibration.
    pub open spec fn asked_to_cancel(self) -> Self {
        SharedAppState { cancel_calibration: true, ..self }
    }

    /// Whether it was asked to stop the calibration, and the state once that is known.
    pub open spec fn request_taken(self) -> (bool, Self) {
        (self.cancel_calibration, SharedAppState { cancel_calibration: false, ..self })
    }

    /// The state with how long the worker took.
    pub open spec fn timed(self, worker_timing: WorkerTimingSnapshot) -> Self {
        SharedAppState {
            inner: AppStateSnapshot { worker_timing: worker_timing, ..self.inner },
            wakes: self.wakes.wrapping_add(1),
            ..self
        }
    }

    /// The state with what was painted last, and when.
    pub open spec fn painted(self, sample_index: u64, painted_at: std::time::Instant) -> Self {
        SharedAppState {
            inner: AppStateSnapshot {
                overlay_timing: OverlayTimingSnapshot {
                    last_painted_sample_index: Some(sample_index),
                    last_painted_at: Some(painted_at),
                },
                ..self.inner
            },
            ..self
        }
    }

    #[must_use]
    pub fn snapshot(&self) -> (snapshot: AppStateSnapshot)
        ensures
            same_snapshot(snapshot, self.inner),
    {
        self.inner.clone()
    }

    /// Asks the overlay to look at the state again.
    pub(crate) fn notify_overlay(&mut self)
        ensures
            *final(self) == (SharedAppState {
                wakes: old(self).wakes.wrapping_add(1),
                ..*old(self)
            }),
    {
        self.wakes = self.wakes.wrapping_add(1);
    }

    #[must_use]
    pub fn api_history_bounds(&self) -> (bounds: ApiHistoryBounds)
        ensures
            bounds == bounds_of(self.api_history@),
    {
        let n: usize = self.api_history.len();
        if n == 0 {
            ApiHistoryBounds { oldest_frame_id: None, latest_frame_id: None }
        } else {
            ApiHistoryBounds {
                oldest_frame_id: Some(self.api_history[0].frame_id),
                latest_frame_id: Some(self.api_history[n - 1].frame_id),
            }
        }
    }

    pub fn record_api_frame(&mut self, record: ApiFrameRecord)
        ensures
            is_recorded(*old(self), record, *final(self)),
    {
        self.api_history.push_back(record);
    }

    pub fn clear_api_frame_history(&mut self)
        ensures
            is_forgotten(*old(self), *final(self)),
    {
        self.api_history.clear();
    }

    #[must_use]
    pub fn api_frame_at_or_before(&self, requested_frame_id: u64) -> (lookup: ApiFrameLookup)
        ensures
            answers(lookup, self.api_history@, requested_frame_id),
    {
        let count: usize = self.api_history.len();
        let mut n: usize = count;
        assert(self.api_history@.take(n as int) =~= self.api_history@);
        while n > 0 && self.api_history[n - 1].frame_id > requested_frame_id
            invariant
                n <= count == self.api_history@.len(),
                record_at_or_before(self.api_history@, requested_frame_id) == record_at_or_before(
                    self.api_history@.take(n as int),
                    requested_frame_id,
                ),
            decreases n,
        {
            assert(self.api_history@.take(n as int).drop_last() =~= self.api_history@.take(
                n as int - 1,
            ));
            n -= 1;
        }
        if n == 0 {
            return ApiFrameLookup::NotRetained { requested_frame_id };
        }
        let record = self.api_history[n - 1].clone();
        let fell_back = record.frame_id != requested_frame_id;
        let fallback_reason = if !fell_back {
            None
        } else if requested_frame_id > self.api_history[count - 1].frame_id {
            Some("requested_after_latest".to_owned())
        } else {
            Some("frame_skipped".to_owned())
        };
        ApiFrameLookup::Found { requested_frame_id, record, fell_back, fallback_reason }
    }

    /// Shows how starting went.
    pub fn update_startup_status(&mut self, startup: &StartupStatus)
        ensures
            shows_startup(*old(self), *startup, *final(self)),
    {
        let mut message = startup.phase.clone();
        message.append(": ");
        message.append(&startup.detail);
        message.append(" (");
        message.append(&startup.config_path);
        message.append(")");
        self.inner.ui.message = message;
        match &startup.loaded_config {
            Some(config) => {
                self.inner.ui.mode = OverlayMode::Booting;
                self.inner.ui.display_mode = match &config.frame_display_mode {
                    Some(name) => FrameDisplayMode::from_config(Some(name.as_str())),
                    None => FrameDisplayMode::from_config(None),
                };
                self.inner.api.active_profile = match &config.active_calibration_profile {
                    Some(filename) => Some(profiles::calibration_basename(filename)),
                    None => None,
                };
            },
            None => {
                self.inner.ui.mode = OverlayMode::Error;
                self.inner.ui.display_mode = FrameDisplayMode::ZeroToNMinusOne;
                self.inner.api.active_profile = None;
            },
        }
        self.inner.ui.overlay_scale_pct = match &startup.loaded_config {
            Some(config) => match config.overlay_scale {
                Some(scale) => scale_percent(scale),
                None => 100,
            },
            None => 100,
        };
        self.inner.ui.cursor_blocked = false;
        self.notify_overlay();
    }

    pub fn update_timing(&mut self, worker_timing: WorkerTimingSnapshot)
        ensures
            *final(self) == old(self).timed(worker_timing),
    {
        self.inner.worker_timing = worker_timing;
        self.notify_overlay();
    }

    pub fn request_exit(&mut self)
        ensures
            asks_to_exit(*old(self), *final(self)),
    {
        self.inner.ui.should_exit = true;
        self.notify_overlay();
    }

    pub fn set_update_notice(&mut self, notice: Option<UpdateNotice>)
        ensures
            shows_notice(*old(self), notice, *final(self)),
    {
        self.inner.ui.update_notice = notice;
        self.notify_overlay();
    }

    /// Asks to stop the calibration that runs. Without one nothing follows from it: the request is
    /// forgotten when the next calibration starts.
    pub fn request_cancel_calibration(&mut self)
        ensures
            *final(self) == old(self).asked_to_cancel(),
    {
        self.cancel_calibration = true;
    }

    /// Whether it was asked since the last call to stop the calibration.
    pub fn take_cancel_calibration(&mut self) -> (requested: bool)
        ensures
            (requested, *final(self)) == old(self).request_taken(),
    {
        let requested = self.cancel_calibration;
        self.cancel_calibration = false;
        requested
    }

    pub fn record_overlay_paint(&mut self, sample_index: u64, painted_at: std::time::Instant)
        ensures
            *final(self) == old(self).painted(sample_index, painted_at),
    {
        self.inner.overlay_timing.last_painted_sample_index = Some(sample_index);
        self.inner.overlay_timing.last_painted_at = Some(painted_at);
    }
}

/// A request for the frame recorded last gives that frame, without falling back.
pub proof fn law_recorded_frame_is_found(history: Seq<ApiFrameRecord>, record: ApiFrameRecord)
    ensures
        record_at_or_before(history.push(record), record.frame_id) == Some(record),
        bounds_of(history.push(record)).latest_frame_id == Some(record.frame_id),
        forall|lookup: ApiFrameLookup| #[trigger]
            answers(lookup, history.push(record), record.frame_id) ==> (lookup matches ApiFrameLookup::Found {
                record: found,
                fell_back,
                fallback_reason,
                ..
            } && found == record && !fell_back && fallback_reason is None),
{
    assert(history.push(record).last() == record);
}

/// Once the history is cleared, no frame can be given.
pub proof fn law_cleared_history_answers_nothing(frame_id: u64)
    ensures
        record_at_or_before(Seq::<ApiFrameRecord>::empty(), frame_id) is None,
        bounds_of(Seq::<ApiFrameRecord>::empty()).latest_frame_id is None,
        forall|lookup: ApiFrameLookup| #[trigger]
            answers(lookup, Seq::<ApiFrameRecord>::empty(), frame_id) ==> lookup
                == (ApiFrameLookup::NotRetained { requested_frame_id: frame_id }),
{
}

/// The frames follow each other in the order they were captured.
pub open spec fn in_capture_order(history: Seq<ApiFrameRecord>) -> bool {
    forall|i: int, j: int|
        0 <= i < j < history.len() ==> #[trigger] history[i].frame_id < #[trigger] history[j].frame_id
}

/// A frame that is given was recorded, is never after the requested one, and no recorded frame
/// lies between the two. There is none to give exactly where every recorded frame is later.
pub proof fn law_lookup_gives_the_nearest_earlier_frame(
    history: Seq<ApiFrameRecord>,
    frame_id: u64,
)
    requires
        in_capture_order(history),
    ensures
        match record_at_or_before(history, frame_id) {
            Some(record) => history.contains(record) && record.frame_id <= frame_id && forall|i: int|
                0 <= i < history.len() && #[trigger] history[i].frame_id <= frame_id
                    ==> history[i].frame_id <= record.frame_id,
            None => forall|i: int| 0 <= i < history.len() ==> #[trigger] history[i].frame_id > frame_id,
        },
    decreases history.len(),
{
    if history.len() > 0 {
        let head = history.drop_last();
        assert forall|i: int, j: int| 0 <= i < j < head.len() implies #[trigger] head[i].frame_id
            < #[trigger] head[j].frame_id by {
            assert(history[i].frame_id < history[j].frame_id);
        }
        if history.last().frame_id <= frame_id {
            assert(history[history.len() - 1] == history.last());
            assert forall|i: int|
                0 <= i < history.len() && #[trigger] history[i].frame_id
                    <= frame_id implies history[i].frame_id <= history.last().frame_id by {
                if i < history.len() - 1 {
                    assert(history[i].frame_id < history[history.len() - 1].frame_id);
                }
            }
        } else {
            law_lookup_gives_the_nearest_earlier_frame(head, frame_id);
            match record_at_or_before(head, frame_id) {
                Some(record) => {
                    let k = choose|k: int| 0 <= k < head.len() && head[k] == record;
                    assert(history[k] == record);
                    assert forall|i: int|
                        0 <= i < history.len() && #[trigger] history[i].frame_id
                            <= frame_id implies history[i].frame_id <= record.frame_id by {
                        assert(head[i] == history[i]);
                    }
                },
                None => {
                    assert forall|i: int| 0 <= i < history.len() implies #[trigger] history[i].frame_id
                        > frame_id by {
                        if i < head.len() {
                            assert(head[i] == history[i]);
                        }
                    }
                },
            }
        }
    }
}

/// How starting went.
#[derive(Debug)]
pub struct StartupStatus {
    pub phase: String,
    pub detail: String,
    pub config_path: String,
    pub loaded_config: Option<RulerConfig>,
}

impl StartupStatus {
    #[must_use]
    pub fn missing(config_path: String) -> (status: Self)
        ensures
            status.phase@ == "config missing"@,
            status.detail@ == "config.json was not found"@,
            status.config_path == config_path,
            status.loaded_config is None,
    {
        StartupStatus {
            phase: "config missing".to_owned(),
            detail: "config.json was not found".to_owned(),
            config_path,
            loaded_config: None,
        }
    }

    #[must_use]
    pub fn invalid(config_path: String, detail: String) -> (status: Self)
        ensures
            status.phase@ == "config invalid"@,
            status.detail == detail,
            status.config_path == config_path,
            status.loaded_config is None,
    {
        StartupStatus {
            phase: "config invalid".to_owned(),
            detail,
            config_path,
            loaded_config: None,
        }
    }

    #[must_use]
    pub fn ready(config_path: String, loaded_config: RulerConfig) -> (status: Self)
        ensures
            status.phase@ == "config loaded"@,
            status.detail@ == "config loaded for '"@ + loaded_config.capture_type@
                + "' capture; active_calibration_profile="@ + (
            match loaded_config.active_calibration_profile {
                Some(filename) => filename@,
                None => "--"@,
            }),
            status.config_path == config_path,
            status.loaded_config == Some(loaded_config),
    {
        let mut detail = "config loaded for '".to_owned();
        detail.append(&loaded_config.capture_type);
        detail.append("' capture; active_calibration_profile=");
        match &loaded_config.active_calibration_profile {
            Some(filename) => detail.append(filename),
            None => detail.append("--"),
        }
        StartupStatus {
            phase: "config loaded".to_owned(),
            detail,
            config_path,
            loaded_config: Some(loaded_config),
        }
    }
}

/// The bounds that the API tells are the numbers of the oldest and the latest frame on record: all
/// others lie between them, and there are none exactly where nothing is on record.
pub proof fn law_bounds_enclose_the_history(history: Seq<ApiFrameRecord>)
    requires
        in_capture_order(history),
    ensures
        ({
            let bounds = bounds_of(history);
            &&& history.len() == 0 <==> bounds.oldest_frame_id is None
            &&& history.len() == 0 <==> bounds.latest_frame_id is None
            &&& history.len() > 0 ==> bounds.oldest_frame_id == Some(history[0].frame_id)
                && bounds.latest_frame_id == Some(history[history.len() - 1].frame_id)
            &&& forall|i: int|
                0 <= i < history.len() ==> bounds.oldest_frame_id->0 <= (
                #[trigger] history[i]).frame_id <= bounds.latest_frame_id->0
        }),
{
    assert forall|i: int| 0 <= i < history.len() implies bounds_of(history).oldest_frame_id->0 <= (
    #[trigger] history[i]).frame_id <= bounds_of(history).latest_frame_id->0 by {
        if i > 0 {
            assert(history[0].frame_id < history[i].frame_id);
        }
        if i < history.len() - 1 {
            assert(history[i].frame_id < history[history.len() - 1].frame_id);
        }
    }
}

/// An answer gives a frame exactly where one was recorded at or before the number asked for; it says
/// that it is another one exactly where it is, and why.
pub proof fn law_answers_say_which_frame_they_give(
    lookup: ApiFrameLookup,
    history: Seq<ApiFrameRecord>,
    frame_id: u64,
)
    requires
        in_capture_order(history),
        answers(lookup, history, frame_id),
    ensures
        match lookup {
            ApiFrameLookup::Found { requested_frame_id, record, fell_back, fallback_reason } => {
                &&& requested_frame_id == frame_id
                &&& history.contains(record)
                &&& record.frame_id <= frame_id
                &&& fell_back <==> record.frame_id < frame_id
                &&& fallback_reason is Some <==> fell_back
                &&& fell_back && frame_id > history.last().frame_id ==> fallback_reason->0@
                    == "requested_after_latest"@
                &&& fell_back && frame_id <= history.last().frame_id ==> fallback_reason->0@
                    == "frame_skipped"@
            },
            ApiFrameLookup::NotRetained { requested_frame_id } => {
                &&& requested_frame_id == frame_id
                &&& forall|i: int|
                    0 <= i < history.len() ==> (#[trigger] history[i]).frame_id > frame_id
            },
        },
{
    law_lookup_gives_the_nearest_earlier_frame(history, frame_id);
}

/// Every frame that is recorded can be asked for, and recording takes none of those before away;
/// once they are forgotten none can. Nothing else changes either way.
pub proof fn law_recording_keeps_what_is_on_record(
    before: SharedAppState,
    record: ApiFrameRecord,
    after: SharedAppState,
    cleared: SharedAppState,
)
    requires
        is_recorded(before, record, after),
        is_forgotten(after, cleared),
    ensures
        record_at_or_before(after.api_history@, record.frame_id) == Some(record),
        forall|i: int|
            0 <= i < before.api_history@.len() ==> after.api_history@[i] == before.api_history@[i],
        after.api_history@.len() == before.api_history@.len() + 1,
        forall|id: u64| record_at_or_before(cleared.api_history@, id) is None,
        after.inner == before.inner && cleared.inner == before.inner,
        after.wakes == before.wakes && cleared.wakes == before.wakes,
        cleared.cancel_calibration == before.cancel_calibration,
{
    assert(after.api_history@.last() == record);
}

/// A start with a configuration is shown with what the configuration says, and one without as an
/// error; either way the message tells the phase, the details and where the configuration is, and
/// the times and the record are as they were.
pub proof fn law_start_is_shown_as_it_went(
    before: SharedAppState,
    startup: StartupStatus,
    after: SharedAppState,
)
    requires
        shows_startup(before, startup, after),
    ensures
        after.inner.ui.mode == OverlayMode::Error <==> startup.loaded_config is None,
        startup.loaded_config matches Some(config) ==> {
            &&& after.inner.ui.mode == OverlayMode::Booting
            &&& after.inner.ui.display_mode == mode_from_config(opt_view(config.frame_display_mode))
            &&& config.overlay_scale is None ==> after.inner.ui.overlay_scale_pct == 100
            &&& after.inner.api.active_profile is Some <==> config.active_calibration_profile is Some
        },
        startup.loaded_config is None ==> after.inner.api.active_profile is None
            && after.inner.ui.overlay_scale_pct == 100,
        contains_text(after.inner.ui.message@, startup.detail@),
        contains_text(after.inner.ui.message@, startup.config_path@),
        starts_with(after.inner.ui.message@, startup.phase@),
        !after.inner.ui.cursor_blocked,
        after.api_history == before.api_history,
        after.inner.worker_timing == before.inner.worker_timing,
        after.inner.ui.should_exit == before.inner.ui.should_exit,
        after.inner.ui.update_notice == before.inner.ui.update_notice,
        after.wakes == before.wakes.wrapping_add(1),
{
    let message = after.inner.ui.message@;
    let a = (startup.phase@ + ": "@).len() as int;
    let b = (startup.phase@ + ": "@ + startup.detail@ + " ("@).len() as int;
    assert(message.take(startup.phase@.len() as int) =~= startup.phase@);
    assert(message.subrange(a, a + startup.detail@.len()) =~= startup.detail@);
    assert(stands_at(message, startup.detail@, a));
    assert(message.subrange(b, b + startup.config_path@.len()) =~= startup.config_path@);
    assert(stands_at(message, startup.config_path@, b));
}

/// A request to stop the calibration is heard once, however often it was made, and only where it was
/// made.
pub proof fn law_request_to_cancel_is_heard_once(state: SharedAppState)
    ensures
        state.asked_to_cancel().request_taken().0,
        state.asked_to_cancel().asked_to_cancel() == state.asked_to_cancel(),
        !state.request_taken().1.request_taken().0,
        state.request_taken().0 == state.cancel_calibration,
        !state.cancel_calibration ==> state.request_taken().1 == state,
        state.asked_to_cancel().inner == state.inner,
        state.request_taken().1.inner == state.inner,
        state.request_taken().1.api_history == state.api_history,
{
}

/// What the overlay is told at one time it is told as it is, and nothing else with it: to close, of a
/// newer version, how long the worker took, and what it has painted itself. It is woken for all but
/// the last.
pub proof fn law_overlay_is_told_one_thing_at_a_time(
    before: SharedAppState,
    exiting: SharedAppState,
    notice: Option<UpdateNotice>,
    noticed: SharedAppState,
    timing: WorkerTimingSnapshot,
    sample: u64,
    at: std::time::Instant,
)
    requires
        asks_to_exit(before, exiting),
        shows_notice(before, notice, noticed),
    ensures
        exiting.inner.ui.should_exit,
        exiting.inner.ui.update_notice == before.inner.ui.update_notice,
        exiting.inner.ui.mode == before.inner.ui.mode,
        exiting.api_history == before.api_history,
        noticed.inner.ui.update_notice == notice,
        noticed.inner.ui.should_exit == before.inner.ui.should_exit,
        noticed.api_history == before.api_history,
        before.timed(timing).inner.worker_timing == timing,
        before.timed(timing).inner.ui == before.inner.ui,
        before.timed(timing).inner.api == before.inner.api,
        before.painted(sample, at).inner.overlay_timing.last_painted_sample_index == Some(sample),
        before.painted(sample, at).inner.overlay_timing.last_painted_at == Some(at),
        before.painted(sample, at).inner.worker_timing == before.inner.worker_timing,
        before.painted(sample, at).inner.ui == before.inner.ui,
        exiting.wakes == before.wakes.wrapping_add(1),
        noticed.wakes == before.wakes.wrapping_add(1),
        before.timed(timing).wakes == before.wakes.wrapping_add(1),
        before.painted(sample, at).wakes == before.wakes,
{
}

} // verus!
