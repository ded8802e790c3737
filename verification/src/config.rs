//! The configuration of the overlay: what to capture, how to show it, where to put it.
use crate::number::Real64;
use crate::text;
use vstd::prelude::*;

verus! {

#[derive(Debug, PartialEq, Eq)]
pub struct RulerConfig {
    pub uuid: Option<String>,
    pub telemetry_enabled: Option<bool>,
    pub screenshot_delay_ms: Option<Real64>,
    pub capture_type: String,
    pub install_path: Option<String>,
    pub instance_index: Option<u32>,
    pub device_id: Option<String>,
    pub window_handle: Option<isize>,
    pub window_title: Option<String>,
    pub window_class: Option<String>,
    pub active_calibration_profile: Option<String>,
    pub frame_display_mode: Option<String>,
    pub language: Option<String>,
    pub auto_select_target: bool,
    pub target_fingerprint: Option<String>,
    pub overlay_pos_x: Option<i32>,
    pub overlay_pos_y: Option<i32>,
    pub overlay_scale: Option<Real64>,
    pub ui_scaler: Option<Real64>,
    pub debug_recording_enabled: bool,
    pub debug_recording_video: bool,
    pub debug_recording_csv: bool,
    pub trace_logging_enabled: bool,
    pub log_output_dir: Option<String>,
    pub replay_video_path: Option<String>,
    pub replay_fps: Option<Real64>,
}

impl Clone for RulerConfig {
    fn clone(&self) -> (copy: Self)
        ensures
            copy == *self,
    {
        RulerConfig {
            uuid: text::copy_opt(&self.uuid),
            telemetry_enabled: self.telemetry_enabled,
            screenshot_delay_ms: self.screenshot_delay_ms,
            capture_type: self.capture_type.clone(),
            install_path: text::copy_opt(&self.install_path),
            instance_index: self.instance_index,
            device_id: text::copy_opt(&self.device_id),
            window_handle: self.window_handle,
            window_title: text::copy_opt(&self.window_title),
            window_class: text::copy_opt(&self.window_class),
            active_calibration_profile: text::copy_opt(&self.active_calibration_profile),
            frame_display_mode: text::copy_opt(&self.frame_display_mode),
            language: text::copy_opt(&self.language),
            auto_select_target: self.auto_select_target,
            target_fingerprint: text::copy_opt(&self.target_fingerprint),
            overlay_pos_x: self.overlay_pos_x,
            overlay_pos_y: self.overlay_pos_y,
            overlay_scale: self.overlay_scale,
            ui_scaler: self.ui_scaler,
            debug_recording_enabled: self.debug_recording_enabled,
            debug_recording_video: self.debug_recording_video,
            debug_recording_csv: self.debug_recording_csv,
            trace_logging_enabled: self.trace_logging_enabled,
            log_output_dir: text::copy_opt(&self.log_output_dir),
            replay_video_path: text::copy_opt(&self.replay_video_path),
            replay_fps: self.replay_fps,
        }
    }
}

} // verus!
