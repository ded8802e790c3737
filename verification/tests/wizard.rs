//! Calibration, the start window and the trial screenshots.
use ruler_app::analyzer_consumer::PixelFormat;
use ruler_app::calibration::{
    CalibrationCollector, CalibrationProgress, CalibrationStep, SampledFrame,
};
use ruler_app::config::RulerConfig;
use ruler_app::config_wizard::choices::{
    centered, confirm, initial_fields, populate_captions, update_page, video_filter,
};
use ruler_app::config_wizard::manual::{build_manual_config, manual_kind_for, ManualDraft};
use ruler_app::config_wizard::preview::{
    preview_image, preview_rgba_scaled, preview_target_size,
};
use ruler_app::config_wizard::probe::{
    average_duration, preferred_selection_index, record_latency_sample, refresh_candidates,
    take_probe_message, LatencySamples, LATENCY_SAMPLE_WINDOW,
};
use ruler_app::config_wizard::sync::{
    header_text, list_state, status_text, sync_preview, sync_rows, sync_to_slint, target_row,
    wizard_logical_height, PreviewUpdate, RowsUpdate, WizardInputs, WIZARD_DEBUG_MANUAL_H, WIZARD_DEBUG_RECORDING_H, WIZARD_LOGICAL_H,
};
use ruler_app::config_wizard::worker::{
    run_probe_worker, stop_probing, ProbeEvent, ProbePhase, PROBE_LOOP_PAUSE_MS,
    PROBE_RECONNECT_PAUSE_MS,
};
use ruler_app::config_wizard::{ProbeMessage, WizardCore};
use ruler_app::i18n::I18n;
use ruler_app::number::Real64;
use ruler_app::target_discovery::{LatencyClass, PreviewFrame, TargetCandidate, TargetKind};
use ruler_app::ui_state::{OverlayMode, Progress, UiSnapshot, UpdateNotice};
use ruler_app::worker::SharedAppState;
use std::collections::VecDeque;
use std::time::Duration;

fn assert_near(actual: Progress, expected: f32) {
    let percent = actual.completed as f32 / actual.total as f32 * 100.0;
    assert!(
        (percent - expected).abs() < 0.001,
        "expected {expected}, got {percent}"
    );
}

fn config(device: &str) -> RulerConfig {
    RulerConfig {
        uuid: None,
        telemetry_enabled: None,
        screenshot_delay_ms: None,
        capture_type: "adb".to_string(),
        install_path: None,
        instance_index: None,
        device_id: Some(device.to_string()),
        window_handle: None,
        window_title: None,
        window_class: None,
        active_calibration_profile: None,
        frame_display_mode: Some("0_to_n-1".to_string()),
        language: Some("zh_CN".to_string()),
        auto_select_target: false,
        target_fingerprint: Some(device.to_string()),
        overlay_pos_x: None,
        overlay_pos_y: None,
        overlay_scale: None,
        ui_scaler: None,
        debug_recording_enabled: false,
        debug_recording_video: false,
        debug_recording_csv: false,
        trace_logging_enabled: false,
        log_output_dir: None,
        replay_video_path: None,
        replay_fps: None,
    }
}

fn candidate(fingerprint: &str, error: Option<&str>) -> TargetCandidate {
    TargetCandidate {
        kind: TargetKind::Adb,
        fingerprint: fingerprint.to_string(),
        name: fingerprint.to_string(),
        detail: String::new(),
        config: config(fingerprint),
        latency: None,
        latency_class: LatencyClass::Unknown,
        preview: None,
        error: error.map(str::to_string),
    }
}

fn manual_draft(kind: i32) -> ManualDraft {
    ManualDraft {
        kind,
        telemetry_enabled: true,
        install_path: String::new(),
        instance_index: String::new(),
        device_id: String::new(),
        window_title: String::new(),
        replay_path: String::new(),
        replay_fps: None,
        auto: false,
        record_video: false,
        record_csv: false,
        trace_logging: false,
    }
}

fn frame(value: u8) -> PreviewFrame {
    PreviewFrame {
        data: vec![value],
        width: 1,
        height: 1,
        format: PixelFormat::Rgba,
    }
}

#[test]
fn calibration_progress_counts_initial_remaining_bar_before_two_cycles() {
    let mut progress = CalibrationProgress::new(100);

    assert_near(progress.update(50, 0, false), 0.0);
    assert_near(progress.update(75, 0, false), 10.0);
    assert_near(progress.update(0, 0, true), 20.0);
    assert_near(progress.update(50, 0, true), 40.0);
    assert_near(progress.update(0, 1, true), 60.0);
    assert_near(progress.update(50, 1, true), 80.0);
    assert_near(progress.update(0, 2, true), 100.0);
}

#[test]
fn calibration_progress_starts_at_zero_when_already_empty() {
    let mut progress = CalibrationProgress::new(100);

    assert_near(progress.update(0, 0, false), 0.0);
    assert_near(progress.update(50, 0, false), 16.666_668);
    assert_near(progress.update(0, 0, true), 33.333_336);
    assert_near(progress.update(0, 1, true), 66.666_67);
    assert_near(progress.update(0, 2, true), 100.0);
}

#[test]
fn calibration_progress_does_not_go_backwards_on_width_jitter() {
    let mut progress = CalibrationProgress::new(100);

    assert_near(progress.update(50, 0, false), 0.0);
    assert_near(progress.update(80, 0, false), 12.0);
    assert_near(progress.update(70, 0, false), 12.0);
    assert_near(progress.update(0, 0, true), 20.0);
}

fn frame_filled(filled: Option<i32>) -> SampledFrame {
    SampledFrame {
        width: 1280,
        height: 720,
        filled,
    }
}

#[test]
fn calibration_keeps_the_size_of_the_first_frame() {
    let mut state = SharedAppState::default();
    let mut collector = CalibrationCollector::start(0, 100).expect("valid bar");
    let first = SampledFrame {
        width: 1920,
        height: 1080,
        filled: None,
    };
    collector.observe(&mut state, first);
    for width in [95, 3, 96, 2, 97] {
        collector.observe(&mut state, frame_filled(Some(width)));
    }
    assert_eq!(collector.progress.completed, 202);
    let step = collector.observe(&mut state, frame_filled(Some(1)));
    assert_eq!(step, CalibrationStep::Finished);
    assert_eq!(collector.progress.completed, 205);
    let samples = collector.finish();
    assert_eq!((samples.screen_width, samples.screen_height), (1920, 1080));
    assert_eq!(samples.cycles, [vec![3, 96], vec![2, 97]]);
    assert_eq!(samples.total_bar_width, 100);
}

#[test]
fn calibration_collects_two_cycles_that_start_after_a_wrap() {
    let mut state = SharedAppState::default();
    let mut collector = CalibrationCollector::start(0, 100).expect("valid bar");
    for width in [95, 3, 50, 96] {
        let step = collector.observe(&mut state, frame_filled(Some(width)));
        assert_eq!(step, CalibrationStep::Continue);
    }
    assert_eq!(collector.observe(&mut state, frame_filled(Some(2))), CalibrationStep::Continue);
    assert_eq!(collector.cycle_samples, [[3, 50, 96]]);
    assert_eq!(collector.observe(&mut state, frame_filled(Some(97))), CalibrationStep::Continue);
    assert_eq!(collector.observe(&mut state, frame_filled(Some(1))), CalibrationStep::Finished);
    assert_eq!(collector.cycle_samples, [vec![3, 50, 96], vec![2, 97]]);
    assert_eq!(state.inner.ui.mode, OverlayMode::Calibrating);
}

#[test]
fn calibration_skips_frames_without_a_bar_and_can_be_stopped() {
    let mut state = SharedAppState::default();
    let mut collector = CalibrationCollector::start(10, 110).expect("valid bar");
    collector.observe(&mut state, frame_filled(Some(95)));
    collector.observe(&mut state, frame_filled(None));
    collector.observe(&mut state, frame_filled(Some(3)));
    assert!(!collector.is_collecting);
    state.request_cancel_calibration();
    assert_eq!(collector.observe(&mut state, frame_filled(Some(50))), CalibrationStep::Cancelled);
    assert!(!state.cancel_calibration);
    assert_eq!(
        CalibrationCollector::start(5, 5).expect_err("no width"),
        "capture ROI has invalid width"
    );
}

#[test]
fn build_manual_config_validates_required_fields() {
    // MuMu needs an install path; empty -> the invalid message.
    let draft = manual_draft(0);
    assert_eq!(
        build_manual_config(&draft, None, "zh_CN", "missing").unwrap_err(),
        "missing"
    );
    // Generic ADB needs a serial.
    assert_eq!(
        build_manual_config(&manual_draft(2), None, "zh_CN", "missing").unwrap_err(),
        "missing"
    );
    // An out-of-range kind is rejected too.
    assert_eq!(
        build_manual_config(&manual_draft(9), None, "zh_CN", "missing").unwrap_err(),
        "missing"
    );
}

#[test]
fn build_manual_config_maps_virtual_and_adb_fields() {
    // Virtual: video path required, fps parsed (default 60 when blank).
    let mut draft = manual_draft(4);
    draft.replay_path = "  C:/clip.mkv  ".to_string();
    let config = build_manual_config(&draft, None, "en_US", "missing").unwrap();
    assert_eq!(config.capture_type, "replay");
    assert_eq!(config.replay_video_path.as_deref(), Some("C:/clip.mkv"));
    assert_eq!(config.replay_fps.map(|fps| f64::from_bits(fps.bits)), Some(60.0));
    assert_eq!(config.language.as_deref(), Some("en_US"));

    // Generic ADB: serial maps onto device_id, no install/window fields.
    let mut adb = manual_draft(2);
    adb.device_id = "127.0.0.1:16384".to_string();
    let config = build_manual_config(&adb, None, "zh_CN", "missing").unwrap();
    assert_eq!(config.capture_type, "adb");
    assert_eq!(config.device_id.as_deref(), Some("127.0.0.1:16384"));
    assert!(config.install_path.is_none());
    assert!(config.window_title.is_none());

    // MuMu: install path + instance index, blank index defaults later to 0.
    let mut mumu = manual_draft(0);
    mumu.install_path = "D:/MuMu".to_string();
    mumu.instance_index = "2".to_string();
    let config = build_manual_config(&mumu, None, "zh_CN", "missing").unwrap();
    assert_eq!(config.capture_type, "mumu");
    assert_eq!(config.install_path.as_deref(), Some("D:/MuMu"));
    assert_eq!(config.instance_index, Some(2));
}

#[test]
fn manual_kind_of_a_built_config_is_the_draft_s() {
    let mut draft = manual_draft(3);
    draft.window_title = "Arknights".to_string();
    let config = build_manual_config(&draft, None, "en_US", "missing").unwrap();
    assert_eq!(config.target_fingerprint.as_deref(), Some("manual:window:Arknights"));
    assert_eq!(manual_kind_for(Some(&config)), 3);
    assert_eq!(manual_kind_for(None), 0);
}

#[test]
fn preferred_selection_keeps_existing_fingerprint_after_refresh() {
    let candidates = vec![
        candidate("adb:first", None),
        candidate("mumu:selected", None),
        candidate("ld:last", None),
    ];
    assert_eq!(
        preferred_selection_index(&candidates, Some("mumu:selected")),
        Some(1)
    );
}

#[test]
fn preferred_selection_falls_back_to_first_usable_candidate() {
    let candidates = vec![
        candidate("bad", Some("offline")),
        candidate("good", None),
        candidate("later", None),
    ];
    assert_eq!(
        preferred_selection_index(&candidates, Some("missing")),
        Some(1)
    );
}

#[test]
fn average_duration_uses_all_window_samples() {
    let samples = VecDeque::from([
        Duration::from_millis(10).as_nanos(),
        Duration::from_millis(20).as_nanos(),
        Duration::from_millis(30).as_nanos(),
    ]);
    assert_eq!(average_duration(&samples), Duration::from_millis(20).as_nanos());
}

#[test]
fn only_the_latest_samples_count() {
    let mut all: Vec<LatencySamples> = Vec::new();
    for _ in 0..LATENCY_SAMPLE_WINDOW {
        assert_eq!(record_latency_sample(&mut all, "a", 100), 100);
    }
    assert_eq!(record_latency_sample(&mut all, "b", 7), 7);
    assert_eq!(record_latency_sample(&mut all, "a", 1_300), 200);
    assert_eq!(all.len(), 2);
    assert_eq!(all[0].nanos.len(), LATENCY_SAMPLE_WINDOW);
}

#[test]
fn selection_stays_with_its_target_when_the_list_changes() {
    let mut core = WizardCore::new(None);
    assert!(refresh_candidates(&mut core, vec![candidate("a", None), candidate("b", None)]));
    core.select_target(1);
    assert_eq!(core.selected_fingerprint().as_deref(), Some("b"));
    refresh_candidates(&mut core, vec![candidate("b", None), candidate("c", None)]);
    assert_eq!(core.selected_index, Some(0));
    refresh_candidates(&mut core, Vec::new());
    assert_eq!(core.selected_index, None);
}

#[test]
fn screenshots_of_an_earlier_search_are_dropped() {
    let mut core = WizardCore::new(None);
    refresh_candidates(&mut core, vec![candidate("a", None)]);
    let generation = core.probe_generation;
    let message = |generation: u64, result: Result<PreviewFrame, String>| ProbeMessage {
        generation,
        fingerprint: "a".to_string(),
        latency: 40_000_000,
        result,
    };
    take_probe_message(&mut core, message(generation + 1, Ok(frame(1))));
    assert!(core.candidates[0].preview.is_none());
    take_probe_message(&mut core, message(generation, Ok(frame(1))));
    assert!(core.candidates[0].preview.is_some());
    assert_eq!(core.candidates[0].latency, Some(40_000_000));
    take_probe_message(&mut core, message(generation, Err("offline".to_string())));
    assert_eq!(core.candidates[0].error.as_deref(), Some("offline"));
}

#[test]
fn choices_end_up_in_the_configuration() {
    let mut core = WizardCore::new(None);
    refresh_candidates(&mut core, vec![candidate("a", None)]);
    core.select_target(0);
    let mut choices = manual_draft(0);
    choices.auto = true;
    choices.record_csv = true;
    assert!(confirm(&mut core, &choices, "en_US", "missing", None).is_none());
    core.candidates[0].preview = Some(frame(1));
    let delay = Some(Real64 { bits: 12.5f64.to_bits() });
    let config = confirm(&mut core, &choices, "en_US", "missing", delay).expect("usable target");
    assert_eq!(config.target_fingerprint.as_deref(), Some("a"));
    assert_eq!(config.language.as_deref(), Some("en_US"));
    assert_eq!(config.screenshot_delay_ms, delay);
    assert!(config.auto_select_target);
    assert!(config.debug_recording_enabled && config.debug_recording_csv);
    assert!(!config.debug_recording_video);

    core.select_manual();
    assert!(confirm(&mut core, &choices, "en_US", "missing", None).is_none());
    assert_eq!(core.manual_error.as_deref(), Some("missing"));
}

#[test]
fn fields_start_with_the_last_choices() {
    let mut previous = config("serial");
    previous.telemetry_enabled = Some(false);
    previous.instance_index = Some(3);
    let fields = initial_fields(Some(&previous), true);
    assert!(!fields.telemetry_checked);
    assert!(fields.debug_expanded);
    assert_eq!(fields.instance_index, "3");
    assert_eq!(fields.device_id, "serial");
    assert!(initial_fields(None, false).telemetry_checked);
}

#[test]
fn wizard_opens_looking_for_targets() {
    let mut previous = config("serial");
    previous.auto_select_target = true;
    for fields in [initial_fields(Some(&previous), true), initial_fields(None, false)] {
        assert!(fields.scanning);
        assert!(!fields.status_error && !fields.has_preview);
        assert!(!fields.auto_checked && !fields.manual_kind_open);
    }
}

fn notice() -> UpdateNotice {
    UpdateNotice {
        version: "v9.1.0".to_string(),
        release_title: "9.1".to_string(),
        html_url: "https://example.org/9.1".to_string(),
        download_url: None,
    }
}

#[test]
fn update_page_is_that_of_the_notice() {
    let mut ui = UiSnapshot::default();
    assert_eq!(update_page(&ui), None);
    ui.update_notice = Some(notice());
    assert_eq!(update_page(&ui).as_deref(), Some("https://example.org/9.1"));
}

#[test]
fn videos_are_chosen_by_their_extension() {
    let i18n = I18n::load(None, "en", None, None);
    let filter = video_filter(&i18n);
    assert_eq!(filter.name, i18n.tr("config.selector.manual_filter_video"));
    assert_eq!(filter.spec, "*.mkv;*.mp4;*.mov;*.avi;*.webm;*.flv;*.ts;*.m4v");
}

#[test]
fn windows_are_put_in_the_middle() {
    assert_eq!(centered(1920, 560), 680);
    assert_eq!(centered(400, 560), 0);
}

#[test]
fn preview_rgba_bottom_up_keeps_channels_top_down() {
    let frame = PreviewFrame {
        width: 2,
        height: 2,
        format: PixelFormat::Rgba,
        data: vec![
            255, 0, 0, 255, 0, 255, 0, 255, // bottom row (src y0)
            0, 0, 255, 255, 255, 255, 255, 255, // top row (src y1)
        ],
    };
    // Output is top-down: first the source's last row, then its first.
    assert_eq!(
        preview_rgba_scaled(&frame, 2, 2).unwrap(),
        vec![
            0, 0, 255, 255, 255, 255, 255, 255, //
            255, 0, 0, 255, 0, 255, 0, 255,
        ]
    );
}

#[test]
fn preview_bgr_bottom_up_converts_to_rgba_top_down() {
    let frame = PreviewFrame {
        width: 2,
        height: 2,
        format: PixelFormat::Bgr,
        data: vec![
            0, 0, 255, 0, 255, 0, // bottom row: blue, green (BGR)
            255, 0, 0, 255, 255, 255, // top row: red, white (BGR)
        ],
    };
    assert_eq!(
        preview_rgba_scaled(&frame, 2, 2).unwrap(),
        vec![
            0, 0, 255, 255, 255, 255, 255, 255, // blue, white (image top row)
            255, 0, 0, 255, 0, 255, 0, 255, // red, green (image bottom row)
        ]
    );
}

#[test]
fn preview_box_downscale_averages_source_block() {
    // 2x2 grays, downscaled to a single pixel: the average of all four.
    let frame = PreviewFrame {
        width: 2,
        height: 2,
        format: PixelFormat::Rgba,
        data: vec![
            0, 0, 0, 255, 100, 100, 100, 255, // bottom row
            200, 200, 200, 255, 240, 240, 240, 255, // top row
        ],
    };
    // (0 + 100 + 200 + 240) / 4 == 135
    assert_eq!(
        preview_rgba_scaled(&frame, 1, 1).unwrap(),
        vec![135, 135, 135, 255]
    );
}

#[test]
fn preview_sizes_are_rounded_in_double_precision() {
    assert_eq!(preview_target_size(98, 735, 1, 400), (1, 7));
    let sides = [0, 1, 2, 3, 7, 49, 98, 100, 735, 1080, 1919, 1920, 65_537, u32::MAX - 1, u32::MAX];
    for src_w in sides {
        for src_h in sides {
            for cap_w in sides {
                for cap_h in sides {
                    let (w, h) = (f64::from(src_w), f64::from(src_h));
                    let across = f64::from(cap_w.max(1)) / w;
                    let scale = across.min(f64::from(cap_h.max(1)) / h).min(1.0);
                    let size = (
                        ((w * scale).round() as u32).max(1),
                        ((h * scale).round() as u32).max(1),
                    );
                    assert_eq!(preview_target_size(src_w, src_h, cap_w, cap_h), size);
                }
            }
        }
    }
}

#[test]
fn shrunk_previews_meet_the_cap_on_one_side() {
    let sides = [1, 2, 3, 7, 49, 98, 100, 735, 1080, 1919, 65_537, u32::MAX - 1, u32::MAX];
    for src_w in sides {
        for src_h in sides {
            for cap_w in sides {
                for cap_h in sides {
                    let (w, h) = preview_target_size(src_w, src_h, cap_w, cap_h);
                    let shrinks = src_w > cap_w || src_h > cap_h;
                    assert!(!shrinks || w == cap_w || h == cap_h);
                }
            }
        }
    }
}

#[test]
fn preview_target_size_preserves_aspect_and_never_upscales() {
    assert_eq!(preview_target_size(1920, 1080, 560, 400), (560, 315));
    assert_eq!(preview_target_size(1280, 720, 336, 240), (336, 189));
    // Source already smaller than the cap is kept 1:1.
    assert_eq!(preview_target_size(100, 100, 560, 400), (100, 100));
}

#[test]
fn previews_of_incomplete_pictures_are_not_made() {
    let mut picture = frame(1);
    assert!(preview_rgba_scaled(&picture, 1, 1).is_none());
    picture.data = vec![1, 2, 3, 4];
    assert_eq!(preview_rgba_scaled(&picture, 1, 1).unwrap(), vec![1, 2, 3, 255]);
    assert!(preview_rgba_scaled(&picture, 0, 1).is_none());
    assert!(preview_image(&picture, 560, 400).is_some());
}

#[test]
fn wizard_logical_height_tracks_debug_and_manual_panels() {
    // Collapsed debug panel: just the base height.
    assert_eq!(wizard_logical_height(false, false), WIZARD_LOGICAL_H);
    assert_eq!(wizard_logical_height(false, true), WIZARD_LOGICAL_H);
    // Expanded: recording-only vs the taller manual-target panel.
    assert_eq!(
        wizard_logical_height(true, false),
        WIZARD_LOGICAL_H + WIZARD_DEBUG_RECORDING_H
    );
    assert_eq!(
        wizard_logical_height(true, true),
        WIZARD_LOGICAL_H + WIZARD_DEBUG_MANUAL_H
    );
    assert!(
        wizard_logical_height(true, true) > wizard_logical_height(true, false),
        "the manual panel is taller than the recording-only panel"
    );
}

#[test]
fn rows_are_rebuilt_only_when_the_list_changes() {
    let mut core = WizardCore::new(None);
    refresh_candidates(&mut core, vec![candidate("a", None)]);
    let latency = vec!["-- ms".to_string()];
    assert!(matches!(sync_rows(&mut core, &latency), RowsUpdate::Replace(rows) if rows.len() == 1));
    assert!(matches!(sync_rows(&mut core, &latency), RowsUpdate::Keep));
    let row = target_row(&core.candidates[0], "40 ms", true);
    assert_eq!(row.name, "a");
    assert_eq!(row.latency, "40 ms");
    assert!(row.selected && !row.error);
}

fn inputs(debug_expanded: bool, rows: usize) -> WizardInputs {
    WizardInputs {
        debug_expanded,
        latency_texts: vec!["40 ms".to_string(); rows],
        preview_address: 7,
        preview_cap: (560, 400),
        adb_available: true,
    }
}

#[test]
fn describing_a_target_shows_no_preview() {
    let i18n = I18n::load(None, "en", None, None);
    let mut core = WizardCore::new(None);
    refresh_candidates(&mut core, vec![candidate("a", None)]);
    let mut picture = frame(1);
    picture.data = vec![1, 2, 3, 4];
    core.candidates[0].preview = Some(picture);
    let shown = sync_to_slint(&mut core, &i18n, &inputs(true, 1), &None);
    assert!(shown.manual_row && !shown.manual_selected && shown.close_kinds);
    assert!(matches!(shown.preview, PreviewUpdate::Show { .. }));
    assert!(!shown.adb_unavailable && shown.update.is_none());

    core.select_manual();
    let manual_header = i18n.tr("config.selector.manual_header");
    assert_ne!(manual_header, i18n.tr("config.selector.header"));
    let shown = sync_to_slint(&mut core, &i18n, &inputs(true, 1), &None);
    assert!(shown.manual_row && shown.manual_selected && !shown.close_kinds);
    assert!(matches!(shown.preview, PreviewUpdate::Hide));
    assert_eq!(shown.header, manual_header);
    assert_eq!(shown.status, i18n.tr("config.selector.manual_hint"));
    assert!(!shown.status_error);
    assert_eq!(header_text(&core, &i18n, "40 ms"), manual_header);
    assert!(matches!(sync_preview(&mut core, 7, 560, 400), PreviewUpdate::Hide));

    core.manual_error = Some("missing".to_string());
    assert_eq!(status_text(&core, &i18n, ""), ("missing".to_string(), true));
    let mut closed = inputs(false, 1);
    closed.adb_available = false;
    let shown = sync_to_slint(&mut core, &i18n, &closed, &Some(notice()));
    assert!(!core.manual_mode && core.manual_error.is_none());
    assert!(!shown.manual_row && !shown.manual_selected && shown.close_kinds);
    assert_eq!(shown.header, i18n.tr("config.selector.header"));
    assert!(shown.adb_unavailable);
    assert!(shown.update.is_some());
}

#[test]
fn lists_tell_when_they_are_empty() {
    let i18n = I18n::load(None, "en", None, None);
    let mut core = WizardCore::new(None);
    let shown = sync_to_slint(&mut core, &i18n, &inputs(false, 0), &None);
    let list = shown.list.expect("the list is new");
    assert!(list.empty);
    assert_eq!(list.caption, i18n.tr("config.selector.no_targets"));
    assert!(sync_to_slint(&mut core, &i18n, &inputs(false, 0), &None).list.is_none());
    refresh_candidates(&mut core, vec![candidate("a", None)]);
    let shown = sync_to_slint(&mut core, &i18n, &inputs(false, 1), &None);
    assert!(!shown.list.expect("the list has changed").empty);
    assert!(!list_state(&core, &i18n).empty);
}

#[test]
fn captions_and_header_are_translated() {
    let i18n = I18n::load(None, "en", None, None);
    let captions = populate_captions(&i18n);
    assert!(!captions.is_empty());
    let core = WizardCore::new(None);
    assert!(!header_text(&core, &i18n, "").is_empty());
}

#[test]
fn warm_up_capture_backend_discards_first_frame() {
    let warm_up = run_probe_worker(ProbePhase::WarmUp, ProbeEvent::Captured(5, frame(11)));
    assert!(warm_up.report.is_none());
    assert_eq!(warm_up.next, ProbePhase::Capture);

    let step = run_probe_worker(warm_up.next, ProbeEvent::Captured(6, frame(22)));
    let (_, frame) = step
        .report
        .expect("timed probe frame should be reported")
        .expect("timed probe frame should succeed");

    assert_eq!(frame.data, vec![22]);
    assert_eq!(step.pause_ms, PROBE_LOOP_PAUSE_MS);
}

#[test]
fn warm_up_capture_backend_propagates_capture_error() {
    let step = run_probe_worker(
        ProbePhase::WarmUp,
        ProbeEvent::Failed("warm-up failed".to_string()),
    );

    let error = step
        .report
        .expect("warm-up should be reported")
        .expect_err("warm-up should fail");

    assert_eq!(error, "warm-up failed");
    assert!(step.disconnect);
    assert_eq!(step.pause_ms, PROBE_RECONNECT_PAUSE_MS);
}

#[test]
fn trial_screenshots_end_when_no_one_listens() {
    let step = run_probe_worker(ProbePhase::Capture, ProbeEvent::Unheard);
    assert!(step.disconnect);
    assert_eq!(step.next, ProbePhase::Ended);
    let step = run_probe_worker(ProbePhase::Configure, ProbeEvent::Failed("no".to_string()));
    assert_eq!(step.next, ProbePhase::Ended);
    assert!(stop_probing(ProbePhase::Connect));
    assert!(!stop_probing(ProbePhase::Create));
}
