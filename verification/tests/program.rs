//! Files, logs, reports, releases and the start of the program.
use ruler_app::analyzer_consumer::{BattlePhase, BattleState, FrameResult, PixelFormat};
use ruler_app::arknights_settings::{
    decode_registry_value, read_pc_cursor_size, read_pc_ui_scaler, setting_number, RegistryKind,
    CURSOR_SIZE_FIELD, UI_SCALER_FIELD,
};
use ruler_app::calendar::{days_since_epoch_to_ymd, timestamp_prefix, timestamp_with_millis};
use ruler_app::config::RulerConfig;
use ruler_app::debug_recorder::{
    ffmpeg_args, flip_rows, DebugRecorder, DebugRecordingPlan, CSV_HEADER,
};
use ruler_app::i18n::{normalize_locale, I18n};
use ruler_app::icons::{icon_file, IconSet, PngImage, RgbaPicture};
use ruler_app::json::read_document;
use ruler_app::logging::{
    expired_sessions, format_log_line, parse_override_level, session_dir_name,
    session_timestamp_prefix, should_log, Level, LevelFilter, LogEntry, LoggingRuntime,
    ICU_PROVIDER_ERROR_LOG_TARGET,
};
use ruler_app::number::Real64;
use ruler_app::paths;
use ruler_app::profiles::{sanitize_profile_base, ProfileFile, ProfileStore};
use ruler_app::resources::{ResourceEnvironment, ResourceLocator};
use ruler_app::startup::{
    apply_runtime_ui_scaler, determine_startup_status, find_target, quote_arg, remembered_target,
    resolve_startup_config, saved_status, wants_debug, ConfigFile, Startup, StartupAction,
    StartupEvent,
};
use ruler_app::telemetry::identity::{
    config_or_stable_uuid_at, ensure_config_uuid_at, stable_identity_path, write_identity,
    IdentityEnvironment,
};
use ruler_app::telemetry::{
    build_http_request, check_reply, ensure_config_uuid, latest_previous_session,
    session_stats_path, startup_payload, write_session_stats, RunTelemetryStats, SessionEntry,
    SessionTelemetryStats,
};
use ruler_app::text;
use ruler_app::tray::{tooltip_text, truncate_menu_text, DEFAULT_TIP};
use ruler_app::ui_state::{TimingDebug, UpdateNotice};
use ruler_app::update_check::{
    is_later, notice_from_response, parse_version, user_agent, valid_http_url, UpdateResponse,
};
use ruler_app::worker::SharedAppState;
use serde_json::Value;

const UPDATE_JSON: &str = r#"{
    "version": "2.3.0",
    "release_title": "Ruler 2.3.0",
    "html_url": "https://github.com/ZeroAd-06/ArknightsCostBarRuler/releases/tag/20260627",
    "download_url": "https://github.com/ZeroAd-06/ArknightsCostBarRuler/releases/download/20260627/ArknightsCostBarRuler.7z"
}"#;

fn minimal_config(uuid: Option<String>) -> RulerConfig {
    RulerConfig {
        uuid,
        telemetry_enabled: Some(true),
        screenshot_delay_ms: None,
        capture_type: "adb".to_string(),
        install_path: None,
        instance_index: None,
        device_id: None,
        window_handle: None,
        window_title: None,
        window_class: None,
        active_calibration_profile: None,
        frame_display_mode: None,
        language: None,
        auto_select_target: false,
        target_fingerprint: None,
        overlay_pos_x: None,
        overlay_pos_y: None,
        overlay_scale: None,
        ui_scaler: None,
        debug_recording_enabled: false,
        debug_recording_video: false,
        debug_recording_csv: false,
        trace_logging_enabled: false,
        log_output_dir: None,
        replay_video_path: None,
        replay_fps: None,
    }
}

fn number(value: f64) -> Real64 {
    Real64 {
        bits: value.to_bits(),
    }
}

fn locator_for_test() -> ResourceLocator {
    ResourceLocator {
        project_root: "C:/repo".to_string(),
        exe_dir: Some("C:/dist".to_string()),
        config_path: "C:/state/config.json".to_string(),
        calibration_dir: "C:/state/calibration".to_string(),
        data_dir: "C:/data".to_string(),
        log_dir_override: None,
    }
}

fn notice_from_json(current_version: &str, json: &str) -> Option<UpdateNotice> {
    let value: Value = serde_json::from_str(json).unwrap();
    let field = |name: &str| value[name].as_str().map(str::to_string);
    let response = UpdateResponse {
        version: field("version").unwrap(),
        release_title: field("release_title").unwrap(),
        html_url: field("html_url").unwrap(),
        download_url: field("download_url"),
    };
    notice_from_response(current_version, &response)
}

fn stored_uuid(contents: &str) -> Option<String> {
    let value: Value = serde_json::from_str(contents).unwrap();
    value["uuid"].as_str().map(str::to_string)
}

#[test]
fn extracts_ui_scaler_from_common_settings_json() {
    let value = read_document(r#"{"uiScaler":0.5,"cursorSize":0.25}"#).unwrap();
    assert_eq!(setting_number(&value, UI_SCALER_FIELD), Some(number(0.5)));
    assert_eq!(setting_number(&value, CURSOR_SIZE_FIELD), Some(number(0.25)));
}

#[test]
fn settings_of_the_game_are_read_from_the_registry() {
    let text = r#"{"uiScaler":1,"cursorSize":"big"}"#;
    let mut bytes: Vec<u8> = text.encode_utf16().flat_map(u16::to_le_bytes).collect();
    bytes.extend([0, 0, 65, 0]);
    assert_eq!(decode_registry_value(RegistryKind::Text, &bytes).as_deref(), Some(text));
    let blob = b"{}\0rest".to_vec();
    assert_eq!(decode_registry_value(RegistryKind::Binary, &blob).as_deref(), Some("{}"));
    let broken = b"a\xffb".to_vec();
    assert_eq!(
        decode_registry_value(RegistryKind::Binary, &broken).as_deref(),
        Some("a\u{fffd}b")
    );
    assert_eq!(decode_registry_value(RegistryKind::Other, &blob), None);

    assert_eq!(read_pc_ui_scaler(Some(text)), Ok(Some(number(1.0))));
    assert_eq!(read_pc_cursor_size(Some(text)), Ok(None));
    assert_eq!(read_pc_ui_scaler(None), Ok(None));
    assert!(read_pc_ui_scaler(Some("{")).is_err());
}

#[test]
fn debug_recording_plan_splits_csv_from_raw_video() {
    assert_eq!(
        DebugRecordingPlan::from_config(false, true, true),
        DebugRecordingPlan {
            raw_video: false,
            analysis_csv: false,
        }
    );
    assert_eq!(
        DebugRecordingPlan::from_config(true, true, false),
        DebugRecordingPlan {
            raw_video: true,
            analysis_csv: false,
        }
    );
    assert_eq!(
        DebugRecordingPlan::from_config(true, false, true),
        DebugRecordingPlan {
            raw_video: false,
            analysis_csv: true,
        }
    );
    assert_eq!(
        DebugRecordingPlan::from_config(true, true, true),
        DebugRecordingPlan {
            raw_video: true,
            analysis_csv: true,
        }
    );
}

#[test]
fn debug_recorder_writes_analysis_rows() {
    let mut recorder = DebugRecorder::start("dir", false, true, 1, 1, PixelFormat::Rgba);
    let result = FrameResult {
        logical_frame: Some(3),
        total_frames_in_cycle: 30,
        raw_pixel_width: Some(12),
        elapsed_frames: 123,
        cost_is_negative: false,
        battle_state: BattleState {
            name: "1x_running".to_string(),
            phase: BattlePhase::Other,
        },
        timing_debug: Some(TimingDebug {
            required_fp: 0,
            speed_fp: 0,
            accumulator_fp: 100,
            advanced_frames: 2,
            frames_since_cycle_start: 0,
            frames_until_next_cost: 3,
            match_error_px: 4,
            boundary_corrected: true,
        }),
    };

    let phase = format!("{:.6}", 3.0 / 30.0);
    let row = recorder.analysis_row(1_500, &result, 456, &phase).unwrap();
    recorder.row_written(true);

    let csv = format!("{CSV_HEADER}{row}");
    let lines: Vec<_> = csv.lines().collect();
    assert_eq!(lines.len(), 2);
    assert!(lines[0].starts_with("frame_index,timestamp_ms,raw_pixel_width"));
    assert!(lines[1].ends_with(",12,3,30,0,123,456,0.100000,1x_running,2,100,3,4,1"));
    assert!(lines[1].starts_with("0,1,"));
    assert_eq!(recorder.frame_count, 1);
    recorder.row_written(false);
    assert!(recorder.analysis_row(0, &result, 0, "").is_none());
}

#[test]
fn rows_of_a_picture_are_turned_around() {
    let mut rows = vec![1, 2, 3, 4, 5, 6];
    flip_rows(&mut rows, 1, 3, 2);
    assert_eq!(rows, [5, 6, 3, 4, 1, 2]);
    flip_rows(&mut rows, 1, 3, 2);
    assert_eq!(rows, [1, 2, 3, 4, 5, 6]);

    let mut recorder = DebugRecorder::start("dir", true, false, 1, 2, PixelFormat::Bgr);
    assert_eq!(recorder.video_path.as_deref(), Some(r"dir\capture.mkv"));
    assert!(recorder.can_record(6));
    assert_eq!(recorder.video_frame(&vec![1, 2, 3, 4, 5, 6]), Some(vec![4, 5, 6, 1, 2, 3]));
    recorder.video_failed();
    assert_eq!(recorder.video_frame(&vec![1, 2, 3, 4, 5, 6]), None);

    let args = ffmpeg_args(PixelFormat::Bgr, 1280, 720, "out.mkv");
    assert_eq!(args.last().map(String::as_str), Some("out.mkv"));
    assert!(args.contains(&"1280x720".to_string()));
    assert!(args.contains(&"bgr24".to_string()));
}

#[test]
fn session_timestamp_prefix_requires_expected_shape() {
    assert_eq!(
        session_timestamp_prefix("20260620_213045_1234").as_deref(),
        Some("20260620_213045")
    );
    assert_eq!(session_timestamp_prefix("20260620-213045_1234"), None);
    assert_eq!(session_timestamp_prefix("junk"), None);
}

#[test]
fn env_override_parser_takes_most_verbose_match() {
    assert_eq!(
        parse_override_level("warn,ruler_core=trace,icu_provider::error=error"),
        Some(LevelFilter::Trace)
    );
}

#[test]
fn override_levels_are_named_in_any_case() {
    assert_eq!(parse_override_level(" DEBUG "), Some(LevelFilter::Debug));
    assert_eq!(parse_override_level("a=off,b"), Some(LevelFilter::Off));
    assert_eq!(parse_override_level("loud"), None);
}

#[test]
fn should_log_preserves_icu_warning_suppression() {
    assert!(!should_log(
        ICU_PROVIDER_ERROR_LOG_TARGET,
        Level::Warn,
        LevelFilter::Trace
    ));
    assert!(should_log(
        ICU_PROVIDER_ERROR_LOG_TARGET,
        Level::Error,
        LevelFilter::Trace
    ));
    assert!(should_log(
        "ruler_app::worker",
        Level::Info,
        LevelFilter::Info
    ));
    assert!(!should_log(
        "ruler_app::worker",
        Level::Debug,
        LevelFilter::Info
    ));
}

#[test]
fn dates_are_counted_from_the_epoch() {
    assert_eq!(days_since_epoch_to_ymd(0), (1970, 1, 1));
    assert_eq!(days_since_epoch_to_ymd(59), (1970, 3, 1));
    assert_eq!(days_since_epoch_to_ymd(11_016), (2000, 2, 29));
    assert_eq!(timestamp_prefix(1_750_454_985), "20250620_212945");
    assert_eq!(timestamp_with_millis(86_399, 7), "19700101_235959.007");
}

#[test]
fn log_lines_name_time_level_and_target() {
    let line = format_log_line(0, 5, Level::Warn, "ruler_app::worker", "hello");
    assert!(line.starts_with("19700101_000000.005"));
    assert!(line.contains("WARN"));
    assert!(line.contains("ruler_app::worker"));
    assert!(line.contains("hello"));
    assert_eq!(session_dir_name(0, 12), "19700101_000000_12");
}

#[test]
fn sessions_expire_after_a_week() {
    let entry = |name: &str, is_dir: bool| LogEntry {
        name: name.to_string(),
        is_dir,
    };
    let now = 30 * 86_400;
    let entries = vec![
        entry("19700101_000000_1", true),
        entry("19700131_000000_2", true),
        entry("19700101_000000_3", false),
        entry("notes", true),
        entry("19700102_000000_4", true),
    ];
    assert_eq!(
        expired_sessions(&entries, now, "19700102_000000_4"),
        ["19700101_000000_1"]
    );
}

#[test]
fn override_keeps_its_level() {
    let locator = locator_for_test();
    let mut config = minimal_config(None);
    config.trace_logging_enabled = true;
    let mut logging = LoggingRuntime::init(&locator, Some(&config), None, 0, 9);
    assert_eq!(logging.session_dir(), r"C:/data\log\19700101_000000_9");
    assert_eq!(logging.log_file(), r"C:/data\log\19700101_000000_9\app.log");
    assert!(logging.enabled("x", Level::Trace));
    logging.apply_trace_setting(false);
    assert!(!logging.enabled("x", Level::Trace));
    let mut quiet = LoggingRuntime::init(&locator, None, Some("error"), 0, 9);
    quiet.apply_trace_setting(true);
    assert!(!quiet.enabled("x", Level::Warn));
}

/// Paths are the same where their components are, however they are separated.
fn assert_same_path(path: &str, expected: &str) {
    assert!(paths::is_under(path, expected) && paths::is_under(expected, path), "{path}");
}

#[test]
fn config_and_calibration_paths_use_config_root() {
    let locator = locator_for_test();

    assert_same_path(&locator.config_path(), "C:/state/config.json");
    assert_same_path(&locator.calibration_dir(), "C:/state/calibration");
}

#[test]
fn log_root_defaults_under_data_root() {
    let locator = locator_for_test();

    assert_same_path(&locator.log_root_dir(None), "C:/data/log");
    assert_eq!(locator.log_root_dir(None), r"C:/data\log");
}

#[test]
fn relative_log_root_resolves_under_data_root() {
    let locator = locator_for_test();

    assert_same_path(&locator.log_root_dir(Some("captures")), "C:/data/captures");
}

#[test]
fn absolute_log_root_is_preserved() {
    let locator = locator_for_test();

    assert_eq!(
        locator.log_root_dir(Some("D:/captures")),
        "D:/captures"
    );
}

#[test]
fn places_follow_the_environment() {
    let env = ResourceEnvironment {
        project_root: "C:/repo".to_string(),
        exe_dir: Some("C:/dist".to_string()),
        working_dir: Some("C:/work".to_string()),
        config_dir: Some(String::new()),
        config_path: None,
        calibration_dir: None,
        data_dir: Some("E:/data".to_string()),
        log_dir: None,
        recordings_dir: None,
    };
    let locator = ResourceLocator::new(&env);
    assert_eq!(locator.config_path(), r"C:/work\config.json");
    assert_eq!(locator.calibration_dir(), r"C:/work\calibration");
    assert_eq!(locator.data_dir, "E:/data");
    let places = locator.icon_candidates("timer");
    assert!(!places.is_empty());
    let none = vec![false; places.len()];
    assert!(!locator.icon_path("timer", &none).is_empty());
}

#[test]
fn paths_are_taken_apart_and_joined() {
    assert_eq!(paths::join("C:/a", "b"), r"C:/a\b");
    assert_eq!(paths::join("C:/a", "/b"), "C:/b");
    assert_eq!(paths::join("C:/a", "D:/b"), "D:/b");
    assert_eq!(paths::parent("C:\\a\\b.txt").as_deref(), Some("C:\\a"));
    assert_eq!(paths::file_name("C:\\a\\b.txt").as_deref(), Some("b.txt"));
    assert!(paths::is_under("D:\\MuMu\\adb.exe", "D:\\MuMu"));
    assert!(!paths::is_under("D:\\MuMu2\\adb.exe", "D:\\MuMu"));
    for (base, part, path) in [
        ("", "b", "b"),
        ("C:", "b", "C:b"),
        (r"C:\", "b", r"C:\b"),
        (r"C:\a", "", r"C:\a\"),
        (r"C:\a", r"..\b", r"C:\a\..\b"),
        (r"C:\a", r"\\server\share\x", r"\\server\share\x"),
        (r"C:\a", r"\\server", r"C:\\server"),
        (r"\\server\share\a", r"\b", r"\\server\share\b"),
        (r"\\server\share", "b", r"\\server\share\b"),
        (r"\\.\COM1", r"\b", r"\\.\COM1\b"),
        (r"\\?\C:\repo", "icons", r"\\?\C:\repo\icons"),
        (r"\\?\C:\repo\", "icons/x.png", r"\\?\C:\repo\icons\x.png"),
        (r"\\?\C:\repo\a", r"..\.\b", r"\\?\C:\repo\b"),
        (r"\\?\C:\", "..", r"\\?\C:\"),
        (r"\\?\C:\repo", r"\b", r"\\?\C:\b"),
        (r"\\?\C:\repo", "D:b", "D:b"),
        (r"\\?\UNC\server\share", "b", r"\\?\UNC\server\share\b"),
        (r"\\?\UNC\server\share\a", r"\b", r"\\?\UNC\server\share\b"),
        (r"\\?\pictures\a", r"\b", r"\\?\pictures\b"),
        (r"//?/C:/a", r"\b", r"//?/C:\b"),
    ] {
        assert_eq!(paths::join(base, part), path);
    }
    for (path, parent) in [
        (r"C:\a\b\", Some(r"C:\a")),
        (r"C:\a", Some(r"C:\")),
        (r"C:\", None),
        (r"C:\a\.\b\.", Some(r"C:\a")),
        (r"\\?\C:\a/b", Some(r"\\?\C:\")),
        (r"\\?\C:\", None),
        (r"\\server\share\a", Some(r"\\server\share\")),
        (r"\\server\share", None),
        (r".\a", Some(".")),
        (".", Some("")),
        ("a", Some("")),
        ("", None),
    ] {
        assert_eq!(paths::parent(path).as_deref(), parent, "{path}");
    }
    assert_eq!(paths::file_name(r"C:\a\.."), None);
    assert_eq!(paths::extension(r"C:\a.b\c").as_deref(), None);
    assert_eq!(paths::extension(r"C:\a.b\c.d.").as_deref(), Some(""));
    assert!(paths::is_under(r"c:\a\.\b", "C:/a"));
    assert!(paths::is_under(r"C:\a", "C:"));
    assert!(!paths::is_under(r"C:a", r"C:\"));
    assert!(!paths::is_under(r"\\?\C:\a", r"C:\"));
    assert!(paths::is_under(r"//server/share/a", r"\\server\share"));
    assert!(paths::is_under(r"\\?\c:\a\b", r"\\?\C:\a"));
}

#[test]
fn latest_previous_stats_skips_current_session() {
    let entry = |name: &str| SessionEntry {
        name: name.to_string(),
        is_dir: true,
        has_stats: true,
    };
    let entries = vec![entry("20260624_120000_1"), entry("20260625_120000_2")];

    assert_eq!(
        latest_previous_session(&entries, "20260625_120000_2").as_deref(),
        Some("20260624_120000_1")
    );
    let stats = write_session_stats(&RunTelemetryStats {
        analyzed_frames: 1200,
        action_restarts: 5,
    });
    let value: Value = serde_json::from_str(&stats).unwrap();
    assert_eq!(value["total_frames"], 1200);
    assert_eq!(value["restarts"], 5);
    assert_eq!(session_stats_path("s"), r"s\telemetry_stats.json");
}

#[test]
fn http_request_contains_required_json_headers() {
    let request = build_http_request(br#"{"uuid":"test"}"#);

    assert!(request.starts_with("POST / HTTP/1.1\r\n"));
    assert!(request.contains("Host: arkruler-telemetry.z060606060606.online\r\n"));
    assert!(request.contains("Content-Type: application/json\r\n"));
    assert!(request.contains("Content-Length: 15\r\n"));
    assert!(request.ends_with("\r\n\r\n"));
}

#[test]
fn replies_are_taken_by_their_status() {
    assert_eq!(check_reply("HTTP/1.1 204 No Content\r\n"), Ok(()));
    assert_eq!(
        check_reply("HTTP/1.1 500 Oops\r\nmore"),
        Err("telemetry endpoint returned HTTP/1.1 500 Oops".to_string())
    );
    assert_eq!(
        check_reply(""),
        Err("telemetry endpoint returned <empty response>".to_string())
    );
}

#[test]
fn reports_need_consent() {
    let mut config = minimal_config(Some("55555555-5555-4555-8555-555555555555".to_string()));
    let previous = Some(SessionTelemetryStats {
        total_frames: 7,
        restarts: 2,
    });
    let payload = startup_payload(&config, 1280, 720, previous).expect("consent given");
    let body: Value = serde_json::from_str(&payload.to_json("12.5")).unwrap();
    assert_eq!(body["uuid"], "55555555-5555-4555-8555-555555555555");
    assert_eq!(body["resolution"], "1280x720");
    assert_eq!(body["screenshot_delay"], 12.5);
    assert_eq!(body["total_frames"], 7);
    assert_eq!(body["restarts"], 2);
    config.telemetry_enabled = Some(false);
    assert!(startup_payload(&config, 1280, 720, None).is_none());
}

#[test]
fn restores_uuid_from_stable_identity_when_config_has_none() {
    let stored = stored_uuid(
        r#"{
  "uuid": "11111111-1111-4111-8111-111111111111"
}"#,
    );
    let mut config = minimal_config(None);

    ensure_config_uuid_at(&mut config, &stored);

    assert_eq!(
        config.uuid.as_deref(),
        Some("11111111-1111-4111-8111-111111111111")
    );
}

#[test]
fn adopts_existing_config_uuid_into_stable_identity() {
    let mut config = minimal_config(Some("22222222-2222-4222-8222-222222222222".to_string()));

    let persist = ensure_config_uuid_at(&mut config, &None);

    assert!(persist);
    let saved = write_identity(config.uuid.as_deref().unwrap());
    assert!(saved.contains("22222222-2222-4222-8222-222222222222"));
    assert_eq!(
        config.uuid.as_deref(),
        Some("22222222-2222-4222-8222-222222222222")
    );
}

#[test]
fn generates_and_persists_uuid_when_no_identity_exists() {
    let mut config = minimal_config(None);

    let persist = ensure_config_uuid_at(&mut config, &None);

    let uuid = config.uuid.as_deref().unwrap();
    assert!(!uuid.trim().is_empty());
    assert!(persist);
    let saved = write_identity(uuid);
    assert!(saved.contains(uuid));
    assert_eq!(stored_uuid(&saved).as_deref(), Some(uuid));
}

#[test]
fn telemetry_uuid_migrates_existing_config_uuid() {
    let config = minimal_config(Some("33333333-3333-4333-8333-333333333333".to_string()));

    let (uuid, persist) = config_or_stable_uuid_at(&config, &None);

    assert_eq!(
        uuid.as_deref(),
        Some("33333333-3333-4333-8333-333333333333")
    );
    assert!(persist);
    let saved = write_identity(uuid.as_deref().unwrap());
    assert!(saved.contains("33333333-3333-4333-8333-333333333333"));
}

#[test]
fn telemetry_uuid_uses_stable_identity_when_config_has_none() {
    let stored = stored_uuid(
        r#"{
  "uuid": "44444444-4444-4444-8444-444444444444"
}"#,
    );
    let config = minimal_config(None);

    let (uuid, _) = config_or_stable_uuid_at(&config, &stored);

    assert_eq!(
        uuid.as_deref(),
        Some("44444444-4444-4444-8444-444444444444")
    );
}

#[test]
fn new_uuids_differ_and_known_ones_stay() {
    let mut first = minimal_config(Some("  ".to_string()));
    let mut second = minimal_config(None);
    ensure_config_uuid(&mut first);
    ensure_config_uuid(&mut second);
    assert_ne!(first.uuid, second.uuid);
    assert_eq!(first.uuid.as_deref().map(str::len), Some(36));
    let kept = first.uuid.clone();
    ensure_config_uuid(&mut first);
    assert_eq!(first.uuid, kept);

    let env = IdentityEnvironment {
        identity_path: None,
        local_app_data: Some("C:/Users/u/AppData/Local".to_string()),
        app_data: None,
        state_home: None,
    };
    assert_eq!(
        stable_identity_path(&env).as_deref(),
        Some(r"C:/Users/u/AppData/Local\ArknightsCostBarRuler\telemetry_identity.json")
    );
}

#[test]
fn returns_notice_when_remote_version_is_newer() {
    let notice = notice_from_json("2.2.0", UPDATE_JSON);

    assert_eq!(
        notice,
        Some(UpdateNotice {
            version: "2.3.0".to_string(),
            release_title: "Ruler 2.3.0".to_string(),
            html_url:
                "https://github.com/ZeroAd-06/ArknightsCostBarRuler/releases/tag/20260627"
                    .to_string(),
            download_url: Some(
                "https://github.com/ZeroAd-06/ArknightsCostBarRuler/releases/download/20260627/ArknightsCostBarRuler.7z"
                    .to_string()
            ),
        })
    );
}

#[test]
fn ignores_same_version() {
    assert_eq!(notice_from_json("2.3.0", UPDATE_JSON), None);
}

#[test]
fn ignores_older_version() {
    assert_eq!(notice_from_json("2.4.0", UPDATE_JSON), None);
}

#[test]
fn accepts_v_prefixed_versions() {
    let notice = notice_from_json("v2.2.0", UPDATE_JSON);

    assert!(notice.is_some());
}

#[test]
fn ignores_invalid_release_url() {
    let payload = r#"{
        "version": "2.3.0",
        "release_title": "Ruler 2.3.0",
        "html_url": "not a url"
    }"#;

    assert_eq!(notice_from_json("2.2.0", payload), None);
}

#[test]
fn releases_are_ordered() {
    let version = |text: &str| parse_version(text).expect("a version");
    for (older, newer) in [
        ("1.2.3", "1.2.4"),
        ("1.2.9", "1.10.0"),
        ("1.0.0-alpha", "1.0.0"),
        ("1.0.0-alpha.1", "1.0.0-alpha.beta"),
        ("1.0.0+1", "1.0.0+2"),
    ] {
        assert!(is_later(&version(newer), &version(older)), "{newer} after {older}");
        assert!(!is_later(&version(older), &version(newer)));
    }
    assert_eq!(version(" v1.2.3 ").minor, 2);
    assert!(parse_version("1.2").is_none());
    assert!(valid_http_url("HTTP://example.com"));
    assert!(!valid_http_url("ftp://example.com"));
    assert_eq!(user_agent("2.2.0"), "ArknightsCostBarRuler/2.2.0");
}

#[test]
fn update_notice_enters_snapshot_and_notifies_overlay() {
    let mut state = SharedAppState::default();
    let wakes = state.wakes;
    let notice = || UpdateNotice {
        version: "2.3.0".to_string(),
        release_title: "Ruler 2.3.0".to_string(),
        html_url: "https://github.com/ZeroAd-06/ArknightsCostBarRuler/releases/tag/20260627"
            .to_string(),
        download_url: None,
    };

    state.set_update_notice(Some(notice()));

    assert_eq!(state.snapshot().ui.update_notice, Some(notice()));
    assert_eq!(state.wakes - wakes, 1);
}

#[test]
fn texts_fall_back_to_chinese() {
    let contents = r#"{"hello":"Hello {name}"}"#;
    let i18n = I18n::load(Some("en"), "", Some(contents), None);
    assert_eq!(i18n.locale(), "en_US");
    let name = vec![("name", "you".to_string())];
    assert_eq!(i18n.tr_with("hello", &name), "Hello you");
    assert_eq!(i18n.tr("missing"), "missing");
    let fallback = I18n::load(Some("en"), "", None, Some(r#"{"hello":"\u4f60\u597d"}"#));
    assert_eq!(fallback.locale(), "zh_CN");
    assert_eq!(fallback.tr("hello"), "\u{4f60}\u{597d}");
    let mixed = r#"{"hello":"Hello","n":1}"#;
    assert_eq!(I18n::load(Some("en"), "", Some(mixed), None).locale(), "zh_CN");
    assert_eq!(normalize_locale("fr"), "zh_CN");
}

/// A picture of one half transparent pixel.
const PNG: [u8; 70] = [
    0x89, 0x50, 0x4e, 0x47, 0x0d, 0x0a, 0x1a, 0x0a, 0x00, 0x00, 0x00, 0x0d, 0x49, 0x48, 0x44,
    0x52, 0x00, 0x00, 0x00, 0x01, 0x00, 0x00, 0x00, 0x01, 0x08, 0x06, 0x00, 0x00, 0x00, 0x1f,
    0x15, 0xc4, 0x89, 0x00, 0x00, 0x00, 0x0d, 0x49, 0x44, 0x41, 0x54, 0x78, 0xda, 0x63, 0xf8,
    0xcf, 0xc0, 0xd0, 0x00, 0x00, 0x04, 0x81, 0x01, 0x80, 0xf3, 0x0b, 0xdc, 0xa0, 0x00, 0x00,
    0x00, 0x00, 0x49, 0x45, 0x4e, 0x44, 0xae, 0x42, 0x60, 0x82,
];

#[test]
fn icons_are_premultiplied_and_scaled() {
    let picture = RgbaPicture {
        width: 2,
        height: 1,
        rgba: vec![255, 0, 0, 128, 10, 20, 30, 255],
    };
    let image = PngImage::from_rgba(&picture);
    assert_eq!(image.bgra, [0, 0, 128, 128, 30, 20, 10, 255]);
    let wide = image.resize_nearest(4, 2);
    assert_eq!(wide.bgra.len(), 32);
    assert_eq!(wide.bgra[0..8], [0, 0, 128, 128, 0, 0, 128, 128]);
    assert!(PngImage::load("x.png", &vec![1, 2, 3]).is_err());
    let decoded = PngImage::load("x.png", &PNG.to_vec()).expect("a picture");
    assert!(PngImage::load(r"\\?\C:\icons\x.PNG", &PNG.to_vec()).is_ok());
    for (path, reason) in [
        (r"C:\icons.png\x", "The image format could not be determined"),
        ("x.", "The image format could not be determined"),
        (".png", "The image format could not be determined"),
        ("x.txt", "The file extension `.\"txt\"` was not recognized as an image format"),
    ] {
        let error = PngImage::load(path, &PNG.to_vec()).expect_err("no format");
        assert_eq!(error, format!("failed to load icon '{path}': {reason}"));
    }
    assert!(PngImage::load("x.jpg", &PNG.to_vec()).is_err());
    assert_eq!((decoded.width, decoded.height), (1, 1));
    assert_eq!(decoded.bgra, [0, 0, 128, 128]);
    let icons = IconSet {
        deco: None,
        start: None,
        wait: None,
        timer: Some(image),
    };
    assert!(icons.get("timer").is_some());
    assert!(icons.get("deco").is_none());
    assert!(icons.get("other").is_none());
    assert_eq!(icon_file("timer"), "timer.png");
}

#[test]
fn tips_and_menu_texts_are_short() {
    assert_eq!(truncate_menu_text("short"), "short");
    let long = "x".repeat(70);
    assert_eq!(truncate_menu_text(&long).chars().count(), 64);
    assert_eq!(tooltip_text("").last(), Some(&0));
    let tip = tooltip_text(DEFAULT_TIP);
    assert_eq!(tip.len(), 128);
    let length = tip.iter().position(|unit| *unit == 0).expect("an end");
    assert_eq!(text::decode_utf16(&tip, length), DEFAULT_TIP);
}

#[test]
fn texts_survive_utf16() {
    let units = text::encode_utf16("a\u{1f600}b");
    assert_eq!(units, [0x61, 0xd83d, 0xde00, 0x62]);
    assert_eq!(text::decode_utf16(&units, 4), "a\u{1f600}b");
    assert_eq!(text::decode_utf16(&units, 2), "a\u{fffd}");
}

#[test]
fn profile_names_are_cleaned() {
    for (value, name) in [
        ("  my: profile?  ", "my_ profile_"),
        ("plain", "plain"),
        (" \t ", "profile"),
        ("", "profile"),
        (r#"\/:*?"<>|"#, "_________"),
    ] {
        assert_eq!(sanitize_profile_base(value), name);
        assert_eq!(sanitize_profile_base(name), name);
    }
}

#[test]
fn profiles_are_listed_in_order() {
    let file = |filename: &str, counts: Option<Vec<i32>>| ProfileFile {
        filename: filename.to_string(),
        frame_counts: counts,
    };
    let files = vec![
        file("b_30.json", Some(vec![30])),
        file("a_60.json", Some(vec![60])),
    ];
    let listed = ProfileStore::list(&files, Some("b_30.json"));
    let names: Vec<&str> = listed.iter().map(|profile| profile.filename.as_str()).collect();
    assert_eq!(names, ["a_60.json", "b_30.json"]);
    assert!(listed[1].is_active);
    let saved = ProfileStore::saved_filename("x", &vec![30]);
    assert!(saved.starts_with("x"));
    assert!(saved.ends_with(".json"));
}

fn startup(previous: Option<RulerConfig>) -> Startup {
    Startup {
        config_path: "config.json".to_string(),
        phase: "ready".to_string(),
        previous,
        debug: false,
    }
}

#[test]
fn start_goes_from_target_to_configuration() {
    let mut config = minimal_config(None);
    assert!(matches!(
        resolve_startup_config(&startup(Some(config.clone())), StartupEvent::Begin, "no"),
        StartupAction::RunWizard { debug: false }
    ));
    config.auto_select_target = true;
    let start = startup(Some(config.clone()));
    assert!(matches!(
        resolve_startup_config(&start, StartupEvent::Begin, "no"),
        StartupAction::SelectTarget
    ));
    config.capture_type = "replay".to_string();
    assert!(matches!(
        resolve_startup_config(&startup(Some(config.clone())), StartupEvent::Begin, "no"),
        StartupAction::Start(_)
    ));
    assert!(matches!(
        resolve_startup_config(&start, StartupEvent::WizardClosed(None), "closed"),
        StartupAction::Start(status) if status.loaded_config.is_none()
    ));
    let failed = StartupEvent::Saved(config.clone(), Err("disk full".to_string()), Ok(None));
    match resolve_startup_config(&start, failed, "no") {
        StartupAction::Fail(error) => assert_eq!(error.text(), "disk full"),
        _ => panic!("expected a failure"),
    }
    assert!(matches!(
        resolve_startup_config(&start, StartupEvent::WizardClosed(Some(config)), "no"),
        StartupAction::Save(_)
    ));
}

#[test]
fn saved_configurations_start_under_the_scale_of_the_game() {
    let start = startup(None);
    let mut window = minimal_config(None);
    window.capture_type = "window".to_string();
    let begin = |config: &RulerConfig, registry: Result<Option<Real64>, String>| {
        let saved = StartupEvent::Saved(config.clone(), Ok(()), registry);
        match resolve_startup_config(&start, saved, "no") {
            StartupAction::Start(status) => status.loaded_config.expect("a configuration"),
            _ => panic!("expected a start"),
        }
    };
    assert_eq!(begin(&window, Ok(Some(number(0.5)))).ui_scaler, Some(number(0.5)));
    assert_eq!(begin(&window, Ok(Some(number(7.0)))).ui_scaler, Some(number(1.0)));
    assert_eq!(begin(&window, Ok(None)).ui_scaler, None);
    assert_eq!(begin(&window, Err("no key".to_string())).ui_scaler, None);
    let replay = minimal_config(None);
    assert_eq!(begin(&replay, Ok(Some(number(0.5)))).ui_scaler, None);

    window.ui_scaler = Some(number(0.25));
    let status = saved_status("c.json", window, &Ok(Some(number(0.5))));
    assert_eq!(status.config_path, "c.json");
    let config = status.loaded_config.expect("a configuration");
    assert_eq!(config.ui_scaler, Some(number(0.25)));
}

#[test]
fn configuration_files_are_judged() {
    let none: Result<Option<Real64>, String> = Ok(None);
    let status = determine_startup_status("c.json", ConfigFile::Missing, &none, Ok(()));
    assert!(status.loaded_config.is_none());
    let broken = ConfigFile::Invalid("bad".to_string());
    let status = determine_startup_status("c.json", broken, &none, Ok(()));
    assert!(status.detail.contains("bad"));
    let loaded = ConfigFile::Loaded(minimal_config(None));
    let status = determine_startup_status("c.json", loaded, &none, Ok(()));
    assert!(status.loaded_config.is_some());

    let mut window = minimal_config(None);
    window.capture_type = "window".to_string();
    let scaled = apply_runtime_ui_scaler(window, &Ok(Some(number(1.5))));
    assert_eq!(scaled.ui_scaler, Some(number(1.0)));
}

#[test]
fn targets_of_last_time_are_found_again() {
    let mut config = minimal_config(None);
    assert!(remembered_target(&config).is_err());
    config.target_fingerprint = Some("adb:x".to_string());
    assert_eq!(remembered_target(&config).as_deref(), Ok("adb:x"));
    assert_eq!(find_target(&Vec::new(), "adb:x"), None);
}

#[test]
fn arguments_are_quoted_where_needed() {
    assert_eq!(quote_arg("plain"), "plain");
    assert_eq!(quote_arg(""), "\"\"");
    assert_eq!(quote_arg("a b"), "\"a b\"");
    assert_eq!(quote_arg("a\"b"), "\"a\\\"b\"");
    assert!(wants_debug(&vec!["-d".to_string()]));
    assert!(!wants_debug(&vec!["debug".to_string()]));
}
