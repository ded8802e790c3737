//! The overlay, the timer behind it and the worker.
use ruler_app::analyzer_consumer::{
    analyze_and_publish, dropped_since_previous, publish_cursor_blocked, AnalyzerCommand,
    AnalyzerContext, BattlePhase, BattleState, EngineCall, FrameInfo, FrameResult, PixelFormat,
};
use ruler_app::commands::UiCommand;
use ruler_app::config::RulerConfig;
use ruler_app::i18n::I18n;
use ruler_app::number::{scale_percent, Real64};
use ruler_app::overlay::geometry::{
    compute_reset_phase, initial_position, legacy_height, outer_area_should_pass_through_at,
    smoothstep, Scale, LOGICAL_PANEL_H, LOGICAL_TOOLBAR_RIGHT_PAD, LOGICAL_TOOLBAR_TOP_GAP,
    LOGICAL_TOOLBAR_W, LOGICAL_W, RESET_CONTRACT_MS, RESET_EXPAND_MS, RESET_HOLD_MS,
};
use ruler_app::overlay::hud::{
    advance_reset_anim, button_command, hud_properties, tray_tip, HudButton, ResetCover,
};
use ruler_app::overlay::menu::{
    display_mode_index, index_to_display_mode, index_to_scale, menu_action, menu_captions,
    menu_logical_height, menu_selections, open_menu, scale_pct_to_index, sync_profiles, MenuAction,
};
use ruler_app::overlay::overlay_placement;
use ruler_app::overlay::pointer::{
    client_xy, decode_wm_char, follows, menu_key, menu_press, wizard_key, Drag, EditKey, KeyAction, Point,
    PressAction,
};
use ruler_app::pc_cursor_guard::{
    cursor_in_client, edges_are_pixels, BarLine, CursorState, LayoutSizes, Rect,
    SelfDrawnCursorGuard, WindowSize,
};
use ruler_app::profiles::{ProfileFile, ProfileStore};
use ruler_app::slint_win::{CoveringColor, PreBgra};
use ruler_app::telemetry::RunTelemetryStats;
use ruler_app::ui_state::{
    format_time_from_frames, parse_timer_input_frames, FrameDisplayMode, OverlayMode, ResetKind,
};
use ruler_app::worker::SharedAppState;
use ruler_app::worker_loop::{
    handle_command, recorder_plan, wait_for_exit, OutsideStep, StepError, WaitEvent,
    WorkerContext, WorkerEffect,
};

/// The place on the screen of a place in the design, at two and a half pixels a unit.
fn scaled(units: u32) -> i32 {
    ((units as f32) * 2.5).round() as i32
}

const SCALE: Scale = Scale { num: 5, den: 2 };

#[test]
fn running_toolbar_zone_stays_hit_testable_below_panel() {
    let x = scaled(LOGICAL_W - LOGICAL_TOOLBAR_RIGHT_PAD - 10);
    let y = scaled(LOGICAL_PANEL_H + LOGICAL_TOOLBAR_TOP_GAP + 10);

    assert!(!outer_area_should_pass_through_at(x, y, &SCALE, true));
}

#[test]
fn leftmost_toolbar_button_zone_stays_hit_testable() {
    let toolbar_left = LOGICAL_W - LOGICAL_TOOLBAR_W - LOGICAL_TOOLBAR_RIGHT_PAD;
    let x = scaled(toolbar_left + 12);
    let y = scaled(LOGICAL_PANEL_H + LOGICAL_TOOLBAR_TOP_GAP + 10);

    assert!(!outer_area_should_pass_through_at(x, y, &SCALE, true));
}

#[test]
fn running_toolbar_bridge_stays_hit_testable() {
    let x = scaled(LOGICAL_W - LOGICAL_TOOLBAR_RIGHT_PAD - 10);
    let y = scaled(LOGICAL_PANEL_H + 1);

    assert!(!outer_area_should_pass_through_at(x, y, &SCALE, true));
}

#[test]
fn lower_transparent_area_outside_toolbar_passes_through() {
    let x = scaled(20);
    let y = scaled(LOGICAL_PANEL_H + LOGICAL_TOOLBAR_TOP_GAP + 10);

    assert!(outer_area_should_pass_through_at(x, y, &SCALE, true));
}

#[test]
fn toolbar_zone_passes_through_when_not_running() {
    let x = scaled(LOGICAL_W - LOGICAL_TOOLBAR_RIGHT_PAD - 10);
    let y = scaled(LOGICAL_PANEL_H + LOGICAL_TOOLBAR_TOP_GAP + 10);

    assert!(outer_area_should_pass_through_at(x, y, &SCALE, false));
}

fn fraction(scale: f32) -> Scale {
    let bits = scale.to_bits();
    Scale {
        num: (bits & 0x007f_ffff) | 0x0080_0000,
        den: 1 << (150 - (bits >> 23)),
    }
}

#[test]
fn pixels_are_judged_in_single_precision() {
    let mut scale = 0.11f32;
    while scale < 6.0 {
        let fraction = fraction(scale);
        for y in 0..400 {
            let panel = (56.0 * scale).round() as i32;
            for x in [-1, 0, 71, 72, 73, 90, 158, 205, 206, 207, 360, 515, 1000] {
                let (a, b) = (x as f32 / scale, y as f32 / scale);
                let over = a >= 72.0 && a < 206.0 && b >= 56.0 && b < 82.0;
                let through = y >= panel && !over;
                assert_eq!(outer_area_should_pass_through_at(x, y, &fraction, true), through);
            }
        }
        scale *= 1.037;
    }
    let large = i32::MAX;
    assert!(outer_area_should_pass_through_at(large, large, &SCALE, true));
    assert!(!outer_area_should_pass_through_at(0, -1, &SCALE, false));
}

#[test]
fn smoothstep_hits_endpoints_and_midpoint() {
    assert_eq!(smoothstep(0, 1), 0);
    assert_eq!(smoothstep(1, 1), 1);
    assert_eq!(smoothstep(5, 10) as f32 / 1000.0, 0.5);
}

#[test]
fn smoothstep_clamps_outside_unit_interval() {
    assert_eq!(smoothstep(-5, 10) as f32 / 1000.0, 0.0);
    assert_eq!(smoothstep(15, 10) as f32 / 1000.0, 1.0);
}

#[test]
fn reset_phase_expand_starts_empty() {
    let p = compute_reset_phase(0);
    assert_eq!(p.cover, 0);
    assert_eq!(p.top, 0);
    assert_eq!(p.text_opacity, 0);
    assert!(!p.done);
}

#[test]
fn reset_phase_expand_end_is_full() {
    // At the boundary the expand phase should report full cover.
    let p = compute_reset_phase(RESET_EXPAND_MS);
    assert_eq!(p.cover, p.whole);
    assert_eq!(p.top, 0);
    assert!(!p.done);
}

#[test]
fn reset_phase_hold_is_full_and_centered() {
    let mid_hold = RESET_EXPAND_MS + RESET_HOLD_MS / 2;
    let p = compute_reset_phase(mid_hold);
    assert_eq!(p.cover, p.whole);
    assert_eq!(p.top, 0);
    assert_eq!(p.text_opacity, p.whole);
    assert!(!p.done);
}

#[test]
fn reset_phase_contract_keeps_bottom_edge_pinned() {
    // During the contract phase the bottom edge (top + cover) must
    // stay at the whole so the bar wipes downward without sliding.
    for ms in 0..RESET_CONTRACT_MS {
        let elapsed = RESET_EXPAND_MS + RESET_HOLD_MS + ms;
        let p = compute_reset_phase(elapsed);
        assert!(!p.done, "phase should not be done at {elapsed}ms");
        assert_eq!(
            p.top + p.cover,
            p.whole,
            "bottom edge drifted at {elapsed}ms: top={} cover={}",
            p.top,
            p.cover
        );
        assert!(p.cover <= p.whole);
    }
}

#[test]
fn reset_phase_done_after_total_duration() {
    let total = RESET_EXPAND_MS + RESET_HOLD_MS + RESET_CONTRACT_MS;
    let p = compute_reset_phase(total);
    assert!(p.done);
}

#[test]
fn parse_timer_input_frames_accepts_timecode_when_minutes_seconds_and_frames() {
    assert_eq!(parse_timer_input_frames("01:02:03"), Some(1_863));
    assert_eq!(parse_timer_input_frames("1:2:3"), Some(1_863));
}

#[test]
fn parse_timer_input_frames_accepts_bare_frames_when_single_number() {
    assert_eq!(parse_timer_input_frames("42"), Some(42));
    assert_eq!(parse_timer_input_frames(" 0007 "), Some(7));
}

#[test]
fn parse_timer_input_frames_rejects_invalid_or_out_of_range_timecodes() {
    assert_eq!(parse_timer_input_frames(""), None);
    assert_eq!(parse_timer_input_frames("1:2"), None);
    assert_eq!(parse_timer_input_frames("1:60:0"), None);
    assert_eq!(parse_timer_input_frames("1:0:30"), None);
    assert_eq!(parse_timer_input_frames("-1"), None);
}

#[test]
fn shown_times_read_back() {
    assert_eq!(format_time_from_frames(1_863), "01:02:03");
    assert_eq!(parse_timer_input_frames(&format_time_from_frames(179_999)), Some(179_999));
    for mode in [
        FrameDisplayMode::ZeroToNMinusOne,
        FrameDisplayMode::ZeroToN,
        FrameDisplayMode::OneToN,
    ] {
        assert_eq!(FrameDisplayMode::from_api(mode.as_config()), Some(mode));
        assert_eq!(FrameDisplayMode::from_config(Some(mode.as_config())), mode);
        assert_eq!(index_to_display_mode(display_mode_index(mode)), mode);
    }
    assert_eq!(FrameDisplayMode::ZeroToNMinusOne.display_total(30), "/29");
    assert_eq!(FrameDisplayMode::OneToN.display_frame(Some(14)), "15");
}

#[test]
fn overlay_starts_where_it_was_left() {
    assert_eq!(initial_position(Some((5, 6)), 1920, 1080, 500, 200), (5, 6));
    assert_eq!(initial_position(Some((1900, -6)), 1920, 1080, 500, 200), (1420, 0));
    assert_eq!(initial_position(None, 1920, 1080, 500, 200), (1370, 780));
    assert_eq!(legacy_height(0, 100), 81);
    assert_eq!(legacy_height(600, 0), 270);
    assert_eq!(overlay_placement(&None).pos, None);
    let mut config = config();
    config.overlay_pos_x = Some(1);
    config.overlay_pos_y = Some(2);
    assert_eq!(overlay_placement(&Some(config)).pos, Some((1, 2)));
}

#[test]
fn window_follows_the_cursor() {
    let mut drag = Drag::new();
    drag.press(Point { x: 10, y: 10 }, Point { x: 100, y: 200 });
    assert!(drag.move_to(Point { x: 30, y: 5 }).is_none());
    drag.set_on_handle(true);
    let place = drag.move_to(Point { x: 30, y: 5 });
    assert_eq!(place.map(|p| (p.x, p.y)), Some((120, 195)));
    assert!(drag.release());
    assert!(!drag.release());
    drag.press(Point { x: 0, y: 0 }, Point { x: 7, y: 8 });
    assert!(drag.move_by_handle(Point { x: 9, y: 9 }).is_none());
    assert!(!drag.moved);
    drag.set_on_handle(true);
    assert!(drag.move_by_handle(Point { x: 2, y: 2 }).is_none());
    assert_eq!(
        drag.move_by_handle(Point { x: 3, y: 0 }).map(|p| (p.x, p.y)),
        Some((10, 8))
    );
}

#[test]
fn windows_can_be_dragged_to_the_edge() {
    let mut drag = Drag::new();
    drag.press(Point { x: 0, y: 0 }, Point { x: i32::MIN + 5, y: 0 });
    drag.set_on_handle(true);
    let edge = Point { x: -5, y: 0 };
    assert!(follows(&drag, edge));
    assert_eq!(drag.move_to(edge).map(|p| p.x), Some(i32::MIN));
    let beyond = Point { x: -6, y: 0 };
    assert!(!follows(&drag, beyond));
    drag.set_on_handle(false);
    assert!(follows(&drag, beyond));
    assert!(drag.move_to(beyond).is_none());
    assert!(!follows(&drag, Point { x: i32::MIN, y: 0 }));
}

#[test]
fn only_stepping_back_needs_a_cycle_that_can_be_taken_away() {
    let mut state = SharedAppState::default();
    state.inner.ui.total_frames_in_cycle = i32::MIN;
    let forward = UiCommand::AdjustTimer { frames: i32::MIN };
    assert_eq!(button_command(HudButton::ForwardCycle, &state.inner.ui), forward);
    assert_eq!(button_command(HudButton::Lap, &state.inner.ui), UiCommand::ToggleLapTimer);
    let outcome = menu_action(&mut state, MenuAction::Timer(4));
    assert_eq!(outcome.command, Some(forward));
    assert_eq!(menu_action(&mut state, MenuAction::Exit).command, Some(UiCommand::Exit));
}

#[test]
fn scales_are_shown_in_whole_percent() {
    let percent = |scale: f64| {
        let mult = scale as f32;
        assert_eq!(
            scale_percent(Real64 { bits: scale.to_bits() }),
            (mult * 100.0).round().clamp(50.0, 400.0) as u16,
            "{scale}"
        );
        scale_percent(Real64 { bits: scale.to_bits() })
    };
    assert_eq!(percent(1.25), 125);
    assert_eq!(percent(0.0), 50);
    assert_eq!(percent(1.005), 101);
    assert_eq!(percent(9.0), 400);
    assert_eq!(percent(-1.0), 50);
    assert_eq!(percent(f64::NAN), 0);
    for step in 0..20_000u32 {
        percent(f64::from(step) * 0.000_25);
        percent(f64::from(step as f32 * 0.000_5));
        percent(f64::from(step) * 0.005 + 0.000_000_01);
    }
    for extreme in [f64::INFINITY, f64::NEG_INFINITY, f64::MAX, 1e38, 3.5e36, 1e-300, -0.0, 5e-324] {
        percent(extreme);
    }
}

#[test]
fn typed_pairs_are_characters() {
    let mut pending = 0;
    assert_eq!(decode_wm_char(&mut pending, 0x61).as_deref(), Some("a"));
    assert_eq!(decode_wm_char(&mut pending, 0xd83d), None);
    assert_eq!(decode_wm_char(&mut pending, 0xde00).as_deref(), Some("\u{1f600}"));
    assert_eq!(client_xy(0xffff_0003), (3, -1));
    assert_eq!(wizard_key(0x1b), KeyAction::Close);
    assert_eq!(menu_key(0x1b, true, false), KeyAction::Abort);
    assert_eq!(menu_key(0x08, true, false), KeyAction::Edit(EditKey::Backspace));
    assert_eq!(menu_press(-1, 0, 10, 10, true), PressAction::Close);
    assert_eq!(menu_press(1, 1, 10, 10, true), PressAction::Press);
    assert_eq!(menu_press(1, 1, 10, 10, false), PressAction::Nothing);
}

#[test]
fn resets_are_covered_once() {
    let i18n = I18n::load(None, "en", None, None);
    let mut cover = ResetCover {
        last_reset_pulse: 4,
        anim: None,
    };
    assert!(advance_reset_anim(&mut cover, 4, ResetKind::Manual, 10, &i18n).is_none());
    let frame = advance_reset_anim(&mut cover, 5, ResetKind::Auto, 1_000, &i18n).expect("a cover");
    assert_eq!(frame.text, "overlay.reset.auto");
    assert_eq!(frame.phase.cover, 0);
    assert!(advance_reset_anim(&mut cover, 5, ResetKind::Auto, 1_300, &i18n).is_some());
    assert!(advance_reset_anim(&mut cover, 5, ResetKind::Auto, 1_680, &i18n).is_none());
}

#[test]
fn buttons_step_by_a_cycle() {
    let mut state = SharedAppState::default();
    state.inner.ui.total_frames_in_cycle = 30;
    let ui = &state.inner.ui;
    assert_eq!(
        button_command(HudButton::BackCycle, ui),
        UiCommand::AdjustTimer { frames: -30 }
    );
    assert_eq!(button_command(HudButton::Lap, ui), UiCommand::ToggleLapTimer);
    let i18n = I18n::load(None, "en", None, None);
    let hud = hud_properties(ui, &i18n);
    assert_eq!(hud.mode, OverlayMode::Booting);
    assert_eq!(tray_tip(ui), ui.message);
}

#[test]
fn menu_marks_and_carries_out_choices() {
    for index in 0..4 {
        assert_eq!(scale_pct_to_index(index_to_scale(index).1), index);
        assert_eq!(scale_percent(index_to_scale(index).0), index_to_scale(index).1);
    }
    assert_eq!(f64::from_bits(index_to_scale(2).0.bits), 1.25);
    let mut state = SharedAppState::default();
    let outcome = menu_action(&mut state, MenuAction::SetScale(3));
    assert_eq!(
        outcome.command,
        Some(UiCommand::SetOverlayScale(Real64 {
            bits: 1.5f64.to_bits()
        }))
    );
    assert_eq!(state.inner.ui.overlay_scale_pct, 150);
    assert_eq!(menu_selections(&state.inner.ui).scale_index, 3);
    let outcome = menu_action(&mut state, MenuAction::Exit);
    assert_eq!(outcome.command, Some(UiCommand::Exit));
    assert!(outcome.close);
    assert!(state.cancel_calibration);
    let outcome = menu_action(&mut state, MenuAction::About);
    assert!(outcome.page.is_some());
    let outcome = menu_action(&mut state, MenuAction::SelectProfile(0));
    assert_eq!(outcome.command, None);

    let i18n = I18n::load(None, "en", None, None);
    assert!(!menu_captions(&i18n).is_empty());
    let (mut menu, rows) = open_menu(&state.inner.ui);
    assert!(rows.is_empty());
    assert!(sync_profiles(&mut menu, &state.inner.ui).rows.is_none());
    assert!(menu_logical_height(3) > menu_logical_height(0));
}

#[test]
fn pixels_are_blended() {
    let mut pixel = PreBgra::from_rgb(10, 20, 30);
    assert_eq!(pixel, PreBgra { b: 30, g: 20, r: 10, a: 255 });
    pixel.blend(CoveringColor {
        red: 51,
        green: 0,
        blue: 0,
        alpha: 51,
    });
    assert_eq!(pixel, PreBgra { b: 24, g: 16, r: 59, a: 255 });
    assert_eq!(PreBgra::background(), PreBgra { b: 0, g: 0, r: 0, a: 0 });
}

fn sizes() -> LayoutSizes {
    LayoutSizes {
        hotspot_x: 2,
        hotspot_y: 2,
        cursor_width: 20,
        cursor_height: 20,
        bar_half_height: 3,
        cost_area: Rect {
            left: 1200,
            top: 500,
            right: 1270,
            bottom: 560,
        },
        cost_area_pad: 4,
    }
}

#[test]
fn cursors_over_the_cost_pause_the_timer() {
    let window = Some(WindowSize {
        width: 1280,
        height: 720,
    });
    let bar = BarLine {
        x1: 1100,
        x2: 1280,
        y: 580,
    };
    let at = |x: i32, y: i32| cursor_in_client(1280, 720, x, y, Some(false), true);
    let mut guard = SelfDrawnCursorGuard::new(
        Real64 {
            bits: 1f64.to_bits(),
        },
        Real64 {
            bits: f64::NAN.to_bits(),
        },
    );
    assert_eq!(f64::from_bits(guard.cursor_size.bits), 1.0);
    assert!(at(1280, 5).is_none());
    let over: Option<CursorState> = at(1150, 575);
    assert!(edges_are_pixels(1280, 720, &bar, &over.unwrap(), &sizes()));
    let phase = BattlePhase::Other;
    assert!(guard.should_pause_for_frame(phase, window, Some(bar), over, &sizes()));
    assert!(!guard.should_pause_for_frame(phase, window, Some(bar), at(10, 10), &sizes()));
    assert!(!guard.should_pause_for_frame(
        BattlePhase::NotInBattle,
        window,
        Some(bar),
        over,
        &sizes()
    ));
    guard.observe_native_cursor(true);
    assert!(guard.self_drawn_enabled);
    let a = Rect { left: 0, top: 0, right: 2, bottom: 2 };
    let b = Rect { left: 2, top: 0, right: 3, bottom: 2 };
    assert!(!a.intersects(b));
    assert!(a.intersects(Rect { left: 1, ..b }));
}

fn frame(id: u64) -> FrameInfo {
    FrameInfo {
        id,
        width: 1280,
        height: 720,
        format: PixelFormat::Rgba,
        capture_timestamp_ns: id * 1_000,
        capture_duration_us: 5,
    }
}

fn result(elapsed_frames: i32) -> FrameResult {
    FrameResult {
        battle_state: BattleState {
            name: "1x_running".to_string(),
            phase: BattlePhase::Other,
        },
        logical_frame: Some(elapsed_frames % 30),
        total_frames_in_cycle: 30,
        elapsed_frames,
        raw_pixel_width: Some(7),
        cost_is_negative: false,
        timing_debug: None,
    }
}

#[test]
fn analyzed_frames_are_published_and_remembered() {
    let mut state = SharedAppState::default();
    let mut ctx = AnalyzerContext::new(FrameDisplayMode::ZeroToNMinusOne);
    let mut stats = RunTelemetryStats {
        analyzed_frames: 0,
        action_restarts: 0,
    };
    analyze_and_publish(&mut state, &mut ctx, &mut stats, &frame(10), Ok(result(45)));
    analyze_and_publish(&mut state, &mut ctx, &mut stats, &frame(13), Ok(result(46)));
    assert_eq!(stats.analyzed_frames, 2);
    assert_eq!(ctx.last_elapsed_frames, 46);
    assert_eq!(state.inner.api.frame_id, Some(13));
    assert_eq!(state.inner.api.dropped_since_previous, 2);
    assert_eq!(state.inner.ui.display_frame, "16");
    assert_eq!(state.inner.ui.time_str, "00:01:16");
    assert_eq!(state.api_history.len(), 2);
    assert_eq!(dropped_since_previous(Some(10), 13), 2);
    assert_eq!(dropped_since_previous(None, 13), 0);

    publish_cursor_blocked(&mut state, &mut ctx, &frame(14), "1x_running");
    assert!(state.inner.ui.cursor_blocked);
}

#[test]
fn resets_can_be_undone() {
    let mut ctx = AnalyzerContext::new(FrameDisplayMode::ZeroToNMinusOne);
    ctx.last_elapsed_frames = 90;
    assert_eq!(ctx.apply_command(AnalyzerCommand::ResetTimer), [EngineCall::ResetTimer]);
    assert_eq!(ctx.last_elapsed_frames, 0);
    assert_eq!(
        ctx.apply_command(AnalyzerCommand::UndoResetTimer),
        [EngineCall::AdjustTimer { frames: 90 }]
    );
    assert_eq!(ctx.last_elapsed_frames, 90);
    assert!(ctx.apply_command(AnalyzerCommand::UndoResetTimer).is_empty());
    ctx.apply_command(AnalyzerCommand::SetTimer { frames: 60 });
    assert_eq!(ctx.last_elapsed_frames, 60);
    ctx.apply_command(AnalyzerCommand::ToggleLapTimer);
    assert_eq!(ctx.lap_start_frame, Some(60));
    assert!(ctx.publishes(true));
    assert!(!ctx.publishes(false));
}

fn config() -> RulerConfig {
    RulerConfig {
        uuid: None,
        telemetry_enabled: None,
        screenshot_delay_ms: None,
        capture_type: "adb".to_string(),
        install_path: None,
        instance_index: None,
        device_id: None,
        window_handle: None,
        window_title: None,
        window_class: None,
        active_calibration_profile: None,
        frame_display_mode: None,
        language: None,
        auto_select_target: false,
        target_fingerprint: None,
        overlay_pos_x: None,
        overlay_pos_y: None,
        overlay_scale: None,
        ui_scaler: None,
        debug_recording_enabled: true,
        debug_recording_video: true,
        debug_recording_csv: false,
        trace_logging_enabled: false,
        log_output_dir: None,
        replay_video_path: None,
        replay_fps: None,
    }
}

fn worker() -> WorkerContext {
    let profiles = ProfileStore {
        calibration_dir: "C:/state/calibration".to_string(),
    };
    WorkerContext::new(config(), profiles)
}

#[test]
fn commands_change_and_save_the_configuration() {
    let mut state = SharedAppState::default();
    let mut ctx = worker();
    let files: Vec<ProfileFile> = Vec::new();
    let command = || UiCommand::UseProfile {
        filename: "a.json".to_string(),
    };
    assert!(matches!(
        ctx.outside_step(&command()),
        OutsideStep::FindFile { path } if path == r"C:/state/calibration\a.json"
    ));
    let result = handle_command(&mut state, &mut ctx, command(), Ok(()), &files);
    assert!(result.keep_running);
    assert_eq!(ctx.config.active_calibration_profile.as_deref(), Some("a.json"));
    assert!(result
        .effects
        .iter()
        .any(|effect| matches!(effect, WorkerEffect::SaveConfig { .. })));

    let lost = Err(StepError {
        not_found: true,
        message: "gone".to_string(),
    });
    let mut other = worker();
    handle_command(&mut state, &mut other, command(), lost, &files);
    assert_eq!(other.active_profile, None);

    let mode = UiCommand::SetDisplayMode(FrameDisplayMode::OneToN);
    handle_command(&mut state, &mut ctx, mode, Ok(()), &files);
    assert_eq!(ctx.config.frame_display_mode.as_deref(), Some("1_to_n"));
    let result = handle_command(&mut state, &mut ctx, UiCommand::Exit, Ok(()), &files);
    assert!(!result.keep_running);
}

#[test]
fn placement_is_found_again() {
    let mut state = SharedAppState::default();
    let mut ctx = worker();
    let files: Vec<ProfileFile> = Vec::new();
    let moved = UiCommand::SaveOverlayPlacement { x: 30, y: 40 };
    handle_command(&mut state, &mut ctx, moved, Ok(()), &files);
    let scale = Real64 { bits: 1.25f64.to_bits() };
    let resized = UiCommand::SetOverlayScale(scale);
    handle_command(&mut state, &mut ctx, resized, Ok(()), &files);
    assert_eq!(state.inner.ui.overlay_scale_pct, 125);
    let placement = overlay_placement(&Some(ctx.config));
    assert_eq!(placement.pos, Some((30, 40)));
    assert_eq!(placement.scale_or_default(), scale);
    assert_eq!(initial_position(placement.pos, 1920, 1080, 500, 200), (30, 40));
}

#[test]
fn recordings_follow_the_configuration() {
    let plan = recorder_plan(&config()).expect("recording is on");
    assert!(plan.record_video && !plan.record_csv);
    let mut off = config();
    off.debug_recording_enabled = false;
    assert!(recorder_plan(&off).is_none());
    let mut state = SharedAppState::default();
    assert!(wait_for_exit(&mut state, WaitEvent::Command(UiCommand::ResetTimer)));
    assert!(!wait_for_exit(&mut state, WaitEvent::Command(UiCommand::Exit)));
    assert!(state.inner.ui.should_exit);
}
