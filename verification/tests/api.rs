//! The programming interface: requests, answers and what is sent to clients.
use ruler_app::api::payload::{ApiFramePayload, ApiPayload};
use ruler_app::api::protocol::{parse_client_request, ClientAction, ClientRequest, RequestError};
use ruler_app::api::response::{
    command_response, handle_client_text, snapshot_json, ClientStep,
};
use ruler_app::api::server::{
    classify_connection, client_event, http_response_head, remember_payload, should_broadcast,
    ClientEvent, ClientOutcome, ConnectionKind,
};
use ruler_app::api::ApiRuntime;
use ruler_app::commands::UiCommand;
use ruler_app::json::{JsonItem, MemberOrder};
use ruler_app::number::Real64;
use ruler_app::ui_state::{ApiFrameLookup, ApiFrameRecord, FrameDisplayMode};
use ruler_app::worker::SharedAppState;
use serde_json::Value;
use std::collections::VecDeque;

fn accepted(text: &str) -> ClientRequest {
    parse_client_request(text).expect("valid request")
}

fn refused(text: &str) -> RequestError {
    parse_client_request(text).expect_err("request should fail")
}

fn text_id(id: &str) -> Option<JsonItem> {
    Some(JsonItem::Text(id.to_string()))
}

fn json(text: &str) -> Value {
    serde_json::from_str(text).expect("well-formed answer")
}

fn reply(step: ClientStep) -> Value {
    match step {
        ClientStep::Reply(text) => json(&text),
        ClientStep::Send { .. } => panic!("expected a reply"),
    }
}

fn frame_record(frame_id: u64, dropped_since_previous: u64) -> ApiFrameRecord {
    ApiFrameRecord {
        frame_id,
        sample_index: frame_id,
        dropped_since_previous,
        is_running: true,
        current_frame: Some(frame_id as i32),
        total_frames_in_cycle: 30,
        total_elapsed_frames: frame_id as i32,
        active_profile: Some("normal".to_string()),
        raw_pixel_width: Some(frame_id as i32),
        cost_is_negative: false,
        battle_state: "battle".to_string(),
        capture_width: 1280,
        capture_height: 720,
        capture_format: "rgba".to_string(),
        capture_timestamp_ns: frame_id * 1_000,
        capture_duration_us: 1_500,
        timing_debug: None,
    }
}

fn assert_found_frame(
    lookup: &ApiFrameLookup,
    requested_frame_id: u64,
    actual_frame_id: u64,
    fell_back: bool,
    fallback_reason: Option<&str>,
) {
    match lookup {
        ApiFrameLookup::Found {
            requested_frame_id: found_requested,
            record,
            fell_back: found_fell_back,
            fallback_reason: found_reason,
        } => {
            assert_eq!(*found_requested, requested_frame_id);
            assert_eq!(record.frame_id, actual_frame_id);
            assert_eq!(*found_fell_back, fell_back);
            assert_eq!(found_reason.as_deref(), fallback_reason);
        }
        ApiFrameLookup::NotRetained { .. } => panic!("expected retained frame"),
    }
}

#[test]
fn parses_snapshot_and_frame_requests() {
    let snapshot = parse_client_request(r#"{"type":"getSnapshot","requestId":"snap"}"#)
        .expect("valid snapshot request");
    assert_eq!(snapshot.request_id, text_id("snap"));
    assert_eq!(snapshot.action, ClientAction::GetSnapshot);

    let frame = parse_client_request(r#"{"type":"getFrame","requestId":"frame","frameId":42}"#)
        .expect("valid frame request");
    assert_eq!(frame.request_id, text_id("frame"));
    assert_eq!(frame.action, ClientAction::GetFrame { frame_id: 42 });
}

#[test]
fn parses_control_commands() {
    let cases = [
        (
            r#"{"type":"prepareCalibration"}"#,
            ClientAction::SendCommand(UiCommand::PrepareCalibration),
        ),
        (
            r#"{"type":"startCalibration"}"#,
            ClientAction::SendCommand(UiCommand::StartCalibration),
        ),
        (
            r#"{"type":"useProfile","filename":"profile.json"}"#,
            ClientAction::SendCommand(UiCommand::UseProfile {
                filename: "profile.json".to_string(),
            }),
        ),
        (
            r#"{"type":"renameProfile","old":"old.json","newBase":"new"}"#,
            ClientAction::SendCommand(UiCommand::RenameProfile {
                old: "old.json".to_string(),
                new_base: "new".to_string(),
            }),
        ),
        (
            r#"{"type":"deleteProfile","filename":"profile.json"}"#,
            ClientAction::SendCommand(UiCommand::DeleteProfile {
                filename: "profile.json".to_string(),
            }),
        ),
        (
            r#"{"type":"setDisplayMode","displayMode":"0_to_n"}"#,
            ClientAction::SendCommand(UiCommand::SetDisplayMode(FrameDisplayMode::ZeroToN)),
        ),
        (
            r#"{"type":"adjustTimer","frames":-30}"#,
            ClientAction::SendCommand(UiCommand::AdjustTimer { frames: -30 }),
        ),
        (
            r#"{"type":"setTimer","frames":75}"#,
            ClientAction::SendCommand(UiCommand::SetTimer { frames: 75 }),
        ),
        (
            r#"{"type":"setTimer","time":"01:02:03"}"#,
            ClientAction::SendCommand(UiCommand::SetTimer { frames: 1_863 }),
        ),
        (
            r#"{"type":"resetTimer"}"#,
            ClientAction::SendCommand(UiCommand::ResetTimer),
        ),
        (
            r#"{"type":"undoResetTimer"}"#,
            ClientAction::SendCommand(UiCommand::UndoResetTimer),
        ),
        (
            r#"{"type":"toggleLapTimer"}"#,
            ClientAction::SendCommand(UiCommand::ToggleLapTimer),
        ),
        (
            r#"{"type":"setOverlayScale","scale":1.25}"#,
            ClientAction::SendCommand(UiCommand::SetOverlayScale(Real64 {
                bits: 1.25f64.to_bits(),
            })),
        ),
        (
            r#"{"type":"saveOverlayPlacement","x":11,"y":22}"#,
            ClientAction::SendCommand(UiCommand::SaveOverlayPlacement { x: 11, y: 22 }),
        ),
    ];

    for (text, expected) in cases {
        let request = parse_client_request(text).expect("valid control request");
        assert_eq!(request.action, expected);
    }
}

#[test]
fn parses_state_actions_that_do_not_map_to_ui_command() {
    let cancel =
        parse_client_request(r#"{"type":"cancelCalibration"}"#).expect("valid cancel request");
    assert_eq!(cancel.action, ClientAction::CancelCalibration);

    let exit = parse_client_request(r#"{"type":"exit"}"#).expect("valid exit request");
    assert_eq!(exit.action, ClientAction::Exit);
}

#[test]
fn parses_set_display_mode_when_mode_is_valid() {
    let request = parse_client_request(r#"{"type":"setDisplayMode","displayMode":"1_to_n"}"#)
        .expect("valid request");

    assert_eq!(
        request.action,
        ClientAction::SendCommand(UiCommand::SetDisplayMode(FrameDisplayMode::OneToN))
    );
}

#[test]
fn rejects_empty_profile_filename() {
    let error = parse_client_request(r#"{"type":"useProfile","filename":" "}"#)
        .expect_err("empty profile should fail");

    assert_eq!(error.code, "invalid_request");
    assert_eq!(error.message, "field 'filename' must not be empty");
}

#[test]
fn rejects_unknown_request_and_echoes_request_id() {
    let error = parse_client_request(r#"{"type":"bogus","requestId":"r1"}"#)
        .expect_err("unknown request should fail");

    assert_eq!(error.request_id, text_id("r1"));
    assert_eq!(error.code, "unknown_request");
    assert_eq!(error.message, "unknown websocket request type 'bogus'");
}

#[test]
fn rejects_invalid_frame_id_and_echoes_request_id() {
    let error = parse_client_request(r#"{"type":"getFrame","requestId":"r2","frameId":-1}"#)
        .expect_err("negative frame id should fail");

    assert_eq!(error.request_id, text_id("r2"));
    assert_eq!(error.code, "invalid_request");
    assert!(error.message.contains("invalid websocket request"));
}

#[test]
fn rejects_invalid_display_mode() {
    let error = parse_client_request(r#"{"type":"setDisplayMode","displayMode":"zero"}"#)
        .expect_err("invalid display mode should fail");

    assert_eq!(error.code, "invalid_request");
    assert_eq!(
        error.message,
        "displayMode must be one of 0_to_n-1, 0_to_n, 1_to_n; got zero"
    );
}

#[test]
fn rejects_invalid_set_timer_payloads() {
    let negative = parse_client_request(r#"{"type":"setTimer","frames":-1}"#)
        .expect_err("negative absolute timer should fail");
    assert_eq!(negative.code, "invalid_request");
    assert_eq!(
        negative.message,
        "field 'frames' must be non-negative; got -1"
    );

    let invalid_time = parse_client_request(r#"{"type":"setTimer","time":"1:60:0"}"#)
        .expect_err("invalid timer text should fail");
    assert_eq!(invalid_time.code, "invalid_request");
    assert_eq!(
        invalid_time.message,
        "field 'time' must be XX:XX:XX or XX frames"
    );
}

#[test]
fn snapshot_json_keeps_legacy_fields_when_enhanced_fields_exist() {
    let mut state = SharedAppState::default();
    {
        let ui = &mut state.inner.ui;
        let api = &mut state.inner.api;
        ui.display_mode = FrameDisplayMode::ZeroToNMinusOne;
        ui.display_frame = "15".to_string();
        ui.display_total = "/29".to_string();
        ui.time_str = "00:02:15".to_string();
        ui.lap_frames = Some(45);
        ui.can_undo_reset = true;
        api.is_running = true;
        api.current_frame = Some(15);
        api.total_frames_in_cycle = 30;
        api.total_elapsed_frames = 75;
        api.active_profile = Some("normal".to_string());
        api.frame_id = Some(42);
        api.sample_index = 7;
        api.raw_pixel_width = Some(123);
        api.cost_is_negative = true;
        api.battle_state = Some("battle".to_string());
        api.capture_width = Some(1280);
        api.capture_height = Some(720);
        api.capture_format = Some("rgba".to_string());
        api.capture_timestamp_ns = Some(9_000);
        api.capture_duration_us = Some(1_500);
    }
    state.record_api_frame(frame_record(42, 0));

    let value: Value = serde_json::from_str(&snapshot_json(&state)).unwrap();

    assert_eq!(value["isRunning"], true);
    assert_eq!(value["currentFrame"], 15);
    assert_eq!(value["totalFramesInCycle"], 30);
    assert_eq!(value["totalElapsedFrames"], 75);
    assert_eq!(value["activeProfile"], "normal");
    assert_eq!(value["apiVersion"], 2);
    assert_eq!(value["frameId"], 42);
    assert_eq!(value["sampleIndex"], 7);
    assert_eq!(value["droppedSincePrevious"], 0);
    assert_eq!(value["rawPixelWidth"], 123);
    assert_eq!(value["costIsNegative"], true);
    assert_eq!(value["battleState"], "battle");
    assert_eq!(value["captureWidth"], 1280);
    assert_eq!(value["captureHeight"], 720);
    assert_eq!(value["captureFormat"], "rgba");
    assert_eq!(value["captureTimestampNs"], 9_000);
    assert_eq!(value["captureDurationUs"], 1_500);
    assert_eq!(value["displayMode"], "0_to_n-1");
    assert_eq!(value["displayFrame"], "15");
    assert_eq!(value["displayTotal"], "/29");
    assert_eq!(value["time"], "00:02:15");
    assert_eq!(value["lapFrames"], 45);
    assert_eq!(value["canUndoReset"], true);
    assert_eq!(value["historyOldestFrameId"], 42);
    assert_eq!(value["historyLatestFrameId"], 42);
}

#[test]
fn api_frame_history_handles_exact_fallback_bounds_and_clear() {
    let mut state = SharedAppState::default();
    state.record_api_frame(frame_record(10, 0));
    state.record_api_frame(frame_record(13, 2));

    assert_found_frame(&state.api_frame_at_or_before(13), 13, 13, false, None);
    assert_found_frame(
        &state.api_frame_at_or_before(12),
        12,
        10,
        true,
        Some("frame_skipped"),
    );
    assert_found_frame(
        &state.api_frame_at_or_before(99),
        99,
        13,
        true,
        Some("requested_after_latest"),
    );

    match state.api_frame_at_or_before(9) {
        ApiFrameLookup::NotRetained { requested_frame_id } => assert_eq!(requested_frame_id, 9),
        ApiFrameLookup::Found { .. } => panic!("expected not-retained lookup"),
    }

    state.clear_api_frame_history();
    assert!(matches!(
        state.api_frame_at_or_before(13),
        ApiFrameLookup::NotRetained {
            requested_frame_id: 13
        }
    ));
}

#[test]
fn websocket_command_request_sends_ui_command_and_echoes_request_id() {
    let mut state = SharedAppState::default();
    let step = handle_client_text(
        &mut state,
        r#"{"type":"adjustTimer","requestId":"r1","frames":-30}"#,
    );

    match step {
        ClientStep::Send { command, request_id, action } => {
            assert_eq!(command, UiCommand::AdjustTimer { frames: -30 });
            let response = json(&command_response(&request_id, Ok(()), action));
            assert_eq!(response["type"], "ack");
            assert_eq!(response["requestId"], "r1");
        }
        ClientStep::Reply(_) => panic!("expected a command"),
    }
}

#[test]
fn websocket_set_timer_request_accepts_timer_text() {
    let mut state = SharedAppState::default();
    let step = handle_client_text(
        &mut state,
        r#"{"type":"setTimer","requestId":"timer","time":"01:02:03"}"#,
    );

    match step {
        ClientStep::Send { command, request_id, action } => {
            assert_eq!(command, UiCommand::SetTimer { frames: 1_863 });
            let response = json(&command_response(&request_id, Ok(()), action));
            assert_eq!(response["type"], "ack");
            assert_eq!(response["requestId"], "timer");
        }
        ClientStep::Reply(_) => panic!("expected a command"),
    }
}

#[test]
fn websocket_get_frame_returns_typed_error_when_history_misses() {
    let mut state = SharedAppState::default();
    let step = handle_client_text(
        &mut state,
        r#"{"type":"getFrame","requestId":7,"frameId":99}"#,
    );

    assert_eq!(
        reply(step),
        json(
            r#"{
                "type": "error",
                "requestId": 7,
                "code": "frame_not_retained",
                "message": "no analyzed frame retained at or before frameId 99"
            }"#
        )
    );
}

#[test]
fn closed_command_channel_is_reported() {
    let mut state = SharedAppState::default();
    let step = handle_client_text(&mut state, r#"{"type":"resetTimer","requestId":[1,2]}"#);
    match step {
        ClientStep::Send { command, request_id, action } => {
            assert_eq!(command, UiCommand::ResetTimer);
            let sent = Err("sending on a closed channel".to_string());
            let response = json(&command_response(&request_id, sent, action));
            assert_eq!(response["type"], "error");
            assert_eq!(response["requestId"], json("[1,2]"));
            assert_eq!(response["code"], "command_channel_closed");
            assert_eq!(
                response["message"],
                "failed to send command to worker: sending on a closed channel"
            );
        }
        ClientStep::Reply(_) => panic!("expected a command"),
    }
}

#[test]
fn exit_and_cancel_stop_a_calibration() {
    let mut state = SharedAppState::default();
    let answer = reply(handle_client_text(&mut state, r#"{"type":"cancelCalibration"}"#));
    assert!(state.cancel_calibration);
    assert_eq!(answer["type"], "ack");

    let mut state = SharedAppState::default();
    let step = handle_client_text(&mut state, r#"{"type":"exit"}"#);
    assert!(state.cancel_calibration);
    assert!(matches!(step, ClientStep::Send { command: UiCommand::Exit, .. }));
}

#[test]
fn questions_leave_the_state_alone() {
    let mut state = SharedAppState::default();
    state.record_api_frame(frame_record(5, 0));
    let wakes = state.wakes;
    let snapshot = reply(handle_client_text(&mut state, r#"{"type":"getSnapshot","requestId":1}"#));
    assert_eq!(snapshot["requestId"], 1);
    let frame = reply(handle_client_text(&mut state, r#"{"type":"getFrame","frameId":6}"#));
    assert_eq!(frame["requestedFrameId"], 6);
    assert_eq!(frame["frame"]["frameId"], 5);
    assert_eq!(frame["fellBack"], true);
    assert_eq!(frame["fallbackReason"], "requested_after_latest");
    assert_eq!(state.wakes, wakes);
    assert_eq!(state.api_history.len(), 1);
    assert!(!state.cancel_calibration);
}

#[test]
fn requests_that_are_no_objects_or_no_json_are_refused() {
    let broken = refused("{");
    assert_eq!(broken.code, "invalid_json");
    assert_eq!(broken.request_id, None);

    let missing = refused(r#"{"requestId":true}"#);
    assert_eq!(missing.request_id, Some(JsonItem::Bool(true)));
    assert_eq!(missing.code, "invalid_request");

    let wrong = refused(r#"{"type":"getFrame","requestId":null}"#);
    assert_eq!(wrong.code, "invalid_request");
}

#[test]
fn request_ids_of_every_kind_are_kept() {
    assert_eq!(accepted(r#"{"type":"exit"}"#).request_id, None);
    assert_eq!(
        accepted(r#"{"type":"exit","requestId":7}"#).request_id,
        Some(JsonItem::Unsigned { value: 7, bits: 7f64.to_bits() })
    );
    assert_eq!(
        accepted(r#"{"type":"exit","requestId":-7}"#).request_id,
        Some(JsonItem::Negative { value: -7, bits: (-7f64).to_bits() })
    );
    assert_eq!(
        accepted(r#"{"type":"exit","requestId":{"a":1}}"#).request_id,
        Some(JsonItem::Object(r#"{"a":1}"#.to_string()))
    );
}

#[test]
fn missing_fields_are_named() {
    for (text, message) in [
        (r#"{"type":"setTimer"}"#, "missing required field 'time'"),
        (r#"{"type":"adjustTimer"}"#, "missing required field 'frames'"),
        (r#"{"type":"getFrame"}"#, "missing required field 'frameId'"),
        (r#"{"type":"saveOverlayPlacement","x":1}"#, "missing required field 'y'"),
        (r#"{"type":"renameProfile","old":"a"}"#, "missing required field 'newBase'"),
    ] {
        let error = refused(text);
        assert_eq!(error.code, "invalid_request");
        assert_eq!(error.message, message);
    }
    assert_eq!(
        accepted(r#"{"type":"setTimer","frames":1,"time":"2"}"#).action,
        ClientAction::SendCommand(UiCommand::SetTimer { frames: 1 })
    );
}

#[test]
fn fields_of_the_wrong_type_are_described() {
    for (text, message) in [
        (
            r#"{"type":"getFrame","frameId":"x"}"#,
            "invalid websocket request: invalid type: string \"x\", expected u64",
        ),
        (
            r#"{"type":"getFrame","frameId":-1}"#,
            "invalid websocket request: invalid value: integer `-1`, expected u64",
        ),
        (
            r#"{"type":"adjustTimer","frames":4294967296}"#,
            "invalid websocket request: invalid value: integer `4294967296`, expected i32",
        ),
        (r#"{"frames":1}"#, "invalid websocket request: missing field `type`"),
    ] {
        assert_eq!(refused(text).message, message);
    }
}

fn overlay_scale(number: &str) -> ClientAction {
    accepted(&format!(r#"{{"type":"setOverlayScale","scale":{number}}}"#)).action
}

#[test]
fn overlay_scale_is_in_single_precision() {
    for number in [
        "0.1", "1.1", "-1.3", "0.0", "-0.0", "1e-45", "7e-46", "7.1e-46", "2.1e-45", "1e-50", "1e-40",
        "1.17549435e-38", "3.4028235e38", "3.40282356e38", "16777217.0", "16777219.0", "0.3333333333",
        "1.00000005960464477539", "1.00000017881393432617", "5e-324", "2.2250738585072014e-308",
    ] {
        let single = number.parse::<f64>().expect("a number") as f32;
        let bits = f64::from(single).to_bits();
        assert_eq!(
            overlay_scale(number),
            ClientAction::SendCommand(UiCommand::SetOverlayScale(Real64 { bits })),
            "{number}"
        );
    }
    for n in [0u64, 1, 16_777_216, 16_777_217, 16_777_219, 9_007_199_791_611_905, u64::MAX] {
        let bits = f64::from(n as f32).to_bits();
        assert_eq!(
            overlay_scale(&n.to_string()),
            ClientAction::SendCommand(UiCommand::SetOverlayScale(Real64 { bits })),
            "{n}"
        );
    }
    for n in [-1i64, -16_777_217, -9_007_199_791_611_905, i64::MIN] {
        let bits = f64::from(n as f32).to_bits();
        assert_eq!(
            overlay_scale(&n.to_string()),
            ClientAction::SendCommand(UiCommand::SetOverlayScale(Real64 { bits })),
            "{n}"
        );
    }
}

#[test]
fn single_precision_rounds_like_the_machine() {
    let mut seed: u64 = 0x9e37_79b9_7f4a_7c15;
    for _ in 0..200_000 {
        seed ^= seed << 13;
        seed ^= seed >> 7;
        seed ^= seed << 17;
        // Both anywhere, and where single precision ends.
        for bits in [seed, (seed & 0x800f_ffff_ffff_ffff) | ((860 + seed % 300) << 52)] {
            let x = f64::from_bits(bits);
            if x.is_finite() {
                let expected = f64::from(x as f32).to_bits();
                assert_eq!((Real64 { bits }).to_single().bits, expected, "{bits:x}");
            }
        }
    }
}

#[test]
fn answers_are_written_in_the_order_of_their_names() {
    let mut state = SharedAppState::default();
    let text = |step: ClientStep| match step {
        ClientStep::Reply(text) => text,
        other => panic!("{other:?}"),
    };
    assert_eq!(
        text(handle_client_text(&mut state, r#"{"type":"cancelCalibration","requestId":{"b":1,"a":2}}"#)),
        r#"{"action":"cancelCalibration","requestId":{"a":2,"b":1},"type":"ack"}"#
    );
    assert_eq!(
        text(handle_client_text(&mut state, r#"{"type":"getFrame","frameId":9}"#)),
        [
            r#"{"code":"frame_not_retained","#,
            r#""message":"no analyzed frame retained at or before frameId 9","type":"error"}"#,
        ]
        .concat()
    );
    state.record_api_frame(frame_record(5, 0));
    for request in [
        r#"{"type":"getFrame","frameId":5,"requestId":1}"#,
        r#"{"type":"getSnapshot"}"#,
    ] {
        let answer = text(handle_client_text(&mut state, request));
        assert_eq!(answer, json(&answer).to_string());
    }
    // The snapshot itself keeps the order in which its fields are declared.
    assert!(snapshot_json(&state).starts_with(r#"{"apiVersion":2,"appVersion":"#));
}

#[test]
fn overlay_scale_must_be_finite() {
    let error = refused(r#"{"type":"setOverlayScale","scale":1e300}"#);
    assert_eq!(error.code, "invalid_request");
    assert_eq!(error.message, "field 'scale' must be finite");
}

#[test]
fn payloads_are_written_in_full() {
    let mut state = SharedAppState::default();
    state.record_api_frame(frame_record(3, 1));
    let payload = ApiPayload::from_snapshot(&state.snapshot(), state.api_history_bounds());
    let value = json(&payload.to_json(MemberOrder::AsGiven));
    assert_eq!(value["apiVersion"], 2);
    assert_eq!(value["historyOldestFrameId"], 3);
    assert_eq!(value["timingDebug"], Value::Null);
    assert_eq!(value["profiles"], json("[]"));

    let frame = ApiFramePayload::from_record(&frame_record(3, 1));
    let value = json(&frame.to_json(MemberOrder::ByName));
    assert_eq!(value["frameId"], 3);
    assert_eq!(value["droppedSincePrevious"], 1);
    assert_eq!(value["captureTimestampNs"], 3_000);
    assert_eq!(value["battleState"], "battle");
}

#[test]
fn connections_are_told_apart_by_their_upgrade_header() {
    let upgrade = b"GET / HTTP/1.1\r\nHost: x\r\nUPGRADE: WebSocket\r\n\r\n".to_vec();
    assert_eq!(classify_connection(&upgrade), ConnectionKind::WebSocket);
    let plain = b"GET / HTTP/1.1\r\nHost: x\r\n\r\n".to_vec();
    assert_eq!(classify_connection(&plain), ConnectionKind::HttpSnapshot);
    assert_eq!(classify_connection(&Vec::new()), ConnectionKind::HttpSnapshot);
}

#[test]
fn http_head_tells_the_length_in_bytes() {
    let head = http_response_head("{\"a\":\"\u{e9}\"}");
    assert!(head.starts_with("HTTP/1.1 200 OK\r\n"));
    assert!(head.contains("Content-Length: 10\r\n"));
    assert!(head.ends_with("\r\n\r\n"));
}

#[test]
fn payloads_sent_lately_are_not_sent_again() {
    let mut recent: VecDeque<String> = VecDeque::new();
    assert!(should_broadcast(&recent, "a"));
    remember_payload(&mut recent, 2, "a".to_string());
    remember_payload(&mut recent, 2, "b".to_string());
    assert!(!should_broadcast(&recent, "b"));
    remember_payload(&mut recent, 2, "c".to_string());
    assert_eq!(recent, ["b", "c"]);
    assert!(should_broadcast(&recent, "a"));
}

#[test]
fn clients_are_answered_kept_or_dropped() {
    let mut state = SharedAppState::default();
    let text = r#"{"type":"getFrame","frameId":1}"#.to_string();
    assert!(matches!(
        client_event(&mut state, ClientEvent::Text(text)),
        ClientOutcome::Reply(_)
    ));
    assert!(matches!(
        client_event(&mut state, ClientEvent::Ping(vec![1, 2])),
        ClientOutcome::Pong(bytes) if bytes == [1, 2]
    ));
    assert!(matches!(client_event(&mut state, ClientEvent::Close), ClientOutcome::Drop));
    assert!(matches!(client_event(&mut state, ClientEvent::Failed), ClientOutcome::Drop));
    assert!(matches!(client_event(&mut state, ClientEvent::WouldBlock), ClientOutcome::Keep));
    assert!(matches!(client_event(&mut state, ClientEvent::Other), ClientOutcome::Continue));
    match client_event(&mut state, ClientEvent::Binary) {
        ClientOutcome::Reply(text) => assert_eq!(json(&text)["type"], "error"),
        _ => panic!("expected a reply"),
    }
}

#[test]
fn api_is_offered_on_the_local_machine() {
    let api = ApiRuntime::new_for_bind_address("127.0.0.1:9000".to_string());
    assert!(api.startup_note().contains("127.0.0.1:9000"));
    assert!(ApiRuntime::new().bind_address.starts_with("127.0.0.1:"));
}
