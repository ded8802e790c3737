//! A target that the user describes by hand.
use crate::config::RulerConfig;
use crate::number::Real64;
use crate::target_discovery::or_default;
use crate::target_discovery::search::opt_config;
use crate::text;
use crate::text::{decimal, number_at_most, opt_view, trimmed};
use vstd::prelude::*;

verus! {

/// Sixty, in double precision.
pub const SIXTY_BITS: u64 = 0x404e_0000_0000_0000;

/// What the user has typed. `replay_fps` is the rate where its field holds a number.
#[derive(Debug)]
pub struct ManualDraft {
    pub kind: i32,
    pub install_path: String,
    pub instance_index: String,
    pub device_id: String,
    pub window_title: String,
    pub replay_path: String,
    pub replay_fps: Option<Real64>,
    pub auto: bool,
    pub record_video: bool,
    pub record_csv: bool,
    pub trace_logging: bool,
    pub telemetry_enabled: bool,
}

/// The place in the list of kinds for a way of capturing: MuMu, LDPlayer, ADB, a window, a video.
pub open spec fn kind_of(capture_type: Option<Seq<char>>) -> i32 {
    if capture_type == Some("ldplayer"@) {
        1
    } else if capture_type == Some("adb"@) || capture_type == Some("minicap"@) {
        2
    } else if capture_type == Some("window"@) {
        3
    } else if capture_type == Some("replay"@) {
        4
    } else {
        0
    }
}

pub open spec fn captured_by(previous: Option<&RulerConfig>) -> Option<Seq<char>> {
    match previous {
        Some(config) => Some(config.capture_type@),
        None => None,
    }
}

/// The kind to offer first: that of the configuration so far.
pub fn manual_kind_for(previous: Option<&RulerConfig>) -> (kind: i32)
    ensures
        kind == kind_of(captured_by(previous)),
{
    match previous {
        Some(config) => {
            if text::same(&config.capture_type, "ldplayer") {
                1
            } else if text::same(&config.capture_type, "adb") || text::same(
                &config.capture_type,
                "minicap",
            ) {
                2
            } else if text::same(&config.capture_type, "window") {
                3
            } else if text::same(&config.capture_type, "replay") {
                4
            } else {
                0
            }
        },
        None => 0,
    }
}

/// The way of capturing of a kind.
pub open spec fn type_of_kind(kind: i32) -> Option<Seq<char>> {
    if kind == 0 {
        Some("mumu"@)
    } else if kind == 1 {
        Some("ldplayer"@)
    } else if kind == 2 {
        Some("adb"@)
    } else if kind == 3 {
        Some("window"@)
    } else if kind == 4 {
        Some("replay"@)
    } else {
        None
    }
}

/// What is typed, without white space around it, where anything is left.
pub open spec fn typed(field: Seq<char>) -> Option<Seq<char>> {
    if trimmed(field).len() == 0 {
        None
    } else {
        Some(trimmed(field))
    }
}

/// The draft names a kind, and has what that kind needs.
pub open spec fn is_complete(draft: ManualDraft) -> bool {
    if draft.kind == 0 || draft.kind == 1 {
        typed(draft.install_path@) is Some
    } else if draft.kind == 2 {
        typed(draft.device_id@) is Some
    } else if draft.kind == 3 {
        typed(draft.window_title@) is Some
    } else if draft.kind == 4 {
        typed(draft.replay_path@) is Some
    } else {
        false
    }
}

pub open spec fn typed_index(draft: ManualDraft) -> Option<int> {
    number_at_most(trimmed(draft.instance_index@), u32::MAX as int)
}

/// The name under which the target is remembered.
pub open spec fn manual_fingerprint(draft: ManualDraft) -> Seq<char> {
    if draft.kind == 0 || draft.kind == 1 {
        "manual:"@ + type_of_kind(draft.kind)->0 + seq![':'] + trimmed(draft.install_path@) + seq![
            ':',
        ] + decimal(
            (match typed_index(draft) {
                Some(index) => index,
                None => 0,
            }) as nat,
        )
    } else if draft.kind == 2 {
        "manual:adb:"@ + trimmed(draft.device_id@)
    } else if draft.kind == 3 {
        "manual:window:"@ + trimmed(draft.window_title@)
    } else {
        "manual:replay:"@ + trimmed(draft.replay_path@)
    }
}

pub open spec fn opt_index(index: Option<u32>) -> Option<int> {
    match index {
        Some(n) => Some(n as int),
        None => None,
    }
}

/// `config` captures what the draft describes, and keeps from the configuration so far what does
/// not depend on the target.
pub open spec fn is_manual_config(
    config: RulerConfig,
    draft: ManualDraft,
    previous: Option<RulerConfig>,
    locale: Seq<char>,
) -> bool {
    let emulator = draft.kind == 0 || draft.kind == 1;
    &&& config.telemetry_enabled == Some(draft.telemetry_enabled)
    &&& config.screenshot_delay_ms is None
    &&& Some(config.capture_type@) == type_of_kind(draft.kind)
    &&& opt_view(config.install_path) == (if emulator {
        typed(draft.install_path@)
    } else {
        None
    })
    &&& opt_index(config.instance_index) == (if emulator {
        typed_index(draft)
    } else {
        None
    })
    &&& opt_view(config.device_id) == (if 0 <= draft.kind <= 2 {
        typed(draft.device_id@)
    } else {
        None
    })
    &&& config.window_handle is None
    &&& opt_view(config.window_title) == (if draft.kind == 3 {
        typed(draft.window_title@)
    } else {
        None
    })
    &&& config.window_class is None
    &&& config.auto_select_target == draft.auto
    &&& opt_view(config.target_fingerprint) == Some(manual_fingerprint(draft))
    &&& config.debug_recording_enabled == (draft.record_video || draft.record_csv)
    &&& config.debug_recording_video == draft.record_video
    &&& config.debug_recording_csv == draft.record_csv
    &&& config.trace_logging_enabled == draft.trace_logging
    &&& opt_view(config.replay_video_path) == (if draft.kind == 4 {
        typed(draft.replay_path@)
    } else {
        None
    })
    &&& config.replay_fps == (if draft.kind == 4 {
        match draft.replay_fps {
            Some(fps) => Some(fps),
            None => Some(Real64 { bits: SIXTY_BITS }),
        }
    } else {
        None
    })
    &&& match previous {
        Some(p) => {
            &&& config.uuid == p.uuid
            &&& config.active_calibration_profile == p.active_calibration_profile
            &&& opt_view(config.frame_display_mode) == or_default(
                opt_view(p.frame_display_mode),
                "0_to_n-1"@,
            )
            &&& opt_view(config.language) == or_default(opt_view(p.language), locale)
            &&& config.overlay_pos_x == p.overlay_pos_x
            &&& config.overlay_pos_y == p.overlay_pos_y
            &&& config.overlay_scale == p.overlay_scale
            &&& config.ui_scaler == p.ui_scaler
            &&& config.log_output_dir == p.log_output_dir
        },
        None => {
            &&& config.uuid is None
            &&& config.active_calibration_profile is None
            &&& opt_view(config.frame_display_mode) == Some("0_to_n-1"@)
            &&& opt_view(config.language) == Some(locale)
            &&& config.overlay_pos_x is None
            &&& config.overlay_pos_y is None
            &&& config.overlay_scale is None
            &&& config.ui_scaler is None
            &&& config.log_output_dir is None
        },
    }
}

fn read_field(field: &str) -> (r: Option<String>)
    ensures
        opt_view(r) == typed(field@),
{
    let s = text::trim(field);
    if s.as_str().is_empty() {
        None
    } else {
        Some(s)
    }
}

fn read_index(field: &str) -> (r: Option<u32>)
    ensures
        opt_index(r) == number_at_most(trimmed(field@), u32::MAX as int),
{
    match text::parse_number(&text::trim(field), 0xffff_ffff) {
        Some(n) => Some(n as u32),
        None => None,
    }
}

fn or_locale(value: &Option<String>, default: &str) -> (r: Option<String>)
    ensures
        opt_view(r) == or_default(opt_view(*value), default@),
{
    match value {
        Some(s) => Some(s.clone()),
        None => Some(default.to_owned()),
    }
}

fn describe(draft: &ManualDraft, capture_type: &str) -> (fingerprint: String)
    requires
        is_complete(*draft),
        Some(capture_type@) == type_of_kind(draft.kind),
    ensures
        fingerprint@ == manual_fingerprint(*draft),
{
    if draft.kind == 0 || draft.kind == 1 {
        let mut fingerprint = "manual:".to_owned();
        fingerprint.append(capture_type);
        fingerprint.push(':');
        fingerprint.append(&text::trim(&draft.install_path));
        fingerprint.push(':');
        let index: u32 = match read_index(&draft.instance_index) {
            Some(index) => index,
            None => 0,
        };
        text::push_decimal(&mut fingerprint, index as u64);
        assert(fingerprint@ =~= manual_fingerprint(*draft));
        fingerprint
    } else if draft.kind == 2 {
        let mut fingerprint = "manual:adb:".to_owned();
        fingerprint.append(&text::trim(&draft.device_id));
        fingerprint
    } else if draft.kind == 3 {
        let mut fingerprint = "manual:window:".to_owned();
        fingerprint.append(&text::trim(&draft.window_title));
        fingerprint
    } else {
        let mut fingerprint = "manual:replay:".to_owned();
        fingerprint.append(&text::trim(&draft.replay_path));
        fingerprint
    }
}

/// The configuration that captures what the draft describes, or `invalid_msg` where the draft is
/// not complete.
pub fn build_manual_config(
    draft: &ManualDraft,
    previous: Option<&RulerConfig>,
    locale: &str,
    invalid_msg: &str,
) -> (r: Result<RulerConfig, String>)
    ensures
        match r {
            Ok(config) => is_complete(*draft) && is_manual_config(
                config,
                *draft,
                opt_config(previous),
                locale@,
            ),
            Err(message) => !is_complete(*draft) && message@ == invalid_msg@,
        },
{
    let install_path = read_field(&draft.install_path);
    let device_id = read_field(&draft.device_id);
    let window_title = read_field(&draft.window_title);
    let replay_path = read_field(&draft.replay_path);
    let capture_type = if draft.kind == 0 {
        "mumu"
    } else if draft.kind == 1 {
        "ldplayer"
    } else if draft.kind == 2 {
        "adb"
    } else if draft.kind == 3 {
        "window"
    } else if draft.kind == 4 {
        "replay"
    } else {
        return Err(invalid_msg.to_owned());
    };
    let emulator = draft.kind == 0 || draft.kind == 1;
    if (emulator && install_path.is_none()) || (draft.kind == 2 && device_id.is_none()) || (
    draft.kind == 3 && window_title.is_none()) || (draft.kind == 4 && replay_path.is_none()) {
        return Err(invalid_msg.to_owned());
    }
    let fingerprint = describe(draft, capture_type);
    let instance_index = read_index(&draft.instance_index);
    let replay_fps = if draft.kind == 4 {
        match draft.replay_fps {
            Some(fps) => Some(fps),
            None => Some(Real64 { bits: SIXTY_BITS }),
        }
    } else {
        None
    };
    Ok(
        RulerConfig {
            uuid: match previous {
                Some(p) => text::copy_opt(&p.uuid),
                None => None,
            },
            telemetry_enabled: Some(draft.telemetry_enabled),
            screenshot_delay_ms: None,
            capture_type: capture_type.to_owned(),
            install_path: if emulator {
                install_path
            } else {
                None
            },
            instance_index: if emulator {
                instance_index
            } else {
                None
            },
            device_id: if draft.kind <= 2 {
                device_id
            } else {
                None
            },
            window_handle: None,
            window_title: if draft.kind == 3 {
                window_title
            } else {
                None
            },
            window_class: None,
            active_calibration_profile: match previous {
                Some(p) => text::copy_opt(&p.active_calibration_profile),
                None => None,
            },
            frame_display_mode: match previous {
                Some(p) => or_locale(&p.frame_display_mode, "0_to_n-1"),
                None => Some("0_to_n-1".to_owned()),
            },
            language: match previous {
                Some(p) => or_locale(&p.language, locale),
                None => Some(locale.to_owned()),
            },
            auto_select_target: draft.auto,
            target_fingerprint: Some(fingerprint),
            overlay_pos_x: match previous {
                Some(p) => p.overlay_pos_x,
                None => None,
            },
            overlay_pos_y: match previous {
                Some(p) => p.overlay_pos_y,
                None => None,
            },
            overlay_scale: match previous {
                Some(p) => p.overlay_scale,
                None => None,
            },
            ui_scaler: match previous {
                Some(p) => p.ui_scaler,
                None => None,
            },
            debug_recording_enabled: draft.record_video || draft.record_csv,
            debug_recording_video: draft.record_video,
            debug_recording_csv: draft.record_csv,
            trace_logging_enabled: draft.trace_logging,
            log_output_dir: match previous {
                Some(p) => text::copy_opt(&p.log_output_dir),
                None => None,
            },
            replay_video_path: if draft.kind == 4 {
                replay_path
            } else {
                None
            },
            replay_fps,
        },
    )
}

/// The wizard opens at the kind that a configuration was made with.
pub proof fn law_manual_kind_is_remembered(
    config: RulerConfig,
    draft: ManualDraft,
    previous: Option<RulerConfig>,
    locale: Seq<char>,
)
    requires
        is_complete(draft),
        is_manual_config(config, draft, previous, locale),
    ensures
        kind_of(Some(config.capture_type@)) == draft.kind,
{
    reveal_strlit("mumu");
    reveal_strlit("ldplayer");
    reveal_strlit("adb");
    reveal_strlit("minicap");
    reveal_strlit("window");
    reveal_strlit("replay");
    assert("mumu"@.len() == 4 && "ldplayer"@.len() == 8 && "adb"@.len() == 3 && "minicap"@.len()
        == 7 && "window"@.len() == 6 && "replay"@.len() == 6);
    assert("window"@[0] != "replay"@[0]);
}

/// A description captures what was typed for its kind and nothing of another: an emulator by its
/// path and index, a device by its name, a window by its title, a video by its file.
pub proof fn law_described_target_is_captured(
    config: RulerConfig,
    draft: ManualDraft,
    previous: Option<RulerConfig>,
    locale: Seq<char>,
)
    requires
        is_complete(draft),
        is_manual_config(config, draft, previous, locale),
    ensures
        0 <= draft.kind <= 4,
        draft.kind == 0 ==> config.capture_type@ == "mumu"@,
        draft.kind == 1 ==> config.capture_type@ == "ldplayer"@,
        draft.kind == 2 ==> config.capture_type@ == "adb"@,
        draft.kind == 3 ==> config.capture_type@ == "window"@,
        draft.kind == 4 ==> config.capture_type@ == "replay"@,
        config.install_path is Some <==> draft.kind <= 1,
        config.install_path is Some ==> config.install_path->0@ == trimmed(draft.install_path@),
        config.instance_index is Some ==> draft.kind <= 1,
        draft.kind == 2 ==> config.device_id is Some && config.device_id->0@ == trimmed(
            draft.device_id@,
        ),
        config.window_title is Some <==> draft.kind == 3,
        config.window_title is Some ==> config.window_title->0@ == trimmed(draft.window_title@),
        config.replay_video_path is Some <==> draft.kind == 4,
        config.replay_video_path is Some ==> config.replay_video_path->0@ == trimmed(
            draft.replay_path@,
        ),
        config.replay_fps is Some <==> draft.kind == 4,
        config.window_handle is None,
        config.window_class is None,
        config.debug_recording_video == draft.record_video,
        config.debug_recording_csv == draft.record_csv,
{
    assert(opt_view(config.install_path) is Some <==> config.install_path is Some);
    assert(opt_view(config.window_title) is Some <==> config.window_title is Some);
    assert(opt_view(config.replay_video_path) is Some <==> config.replay_video_path is Some);
    assert(opt_view(config.device_id) is Some <==> config.device_id is Some);
    assert(opt_index(config.instance_index) is Some <==> config.instance_index is Some);
}

/// Describing another target keeps what does not depend on it: the profile in use, how frames are
/// numbered, where the overlay is and how large, the name to report under, and where logs go.
pub proof fn law_description_keeps_the_settings(
    config: RulerConfig,
    draft: ManualDraft,
    previous: RulerConfig,
    locale: Seq<char>,
)
    requires
        is_manual_config(config, draft, Some(previous), locale),
    ensures
        config.uuid == previous.uuid,
        config.active_calibration_profile == previous.active_calibration_profile,
        previous.frame_display_mode is Some ==> config.frame_display_mode is Some
            && config.frame_display_mode->0@ == previous.frame_display_mode->0@,
        config.overlay_pos_x == previous.overlay_pos_x,
        config.overlay_pos_y == previous.overlay_pos_y,
        config.overlay_scale == previous.overlay_scale,
        config.ui_scaler == previous.ui_scaler,
        config.log_output_dir == previous.log_output_dir,
{
    assert(opt_view(config.frame_display_mode) == or_default(
        opt_view(previous.frame_display_mode),
        "0_to_n-1"@,
    ));
}

/// A description is complete where the one thing that its kind needs is there, be it between white
/// space.
pub proof fn law_one_field_completes_a_description(draft: ManualDraft)
    ensures
        (draft.kind == 0 || draft.kind == 1) ==> is_complete(draft) == (trimmed(
            draft.install_path@,
        ).len() > 0),
        draft.kind == 2 ==> is_complete(draft) == (trimmed(draft.device_id@).len() > 0),
        draft.kind == 3 ==> is_complete(draft) == (trimmed(draft.window_title@).len() > 0),
        draft.kind == 4 ==> is_complete(draft) == (trimmed(draft.replay_path@).len() > 0),
        !(0 <= draft.kind <= 4) ==> !is_complete(draft),
{
}

} // verus!
