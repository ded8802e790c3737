//! What the user does in the wizard, and what it starts with.
use crate::config::RulerConfig;
use crate::config_wizard::manual;
use crate::config_wizard::manual::{
    captured_by, is_complete, is_manual_config, kind_of, ManualDraft,
};
use crate::config_wizard::sync::tr;
use crate::config_wizard::WizardCore;
use crate::i18n::I18n;
use crate::number::Real64;
use crate::target_discovery::or_default;
use crate::target_discovery::TargetCandidate;
use crate::text;
use crate::text::{decimal, opt_view, trimmed};
use crate::ui_state::UiSnapshot;
use vstd::prelude::*;

verus! {

/// The captions of the wizard: for each the name of its property and the key of its text.
pub open spec fn caption_keys() -> Seq<(Seq<char>, Seq<char>)> {
    seq![
        ("title-text"@, "config.window.title"@),
        ("header-text"@, "config.selector.header"@),
        ("status-text"@, "config.selector.scanning"@),
        ("cap-preview"@, "config.selector.preview"@),
        ("cap-empty"@, "config.selector.scanning"@),
        ("cap-auto"@, "config.selector.auto_next"@),
        ("cap-refresh"@, "config.selector.refresh"@),
        ("cap-start"@, "config.btn.save_start"@),
        ("cap-cancel"@, "config.btn.cancel"@),
        ("preview-placeholder"@, "config.window.preview.unavailable"@),
        ("cap-telemetry"@, "config.selector.telemetry"@),
        ("cap-telemetry-hint"@, "config.selector.telemetry_hint"@),
        ("adb-unavailable-message"@, "config.selector.adb_unavailable"@),
        ("adb-unavailable-hint"@, "config.selector.adb_unavailable_hint"@),
        ("cap-debug-header"@, "config.selector.debug_header"@),
        ("cap-debug-show"@, "config.selector.debug_show"@),
        ("cap-debug-hide"@, "config.selector.debug_hide"@),
        ("cap-debug-video"@, "config.selector.debug_video"@),
        ("cap-debug-csv"@, "config.selector.debug_csv"@),
        ("cap-debug-trace"@, "config.selector.debug_trace"@),
        ("cap-replay-path"@, "config.selector.replay_path"@),
        ("cap-replay-fps-label"@, "config.selector.replay_fps"@),
        ("cap-manual-row"@, "config.selector.manual_row"@),
        ("cap-manual-header"@, "config.selector.manual_header"@),
        ("cap-manual-type"@, "config.selector.manual_type"@),
        ("cap-manual-type-mumu"@, "config.selector.manual_type_mumu"@),
        ("cap-manual-type-ldplayer"@, "config.selector.manual_type_ldplayer"@),
        ("cap-manual-type-adb"@, "config.selector.manual_type_adb"@),
        ("cap-manual-type-pc"@, "config.selector.manual_type_pc"@),
        ("cap-manual-type-virtual"@, "config.selector.manual_type_virtual"@),
        ("cap-manual-install"@, "config.selector.manual_install"@),
        ("cap-manual-instance"@, "config.selector.manual_instance"@),
        ("cap-manual-serial"@, "config.selector.manual_serial"@),
        ("cap-manual-window"@, "config.selector.manual_window"@),
        ("cap-manual-browse"@, "config.selector.manual_browse"@),
    ]
}

pub open spec fn key_views(keys: Seq<(&'static str, &'static str)>) -> Seq<(Seq<char>, Seq<char>)> {
    keys.map_values(|pair: (&'static str, &'static str)| (pair.0@, pair.1@))
}

pub open spec fn caption_views(captions: Seq<(&'static str, String)>) -> Seq<
    (Seq<char>, Seq<char>),
> {
    captions.map_values(|pair: (&'static str, String)| (pair.0@, pair.1@))
}

fn list_caption_keys() -> (keys: Vec<(&'static str, &'static str)>)
    ensures
        key_views(keys@) == caption_keys(),
{
    let keys: Vec<(&'static str, &'static str)> = vec![
        ("title-text", "config.window.title"),
        ("header-text", "config.selector.header"),
        ("status-text", "config.selector.scanning"),
        ("cap-preview", "config.selector.preview"),
        ("cap-empty", "config.selector.scanning"),
        ("cap-auto", "config.selector.auto_next"),
        ("cap-refresh", "config.selector.refresh"),
        ("cap-start", "config.btn.save_start"),
        ("cap-cancel", "config.btn.cancel"),
        ("preview-placeholder", "config.window.preview.unavailable"),
        ("cap-telemetry", "config.selector.telemetry"),
        ("cap-telemetry-hint", "config.selector.telemetry_hint"),
        ("adb-unavailable-message", "config.selector.adb_unavailable"),
        ("adb-unavailable-hint", "config.selector.adb_unavailable_hint"),
        ("cap-debug-header", "config.selector.debug_header"),
        ("cap-debug-show", "config.selector.debug_show"),
        ("cap-debug-hide", "config.selector.debug_hide"),
        ("cap-debug-video", "config.selector.debug_video"),
        ("cap-debug-csv", "config.selector.debug_csv"),
        ("cap-debug-trace", "config.selector.debug_trace"),
        ("cap-replay-path", "config.selector.replay_path"),
        ("cap-replay-fps-label", "config.selector.replay_fps"),
        ("cap-manual-row", "config.selector.manual_row"),
        ("cap-manual-header", "config.selector.manual_header"),
        ("cap-manual-type", "config.selector.manual_type"),
        ("cap-manual-type-mumu", "config.selector.manual_type_mumu"),
        ("cap-manual-type-ldplayer", "config.selector.manual_type_ldplayer"),
        ("cap-manual-type-adb", "config.selector.manual_type_adb"),
        ("cap-manual-type-pc", "config.selector.manual_type_pc"),
        ("cap-manual-type-virtual", "config.selector.manual_type_virtual"),
        ("cap-manual-install", "config.selector.manual_install"),
        ("cap-manual-instance", "config.selector.manual_instance"),
        ("cap-manual-serial", "config.selector.manual_serial"),
        ("cap-manual-window", "config.selector.manual_window"),
        ("cap-manual-browse", "config.selector.manual_browse"),
    ];
    assert(key_views(keys@) =~= caption_keys());
    keys
}

/// The captions of the wizard: for each the name of its property and its text.
pub fn populate_captions(i18n: &I18n) -> (captions: Vec<(&'static str, String)>)
    ensures
        caption_views(captions@) == caption_keys().map_values(
            |pair: (Seq<char>, Seq<char>)| (pair.0, tr(*i18n, pair.1)),
        ),
{
    let keys = list_caption_keys();
    let ghost want = caption_keys().map_values(
        |pair: (Seq<char>, Seq<char>)| (pair.0, tr(*i18n, pair.1)),
    );
    let mut captions: Vec<(&'static str, String)> = Vec::new();
    let mut i: usize = 0;
    assert(caption_views(captions@) =~= want.take(0));
    while i < keys.len()
        invariant
            i <= keys@.len(),
            key_views(keys@) == caption_keys(),
            want == caption_keys().map_values(
                |pair: (Seq<char>, Seq<char>)| (pair.0, tr(*i18n, pair.1)),
            ),
            caption_views(captions@) == want.take(i as int),
        decreases keys@.len() - i,
    {
        let ghost before = caption_views(captions@);
        let (property, key) = keys[i];
        let text = i18n.tr(key);
        proof {
            assert(key_views(keys@)[i as int] == (property@, key@));
            assert(want[i as int] == (property@, text@));
            assert(want.take(i as int + 1) =~= want.take(i as int).push(want[i as int]));
            assert(caption_views(captions@.push((property, text))) =~= before.push(
                (property@, text@),
            ));
        }
        captions.push((property, text));
        i += 1;
    }
    assert(key_views(keys@).len() == keys@.len());
    assert(want.take(i as int) =~= want);
    captions
}

/// What the wizard shows and holds when it opens.
#[derive(Debug)]
pub struct WizardFields {
    /// The status line tells of an error.
    pub status_error: bool,
    pub has_preview: bool,
    /// Targets are being looked for.
    pub scanning: bool,
    /// The target is to be chosen without asking next time.
    pub auto_checked: bool,
    pub telemetry_checked: bool,
    pub debug_expanded: bool,
    pub record_video: bool,
    pub record_csv: bool,
    pub trace_logging: bool,
    pub manual_kind: i32,
    /// The list of kinds to describe a target by is open.
    pub manual_kind_open: bool,
    pub install_path: String,
    pub instance_index: String,
    pub device_id: String,
    pub window_title: String,
    pub replay_path: String,
    pub replay_fps: Option<Real64>,
}

pub open spec fn or_blank(value: Option<Seq<char>>) -> Seq<char> {
    match value {
        Some(s) => s,
        None => Seq::empty(),
    }
}

fn text_or_blank(value: &Option<String>) -> (s: String)
    ensures
        s@ == or_blank(opt_view(*value)),
{
    match value {
        Some(s) => s.clone(),
        None => {
            let s = String::new();
            assert(s@ =~= Seq::<char>::empty());
            s
        },
    }
}

/// The fields are those of a wizard that opens: it looks for targets, has nothing to show yet, and
/// is filled with what the configuration so far says.
pub open spec fn are_initial_fields(
    fields: WizardFields,
    previous: Option<&RulerConfig>,
    debug: bool,
) -> bool {
    &&& !fields.status_error
    &&& !fields.has_preview
    &&& fields.scanning
    &&& !fields.auto_checked
    &&& !fields.manual_kind_open
    &&& fields.debug_expanded == debug
    &&& fields.manual_kind == kind_of(captured_by(previous))
    &&& match previous {
        Some(config) => {
            &&& fields.telemetry_checked == (config.telemetry_enabled != Some(false))
            &&& fields.record_video == config.debug_recording_video
            &&& fields.record_csv == config.debug_recording_csv
            &&& fields.trace_logging == config.trace_logging_enabled
            &&& fields.install_path@ == or_blank(opt_view(config.install_path))
            &&& fields.instance_index@ == (match config.instance_index {
                Some(index) => decimal(index as nat),
                None => Seq::empty(),
            })
            &&& fields.device_id@ == or_blank(opt_view(config.device_id))
            &&& fields.window_title@ == or_blank(opt_view(config.window_title))
            &&& fields.replay_path@ == or_blank(opt_view(config.replay_video_path))
            &&& fields.replay_fps == config.replay_fps
        },
        None => {
            &&& fields.telemetry_checked
            &&& !fields.record_video
            &&& !fields.record_csv
            &&& !fields.trace_logging
            &&& fields.install_path@.len() == 0
            &&& fields.instance_index@.len() == 0
            &&& fields.device_id@.len() == 0
            &&& fields.window_title@.len() == 0
            &&& fields.replay_path@.len() == 0
            &&& fields.replay_fps is None
        },
    }
}

/// The wizard as it opens: looking for targets, with nothing to show yet, and filled with what the
/// configuration so far says. That a target is to be chosen without asking is always said anew.
pub fn initial_fields(previous: Option<&RulerConfig>, debug: bool) -> (fields: WizardFields)
    ensures
        are_initial_fields(fields, previous, debug),
{
    let manual_kind: i32 = manual::manual_kind_for(previous);
    match previous {
        Some(config) => WizardFields {
            status_error: false,
            has_preview: false,
            scanning: true,
            auto_checked: false,
            telemetry_checked: match config.telemetry_enabled {
                Some(enabled) => enabled,
                None => true,
            },
            debug_expanded: debug,
            record_video: config.debug_recording_video,
            record_csv: config.debug_recording_csv,
            trace_logging: config.trace_logging_enabled,
            manual_kind,
            manual_kind_open: false,
            install_path: text_or_blank(&config.install_path),
            instance_index: match config.instance_index {
                Some(index) => text::decimal_of(index as u64),
                None => {
                    let s = String::new();
                    assert(s@ =~= Seq::<char>::empty());
                    s
                },
            },
            device_id: text_or_blank(&config.device_id),
            window_title: text_or_blank(&config.window_title),
            replay_path: text_or_blank(&config.replay_video_path),
            replay_fps: config.replay_fps,
        },
        None => WizardFields {
            status_error: false,
            has_preview: false,
            scanning: true,
            auto_checked: false,
            telemetry_checked: true,
            debug_expanded: debug,
            record_video: false,
            record_csv: false,
            trace_logging: false,
            manual_kind,
            manual_kind_open: false,
            install_path: String::new(),
            instance_index: String::new(),
            device_id: String::new(),
            window_title: String::new(),
            replay_path: String::new(),
            replay_fps: None,
        },
    }
}

/// Which files are offered to choose from: what they are called, and their names.
#[derive(Debug)]
pub struct FileFilter {
    pub name: String,
    pub spec: &'static str,
}

/// The files that a recorded video is chosen from.
pub fn video_filter(i18n: &I18n) -> (filter: FileFilter)
    ensures
        filter.name@ == tr(*i18n, "config.selector.manual_filter_video"@),
        filter.spec@ == "*.mkv;*.mp4;*.mov;*.avi;*.webm;*.flv;*.ts;*.m4v"@,
{
    FileFilter {
        name: i18n.tr("config.selector.manual_filter_video"),
        spec: "*.mkv;*.mp4;*.mov;*.avi;*.webm;*.flv;*.ts;*.m4v",
    }
}

/// The page that opens for a newer version, where there is one.
pub fn update_page(ui: &UiSnapshot) -> (page: Option<String>)
    ensures
        opt_view(page) == (match ui.update_notice {
            Some(notice) => Some(notice.html_url@),
            None => None,
        }),
{
    match &ui.update_notice {
        Some(notice) => Some(notice.html_url.clone()),
        None => None,
    }
}

impl WizardCore {
    /// The user picks a line of the list; a negative one picks none.
    pub fn select_target(&mut self, idx: i32)
        ensures
            *final(self) == picking(*old(self), idx),
    {
        self.manual_mode = false;
        self.manual_error = None;
        self.preview_token = None;
        self.selected_index = if idx >= 0 {
            Some(idx as usize)
        } else {
            None
        };
    }

    /// The user wants to describe the target.
    pub fn select_manual(&mut self)
        ensures
            *final(self) == describing(*old(self)),
    {
        self.manual_mode = true;
        self.manual_error = None;
        self.preview_token = None;
        self.selected_index = None;
    }
}

/// The candidate can be captured: a trial screenshot has worked.
pub open spec fn is_ready(candidate: TargetCandidate) -> bool {
    candidate.error is None && candidate.preview is Some
}

/// `config` captures the candidate, with the user's choices.
pub open spec fn is_chosen_config(
    config: RulerConfig,
    candidate: TargetCandidate,
    choices: ManualDraft,
    previous: Option<RulerConfig>,
    locale: Seq<char>,
    delay_ms: Option<Real64>,
) -> bool {
    &&& opt_view(config.language) == (match previous {
        Some(p) => or_default(opt_view(p.language), locale),
        None => Some(locale),
    })
    &&& opt_view(config.target_fingerprint) == Some(candidate.fingerprint@)
    &&& config == (RulerConfig {
        language: config.language,
        auto_select_target: choices.auto,
        target_fingerprint: config.target_fingerprint,
        telemetry_enabled: Some(choices.telemetry_enabled),
        screenshot_delay_ms: delay_ms,
        debug_recording_enabled: choices.record_video || choices.record_csv,
        debug_recording_video: choices.record_video,
        debug_recording_csv: choices.record_csv,
        trace_logging_enabled: choices.trace_logging,
        ..candidate.config
    })
}

/// The configuration that the wizard ends with.
pub open spec fn is_confirmed(
    config: RulerConfig,
    core: WizardCore,
    choices: ManualDraft,
    locale: Seq<char>,
    delay_ms: Option<Real64>,
) -> bool {
    if core.manual_mode {
        is_complete(choices) && is_manual_config(config, choices, core.previous_config, locale)
    } else {
        core.selected() matches Some(candidate) && is_ready(candidate) && is_chosen_config(
            config,
            candidate,
            choices,
            core.previous_config,
            locale,
            delay_ms,
        )
    }
}

/// The wizard can end.
pub open spec fn can_confirm(core: WizardCore, choices: ManualDraft) -> bool {
    if core.manual_mode {
        is_complete(choices)
    } else {
        core.selected() matches Some(candidate) && is_ready(candidate)
    }
}

/// The user wants to start with what is chosen. Without a usable target nothing happens; an
/// incomplete description is pointed out. `delay_ms` is the latency of the selected candidate in
/// milliseconds, where it is known.
pub fn confirm(
    core: &mut WizardCore,
    choices: &ManualDraft,
    locale: &str,
    invalid_msg: &str,
    delay_ms: Option<Real64>,
) -> (config: Option<RulerConfig>)
    ensures
        config is Some <==> can_confirm(*old(core), *choices),
        config matches Some(config) ==> is_confirmed(
            config,
            *old(core),
            *choices,
            locale@,
            delay_ms,
        ),
        points_out(*old(core), *final(core), config is Some, invalid_msg@),
{
    if core.manual_mode {
        let built = match &core.previous_config {
            Some(previous) => manual::build_manual_config(
                choices,
                Some(previous),
                locale,
                invalid_msg,
            ),
            None => manual::build_manual_config(choices, None, locale, invalid_msg),
        };
        return match built {
            Ok(config) => Some(config),
            Err(error) => {
                core.manual_error = Some(error);
                None
            },
        };
    }
    match core.selected_candidate() {
        None => None,
        Some(candidate) => {
            if candidate.error.is_some() || candidate.preview.is_none() {
                return None;
            }
            let mut config = candidate.config.clone();
            config.language = match &core.previous_config {
                Some(previous) => match &previous.language {
                    Some(language) => Some(language.clone()),
                    None => Some(locale.to_owned()),
                },
                None => Some(locale.to_owned()),
            };
            config.auto_select_target = choices.auto;
            config.target_fingerprint = Some(candidate.fingerprint.clone());
            config.telemetry_enabled = Some(choices.telemetry_enabled);
            config.screenshot_delay_ms = delay_ms;
            config.debug_recording_enabled = choices.record_video || choices.record_csv;
            config.debug_recording_video = choices.record_video;
            config.debug_recording_csv = choices.record_csv;
            config.trace_logging_enabled = choices.trace_logging;
            Some(config)
        },
    }
}

/// Reports are sent only where the user has left the box checked, and a target that is remembered
/// is the one that was chosen.
pub proof fn law_choices_are_kept(
    config: RulerConfig,
    core: WizardCore,
    choices: ManualDraft,
    locale: Seq<char>,
    delay_ms: Option<Real64>,
)
    requires
        is_confirmed(config, core, choices, locale, delay_ms),
    ensures
        config.telemetry_enabled == Some(choices.telemetry_enabled),
        config.auto_select_target == choices.auto,
        config.trace_logging_enabled == choices.trace_logging,
        config.debug_recording_enabled <==> config.debug_recording_video
            || config.debug_recording_csv,
        !core.manual_mode ==> opt_view(config.target_fingerprint) == Some(
            core.selected()->0.fingerprint@,
        ),
{
}

/// Where a window of this length starts so that it stands in the middle of the screen, or at its
/// edge where it is too long.
pub fn centered(screen: i32, length: i32) -> (start: i32)
    requires
        0 <= screen,
        0 <= length,
    ensures
        start == (if screen < length {
            0
        } else {
            (screen - length) / 2
        }),
{
    if screen < length {
        0
    } else {
        (screen - length) / 2
    }
}

/// A target that was found is captured as it was found: by the same way of capturing, the same
/// installation and index, the same device or the same window, and found again by its fingerprint.
/// It can be chosen only once a trial screenshot of it has worked.
pub proof fn law_chosen_target_is_captured_as_found(
    config: RulerConfig,
    core: WizardCore,
    choices: ManualDraft,
    locale: Seq<char>,
    delay_ms: Option<Real64>,
)
    requires
        is_confirmed(config, core, choices, locale, delay_ms),
        !core.manual_mode,
    ensures
        core.selected_index is Some,
        core.selected_index->0 < core.candidates@.len(),
        ({
            let candidate = core.candidates@[core.selected_index->0 as int];
            &&& candidate.error is None
            &&& candidate.preview is Some
            &&& config.capture_type == candidate.config.capture_type
            &&& config.install_path == candidate.config.install_path
            &&& config.instance_index == candidate.config.instance_index
            &&& config.device_id == candidate.config.device_id
            &&& config.window_handle == candidate.config.window_handle
            &&& config.window_title == candidate.config.window_title
            &&& config.window_class == candidate.config.window_class
            &&& config.target_fingerprint is Some
            &&& config.target_fingerprint->0@ == candidate.fingerprint@
            &&& config.active_calibration_profile == candidate.config.active_calibration_profile
            &&& config.frame_display_mode == candidate.config.frame_display_mode
            &&& config.overlay_pos_x == candidate.config.overlay_pos_x
            &&& config.overlay_pos_y == candidate.config.overlay_pos_y
            &&& config.overlay_scale == candidate.config.overlay_scale
            &&& config.uuid == candidate.config.uuid
            &&& config.screenshot_delay_ms == delay_ms
            &&& config.debug_recording_video == choices.record_video
            &&& config.debug_recording_csv == choices.record_csv
        }),
{
}

/// The language stays that of the configuration so far; a first configuration has the one that the
/// wizard speaks.
pub proof fn law_language_is_kept(
    config: RulerConfig,
    core: WizardCore,
    choices: ManualDraft,
    locale: Seq<char>,
    delay_ms: Option<Real64>,
)
    requires
        is_confirmed(config, core, choices, locale, delay_ms),
    ensures
        config.language is Some,
        match core.previous_config {
            Some(previous) => match previous.language {
                Some(language) => config.language->0@ == language@,
                None => config.language->0@ == locale,
            },
            None => config.language->0@ == locale,
        },
{
    match core.previous_config {
        Some(previous) => {
            assert(opt_view(config.language) == or_default(opt_view(previous.language), locale));
        },
        None => {},
    }
}

/// A description that was saved is what the wizard opens with the next time: the kind and every
/// field as it was typed, but for white space around it, and the boxes as they were checked. Only
/// that the target is chosen without asking has to be said anew.
pub proof fn law_saved_description_is_shown_again(
    config: RulerConfig,
    draft: ManualDraft,
    previous: Option<RulerConfig>,
    locale: Seq<char>,
    fields: WizardFields,
    debug: bool,
)
    requires
        is_complete(draft),
        is_manual_config(config, draft, previous, locale),
        are_initial_fields(fields, Some(&config), debug),
    ensures
        fields.manual_kind == draft.kind,
        draft.kind == 0 || draft.kind == 1 ==> fields.install_path@ == trimmed(draft.install_path@),
        draft.kind == 2 ==> fields.device_id@ == trimmed(draft.device_id@),
        draft.kind == 3 ==> fields.window_title@ == trimmed(draft.window_title@),
        draft.kind == 4 ==> fields.replay_path@ == trimmed(draft.replay_path@),
        draft.kind == 4 && draft.replay_fps is Some ==> fields.replay_fps == draft.replay_fps,
        fields.telemetry_checked == draft.telemetry_enabled,
        fields.record_video == draft.record_video,
        fields.record_csv == draft.record_csv,
        fields.trace_logging == draft.trace_logging,
        fields.debug_expanded == debug,
        !fields.auto_checked,
        fields.scanning,
        !fields.has_preview,
        !fields.status_error,
{
    manual::law_manual_kind_is_remembered(config, draft, previous, locale);
}

/// An index that was typed as a number is the one that is captured, and is shown again.
pub proof fn law_typed_index_is_captured(
    config: RulerConfig,
    draft: ManualDraft,
    previous: Option<RulerConfig>,
    locale: Seq<char>,
    fields: WizardFields,
    debug: bool,
    index: u32,
)
    requires
        draft.kind == 0 || draft.kind == 1,
        draft.instance_index@ == decimal(index as nat),
        is_complete(draft),
        is_manual_config(config, draft, previous, locale),
        are_initial_fields(fields, Some(&config), debug),
    ensures
        config.instance_index == Some(index),
        fields.instance_index@ == decimal(index as nat),
{
    let digits = decimal(index as nat);
    text::law_written_numbers_read_back(index as nat, u32::MAX as int);
    text::lemma_decimal_digits(index as nat);
    assert forall|i: int| 0 <= i < digits.len() implies !text::is_white_space(digits[i]) by {
        assert(text::is_digit(digits[i]));
    }
    text::lemma_trimmed_is_itself(digits);
    assert(manual::typed_index(draft) == Some(index as int));
    assert(manual::opt_index(config.instance_index) == Some(index as int));
}

/// Nothing is asked of an empty wizard but to look for targets; reports are on until the user says
/// no.
pub proof fn law_first_wizard_is_empty(fields: WizardFields, debug: bool)
    requires
        are_initial_fields(fields, None, debug),
    ensures
        fields.telemetry_checked,
        !fields.record_video,
        !fields.record_csv,
        !fields.trace_logging,
        fields.manual_kind == 0,
        fields.install_path@.len() == 0,
        fields.instance_index@.len() == 0,
        fields.device_id@.len() == 0,
        fields.window_title@.len() == 0,
        fields.replay_path@.len() == 0,
        fields.scanning,
{
}

/// The user's no to reports is remembered.
pub proof fn law_refused_reports_stay_refused(
    config: RulerConfig,
    fields: WizardFields,
    debug: bool,
)
    requires
        are_initial_fields(fields, Some(&config), debug),
    ensures
        config.telemetry_enabled == Some(false) ==> !fields.telemetry_checked,
        config.telemetry_enabled != Some(false) ==> fields.telemetry_checked,
{
}

/// The wizard once a line of the list was picked.
pub open spec fn picking(core: WizardCore, idx: i32) -> WizardCore {
    WizardCore {
        manual_mode: false,
        manual_error: None,
        preview_token: None,
        selected_index: if idx >= 0 {
            Some(idx as usize)
        } else {
            None
        },
        ..core
    }
}

/// The wizard once the user wants to describe the target.
pub open spec fn describing(core: WizardCore) -> WizardCore {
    WizardCore {
        manual_mode: true,
        manual_error: None,
        preview_token: None,
        selected_index: None,
        ..core
    }
}

/// An incomplete description is pointed out, and nothing else changes.
pub open spec fn points_out(
    before: WizardCore,
    after: WizardCore,
    confirmed: bool,
    invalid_msg: Seq<char>,
) -> bool {
    &&& after == (WizardCore { manual_error: after.manual_error, ..before })
    &&& if before.manual_mode && !confirmed {
        opt_view(after.manual_error) == Some(invalid_msg)
    } else {
        after.manual_error == before.manual_error
    }
}

/// Whoever picks a line has picked that line, and no longer describes a target; whoever describes
/// one has no line picked. Either way an earlier complaint is gone, and the targets stay.
pub proof fn law_a_line_or_a_description(core: WizardCore, idx: i32)
    ensures
        0 <= idx < core.candidates@.len() ==> picking(core, idx).selected() == Some(
            core.candidates@[idx as int],
        ),
        idx < 0 ==> picking(core, idx).selected() is None,
        !picking(core, idx).manual_mode,
        describing(core).manual_mode,
        describing(core).selected() is None,
        picking(core, idx).manual_error is None && describing(core).manual_error is None,
        picking(core, idx).candidates == core.candidates && describing(core).candidates
            == core.candidates,
        picking(describing(core), idx) == picking(core, idx),
        describing(picking(core, idx)) == describing(core),
        picking(core, idx).probe_generation == core.probe_generation,
{
}

/// A complaint is made of a description that cannot be used, and of nothing else.
pub proof fn law_only_descriptions_are_complained_of(
    before: WizardCore,
    after: WizardCore,
    confirmed: bool,
    invalid_msg: Seq<char>,
)
    requires
        points_out(before, after, confirmed, invalid_msg),
    ensures
        !before.manual_mode || confirmed ==> after == before,
        before.manual_mode && !confirmed ==> opt_view(after.manual_error) == Some(invalid_msg),
        after.selected_index == before.selected_index,
        after.candidates == before.candidates,
{
}

} // verus!
